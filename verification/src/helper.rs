//! Prices and amounts: the order of a pair of tokens, what an amount is
//! worth at given reserves, what a pool pays out and asks for, and the
//! amounts along a path of pools.

use crate::math::{
    casted_mul, lemma_product_fits, lemma_share_less, u256_checked_add, u256_checked_div,
    u256_checked_mul, u256_from_u128, u256_try_into_u128,
};
use crate::types::{lemma_lt_total, lemma_zero_is_first, u256_max, AccountId, Balance};
use vstd::prelude::*;

verus! {

/// Why a computation on tokens, reserves or paths was refused.
#[derive(Clone, Copy, Debug, PartialEq, Eq, Structural)]
pub enum HelperError {
    IdenticalAddresses,
    ZeroAddress,
    InsufficientAmount,
    InsufficientLiquidity,
    DivByZero,
    CastOverflow,
    MulOverFlow,
    AddOverFlow,
    DivByZero2,
    CastOverflow2,
    InvalidPath,
    SubUnderFlow,
    PairNotFound,
}

/// Two tokens in order, the one that comes first in front. Equal tokens
/// have no order, and the address that stands for "no account", which
/// would come first, is no token.
pub open spec fn sorted_tokens(token_a: AccountId, token_b: AccountId) -> Result<
    (AccountId, AccountId),
    HelperError,
> {
    let lower = if token_a.spec_lt(token_b) {
        token_a
    } else {
        token_b
    };
    let upper = if token_a.spec_lt(token_b) {
        token_b
    } else {
        token_a
    };
    if token_a == token_b {
        Err(HelperError::IdenticalAddresses)
    } else if lower.spec_is_zero() {
        Err(HelperError::ZeroAddress)
    } else {
        Ok((lower, upper))
    }
}

/// Two tokens in order, the one that comes first in front.
pub fn sort_tokens(token_a: AccountId, token_b: AccountId) -> (result: Result<
    (AccountId, AccountId),
    HelperError,
>)
    ensures
        result == sorted_tokens(token_a, token_b),
        result is Ok ==> result->Ok_0.0.spec_lt(result->Ok_0.1),
        result is Ok ==> (result->Ok_0 == (token_a, token_b) || result->Ok_0 == (token_b, token_a)),
{
    if token_a == token_b {
        return Err(HelperError::IdenticalAddresses);
    }
    let (token_0, token_1) = if token_a.lt(&token_b) {
        (token_a, token_b)
    } else {
        (token_b, token_a)
    };
    if token_0.is_zero() {
        return Err(HelperError::ZeroAddress);
    }
    proof {
        lemma_lt_total(token_a, token_b);
    }
    Ok((token_0, token_1))
}

/// Two tokens are in order unless they are equal or one of them is the
/// address that stands for "no account", which would come first.
pub proof fn lemma_sorted_unless_equal_or_zero(token_a: AccountId, token_b: AccountId)
    ensures
        sorted_tokens(token_a, token_b) == Err::<(AccountId, AccountId), HelperError>(
            HelperError::IdenticalAddresses,
        ) <==> token_a == token_b,
        sorted_tokens(token_a, token_b) == Err::<(AccountId, AccountId), HelperError>(
            HelperError::ZeroAddress,
        ) <==> token_a != token_b && (token_a.spec_is_zero() || token_b.spec_is_zero()),
        sorted_tokens(token_a, token_b) is Ok ==> sorted_tokens(token_a, token_b)->Ok_0.0.spec_lt(
            sorted_tokens(token_a, token_b)->Ok_0.1,
        ),
{
    lemma_lt_total(token_a, token_b);
    if token_a.spec_is_zero() {
        lemma_zero_is_first(token_a, token_b);
    }
    if token_b.spec_is_zero() {
        lemma_zero_is_first(token_b, token_a);
    }
}

/// What `amount_a` of one token is worth of another at the price that the
/// reserves set: `amount_a * reserve_b / reserve_a`, rounded down.
pub open spec fn quoted(amount_a: Balance, reserve_a: Balance, reserve_b: Balance) -> Result<
    Balance,
    HelperError,
> {
    if amount_a == 0 {
        Err(HelperError::InsufficientAmount)
    } else if reserve_a == 0 || reserve_b == 0 {
        Err(HelperError::InsufficientLiquidity)
    } else if amount_a * reserve_b / (reserve_a as int) > u128::MAX {
        Err(HelperError::CastOverflow)
    } else {
        Ok((amount_a * reserve_b / (reserve_a as int)) as u128)
    }
}

/// What `amount_a` of one token is worth of another at the price that the
/// reserves set.
pub fn quote(amount_a: Balance, reserve_a: Balance, reserve_b: Balance) -> (result: Result<
    Balance,
    HelperError,
>)
    ensures
        result == quoted(amount_a, reserve_a, reserve_b),
{
    if amount_a == 0 {
        return Err(HelperError::InsufficientAmount);
    }
    if reserve_a == 0 || reserve_b == 0 {
        return Err(HelperError::InsufficientLiquidity);
    }
    let amount_b = match u256_checked_div(casted_mul(amount_a, reserve_b), u256_from_u128(reserve_a)) {
        Some(quotient) => quotient,
        None => {
            return Err(HelperError::DivByZero);
        },
    };
    match u256_try_into_u128(amount_b) {
        Some(amount) => Ok(amount),
        None => Err(HelperError::CastOverflow),
    }
}

/// What a pool pays out for `amount_in`, of which it keeps 3 per 1000 as
/// its fee: `amount_in * 997 * reserve_out / (reserve_in * 1000 + amount_in
/// * 997)`, rounded down.
pub open spec fn amount_paid_out(amount_in: Balance, reserve_in: Balance, reserve_out: Balance) -> Result<
    Balance,
    HelperError,
> {
    if amount_in == 0 {
        Err(HelperError::InsufficientAmount)
    } else if reserve_in == 0 || reserve_out == 0 {
        Err(HelperError::InsufficientLiquidity)
    } else if amount_in * 997 * reserve_out > u256_max() {
        Err(HelperError::MulOverFlow)
    } else {
        Ok((amount_in * 997 * reserve_out / (reserve_in * 1000 + amount_in * 997)) as u128)
    }
}

/// What a pool pays out for `amount_in`.
pub fn get_amount_out(amount_in: Balance, reserve_in: Balance, reserve_out: Balance) -> (result:
    Result<Balance, HelperError>)
    ensures
        result == amount_paid_out(amount_in, reserve_in, reserve_out),
        result is Ok ==> result->Ok_0 < reserve_out,
{
    if amount_in == 0 {
        return Err(HelperError::InsufficientAmount);
    }
    if reserve_in == 0 || reserve_out == 0 {
        return Err(HelperError::InsufficientLiquidity);
    }
    let amount_in_with_fee = casted_mul(amount_in, 997);
    let numerator = match u256_checked_mul(amount_in_with_fee, u256_from_u128(reserve_out)) {
        Some(product) => product,
        None => {
            return Err(HelperError::MulOverFlow);
        },
    };
    proof {
        lemma_product_fits(reserve_in as nat, 1000);
    }
    let denominator = match u256_checked_add(casted_mul(reserve_in, 1000), amount_in_with_fee) {
        Some(sum) => sum,
        None => {
            return Err(HelperError::AddOverFlow);
        },
    };
    let quotient = match u256_checked_div(numerator, denominator) {
        Some(quotient) => quotient,
        None => {
            return Err(HelperError::DivByZero2);
        },
    };
    proof {
        lemma_share_less(
            (amount_in * 997) as int,
            reserve_out as int,
            (reserve_in * 1000 + amount_in * 997) as int,
        );
    }
    match u256_try_into_u128(quotient) {
        Some(amount) => Ok(amount),
        None => Err(HelperError::CastOverflow2),
    }
}

/// What a pool asks for to pay out `amount_out`, its fee of 3 per 1000
/// counted in: `reserve_in * amount_out * 1000 / ((reserve_out - amount_out)
/// * 997)`, rounded down, and 1 more.
pub open spec fn amount_asked_in(amount_out: Balance, reserve_in: Balance, reserve_out: Balance) -> Result<
    Balance,
    HelperError,
> {
    if amount_out == 0 {
        Err(HelperError::InsufficientAmount)
    } else if reserve_in == 0 || reserve_out == 0 {
        Err(HelperError::InsufficientLiquidity)
    } else if reserve_in * amount_out * 1000 > u256_max() {
        Err(HelperError::MulOverFlow)
    } else if amount_out > reserve_out {
        Err(HelperError::SubUnderFlow)
    } else if amount_out == reserve_out {
        Err(HelperError::DivByZero)
    } else if reserve_in * amount_out * 1000 / ((reserve_out - amount_out) * 997) + 1 > u128::MAX {
        Err(HelperError::CastOverflow)
    } else {
        Ok((reserve_in * amount_out * 1000 / ((reserve_out - amount_out) * 997) + 1) as u128)
    }
}

/// What a pool asks for to pay out `amount_out`.
pub fn get_amount_in(amount_out: Balance, reserve_in: Balance, reserve_out: Balance) -> (result:
    Result<Balance, HelperError>)
    ensures
        result == amount_asked_in(amount_out, reserve_in, reserve_out),
{
    if amount_out == 0 {
        return Err(HelperError::InsufficientAmount);
    }
    if reserve_in == 0 || reserve_out == 0 {
        return Err(HelperError::InsufficientLiquidity);
    }
    let numerator = match u256_checked_mul(casted_mul(reserve_in, amount_out), u256_from_u128(1000)) {
        Some(product) => product,
        None => {
            return Err(HelperError::MulOverFlow);
        },
    };
    let left: u128 = match reserve_out.checked_sub(amount_out) {
        Some(left) => left,
        None => {
            return Err(HelperError::SubUnderFlow);
        },
    };
    let denominator = casted_mul(left, 997);
    let quotient = match u256_checked_div(numerator, denominator) {
        Some(quotient) => quotient,
        None => {
            return Err(HelperError::DivByZero);
        },
    };
    proof {
        numerator.lemma_bounded();
        assert(left * 997 >= 997) by (nonlinear_arith)
            requires
                left >= 1,
        ;
        assert(numerator@ as int / denominator@ as int <= numerator@ / 2) by (nonlinear_arith)
            requires
                denominator@ >= 2,
                numerator@ >= 0,
        ;
    }
    let amount = match u256_checked_add(quotient, u256_from_u128(1)) {
        Some(sum) => sum,
        None => {
            return Err(HelperError::AddOverFlow);
        },
    };
    match u256_try_into_u128(amount) {
        Some(amount) => Ok(amount),
        None => Err(HelperError::CastOverflow),
    }
}

/// What a router knows of one pool: the two tokens that the factory lists
/// it under, its address, and its two reserves, the first being that of the
/// token that comes first in order.
#[derive(Clone, Copy, Debug, PartialEq, Eq)]
pub struct Pool {
    pub token_a: AccountId,
    pub token_b: AccountId,
    pub pair: AccountId,
    pub reserve_0: Balance,
    pub reserve_1: Balance,
}

impl Pool {
    /// Whether this is a pool of the two tokens, in either order.
    pub open spec fn is_of(self, token_a: AccountId, token_b: AccountId) -> bool {
        (self.token_a == token_a && self.token_b == token_b) || (self.token_a == token_b
            && self.token_b == token_a)
    }
}

/// The first pool of the two tokens among those from position `from` on.
pub open spec fn pool_from(pools: Seq<Pool>, token_a: AccountId, token_b: AccountId, from: int) -> Option<
    Pool,
>
    decreases pools.len() - from,
{
    if from < 0 || from >= pools.len() {
        None
    } else if pools[from].is_of(token_a, token_b) {
        Some(pools[from])
    } else {
        pool_from(pools, token_a, token_b, from + 1)
    }
}

/// The pool of the two tokens, in either order: the first listed, if there
/// is one.
pub open spec fn pool_of(pools: Seq<Pool>, token_a: AccountId, token_b: AccountId) -> Option<Pool> {
    pool_from(pools, token_a, token_b, 0)
}

/// The reserves of the pool of two tokens, that of `token_a` in front.
pub open spec fn reserves_of(pools: Seq<Pool>, token_a: AccountId, token_b: AccountId) -> Result<
    (Balance, Balance),
    HelperError,
> {
    let sorted = sorted_tokens(token_a, token_b);
    let pool = pool_of(pools, token_a, token_b);
    if sorted is Err {
        Err(sorted->Err_0)
    } else if pool is None {
        Err(HelperError::PairNotFound)
    } else if token_a == sorted->Ok_0.0 {
        Ok((pool->Some_0.reserve_0, pool->Some_0.reserve_1))
    } else {
        Ok((pool->Some_0.reserve_1, pool->Some_0.reserve_0))
    }
}

/// What the pool of `token_in` and `token_out` pays out of the second for
/// `amount` of the first.
pub open spec fn hop_out(
    pools: Seq<Pool>,
    amount: Balance,
    token_in: AccountId,
    token_out: AccountId,
) -> Result<Balance, HelperError> {
    let reserves = reserves_of(pools, token_in, token_out);
    if reserves is Err {
        Err(reserves->Err_0)
    } else {
        amount_paid_out(amount, reserves->Ok_0.0, reserves->Ok_0.1)
    }
}

/// What the pool of `token_in` and `token_out` asks of the first to pay
/// out `amount` of the second.
pub open spec fn hop_in(
    pools: Seq<Pool>,
    amount: Balance,
    token_in: AccountId,
    token_out: AccountId,
) -> Result<Balance, HelperError> {
    let reserves = reserves_of(pools, token_in, token_out);
    if reserves is Err {
        Err(reserves->Err_0)
    } else {
        amount_asked_in(amount, reserves->Ok_0.0, reserves->Ok_0.1)
    }
}

/// The amounts along a path once those in `amounts` are known, which are
/// those of its first tokens: each further one is what the pool of the hop
/// pays out for the one before. The first hop that fails fails the whole.
pub open spec fn amounts_out_from(pools: Seq<Pool>, path: Seq<AccountId>, amounts: Seq<Balance>) -> Result<
    Seq<Balance>,
    HelperError,
>
    decreases path.len() - amounts.len(),
{
    if amounts.len() == 0 || amounts.len() >= path.len() {
        Ok(amounts)
    } else {
        let hop = amounts.len() - 1;
        let paid = hop_out(pools, amounts[hop], path[hop], path[hop + 1]);
        if paid is Err {
            Err(paid->Err_0)
        } else {
            amounts_out_from(pools, path, amounts.push(paid->Ok_0))
        }
    }
}

/// The amounts along a path of two tokens or more for `amount_in` of the
/// first: one amount for each token, each paid out by the pool of the hop
/// for the one before.
pub open spec fn amounts_out(pools: Seq<Pool>, amount_in: Balance, path: Seq<AccountId>) -> Result<
    Seq<Balance>,
    HelperError,
> {
    if path.len() < 2 {
        Err(HelperError::InvalidPath)
    } else {
        amounts_out_from(pools, path, seq![amount_in])
    }
}

/// The amounts along a path once those in `amounts` are known, which are
/// those of its last tokens: each earlier one is what the pool of the hop
/// asks for the one after. The first hop from the end that fails fails the
/// whole.
pub open spec fn amounts_in_from(pools: Seq<Pool>, path: Seq<AccountId>, amounts: Seq<Balance>) -> Result<
    Seq<Balance>,
    HelperError,
>
    decreases path.len() - amounts.len(),
{
    if amounts.len() == 0 || amounts.len() >= path.len() {
        Ok(amounts)
    } else {
        let hop = path.len() - amounts.len() - 1;
        let asked = hop_in(pools, amounts[0], path[hop], path[hop + 1]);
        if asked is Err {
            Err(asked->Err_0)
        } else {
            amounts_in_from(pools, path, seq![asked->Ok_0] + amounts)
        }
    }
}

/// The amounts along a path of two tokens or more for `amount_out` of the
/// last: one amount for each token, each asked by the pool of the hop for
/// the one after.
pub open spec fn amounts_in(pools: Seq<Pool>, amount_out: Balance, path: Seq<AccountId>) -> Result<
    Seq<Balance>,
    HelperError,
> {
    if path.len() < 2 {
        Err(HelperError::InvalidPath)
    } else {
        amounts_in_from(pools, path, seq![amount_out])
    }
}

/// The pool of the two tokens, in either order: the first listed, if there
/// is one.
pub fn find_pool(pools: &Vec<Pool>, token_a: AccountId, token_b: AccountId) -> (found: Option<Pool>)
    ensures
        found == pool_of(pools@, token_a, token_b),
        found is Some ==> found->Some_0.is_of(token_a, token_b),
{
    let mut i: usize = 0;
    while i < pools.len()
        invariant
            i <= pools.len(),
            pool_of(pools@, token_a, token_b) == pool_from(pools@, token_a, token_b, i as int),
        decreases pools.len() - i,
    {
        let pool = pools[i];
        if (pool.token_a == token_a && pool.token_b == token_b) || (pool.token_a == token_b
            && pool.token_b == token_a) {
            return Some(pool);
        }
        i += 1;
    }
    None
}

/// The address of the pool of the two tokens, if there is one.
pub fn pair_for_on_chain(pools: &Vec<Pool>, token_a: AccountId, token_b: AccountId) -> (pair: Option<
    AccountId,
>)
    ensures
        pair == match pool_of(pools@, token_a, token_b) {
            Some(pool) => Some(pool.pair),
            None => None,
        },
{
    match find_pool(pools, token_a, token_b) {
        Some(pool) => Some(pool.pair),
        None => None,
    }
}

/// The reserves of the pool of two tokens, that of `token_a` in front.
pub fn get_reserves(pools: &Vec<Pool>, token_a: AccountId, token_b: AccountId) -> (result: Result<
    (Balance, Balance),
    HelperError,
>)
    ensures
        result == reserves_of(pools@, token_a, token_b),
{
    let (token_0, _) = match sort_tokens(token_a, token_b) {
        Ok(sorted) => sorted,
        Err(e) => {
            return Err(e);
        },
    };
    let pool = match find_pool(pools, token_a, token_b) {
        Some(pool) => pool,
        None => {
            return Err(HelperError::PairNotFound);
        },
    };
    if token_a == token_0 {
        Ok((pool.reserve_0, pool.reserve_1))
    } else {
        Ok((pool.reserve_1, pool.reserve_0))
    }
}

/// The amounts along a path for `amount_in` of its first token, one for
/// each token of the path.
#[verifier::rlimit(40)]
pub fn get_amounts_out(pools: &Vec<Pool>, amount_in: Balance, path: &Vec<AccountId>) -> (result:
    Result<Vec<Balance>, HelperError>)
    ensures
        match amounts_out(pools@, amount_in, path@) {
            Ok(amounts) => result is Ok && result->Ok_0@ == amounts,
            Err(e) => result == Err::<Vec<Balance>, HelperError>(e),
        },
        result is Ok ==> {
            let amounts = result->Ok_0@;
            &&& path.len() >= 2
            &&& amounts.len() == path.len()
            &&& amounts[0] == amount_in
            &&& forall|i: int|
                0 <= i < path.len() - 1 ==> hop_out(pools@, amounts[i], path[i], path[i + 1]) == Ok::<
                    Balance,
                    HelperError,
                >(#[trigger] amounts[i + 1])
        },
{
    if path.len() < 2 {
        return Err(HelperError::InvalidPath);
    }
    let mut amounts: Vec<Balance> = Vec::with_capacity(path.len());
    amounts.push(amount_in);
    let mut i: usize = 0;
    while i < path.len() - 1
        invariant
            path.len() >= 2,
            i <= path.len() - 1,
            amounts.len() == i + 1,
            amounts[0] == amount_in,
            amounts_out(pools@, amount_in, path@) == amounts_out_from(pools@, path@, amounts@),
            forall|j: int|
                0 <= j < i ==> hop_out(pools@, amounts[j], path[j], path[j + 1]) == Ok::<
                    Balance,
                    HelperError,
                >(#[trigger] amounts[j + 1]),
        decreases path.len() - 1 - i,
    {
        let (reserve_in, reserve_out) = match get_reserves(pools, path[i], path[i + 1]) {
            Ok(reserves) => reserves,
            Err(e) => {
                return Err(e);
            },
        };
        let paid = match get_amount_out(amounts[i], reserve_in, reserve_out) {
            Ok(paid) => paid,
            Err(e) => {
                return Err(e);
            },
        };
        amounts.push(paid);
        i += 1;
    }
    Ok(amounts)
}

/// The amounts along a path for `amount_out` of its last token, one for
/// each token of the path.
#[verifier::rlimit(40)]
pub fn get_amounts_in(pools: &Vec<Pool>, amount_out: Balance, path: &Vec<AccountId>) -> (result:
    Result<Vec<Balance>, HelperError>)
    ensures
        match amounts_in(pools@, amount_out, path@) {
            Ok(amounts) => result is Ok && result->Ok_0@ == amounts,
            Err(e) => result == Err::<Vec<Balance>, HelperError>(e),
        },
        result is Ok ==> {
            let amounts = result->Ok_0@;
            &&& path.len() >= 2
            &&& amounts.len() == path.len()
            &&& amounts[path.len() - 1] == amount_out
            &&& forall|i: int|
                0 <= i < path.len() - 1 ==> hop_in(pools@, amounts[i + 1], path[i], path[i + 1])
                    == Ok::<Balance, HelperError>(#[trigger] amounts[i])
        },
{
    let n = path.len();
    if n < 2 {
        return Err(HelperError::InvalidPath);
    }
    let mut amounts: Vec<Balance> = vec![0u128; n];
    amounts[n - 1] = amount_out;
    let mut i: usize = n - 1;
    proof {
        assert(amounts@.subrange(n as int - 1, n as int) =~= seq![amount_out]);
    }
    while i > 0
        invariant
            n == path.len(),
            n >= 2,
            i <= n - 1,
            amounts.len() == n,
            amounts[n - 1] == amount_out,
            amounts_in(pools@, amount_out, path@) == amounts_in_from(
                pools@,
                path@,
                amounts@.subrange(i as int, n as int),
            ),
            forall|j: int|
                i <= j < n - 1 ==> hop_in(pools@, amounts[j + 1], path[j], path[j + 1]) == Ok::<
                    Balance,
                    HelperError,
                >(#[trigger] amounts[j]),
        decreases i,
    {
        let ghost tail = amounts@.subrange(i as int, n as int);
        assert(tail.len() == n - i);
        let (reserve_in, reserve_out) = match get_reserves(pools, path[i - 1], path[i]) {
            Ok(reserves) => reserves,
            Err(e) => {
                return Err(e);
            },
        };
        let asked = match get_amount_in(amounts[i], reserve_in, reserve_out) {
            Ok(asked) => asked,
            Err(e) => {
                return Err(e);
            },
        };
        let ghost before = amounts@;
        amounts[i - 1] = asked;
        proof {
            assert(hop_in(pools@, tail[0], path[i - 1], path[i as int]) == Ok::<
                Balance,
                HelperError,
            >(asked));
            assert(amounts_in_from(pools@, path@, tail) == amounts_in_from(
                pools@,
                path@,
                seq![asked] + tail,
            ));
            assert(amounts@.subrange(i as int - 1, n as int) =~= seq![asked] + tail);
            assert forall|j: int| i - 1 <= j < n - 1 implies hop_in(
                pools@,
                amounts[j + 1],
                path[j],
                path[j + 1],
            ) == Ok::<Balance, HelperError>(#[trigger] amounts[j]) by {}
        }
        i -= 1;
    }
    Ok(amounts)
}

/// A quote that is positive can be taken back at the same reserves, and
/// never gives more than the amount that was quoted.
pub proof fn lemma_quote_round_trip_bound(amount_a: Balance, reserve_a: Balance, reserve_b: Balance)
    requires
        quoted(amount_a, reserve_a, reserve_b) is Ok,
        quoted(amount_a, reserve_a, reserve_b)->Ok_0 > 0,
    ensures
        quoted(quoted(amount_a, reserve_a, reserve_b)->Ok_0, reserve_b, reserve_a) is Ok,
        quoted(quoted(amount_a, reserve_a, reserve_b)->Ok_0, reserve_b, reserve_a)->Ok_0
            <= amount_a,
{
    let a = amount_a as int;
    let ra = reserve_a as int;
    let rb = reserve_b as int;
    lemma_back_and_forth(a, ra, rb);
}

/// A quote taken back at the same reserves gives the amount that was
/// quoted, exactly, where the quote itself was exact: where `amount_a *
/// reserve_b` is a multiple of `reserve_a`.
pub proof fn lemma_quote_round_trip(amount_a: Balance, reserve_a: Balance, reserve_b: Balance)
    requires
        quoted(amount_a, reserve_a, reserve_b) is Ok,
        (amount_a * reserve_b) % (reserve_a as int) == 0,
    ensures
        quoted(quoted(amount_a, reserve_a, reserve_b)->Ok_0, reserve_b, reserve_a) == Ok::<
            Balance,
            HelperError,
        >(amount_a),
{
    let a = amount_a as int;
    let ra = reserve_a as int;
    let rb = reserve_b as int;
    lemma_back_and_forth(a, ra, rb);
    let b = a * rb / ra;
    assert(b > 0) by (nonlinear_arith)
        requires
            b * ra == a * rb,
            a > 0,
            rb > 0,
            ra > 0,
    ;
}

/// `a * rb / ra`, taken back by `* ra / rb`, is at most `a`, and is `a`
/// where the first division leaves no remainder.
proof fn lemma_back_and_forth(a: int, ra: int, rb: int)
    requires
        a >= 0,
        ra > 0,
        rb > 0,
    ensures
        (a * rb / ra) * ra / rb <= a,
        (a * rb) % ra == 0 ==> (a * rb / ra) * ra == a * rb && (a * rb / ra) * ra / rb == a,
{
    let b = a * rb / ra;
    vstd::arithmetic::div_mod::lemma_fundamental_div_mod(a * rb, ra);
    assert(b * ra <= a * rb) by (nonlinear_arith)
        requires
            a * rb == ra * b + (a * rb) % ra,
            (a * rb) % ra >= 0,
    ;
    assert(b * ra / rb <= a) by (nonlinear_arith)
        requires
            b * ra <= a * rb,
            rb > 0,
    ;
    if (a * rb) % ra == 0 {
        assert(b * ra == a * rb) by (nonlinear_arith)
            requires
                a * rb == ra * b + (a * rb) % ra,
                (a * rb) % ra == 0,
        ;
        assert(a * rb / rb == a) by (nonlinear_arith)
            requires
                rb > 0,
        ;
    }
}

/// Where a pool pays out anything for `amount_in`, it can be asked what it
/// wants for just that, and that is at most 1 more than `amount_in`, as
/// long as 1 more is a number of 128 bits.
pub proof fn lemma_amount_round_trip_within_one(
    amount_in: Balance,
    reserve_in: Balance,
    reserve_out: Balance,
)
    requires
        amount_paid_out(amount_in, reserve_in, reserve_out) is Ok,
        amount_paid_out(amount_in, reserve_in, reserve_out)->Ok_0 > 0,
        amount_in < u128::MAX,
    ensures
        amount_asked_in(
            amount_paid_out(amount_in, reserve_in, reserve_out)->Ok_0,
            reserve_in,
            reserve_out,
        ) is Ok,
        amount_asked_in(
            amount_paid_out(amount_in, reserve_in, reserve_out)->Ok_0,
            reserve_in,
            reserve_out,
        )->Ok_0 <= amount_in + 1,
{
    lemma_out_then_in(amount_in as int, reserve_in as int, reserve_out as int);
}

/// Where a pool pays out anything for `amount_in`, it can be asked what it
/// wants for just that, and that is no more than `amount_in` where the
/// amount paid out was rounded down: where `amount_in * 997 * reserve_out`
/// is no multiple of `reserve_in * 1000 + amount_in * 997`.
pub proof fn lemma_amount_round_trip(amount_in: Balance, reserve_in: Balance, reserve_out: Balance)
    requires
        amount_paid_out(amount_in, reserve_in, reserve_out) is Ok,
        amount_paid_out(amount_in, reserve_in, reserve_out)->Ok_0 > 0,
        (amount_in * 997 * reserve_out) % (reserve_in * 1000 + amount_in * 997) != 0,
    ensures
        amount_asked_in(
            amount_paid_out(amount_in, reserve_in, reserve_out)->Ok_0,
            reserve_in,
            reserve_out,
        ) is Ok,
        amount_asked_in(
            amount_paid_out(amount_in, reserve_in, reserve_out)->Ok_0,
            reserve_in,
            reserve_out,
        )->Ok_0 <= amount_in,
{
    lemma_out_then_in(amount_in as int, reserve_in as int, reserve_out as int);
}

/// The arithmetic of paying out and asking back.
proof fn lemma_out_then_in(x: int, ri: int, ro: int)
    requires
        x > 0,
        ri > 0,
        ro > 0,
    ensures
        ({
            let out = x * 997 * ro / (ri * 1000 + x * 997);
            &&& 0 <= out < ro
            &&& ri * out * 1000 <= x * 997 * ro
            &&& ri * out * 1000 / ((ro - out) * 997) <= x
            &&& (x * 997 * ro) % (ri * 1000 + x * 997) != 0 ==> ri * out * 1000 / ((ro - out)
                * 997) < x
        }),
{
    let a = x * 997;
    let d = ri * 1000 + a;
    let n = a * ro;
    let out = n / d;
    let rest = n % d;
    lemma_share_less(a, ro, d);
    assert(out >= 0) by (nonlinear_arith)
        requires
            out == n / d,
            n == a * ro,
            a > 0,
            ro > 0,
            d > 0,
    ;
    vstd::arithmetic::div_mod::lemma_fundamental_div_mod(n, d);
    assert(0 <= rest < d);
    let top = ri * out * 1000;
    let bottom = (ro - out) * 997;
    assert(top + rest == x * bottom) by (nonlinear_arith)
        requires
            n == d * out + rest,
            n == x * 997 * ro,
            d == ri * 1000 + x * 997,
            top == ri * out * 1000,
            bottom == (ro - out) * 997,
    ;
    assert(bottom > 0) by (nonlinear_arith)
        requires
            bottom == (ro - out) * 997,
            out < ro,
    ;
    assert(x * bottom <= x * 997 * ro) by (nonlinear_arith)
        requires
            bottom == (ro - out) * 997,
            0 <= out,
            x > 0,
    ;
    assert(top / bottom <= x) by (nonlinear_arith)
        requires
            top + rest == x * bottom,
            rest >= 0,
            bottom > 0,
    ;
    if rest != 0 {
        assert(top / bottom < x) by (nonlinear_arith)
            requires
                top + rest == x * bottom,
                rest > 0,
                bottom > 0,
        ;
    }
}

/// Along a path of three tokens the amounts are those of two hops, the
/// second fed with what the first pays out.
pub proof fn lemma_amounts_out_of_two_hops(
    pools: Seq<Pool>,
    amount_in: Balance,
    first: AccountId,
    second: AccountId,
    third: AccountId,
)
    ensures
        ({
            let one = hop_out(pools, amount_in, first, second);
            let two = hop_out(pools, one->Ok_0, second, third);
            amounts_out(pools, amount_in, seq![first, second, third]) == if one is Err {
                Err::<Seq<Balance>, HelperError>(one->Err_0)
            } else if two is Err {
                Err::<Seq<Balance>, HelperError>(two->Err_0)
            } else {
                Ok::<Seq<Balance>, HelperError>(seq![amount_in, one->Ok_0, two->Ok_0])
            }
        }),
{
    let path = seq![first, second, third];
    let one = hop_out(pools, amount_in, first, second);
    reveal_with_fuel(amounts_out_from, 4);
    if one is Ok {
        let known = seq![amount_in].push(one->Ok_0);
        let two = hop_out(pools, one->Ok_0, second, third);
        if two is Ok {
            assert(known.push(two->Ok_0) =~= seq![amount_in, one->Ok_0, two->Ok_0]);
        }
    }
}

} // verus!
