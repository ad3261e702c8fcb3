//! The router: it sizes deposits, withdrawals and swaps along paths of
//! pools, holds them against the limits that the caller set, and names the
//! calls that carry them out, in order. It makes no call itself.

use crate::errors::PSP22Error;
use crate::factory::{CodeHash, FactoryError};
use crate::helper::{
    amount_asked_in, amount_paid_out, amounts_in, amounts_out, find_pool, get_amount_in,
    get_amount_out, get_amounts_in, get_amounts_out, get_reserves, pool_of, quote, quoted,
    reserves_of, sort_tokens, sorted_tokens, HelperError, Pool,
};
use crate::math::lemma_share_bounded;
use crate::pair::{burn_outcome, fee_adjusted, fee_liquidity, Pair, PairError};
use crate::transfer_helper::TransferHelperError;
use crate::types::{AccountId, Balance, Timestamp};
use vstd::prelude::*;

verus! {

/// Why the router refused a call.
#[derive(Clone, Debug, PartialEq, Eq)]
pub enum RouterError {
    PSP22Error(PSP22Error),
    FactoryError(FactoryError),
    PairError(PairError),
    HelperError(HelperError),
    TransferHelperError(TransferHelperError),
    PairNotFound,
    InsufficientAmount,
    InsufficientAAmount,
    InsufficientOutputAmount,
    ExcessiveInputAmount,
    InsufficientBAmount,
    InsufficientLiquidity,
    ZeroAddress,
    IdenticalAddresses,
    Expired,
    SubUnderFlow,
    MulOverFlow,
    DivByZero,
    TransferFailed,
    InvalidPath,
}

/// What the router is set up with: the factory, the token that wraps the
/// native asset, and the hash of the pool contract's code.
#[derive(Clone, Copy, Debug, PartialEq, Eq)]
pub struct Data {
    pub factory: AccountId,
    pub wnative: AccountId,
    pub pair_code_hash: CodeHash,
}

/// The router: it sizes deposits, withdrawals and swaps, and says which
/// calls carry them out.
#[derive(Clone, Copy, Debug, PartialEq, Eq)]
pub struct Router {
    pub data: Data,
}

/// The amounts of a deposit and the calls that carry it out, in order. The
/// liquidity is what the pool's call returns.
#[derive(Clone, Debug, PartialEq, Eq)]
pub struct Deposit {
    pub amount_a: Balance,
    pub amount_b: Balance,
    pub calls: Vec<Call>,
}

/// The amounts of a withdrawal and the calls that pay it out, in order.
#[derive(Clone, Debug, PartialEq, Eq)]
pub struct Payout {
    pub amount_token: Balance,
    pub amount_native: Balance,
    pub calls: Vec<Call>,
}

/// The amounts along the path of a swap, one for each token, and the calls
/// that carry the swap out, in order.
#[derive(Clone, Debug, PartialEq, Eq)]
pub struct Route {
    pub amounts: Vec<Balance>,
    pub calls: Vec<Call>,
}

/// An account that a call of the router names: one given by its address,
/// or the pool of two tokens, whatever its address.
#[derive(Clone, Copy, Debug, PartialEq, Eq)]
pub enum Account {
    Id(AccountId),
    PairFor(AccountId, AccountId),
}

/// One call that the router makes on a token, the factory, a pool or the
/// host.
#[allow(inconsistent_fields)]
#[derive(Clone, Copy, Debug, PartialEq, Eq)]
pub enum Call {
    /// The factory creates the pool of the two tokens.
    CreatePair { token_a: AccountId, token_b: AccountId },
    /// `value` of `token` goes from `from` to `to`, on the allowance that
    /// `from` gave the router.
    TransferFrom { token: Account, from: AccountId, to: Account, value: Balance },
    /// `value` of `token` goes from the router to `to`.
    Transfer { token: AccountId, to: Account, value: Balance },
    /// `value` of the native asset is wrapped.
    Wrap { value: Balance },
    /// `value` of the wrapped native asset is unwrapped.
    Unwrap { value: Balance },
    /// `value` of the native asset goes from the router to `to`.
    TransferNative { to: AccountId, value: Balance },
    /// The pool of the two tokens mints liquidity for `to`.
    Mint { token_a: AccountId, token_b: AccountId, to: AccountId },
    /// The pool of the two tokens burns the liquidity it holds and pays
    /// `to`.
    Burn { token_a: AccountId, token_b: AccountId, to: AccountId },
    /// The pool of the two tokens pays the amounts out to `to`.
    Swap {
        token_a: AccountId,
        token_b: AccountId,
        amount_0_out: Balance,
        amount_1_out: Balance,
        to: Account,
    },
}

/// Whether a call that is good until `deadline` is still good at `now`.
pub open spec fn in_time(deadline: u64, now: Timestamp) -> bool {
    deadline >= now
}

/// Refuses a call whose deadline has passed.
pub fn ensure(deadline: u64, now: Timestamp) -> (result: Result<(), RouterError>)
    ensures
        result == if in_time(deadline, now) {
            Ok::<(), RouterError>(())
        } else {
            Err::<(), RouterError>(RouterError::Expired)
        },
{
    if deadline >= now {
        Ok(())
    } else {
        Err(RouterError::Expired)
    }
}

/// How much of two tokens to deposit in a pool with the reserves given,
/// when at most the desired amounts and at least the minimal ones are to
/// go in. An empty pool takes the desired amounts as they are. Otherwise
/// the desired amount of the first token goes in with what it is worth of
/// the second, if that is no more than desired; else the desired amount of
/// the second with what it is worth of the first. An amount under its
/// minimum is refused.
pub open spec fn optimal_amounts(
    reserve_a: Balance,
    reserve_b: Balance,
    amount_a_desired: Balance,
    amount_b_desired: Balance,
    amount_a_min: Balance,
    amount_b_min: Balance,
) -> Result<(Balance, Balance), RouterError> {
    let amount_b_optimal = quoted(amount_a_desired, reserve_a, reserve_b);
    let amount_a_optimal = quoted(amount_b_desired, reserve_b, reserve_a);
    if reserve_a == 0 && reserve_b == 0 {
        Ok((amount_a_desired, amount_b_desired))
    } else if amount_b_optimal is Err {
        Err(RouterError::HelperError(amount_b_optimal->Err_0))
    } else if amount_b_optimal->Ok_0 <= amount_b_desired {
        if amount_b_optimal->Ok_0 >= amount_b_min {
            Ok((amount_a_desired, amount_b_optimal->Ok_0))
        } else {
            Err(RouterError::InsufficientBAmount)
        }
    } else if amount_a_optimal is Err {
        Err(RouterError::HelperError(amount_a_optimal->Err_0))
    } else if amount_a_optimal->Ok_0 >= amount_a_min {
        Ok((amount_a_optimal->Ok_0, amount_b_desired))
    } else {
        Err(RouterError::InsufficientAAmount)
    }
}

/// How much of two tokens to deposit in a pool with the reserves given.
/// Neither amount exceeds what was desired, and one of them is what was
/// desired.
pub fn amounts_to_deposit(
    reserve_a: Balance,
    reserve_b: Balance,
    amount_a_desired: Balance,
    amount_b_desired: Balance,
    amount_a_min: Balance,
    amount_b_min: Balance,
) -> (result: Result<(Balance, Balance), RouterError>)
    ensures
        result == optimal_amounts(
            reserve_a,
            reserve_b,
            amount_a_desired,
            amount_b_desired,
            amount_a_min,
            amount_b_min,
        ),
        result is Ok ==> result->Ok_0.0 <= amount_a_desired && result->Ok_0.1 <= amount_b_desired,
        result is Ok ==> result->Ok_0.0 == amount_a_desired || result->Ok_0.1 == amount_b_desired,
{
    if reserve_a == 0 && reserve_b == 0 {
        return Ok((amount_a_desired, amount_b_desired));
    }
    let amount_b_optimal = match quote(amount_a_desired, reserve_a, reserve_b) {
        Ok(amount) => amount,
        Err(e) => {
            return Err(RouterError::HelperError(e));
        },
    };
    if amount_b_optimal <= amount_b_desired {
        if amount_b_optimal < amount_b_min {
            return Err(RouterError::InsufficientBAmount);
        }
        Ok((amount_a_desired, amount_b_optimal))
    } else {
        let amount_a_optimal = match quote(amount_b_desired, reserve_b, reserve_a) {
            Ok(amount) => amount,
            Err(e) => {
                return Err(RouterError::HelperError(e));
            },
        };
        proof {
            lemma_other_side_fits(
                amount_a_desired as int,
                amount_b_desired as int,
                reserve_a as int,
                reserve_b as int,
            );
        }
        if amount_a_optimal < amount_a_min {
            return Err(RouterError::InsufficientAAmount);
        }
        Ok((amount_a_optimal, amount_b_desired))
    }
}

/// Where `a` is worth more than `b` of the second token, `b` is worth no
/// more than `a` of the first.
proof fn lemma_other_side_fits(a: int, b: int, ra: int, rb: int)
    requires
        a >= 0,
        b >= 0,
        ra > 0,
        rb > 0,
        a * rb / ra > b,
    ensures
        b * ra / rb <= a,
{
    vstd::arithmetic::div_mod::lemma_fundamental_div_mod(a * rb, ra);
    let q = a * rb / ra;
    assert(b * ra <= a * rb) by (nonlinear_arith)
        requires
            a * rb == ra * q + (a * rb) % ra,
            (a * rb) % ra >= 0,
            q > b,
            b >= 0,
            ra > 0,
    ;
    assert(b * ra / rb <= a) by (nonlinear_arith)
        requires
            b * ra <= a * rb,
            rb > 0,
    ;
}

/// The call on the pool of hop number `hop` of a path: it pays out the
/// amount of the hop's second token, to the pool of the next hop or, from
/// the last hop, to `to`.
pub open spec fn swap_call(amounts: Seq<Balance>, path: Seq<AccountId>, to: AccountId, hop: int) -> Call {
    let input = path[hop];
    let output = path[hop + 1];
    let input_is_first = sorted_tokens(input, output)->Ok_0.0 == input;
    Call::Swap {
        token_a: input,
        token_b: output,
        amount_0_out: if input_is_first {
            0
        } else {
            amounts[hop + 1]
        },
        amount_1_out: if input_is_first {
            amounts[hop + 1]
        } else {
            0
        },
        to: if hop < path.len() - 2 {
            Account::PairFor(output, path[hop + 2])
        } else {
            Account::Id(to)
        },
    }
}

/// The calls on the pools of a path once those in `calls` are known, which
/// are those of its first hops. A hop whose tokens have no order fails the
/// whole.
pub open spec fn swap_calls_from(
    amounts: Seq<Balance>,
    path: Seq<AccountId>,
    to: AccountId,
    calls: Seq<Call>,
) -> Result<Seq<Call>, RouterError>
    decreases path.len() - calls.len(),
{
    let hop = calls.len() as int;
    if hop + 1 >= path.len() {
        Ok(calls)
    } else if sorted_tokens(path[hop], path[hop + 1]) is Err {
        Err(RouterError::HelperError(sorted_tokens(path[hop], path[hop + 1])->Err_0))
    } else {
        swap_calls_from(amounts, path, to, calls.push(swap_call(amounts, path, to, hop)))
    }
}

/// The calls on the pools of a path, one for each hop, in order. A path
/// under two tokens, or one that does not have an amount for each token, is
/// refused.
pub open spec fn swap_calls(amounts: Seq<Balance>, path: Seq<AccountId>, to: AccountId) -> Result<
    Seq<Call>,
    RouterError,
> {
    if path.len() < 2 || amounts.len() != path.len() {
        Err(RouterError::InvalidPath)
    } else {
        swap_calls_from(amounts, path, to, Seq::empty())
    }
}

/// How much of two tokens to deposit, and whether their pool has yet to be
/// created. A pool that is not there is created and takes the desired
/// amounts as they are, unless the two tokens cannot have a pool; one that
/// is there takes what its reserves ask for.
pub open spec fn deposit_amounts(
    pools: Seq<Pool>,
    token_a: AccountId,
    token_b: AccountId,
    amount_a_desired: Balance,
    amount_b_desired: Balance,
    amount_a_min: Balance,
    amount_b_min: Balance,
) -> Result<(Balance, Balance, bool), RouterError> {
    let sorted = sorted_tokens(token_a, token_b);
    let reserves = reserves_of(pools, token_a, token_b);
    let amounts = optimal_amounts(
        reserves->Ok_0.0,
        reserves->Ok_0.1,
        amount_a_desired,
        amount_b_desired,
        amount_a_min,
        amount_b_min,
    );
    if pool_of(pools, token_a, token_b) is None {
        if sorted == Err::<(AccountId, AccountId), HelperError>(HelperError::IdenticalAddresses) {
            Err(RouterError::FactoryError(FactoryError::IdenticalAddresses))
        } else if sorted is Err {
            Err(RouterError::FactoryError(FactoryError::ZeroAddress))
        } else {
            Ok((amount_a_desired, amount_b_desired, true))
        }
    } else if reserves is Err {
        Err(RouterError::HelperError(reserves->Err_0))
    } else if amounts is Err {
        Err(amounts->Err_0)
    } else {
        Ok((amounts->Ok_0.0, amounts->Ok_0.1, false))
    }
}

/// A withdrawal's two amounts in the order in which the tokens were named,
/// from the order of the pool. An amount under its minimum is refused.
pub open spec fn withdrawn_amounts(
    token_a: AccountId,
    token_b: AccountId,
    amount_0: Balance,
    amount_1: Balance,
    amount_a_min: Balance,
    amount_b_min: Balance,
) -> Result<(Balance, Balance), RouterError> {
    let sorted = sorted_tokens(token_a, token_b);
    let amount_a = if token_a == sorted->Ok_0.0 {
        amount_0
    } else {
        amount_1
    };
    let amount_b = if token_a == sorted->Ok_0.0 {
        amount_1
    } else {
        amount_0
    };
    if sorted is Err {
        Err(RouterError::HelperError(sorted->Err_0))
    } else if amount_a < amount_a_min {
        Err(RouterError::InsufficientAAmount)
    } else if amount_b < amount_b_min {
        Err(RouterError::InsufficientBAmount)
    } else {
        Ok((amount_a, amount_b))
    }
}

/// The calls of a deposit of two tokens from `caller`, for liquidity that
/// goes to `to`: the pool is created where it has yet to be, each amount
/// goes from `caller` to the pool, and the pool mints.
pub open spec fn deposit_calls(
    token_a: AccountId,
    token_b: AccountId,
    amount_a: Balance,
    amount_b: Balance,
    create: bool,
    caller: AccountId,
    to: AccountId,
) -> Seq<Call> {
    let pair = Account::PairFor(token_a, token_b);
    let deposit = seq![
        Call::TransferFrom { token: Account::Id(token_a), from: caller, to: pair, value: amount_a },
        Call::TransferFrom { token: Account::Id(token_b), from: caller, to: pair, value: amount_b },
        Call::Mint { token_a, token_b, to },
    ];
    if create {
        seq![Call::CreatePair { token_a, token_b }] + deposit
    } else {
        deposit
    }
}

/// The calls of a deposit of a token from `caller` and of the native
/// asset that came with the call: the pool is created where it has yet to
/// be, the token goes from `caller` to the pool, the native amount is
/// wrapped and goes to the pool, the pool mints, and what is left of the
/// native asset goes back to `caller`.
pub open spec fn native_deposit_calls(
    token: AccountId,
    wnative: AccountId,
    amount_token: Balance,
    amount_native: Balance,
    received_value: Balance,
    create: bool,
    caller: AccountId,
    to: AccountId,
) -> Seq<Call> {
    let pair = Account::PairFor(token, wnative);
    let deposit = seq![
        Call::TransferFrom { token: Account::Id(token), from: caller, to: pair, value: amount_token },
        Call::Wrap { value: amount_native },
        Call::Transfer { token: wnative, to: pair, value: amount_native },
        Call::Mint { token_a: token, token_b: wnative, to },
    ];
    let created = if create {
        seq![Call::CreatePair { token_a: token, token_b: wnative }] + deposit
    } else {
        deposit
    };
    if received_value > amount_native {
        created.push(
            Call::TransferNative { to: caller, value: (received_value - amount_native) as u128 },
        )
    } else {
        created
    }
}

/// The calls of a withdrawal: `liquidity` of the pool's claim goes from
/// `caller` to the pool, and the pool burns it and pays `to`.
pub open spec fn withdrawal_calls(
    token_a: AccountId,
    token_b: AccountId,
    liquidity: Balance,
    caller: AccountId,
    to: AccountId,
) -> Seq<Call> {
    let pair = Account::PairFor(token_a, token_b);
    seq![
        Call::TransferFrom { token: pair, from: caller, to: pair, value: liquidity },
        Call::Burn { token_a, token_b, to },
    ]
}

/// A swap along a path: its amounts, and its calls, which are those in
/// `before`, the calls on the pools of the path, and those in `after`.
pub open spec fn routed(
    amounts: Seq<Balance>,
    before: Seq<Call>,
    path: Seq<AccountId>,
    to: AccountId,
    after: Seq<Call>,
) -> Result<(Seq<Balance>, Seq<Call>), RouterError> {
    let swaps = swap_calls(amounts, path, to);
    if swaps is Err {
        Err(swaps->Err_0)
    } else {
        Ok((amounts, before + swaps->Ok_0 + after))
    }
}

/// Whether a route, or the refusal of one, is the one expected.
pub open spec fn route_is(
    result: Result<Route, RouterError>,
    expected: Result<(Seq<Balance>, Seq<Call>), RouterError>,
) -> bool {
    match expected {
        Ok((amounts, calls)) => result is Ok && result->Ok_0.amounts@ == amounts
            && result->Ok_0.calls@ == calls,
        Err(e) => result == Err::<Route, RouterError>(e),
    }
}

/// The call that funds the first pool of a path from `caller`.
pub open spec fn funding_from(path: Seq<AccountId>, caller: AccountId, value: Balance) -> Call {
    Call::TransferFrom {
        token: Account::Id(path[0]),
        from: caller,
        to: Account::PairFor(path[0], path[1]),
        value,
    }
}

/// The calls that fund the first pool of a path with the native asset:
/// `wrapped` of it is wrapped, and `value` of that goes to the pool.
pub open spec fn funding_native(
    path: Seq<AccountId>,
    wnative: AccountId,
    wrapped: Balance,
    value: Balance,
) -> Seq<Call> {
    seq![
        Call::Wrap { value: wrapped },
        Call::Transfer { token: wnative, to: Account::PairFor(path[0], path[1]), value },
    ]
}

/// The calls that pay `value` out in the native asset to `to`.
pub open spec fn paying_native(to: AccountId, value: Balance) -> Seq<Call> {
    seq![Call::Unwrap { value }, Call::TransferNative { to, value }]
}

/// A swap of `amount_in` of the first token of a path for at least
/// `amount_out_min` of the last.
pub open spec fn exact_tokens_for_tokens(
    pools: Seq<Pool>,
    amount_in: Balance,
    amount_out_min: Balance,
    path: Seq<AccountId>,
    to: AccountId,
    caller: AccountId,
) -> Result<(Seq<Balance>, Seq<Call>), RouterError> {
    let amounts = amounts_out(pools, amount_in, path);
    if amounts is Err {
        Err(RouterError::HelperError(amounts->Err_0))
    } else if amounts->Ok_0.last() < amount_out_min {
        Err(RouterError::InsufficientOutputAmount)
    } else {
        routed(
            amounts->Ok_0,
            seq![funding_from(path, caller, amounts->Ok_0[0])],
            path,
            to,
            Seq::empty(),
        )
    }
}

/// A swap of at most `amount_in_max` of the first token of a path for
/// `amount_out` of the last.
pub open spec fn tokens_for_exact_tokens(
    pools: Seq<Pool>,
    amount_out: Balance,
    amount_in_max: Balance,
    path: Seq<AccountId>,
    to: AccountId,
    caller: AccountId,
) -> Result<(Seq<Balance>, Seq<Call>), RouterError> {
    let amounts = amounts_in(pools, amount_out, path);
    if amounts is Err {
        Err(RouterError::HelperError(amounts->Err_0))
    } else if amounts->Ok_0[0] > amount_in_max {
        Err(RouterError::ExcessiveInputAmount)
    } else {
        routed(
            amounts->Ok_0,
            seq![funding_from(path, caller, amounts->Ok_0[0])],
            path,
            to,
            Seq::empty(),
        )
    }
}

/// A swap of the native asset that came with the call for at least
/// `amount_out_min` of the last token of a path, which starts at the token
/// that wraps the native asset.
pub open spec fn exact_native_for_tokens(
    pools: Seq<Pool>,
    wnative: AccountId,
    received_value: Balance,
    amount_out_min: Balance,
    path: Seq<AccountId>,
    to: AccountId,
) -> Result<(Seq<Balance>, Seq<Call>), RouterError> {
    let amounts = amounts_out(pools, received_value, path);
    if path.len() == 0 || path[0] != wnative {
        Err(RouterError::InvalidPath)
    } else if amounts is Err {
        Err(RouterError::HelperError(amounts->Err_0))
    } else if amounts->Ok_0.last() < amount_out_min {
        Err(RouterError::InsufficientOutputAmount)
    } else {
        routed(
            amounts->Ok_0,
            funding_native(path, wnative, received_value, amounts->Ok_0[0]),
            path,
            to,
            Seq::empty(),
        )
    }
}

/// A swap of at most `amount_in_max` of the first token of a path for
/// `amount_out` of the native asset; the path ends at the token that wraps
/// it. The pools pay the router, which unwraps and pays `to`.
pub open spec fn tokens_for_exact_native(
    pools: Seq<Pool>,
    wnative: AccountId,
    amount_out: Balance,
    amount_in_max: Balance,
    path: Seq<AccountId>,
    to: AccountId,
    caller: AccountId,
    router: AccountId,
) -> Result<(Seq<Balance>, Seq<Call>), RouterError> {
    let amounts = amounts_in(pools, amount_out, path);
    if path.len() == 0 || path.last() != wnative {
        Err(RouterError::InvalidPath)
    } else if amounts is Err {
        Err(RouterError::HelperError(amounts->Err_0))
    } else if amounts->Ok_0[0] > amount_in_max {
        Err(RouterError::ExcessiveInputAmount)
    } else {
        routed(
            amounts->Ok_0,
            seq![funding_from(path, caller, amounts->Ok_0[0])],
            path,
            router,
            paying_native(to, amounts->Ok_0.last()),
        )
    }
}

/// A swap of `amount_in` of the first token of a path for at least
/// `amount_out_min` of the native asset; the path ends at the token that
/// wraps it. The pools pay the router, which unwraps and pays `to`.
pub open spec fn exact_tokens_for_native(
    pools: Seq<Pool>,
    wnative: AccountId,
    amount_in: Balance,
    amount_out_min: Balance,
    path: Seq<AccountId>,
    to: AccountId,
    caller: AccountId,
    router: AccountId,
) -> Result<(Seq<Balance>, Seq<Call>), RouterError> {
    let amounts = amounts_out(pools, amount_in, path);
    if path.len() == 0 || path.last() != wnative {
        Err(RouterError::InvalidPath)
    } else if amounts is Err {
        Err(RouterError::HelperError(amounts->Err_0))
    } else if amounts->Ok_0.last() < amount_out_min {
        Err(RouterError::InsufficientOutputAmount)
    } else {
        routed(
            amounts->Ok_0,
            seq![funding_from(path, caller, amounts->Ok_0[0])],
            path,
            router,
            paying_native(to, amounts->Ok_0.last()),
        )
    }
}

/// A swap of the native asset that came with the call, as far as it is
/// needed, for `amount_out` of the last token of a path, which starts at
/// the token that wraps the native asset. What is not needed goes back to
/// `caller`.
pub open spec fn native_for_exact_tokens(
    pools: Seq<Pool>,
    wnative: AccountId,
    received_value: Balance,
    amount_out: Balance,
    path: Seq<AccountId>,
    to: AccountId,
    caller: AccountId,
) -> Result<(Seq<Balance>, Seq<Call>), RouterError> {
    let amounts = amounts_in(pools, amount_out, path);
    if path.len() == 0 || path[0] != wnative {
        Err(RouterError::InvalidPath)
    } else if amounts is Err {
        Err(RouterError::HelperError(amounts->Err_0))
    } else if amounts->Ok_0[0] > received_value {
        Err(RouterError::ExcessiveInputAmount)
    } else {
        routed(
            amounts->Ok_0,
            funding_native(path, wnative, amounts->Ok_0[0], amounts->Ok_0[0]),
            path,
            to,
            if received_value > amounts->Ok_0[0] {
                seq![
                    Call::TransferNative {
                        to: caller,
                        value: (received_value - amounts->Ok_0[0]) as u128,
                    },
                ]
            } else {
                Seq::empty()
            },
        )
    }
}

/// Puts the calls of a swap together: those before the pools', the pools',
/// those after.
fn route(
    before: Vec<Call>,
    amounts: Vec<Balance>,
    path: &Vec<AccountId>,
    to: AccountId,
    after: Vec<Call>,
) -> (result: Result<Route, RouterError>)
    ensures
        route_is(result, routed(amounts@, before@, path@, to, after@)),
{
    let mut swaps = match _swap(&amounts, path, to) {
        Ok(swaps) => swaps,
        Err(e) => {
            return Err(e);
        },
    };
    let mut calls = before;
    let mut after = after;
    calls.append(&mut swaps);
    calls.append(&mut after);
    Ok(Route { amounts, calls })
}

/// The call that funds the first pool of a path from `caller`, alone.
fn fund_from(path: &Vec<AccountId>, caller: AccountId, value: Balance) -> (calls: Vec<Call>)
    requires
        path.len() >= 2,
    ensures
        calls@ == seq![funding_from(path@, caller, value)],
{
    let mut calls: Vec<Call> = Vec::new();
    calls.push(
        Call::TransferFrom {
            token: Account::Id(path[0]),
            from: caller,
            to: Account::PairFor(path[0], path[1]),
            value,
        },
    );
    calls
}

/// The calls that fund the first pool of a path with the native asset.
fn fund_native(path: &Vec<AccountId>, wnative: AccountId, wrapped: Balance, value: Balance) -> (calls:
    Vec<Call>)
    requires
        path.len() >= 2,
    ensures
        calls@ == funding_native(path@, wnative, wrapped, value),
{
    let mut calls: Vec<Call> = Vec::new();
    calls.push(Call::Wrap { value: wrapped });
    calls.push(Call::Transfer { token: wnative, to: Account::PairFor(path[0], path[1]), value });
    calls
}

/// The calls that pay `value` out in the native asset to `to`.
fn pay_native(to: AccountId, value: Balance) -> (calls: Vec<Call>)
    ensures
        calls@ == paying_native(to, value),
{
    let mut calls: Vec<Call> = Vec::new();
    calls.push(Call::Unwrap { value });
    calls.push(Call::TransferNative { to, value });
    calls
}

/// The calls on the pools of a path, one for each hop, in order: each pays
/// out the amount of its hop's second token, to the pool of the next hop
/// or, from the last hop, to `to`.
pub fn _swap(amounts: &Vec<Balance>, path: &Vec<AccountId>, to: AccountId) -> (result: Result<
    Vec<Call>,
    RouterError,
>)
    ensures
        match swap_calls(amounts@, path@, to) {
            Ok(calls) => result is Ok && result->Ok_0@ == calls,
            Err(e) => result == Err::<Vec<Call>, RouterError>(e),
        },
        result is Ok ==> result->Ok_0@.len() == path.len() - 1 && forall|hop: int|
            0 <= hop < path.len() - 1 ==> (#[trigger] result->Ok_0@[hop]) == swap_call(
                amounts@,
                path@,
                to,
                hop,
            ),
{
    let n = path.len();
    if n < 2 || amounts.len() != n {
        return Err(RouterError::InvalidPath);
    }
    let mut calls: Vec<Call> = Vec::with_capacity(n - 1);
    let mut i: usize = 0;
    while i < n - 1
        invariant
            n == path.len(),
            n == amounts.len(),
            n >= 2,
            i <= n - 1,
            calls.len() == i,
            swap_calls(amounts@, path@, to) == swap_calls_from(amounts@, path@, to, calls@),
            forall|hop: int|
                0 <= hop < i ==> (#[trigger] calls@[hop]) == swap_call(amounts@, path@, to, hop),
        decreases n - 1 - i,
    {
        let input = path[i];
        let output = path[i + 1];
        let (token_0, _) = match sort_tokens(input, output) {
            Ok(sorted) => sorted,
            Err(e) => {
                return Err(RouterError::HelperError(e));
            },
        };
        let amount_out = amounts[i + 1];
        let (amount_0_out, amount_1_out) = if input == token_0 {
            (0, amount_out)
        } else {
            (amount_out, 0)
        };
        let recipient = if i < n - 2 {
            Account::PairFor(output, path[i + 2])
        } else {
            Account::Id(to)
        };
        calls.push(
            Call::Swap { token_a: input, token_b: output, amount_0_out, amount_1_out, to: recipient },
        );
        i += 1;
    }
    Ok(calls)
}

impl Router {
    /// A router for the pools of `factory`, with `wnative` as the token
    /// that wraps the native asset.
    pub fn new(factory: AccountId, wnative: AccountId, pair_code_hash: CodeHash) -> (router: Router)
        ensures
            router.data == (Data { factory, wnative, pair_code_hash }),
    {
        Router { data: Data { factory, wnative, pair_code_hash } }
    }

    /// The factory whose pools the router works on.
    pub fn factory(&self) -> (factory: AccountId)
        ensures
            factory == self.data.factory,
    {
        self.data.factory
    }

    /// The token that wraps the native asset.
    pub fn wnative(&self) -> (wnative: AccountId)
        ensures
            wnative == self.data.wnative,
    {
        self.data.wnative
    }

    /// What an amount of one token is worth of another at the price that
    /// the reserves set.
    pub fn quote(&self, amount_a: Balance, reserve_a: Balance, reserve_b: Balance) -> (result:
        Result<Balance, RouterError>)
        ensures
            result == match quoted(amount_a, reserve_a, reserve_b) {
                Ok(amount) => Ok::<Balance, RouterError>(amount),
                Err(e) => Err::<Balance, RouterError>(RouterError::HelperError(e)),
            },
    {
        match quote(amount_a, reserve_a, reserve_b) {
            Ok(amount) => Ok(amount),
            Err(e) => Err(RouterError::HelperError(e)),
        }
    }

    /// What a pool pays out for `amount_in`.
    pub fn get_amount_out(&self, amount_in: Balance, reserve_in: Balance, reserve_out: Balance) -> (result:
        Result<Balance, RouterError>)
        ensures
            result == match amount_paid_out(amount_in, reserve_in, reserve_out) {
                Ok(amount) => Ok::<Balance, RouterError>(amount),
                Err(e) => Err::<Balance, RouterError>(RouterError::HelperError(e)),
            },
    {
        match get_amount_out(amount_in, reserve_in, reserve_out) {
            Ok(amount) => Ok(amount),
            Err(e) => Err(RouterError::HelperError(e)),
        }
    }

    /// What a pool asks for to pay out `amount_out`.
    pub fn get_amount_in(&self, amount_out: Balance, reserve_in: Balance, reserve_out: Balance) -> (result:
        Result<Balance, RouterError>)
        ensures
            result == match amount_asked_in(amount_out, reserve_in, reserve_out) {
                Ok(amount) => Ok::<Balance, RouterError>(amount),
                Err(e) => Err::<Balance, RouterError>(RouterError::HelperError(e)),
            },
    {
        match get_amount_in(amount_out, reserve_in, reserve_out) {
            Ok(amount) => Ok(amount),
            Err(e) => Err(RouterError::HelperError(e)),
        }
    }

    /// The amounts along a path for `amount_in` of its first token.
    pub fn get_amounts_out(&self, pools: &Vec<Pool>, amount_in: Balance, path: &Vec<AccountId>) -> (result:
        Result<Vec<Balance>, RouterError>)
        ensures
            match amounts_out(pools@, amount_in, path@) {
                Ok(amounts) => result is Ok && result->Ok_0@ == amounts,
                Err(e) => result == Err::<Vec<Balance>, RouterError>(RouterError::HelperError(e)),
            },
    {
        match get_amounts_out(pools, amount_in, path) {
            Ok(amounts) => Ok(amounts),
            Err(e) => Err(RouterError::HelperError(e)),
        }
    }

    /// The amounts along a path for `amount_out` of its last token.
    pub fn get_amounts_in(&self, pools: &Vec<Pool>, amount_out: Balance, path: &Vec<AccountId>) -> (result:
        Result<Vec<Balance>, RouterError>)
        ensures
            match amounts_in(pools@, amount_out, path@) {
                Ok(amounts) => result is Ok && result->Ok_0@ == amounts,
                Err(e) => result == Err::<Vec<Balance>, RouterError>(RouterError::HelperError(e)),
            },
    {
        match get_amounts_in(pools, amount_out, path) {
            Ok(amounts) => Ok(amounts),
            Err(e) => Err(RouterError::HelperError(e)),
        }
    }

    /// How much of two tokens to deposit, and whether their pool has yet
    /// to be created.
    pub fn _add_liquidity(
        &self,
        pools: &Vec<Pool>,
        token_a: AccountId,
        token_b: AccountId,
        amount_a_desired: Balance,
        amount_b_desired: Balance,
        amount_a_min: Balance,
        amount_b_min: Balance,
    ) -> (result: Result<(Balance, Balance, bool), RouterError>)
        ensures
            result == deposit_amounts(
                pools@,
                token_a,
                token_b,
                amount_a_desired,
                amount_b_desired,
                amount_a_min,
                amount_b_min,
            ),
            result is Ok ==> result->Ok_0.0 <= amount_a_desired && result->Ok_0.1
                <= amount_b_desired,
    {
        if find_pool(pools, token_a, token_b).is_none() {
            return match sort_tokens(token_a, token_b) {
                Ok(_) => Ok((amount_a_desired, amount_b_desired, true)),
                Err(HelperError::IdenticalAddresses) => Err(
                    RouterError::FactoryError(FactoryError::IdenticalAddresses),
                ),
                Err(_) => Err(RouterError::FactoryError(FactoryError::ZeroAddress)),
            };
        }
        let (reserve_a, reserve_b) = match get_reserves(pools, token_a, token_b) {
            Ok(reserves) => reserves,
            Err(e) => {
                return Err(RouterError::HelperError(e));
            },
        };
        match amounts_to_deposit(
            reserve_a,
            reserve_b,
            amount_a_desired,
            amount_b_desired,
            amount_a_min,
            amount_b_min,
        ) {
            Ok((amount_a, amount_b)) => Ok((amount_a, amount_b, false)),
            Err(e) => Err(e),
        }
    }
    /// Sizes a deposit of two tokens from `caller` and says which calls
    /// carry it out. A call whose deadline has passed is refused before
    /// anything else is looked at.
    pub fn add_liquidity(
        &self,
        pools: &Vec<Pool>,
        token_a: AccountId,
        token_b: AccountId,
        amount_a_desired: Balance,
        amount_b_desired: Balance,
        amount_a_min: Balance,
        amount_b_min: Balance,
        to: AccountId,
        deadline: u64,
        now: Timestamp,
        caller: AccountId,
    ) -> (result: Result<Deposit, RouterError>)
        ensures
            !in_time(deadline, now) ==> result == Err::<Deposit, RouterError>(RouterError::Expired),
            in_time(deadline, now) ==> match deposit_amounts(
                pools@,
                token_a,
                token_b,
                amount_a_desired,
                amount_b_desired,
                amount_a_min,
                amount_b_min,
            ) {
                Ok((amount_a, amount_b, create)) => {
                    &&& result is Ok
                    &&& result->Ok_0.amount_a == amount_a
                    &&& result->Ok_0.amount_b == amount_b
                    &&& result->Ok_0.calls@ == deposit_calls(
                        token_a,
                        token_b,
                        amount_a,
                        amount_b,
                        create,
                        caller,
                        to,
                    )
                },
                Err(e) => result == Err::<Deposit, RouterError>(e),
            },
    {
        match ensure(deadline, now) {
            Err(e) => {
                return Err(e);
            },
            Ok(()) => {},
        }
        let (amount_a, amount_b, create) = match self._add_liquidity(
            pools,
            token_a,
            token_b,
            amount_a_desired,
            amount_b_desired,
            amount_a_min,
            amount_b_min,
        ) {
            Ok(amounts) => amounts,
            Err(e) => {
                return Err(e);
            },
        };
        let pair = Account::PairFor(token_a, token_b);
        let mut calls: Vec<Call> = Vec::new();
        if create {
            calls.push(Call::CreatePair { token_a, token_b });
        }
        calls.push(
            Call::TransferFrom { token: Account::Id(token_a), from: caller, to: pair, value: amount_a },
        );
        calls.push(
            Call::TransferFrom { token: Account::Id(token_b), from: caller, to: pair, value: amount_b },
        );
        calls.push(Call::Mint { token_a, token_b, to });
        Ok(Deposit { amount_a, amount_b, calls })
    }

    /// Sizes a deposit of a token from `caller` and of the native asset
    /// that came with the call, `received_value`, and says which calls
    /// carry it out. A call whose deadline has passed is refused before
    /// anything else is looked at.
    pub fn add_liquidity_native(
        &self,
        pools: &Vec<Pool>,
        token: AccountId,
        amount_token_desired: Balance,
        amount_token_min: Balance,
        amount_native_min: Balance,
        to: AccountId,
        deadline: u64,
        now: Timestamp,
        caller: AccountId,
        received_value: Balance,
    ) -> (result: Result<Deposit, RouterError>)
        ensures
            !in_time(deadline, now) ==> result == Err::<Deposit, RouterError>(RouterError::Expired),
            in_time(deadline, now) ==> match deposit_amounts(
                pools@,
                token,
                self.data.wnative,
                amount_token_desired,
                received_value,
                amount_token_min,
                amount_native_min,
            ) {
                Ok((amount_token, amount_native, create)) => {
                    &&& result is Ok
                    &&& result->Ok_0.amount_a == amount_token
                    &&& result->Ok_0.amount_b == amount_native
                    &&& result->Ok_0.calls@ == native_deposit_calls(
                        token,
                        self.data.wnative,
                        amount_token,
                        amount_native,
                        received_value,
                        create,
                        caller,
                        to,
                    )
                },
                Err(e) => result == Err::<Deposit, RouterError>(e),
            },
    {
        match ensure(deadline, now) {
            Err(e) => {
                return Err(e);
            },
            Ok(()) => {},
        }
        let wnative = self.data.wnative;
        let (amount_token, amount_native, create) = match self._add_liquidity(
            pools,
            token,
            wnative,
            amount_token_desired,
            received_value,
            amount_token_min,
            amount_native_min,
        ) {
            Ok(amounts) => amounts,
            Err(e) => {
                return Err(e);
            },
        };
        let pair = Account::PairFor(token, wnative);
        let mut calls: Vec<Call> = Vec::new();
        if create {
            calls.push(Call::CreatePair { token_a: token, token_b: wnative });
        }
        calls.push(
            Call::TransferFrom { token: Account::Id(token), from: caller, to: pair, value: amount_token },
        );
        calls.push(Call::Wrap { value: amount_native });
        calls.push(Call::Transfer { token: wnative, to: pair, value: amount_native });
        calls.push(Call::Mint { token_a: token, token_b: wnative, to });
        if received_value > amount_native {
            calls.push(Call::TransferNative { to: caller, value: received_value - amount_native });
        }
        proof {
            assert(calls@ =~= native_deposit_calls(
                token,
                wnative,
                amount_token,
                amount_native,
                received_value,
                create,
                caller,
                to,
            ));
        }
        Ok(Deposit { amount_a: amount_token, amount_b: amount_native, calls })
    }

    /// Says which calls withdraw `liquidity` of `caller` from the pool of
    /// two tokens, to be paid to `to`. What the pool pays is then put in
    /// order and held against the minimal amounts by
    /// `remove_liquidity_amounts`. A call whose deadline has passed is
    /// refused before anything else is looked at.
    pub fn remove_liquidity(
        &self,
        token_a: AccountId,
        token_b: AccountId,
        liquidity: Balance,
        to: AccountId,
        deadline: u64,
        now: Timestamp,
        caller: AccountId,
    ) -> (result: Result<Vec<Call>, RouterError>)
        ensures
            !in_time(deadline, now) ==> result == Err::<Vec<Call>, RouterError>(
                RouterError::Expired,
            ),
            in_time(deadline, now) ==> match sorted_tokens(token_a, token_b) {
                Ok(_) => result is Ok && result->Ok_0@ == withdrawal_calls(
                    token_a,
                    token_b,
                    liquidity,
                    caller,
                    to,
                ),
                Err(e) => result == Err::<Vec<Call>, RouterError>(RouterError::HelperError(e)),
            },
    {
        match ensure(deadline, now) {
            Err(e) => {
                return Err(e);
            },
            Ok(()) => {},
        }
        match sort_tokens(token_a, token_b) {
            Err(e) => {
                return Err(RouterError::HelperError(e));
            },
            Ok(_) => {},
        }
        let pair = Account::PairFor(token_a, token_b);
        let mut calls: Vec<Call> = Vec::new();
        calls.push(Call::TransferFrom { token: pair, from: caller, to: pair, value: liquidity });
        calls.push(Call::Burn { token_a, token_b, to });
        Ok(calls)
    }

    /// Puts what a pool paid for a withdrawal, `amount_0` and `amount_1` in
    /// the pool's order, in the order in which the tokens were named, and
    /// refuses an amount under its minimum.
    pub fn remove_liquidity_amounts(
        &self,
        token_a: AccountId,
        token_b: AccountId,
        amount_0: Balance,
        amount_1: Balance,
        amount_a_min: Balance,
        amount_b_min: Balance,
    ) -> (result: Result<(Balance, Balance), RouterError>)
        ensures
            result == withdrawn_amounts(
                token_a,
                token_b,
                amount_0,
                amount_1,
                amount_a_min,
                amount_b_min,
            ),
    {
        let (token_0, _) = match sort_tokens(token_a, token_b) {
            Ok(sorted) => sorted,
            Err(e) => {
                return Err(RouterError::HelperError(e));
            },
        };
        let (amount_a, amount_b) = if token_a == token_0 {
            (amount_0, amount_1)
        } else {
            (amount_1, amount_0)
        };
        if amount_a < amount_a_min {
            return Err(RouterError::InsufficientAAmount);
        }
        if amount_b < amount_b_min {
            return Err(RouterError::InsufficientBAmount);
        }
        Ok((amount_a, amount_b))
    }

    /// Says which calls withdraw `liquidity` of `caller` from the pool of
    /// a token and the wrapped native asset. The pool pays the router,
    /// whose account is `router`; `remove_liquidity_native_payout` says how
    /// that is passed on. A call whose deadline has passed is refused
    /// before anything else is looked at.
    pub fn remove_liquidity_native(
        &self,
        token: AccountId,
        liquidity: Balance,
        deadline: u64,
        now: Timestamp,
        caller: AccountId,
        router: AccountId,
    ) -> (result: Result<Vec<Call>, RouterError>)
        ensures
            !in_time(deadline, now) ==> result == Err::<Vec<Call>, RouterError>(
                RouterError::Expired,
            ),
            in_time(deadline, now) ==> match sorted_tokens(token, self.data.wnative) {
                Ok(_) => result is Ok && result->Ok_0@ == withdrawal_calls(
                    token,
                    self.data.wnative,
                    liquidity,
                    caller,
                    router,
                ),
                Err(e) => result == Err::<Vec<Call>, RouterError>(RouterError::HelperError(e)),
            },
    {
        self.remove_liquidity(token, self.data.wnative, liquidity, router, deadline, now, caller)
    }

    /// Says how the router passes on what the pool of a token and the
    /// wrapped native asset paid it for a withdrawal: the token goes to
    /// `to`, and the wrapped amount is unwrapped and goes to `to`. An
    /// amount under its minimum is refused.
    pub fn remove_liquidity_native_payout(
        &self,
        token: AccountId,
        amount_0: Balance,
        amount_1: Balance,
        amount_token_min: Balance,
        amount_native_min: Balance,
        to: AccountId,
    ) -> (result: Result<Payout, RouterError>)
        ensures
            match withdrawn_amounts(
                token,
                self.data.wnative,
                amount_0,
                amount_1,
                amount_token_min,
                amount_native_min,
            ) {
                Ok((amount_token, amount_native)) => {
                    &&& result is Ok
                    &&& result->Ok_0.amount_token == amount_token
                    &&& result->Ok_0.amount_native == amount_native
                    &&& result->Ok_0.calls@ == seq![
                        Call::Transfer { token, to: Account::Id(to), value: amount_token },
                    ] + paying_native(to, amount_native)
                },
                Err(e) => result == Err::<Payout, RouterError>(e),
            },
    {
        let (amount_token, amount_native) = match self.remove_liquidity_amounts(
            token,
            self.data.wnative,
            amount_0,
            amount_1,
            amount_token_min,
            amount_native_min,
        ) {
            Ok(amounts) => amounts,
            Err(e) => {
                return Err(e);
            },
        };
        let mut calls: Vec<Call> = Vec::new();
        calls.push(Call::Transfer { token, to: Account::Id(to), value: amount_token });
        calls.push(Call::Unwrap { value: amount_native });
        calls.push(Call::TransferNative { to, value: amount_native });
        proof {
            assert(calls@ =~= seq![
                Call::Transfer { token, to: Account::Id(to), value: amount_token },
            ] + paying_native(to, amount_native));
        }
        Ok(Payout { amount_token, amount_native, calls })
    }

    /// Sizes a swap of `amount_in` of the first token of a path for at
    /// least `amount_out_min` of the last, and says which calls carry it
    /// out. A call whose deadline has passed is refused before anything
    /// else is looked at.
    pub fn swap_exact_tokens_for_tokens(
        &self,
        pools: &Vec<Pool>,
        amount_in: Balance,
        amount_out_min: Balance,
        path: &Vec<AccountId>,
        to: AccountId,
        deadline: u64,
        now: Timestamp,
        caller: AccountId,
    ) -> (result: Result<Route, RouterError>)
        ensures
            !in_time(deadline, now) ==> result == Err::<Route, RouterError>(RouterError::Expired),
            in_time(deadline, now) ==> route_is(
                result,
                exact_tokens_for_tokens(pools@, amount_in, amount_out_min, path@, to, caller),
            ),
    {
        match ensure(deadline, now) {
            Err(e) => {
                return Err(e);
            },
            Ok(()) => {},
        }
        let amounts = match get_amounts_out(pools, amount_in, path) {
            Ok(amounts) => amounts,
            Err(e) => {
                return Err(RouterError::HelperError(e));
            },
        };
        if amounts[amounts.len() - 1] < amount_out_min {
            return Err(RouterError::InsufficientOutputAmount);
        }
        let before = fund_from(path, caller, amounts[0]);
        route(before, amounts, path, to, Vec::new())
    }

    /// Sizes a swap of at most `amount_in_max` of the first token of a
    /// path for `amount_out` of the last, and says which calls carry it
    /// out. A call whose deadline has passed is refused before anything
    /// else is looked at.
    pub fn swap_tokens_for_exact_tokens(
        &self,
        pools: &Vec<Pool>,
        amount_out: Balance,
        amount_in_max: Balance,
        path: &Vec<AccountId>,
        to: AccountId,
        deadline: u64,
        now: Timestamp,
        caller: AccountId,
    ) -> (result: Result<Route, RouterError>)
        ensures
            !in_time(deadline, now) ==> result == Err::<Route, RouterError>(RouterError::Expired),
            in_time(deadline, now) ==> route_is(
                result,
                tokens_for_exact_tokens(pools@, amount_out, amount_in_max, path@, to, caller),
            ),
    {
        match ensure(deadline, now) {
            Err(e) => {
                return Err(e);
            },
            Ok(()) => {},
        }
        let amounts = match get_amounts_in(pools, amount_out, path) {
            Ok(amounts) => amounts,
            Err(e) => {
                return Err(RouterError::HelperError(e));
            },
        };
        if amounts[0] > amount_in_max {
            return Err(RouterError::ExcessiveInputAmount);
        }
        let before = fund_from(path, caller, amounts[0]);
        route(before, amounts, path, to, Vec::new())
    }

    /// Sizes a swap of the native asset that came with the call,
    /// `received_value`, for at least `amount_out_min` of the last token
    /// of a path, and says which calls carry it out. A call whose deadline
    /// has passed is refused before anything else is looked at.
    pub fn swap_exact_native_for_tokens(
        &self,
        pools: &Vec<Pool>,
        amount_out_min: Balance,
        path: &Vec<AccountId>,
        to: AccountId,
        deadline: u64,
        now: Timestamp,
        received_value: Balance,
    ) -> (result: Result<Route, RouterError>)
        ensures
            !in_time(deadline, now) ==> result == Err::<Route, RouterError>(RouterError::Expired),
            in_time(deadline, now) ==> route_is(
                result,
                exact_native_for_tokens(
                    pools@,
                    self.data.wnative,
                    received_value,
                    amount_out_min,
                    path@,
                    to,
                ),
            ),
    {
        match ensure(deadline, now) {
            Err(e) => {
                return Err(e);
            },
            Ok(()) => {},
        }
        let wnative = self.data.wnative;
        if path.len() == 0 || !(path[0] == wnative) {
            return Err(RouterError::InvalidPath);
        }
        let amounts = match get_amounts_out(pools, received_value, path) {
            Ok(amounts) => amounts,
            Err(e) => {
                return Err(RouterError::HelperError(e));
            },
        };
        if amounts[amounts.len() - 1] < amount_out_min {
            return Err(RouterError::InsufficientOutputAmount);
        }
        let before = fund_native(path, wnative, received_value, amounts[0]);
        route(before, amounts, path, to, Vec::new())
    }

    /// Sizes a swap of at most `amount_in_max` of the first token of a
    /// path for `amount_out` of the native asset, and says which calls
    /// carry it out; `router` is the router's own account. A call whose
    /// deadline has passed is refused before anything else is looked at.
    pub fn swap_tokens_for_exact_native(
        &self,
        pools: &Vec<Pool>,
        amount_out: Balance,
        amount_in_max: Balance,
        path: &Vec<AccountId>,
        to: AccountId,
        deadline: u64,
        now: Timestamp,
        caller: AccountId,
        router: AccountId,
    ) -> (result: Result<Route, RouterError>)
        ensures
            !in_time(deadline, now) ==> result == Err::<Route, RouterError>(RouterError::Expired),
            in_time(deadline, now) ==> route_is(
                result,
                tokens_for_exact_native(
                    pools@,
                    self.data.wnative,
                    amount_out,
                    amount_in_max,
                    path@,
                    to,
                    caller,
                    router,
                ),
            ),
    {
        match ensure(deadline, now) {
            Err(e) => {
                return Err(e);
            },
            Ok(()) => {},
        }
        let wnative = self.data.wnative;
        if path.len() == 0 || !(path[path.len() - 1] == wnative) {
            return Err(RouterError::InvalidPath);
        }
        let amounts = match get_amounts_in(pools, amount_out, path) {
            Ok(amounts) => amounts,
            Err(e) => {
                return Err(RouterError::HelperError(e));
            },
        };
        if amounts[0] > amount_in_max {
            return Err(RouterError::ExcessiveInputAmount);
        }
        let before = fund_from(path, caller, amounts[0]);
        let after = pay_native(to, amounts[amounts.len() - 1]);
        route(before, amounts, path, router, after)
    }

    /// Sizes a swap of `amount_in` of the first token of a path for at
    /// least `amount_out_min` of the native asset, and says which calls
    /// carry it out; `router` is the router's own account. A call whose
    /// deadline has passed is refused before anything else is looked at.
    pub fn swap_exact_tokens_for_native(
        &self,
        pools: &Vec<Pool>,
        amount_in: Balance,
        amount_out_min: Balance,
        path: &Vec<AccountId>,
        to: AccountId,
        deadline: u64,
        now: Timestamp,
        caller: AccountId,
        router: AccountId,
    ) -> (result: Result<Route, RouterError>)
        ensures
            !in_time(deadline, now) ==> result == Err::<Route, RouterError>(RouterError::Expired),
            in_time(deadline, now) ==> route_is(
                result,
                exact_tokens_for_native(
                    pools@,
                    self.data.wnative,
                    amount_in,
                    amount_out_min,
                    path@,
                    to,
                    caller,
                    router,
                ),
            ),
    {
        match ensure(deadline, now) {
            Err(e) => {
                return Err(e);
            },
            Ok(()) => {},
        }
        let wnative = self.data.wnative;
        if path.len() == 0 || !(path[path.len() - 1] == wnative) {
            return Err(RouterError::InvalidPath);
        }
        let amounts = match get_amounts_out(pools, amount_in, path) {
            Ok(amounts) => amounts,
            Err(e) => {
                return Err(RouterError::HelperError(e));
            },
        };
        if amounts[amounts.len() - 1] < amount_out_min {
            return Err(RouterError::InsufficientOutputAmount);
        }
        let before = fund_from(path, caller, amounts[0]);
        let after = pay_native(to, amounts[amounts.len() - 1]);
        route(before, amounts, path, router, after)
    }

    /// Sizes a swap of the native asset that came with the call,
    /// `received_value`, for `amount_out` of the last token of a path, and
    /// says which calls carry it out. A call whose deadline has passed is
    /// refused before anything else is looked at.
    pub fn swap_native_for_exact_tokens(
        &self,
        pools: &Vec<Pool>,
        amount_out: Balance,
        path: &Vec<AccountId>,
        to: AccountId,
        deadline: u64,
        now: Timestamp,
        caller: AccountId,
        received_value: Balance,
    ) -> (result: Result<Route, RouterError>)
        ensures
            !in_time(deadline, now) ==> result == Err::<Route, RouterError>(RouterError::Expired),
            in_time(deadline, now) ==> route_is(
                result,
                native_for_exact_tokens(
                    pools@,
                    self.data.wnative,
                    received_value,
                    amount_out,
                    path@,
                    to,
                    caller,
                ),
            ),
    {
        match ensure(deadline, now) {
            Err(e) => {
                return Err(e);
            },
            Ok(()) => {},
        }
        let wnative = self.data.wnative;
        if path.len() == 0 || !(path[0] == wnative) {
            return Err(RouterError::InvalidPath);
        }
        let amounts = match get_amounts_in(pools, amount_out, path) {
            Ok(amounts) => amounts,
            Err(e) => {
                return Err(RouterError::HelperError(e));
            },
        };
        if amounts[0] > received_value {
            return Err(RouterError::ExcessiveInputAmount);
        }
        let before = fund_native(path, wnative, amounts[0], amounts[0]);
        let mut after: Vec<Call> = Vec::new();
        if received_value > amounts[0] {
            after.push(Call::TransferNative { to: caller, value: received_value - amounts[0] });
        }
        proof {
            assert(after@ =~= if received_value > amounts[0] {
                seq![
                    Call::TransferNative {
                        to: caller,
                        value: (received_value - amounts[0]) as u128,
                    },
                ]
            } else {
                Seq::<Call>::empty()
            });
        }
        route(before, amounts, path, to, after)
    }
}

/// What a pool pays out by the router's reckoning it grants by its own:
/// with `amount` more of one token and the amount paid out less of the
/// other, the balances, the fee taken off, multiply to no less than the
/// reserves did.
pub proof fn lemma_paid_out_holds_the_product(amount: Balance, reserve_in: Balance, reserve_out: Balance)
    requires
        amount_paid_out(amount, reserve_in, reserve_out) is Ok,
        reserve_in + amount <= u128::MAX,
    ensures
        ({
            let paid = amount_paid_out(amount, reserve_in, reserve_out)->Ok_0;
            &&& paid <= reserve_out
            &&& fee_adjusted((reserve_in + amount) as u128, amount as nat) * fee_adjusted(
                (reserve_out - paid) as u128,
                0,
            ) >= reserve_in * reserve_out * 1000 * 1000
        }),
{
    let x = amount as int;
    let ri = reserve_in as int;
    let ro = reserve_out as int;
    let n = x * 997 * ro;
    let d = ri * 1000 + x * 997;
    lemma_share_bounded(x * 997, ro, d);
    let paid = n / d;
    vstd::arithmetic::div_mod::lemma_fundamental_div_mod(n, d);
    assert(((ri + x) * 1000 - x * 3) * ((ro - paid) * 1000 - 0 * 3) >= ri * ro * 1000 * 1000)
        by (nonlinear_arith)
        requires
            n == d * paid + n % d,
            n % d >= 0,
            n == x * 997 * ro,
            d == ri * 1000 + x * 997,
    ;
}

/// What a pool asks for by the router's reckoning satisfies it by its own:
/// with the amount asked more of one token and `amount` less of the other,
/// the balances, the fee taken off, multiply to no less than the reserves
/// did.
pub proof fn lemma_asked_in_holds_the_product(amount: Balance, reserve_in: Balance, reserve_out: Balance)
    requires
        amount_asked_in(amount, reserve_in, reserve_out) is Ok,
        reserve_in + amount_asked_in(amount, reserve_in, reserve_out)->Ok_0 <= u128::MAX,
    ensures
        ({
            let asked = amount_asked_in(amount, reserve_in, reserve_out)->Ok_0;
            &&& amount < reserve_out
            &&& fee_adjusted((reserve_in + asked) as u128, asked as nat) * fee_adjusted(
                (reserve_out - amount) as u128,
                0,
            ) >= reserve_in * reserve_out * 1000 * 1000
        }),
{
    let y = amount as int;
    let ri = reserve_in as int;
    let ro = reserve_out as int;
    let n = ri * y * 1000;
    let d = (ro - y) * 997;
    assert(d > 0) by (nonlinear_arith)
        requires
            d == (ro - y) * 997,
            y < ro,
    ;
    let asked = n / d + 1;
    vstd::arithmetic::div_mod::lemma_fundamental_div_mod(n, d);
    assert(((ri + asked) * 1000 - asked * 3) * ((ro - y) * 1000 - 0 * 3) >= ri * ro * 1000 * 1000)
        by (nonlinear_arith)
        requires
            n == d * (asked - 1) + n % d,
            n % d < d,
            n == ri * y * 1000,
            d == (ro - y) * 997,
            y < ro,
    ;
}

/// Neither amount of a deposit exceeds what was desired, and one of them
/// is what was desired.
pub proof fn lemma_optimal_amounts_bounded(
    reserve_a: Balance,
    reserve_b: Balance,
    amount_a_desired: Balance,
    amount_b_desired: Balance,
    amount_a_min: Balance,
    amount_b_min: Balance,
)
    requires
        optimal_amounts(
            reserve_a,
            reserve_b,
            amount_a_desired,
            amount_b_desired,
            amount_a_min,
            amount_b_min,
        ) is Ok,
    ensures
        ({
            let amounts = optimal_amounts(
                reserve_a,
                reserve_b,
                amount_a_desired,
                amount_b_desired,
                amount_a_min,
                amount_b_min,
            )->Ok_0;
            &&& amounts.0 <= amount_a_desired
            &&& amounts.1 <= amount_b_desired
            &&& amounts.0 == amount_a_desired || amounts.1 == amount_b_desired
        }),
{
    let amount_b_optimal = quoted(amount_a_desired, reserve_a, reserve_b);
    if !(reserve_a == 0 && reserve_b == 0) && amount_b_optimal->Ok_0 > amount_b_desired {
        lemma_other_side_fits(
            amount_a_desired as int,
            amount_b_desired as int,
            reserve_a as int,
            reserve_b as int,
        );
    }
}

/// Liquidity taken out of a pool that holds just its reserves, and the
/// amounts paid for it offered back at once as a deposit, restore the
/// reserves up to rounding: neither reserve ends above where it was, and
/// one of them ends just where it was.
pub proof fn lemma_remove_then_add_restores(
    pool: Pair,
    liquidity: Balance,
    fee_on: bool,
    amount_0_min: Balance,
    amount_1_min: Balance,
)
    requires
        burn_outcome(pool, pool.data.reserve_0, pool.data.reserve_1, liquidity, fee_on) is Ok,
        ({
            let paid = burn_outcome(
                pool,
                pool.data.reserve_0,
                pool.data.reserve_1,
                liquidity,
                fee_on,
            )->Ok_0;
            optimal_amounts(
                (pool.data.reserve_0 - paid.amount_0) as u128,
                (pool.data.reserve_1 - paid.amount_1) as u128,
                paid.amount_0,
                paid.amount_1,
                amount_0_min,
                amount_1_min,
            ) is Ok
        }),
    ensures
        ({
            let paid = burn_outcome(
                pool,
                pool.data.reserve_0,
                pool.data.reserve_1,
                liquidity,
                fee_on,
            )->Ok_0;
            let back = optimal_amounts(
                (pool.data.reserve_0 - paid.amount_0) as u128,
                (pool.data.reserve_1 - paid.amount_1) as u128,
                paid.amount_0,
                paid.amount_1,
                amount_0_min,
                amount_1_min,
            )->Ok_0;
            let reserve_0 = pool.data.reserve_0 - paid.amount_0 + back.0;
            let reserve_1 = pool.data.reserve_1 - paid.amount_1 + back.1;
            &&& paid.amount_0 <= pool.data.reserve_0
            &&& paid.amount_1 <= pool.data.reserve_1
            &&& reserve_0 <= pool.data.reserve_0
            &&& reserve_1 <= pool.data.reserve_1
            &&& reserve_0 == pool.data.reserve_0 || reserve_1 == pool.data.reserve_1
        }),
{
    let paid = burn_outcome(pool, pool.data.reserve_0, pool.data.reserve_1, liquidity, fee_on)->Ok_0;
    let fee = fee_liquidity(
        pool.data.k_last@,
        pool.total_supply,
        pool.data.reserve_0,
        pool.data.reserve_1,
        fee_on,
    );
    let supply = (pool.total_supply + fee->Ok_0) as int;
    lemma_share_bounded(liquidity as int, pool.data.reserve_0 as int, supply);
    lemma_share_bounded(liquidity as int, pool.data.reserve_1 as int, supply);
    lemma_optimal_amounts_bounded(
        (pool.data.reserve_0 - paid.amount_0) as u128,
        (pool.data.reserve_1 - paid.amount_1) as u128,
        paid.amount_0,
        paid.amount_1,
        amount_0_min,
        amount_1_min,
    );
}

impl From<PSP22Error> for RouterError {
    fn from(error: PSP22Error) -> (wrapped: RouterError) {
        RouterError::PSP22Error(error)
    }
}

impl vstd::std_specs::convert::FromSpecImpl<PSP22Error> for RouterError {
    open spec fn obeys_from_spec() -> bool {
        true
    }

    open spec fn from_spec(error: PSP22Error) -> RouterError {
        RouterError::PSP22Error(error)
    }
}

impl From<FactoryError> for RouterError {
    fn from(error: FactoryError) -> (wrapped: RouterError) {
        RouterError::FactoryError(error)
    }
}

impl vstd::std_specs::convert::FromSpecImpl<FactoryError> for RouterError {
    open spec fn obeys_from_spec() -> bool {
        true
    }

    open spec fn from_spec(error: FactoryError) -> RouterError {
        RouterError::FactoryError(error)
    }
}

impl From<PairError> for RouterError {
    fn from(error: PairError) -> (wrapped: RouterError) {
        RouterError::PairError(error)
    }
}

impl vstd::std_specs::convert::FromSpecImpl<PairError> for RouterError {
    open spec fn obeys_from_spec() -> bool {
        true
    }

    open spec fn from_spec(error: PairError) -> RouterError {
        RouterError::PairError(error)
    }
}

impl From<HelperError> for RouterError {
    fn from(error: HelperError) -> (wrapped: RouterError) {
        RouterError::HelperError(error)
    }
}

impl vstd::std_specs::convert::FromSpecImpl<HelperError> for RouterError {
    open spec fn obeys_from_spec() -> bool {
        true
    }

    open spec fn from_spec(error: HelperError) -> RouterError {
        RouterError::HelperError(error)
    }
}

impl From<TransferHelperError> for RouterError {
    fn from(error: TransferHelperError) -> (wrapped: RouterError) {
        RouterError::TransferHelperError(error)
    }
}

impl vstd::std_specs::convert::FromSpecImpl<TransferHelperError> for RouterError {
    open spec fn obeys_from_spec() -> bool {
        true
    }

    open spec fn from_spec(error: TransferHelperError) -> RouterError {
        RouterError::TransferHelperError(error)
    }
}

} // verus!
