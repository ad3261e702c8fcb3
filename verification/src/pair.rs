//! The pool of two tokens: its reserves, its price accumulators, and the
//! rules by which liquidity is minted and burned and tokens are swapped.
//!
//! A pool moves no token itself. Whoever runs it takes the guard with
//! `enter`, reads what the pool holds of its tokens, and hands the guard
//! in to the operation, which names what is to be minted, burned or paid
//! and releases the guard. A swap and a withdrawal pay out before they are
//! settled: `swap_request` and `burn` come before the payment and hand the
//! guard back, `swap` and `burn_settle` come after it.

use crate::errors::{OwnableError, PSP22Error, PausableError, ReentrancyGuardError};
use crate::math::{
    casted_mul, fixed_from_rational, fixed_ratio, integer_sqrt, lemma_share_bounded, sqrt,
    sqrt_wide, u256_checked_mul, u256_from_u128, u256_ge, u256_saturating_add,
    u256_saturating_mul,
};
use crate::types::{u256_max, AccountId, Balance, Timestamp, WrappedU256};
use vstd::prelude::*;

verus! {

/// Liquidity that the first deposit of a pool leaves locked for ever.
pub const MINIMUM_LIQUIDITY: u128 = 1000;

/// Why a pool refused a call.
#[derive(Clone, Debug, PartialEq, Eq)]
pub enum PairError {
    PSP22Error(PSP22Error),
    OwnableError(OwnableError),
    PausableError(PausableError),
    ReentrancyGuardError(ReentrancyGuardError),
    K,
    InsufficientLiquidityMinted,
    InsufficientLiquidityBurned,
    InsufficientOutputAmount,
    InsufficientLiquidity,
    InsufficientInputAmount,
    SafeTransferFailed,
    InvalidTo,
    Overflow,
    Locked,
    SubUnderFlow1,
    SubUnderFlow2,
    SubUnderFlow3,
    SubUnderFlow4,
    SubUnderFlow5,
    SubUnderFlow6,
    SubUnderFlow7,
    SubUnderFlow8,
    SubUnderFlow9,
    SubUnderFlow10,
    SubUnderFlow11,
    SubUnderFlow12,
    SubUnderFlow13,
    SubUnderFlow14,
    MulOverFlow1,
    MulOverFlow2,
    MulOverFlow3,
    MulOverFlow4,
    MulOverFlow5,
    MulOverFlow6,
    MulOverFlow7,
    MulOverFlow8,
    MulOverFlow9,
    MulOverFlow10,
    MulOverFlow11,
    MulOverFlow12,
    MulOverFlow13,
    MulOverFlow14,
    DivByZero1,
    DivByZero2,
    DivByZero3,
    DivByZero4,
    DivByZero5,
    AddOverflow1,
    CastOverflow1,
    CastOverflow2,
    AlreadyInitialized,
    InvalidTokens,
}

/// What a pool keeps between calls about its two tokens.
#[derive(Clone, Copy, Debug, PartialEq, Eq)]
pub struct Data {
    pub factory: AccountId,
    pub token_0: AccountId,
    pub token_1: AccountId,
    pub reserve_0: Balance,
    pub reserve_1: Balance,
    pub block_timestamp_last: Timestamp,
    pub price_0_cumulative_last: WrappedU256,
    pub price_1_cumulative_last: WrappedU256,
    pub k_last: WrappedU256,
}

impl Default for Data {
    fn default() -> (data: Data)
        ensures
            data.factory.spec_is_zero(),
            data.token_0.spec_is_zero(),
            data.token_1.spec_is_zero(),
            data.reserve_0 == 0,
            data.reserve_1 == 0,
            data.block_timestamp_last == 0,
            data.price_0_cumulative_last@ == 0,
            data.price_1_cumulative_last@ == 0,
            data.k_last@ == 0,
    {
        Data {
            factory: AccountId::zero(),
            token_0: AccountId::zero(),
            token_1: AccountId::zero(),
            reserve_0: 0,
            reserve_1: 0,
            block_timestamp_last: 0,
            price_0_cumulative_last: WrappedU256::zero(),
            price_1_cumulative_last: WrappedU256::zero(),
            k_last: WrappedU256::zero(),
        }
    }
}

/// The smaller of two amounts.
pub fn min(x: u128, y: u128) -> (least: u128)
    ensures
        least == if x < y {
            x
        } else {
            y
        },
{
    if x < y {
        return x;
    }
    y
}

/// A 256-bit sum or product that stops at the largest 256-bit value.
pub open spec fn saturated(x: nat) -> nat {
    if x <= u256_max() {
        x
    } else {
        u256_max()
    }
}

/// A price accumulator after `elapsed` units of time at the price `n / d`.
/// The price counts in units of `1 / PRICE_ACCURACY` and is rounded down; a
/// price that does not exist (`d` is zero) or does not fit in 128 bits
/// counts as zero. Product and sum stop at the largest 256-bit value.
pub open spec fn accumulated_price(last: nat, n: nat, d: nat, elapsed: nat) -> nat {
    let price = match fixed_ratio(n, d) {
        Some(p) => p,
        None => 0,
    };
    saturated(saturated(price * elapsed) + last)
}

/// Both price accumulators after `time_elapsed` at the given reserves: the
/// first follows the price of token 0 in token 1, the second the reverse.
pub fn update_cumulative(
    price_0_cumulative_last: WrappedU256,
    price_1_cumulative_last: WrappedU256,
    time_elapsed: WrappedU256,
    reserve_0: Balance,
    reserve_1: Balance,
) -> (next: (WrappedU256, WrappedU256))
    ensures
        next.0@ == accumulated_price(
            price_0_cumulative_last@,
            reserve_1 as nat,
            reserve_0 as nat,
            time_elapsed@,
        ),
        next.1@ == accumulated_price(
            price_1_cumulative_last@,
            reserve_0 as nat,
            reserve_1 as nat,
            time_elapsed@,
        ),
        next.0@ >= price_0_cumulative_last@,
        next.1@ >= price_1_cumulative_last@,
{
    let price_0: u128 = match fixed_from_rational(reserve_1, reserve_0) {
        Some(p) => p,
        None => 0,
    };
    let price_1: u128 = match fixed_from_rational(reserve_0, reserve_1) {
        Some(p) => p,
        None => 0,
    };
    let next_0 = u256_saturating_add(
        u256_saturating_mul(u256_from_u128(price_0), time_elapsed),
        price_0_cumulative_last,
    );
    let next_1 = u256_saturating_add(
        u256_saturating_mul(u256_from_u128(price_1), time_elapsed),
        price_1_cumulative_last,
    );
    (next_0, next_1)
}

/// The time between two readings of the clock; none where the clock went
/// back.
pub open spec fn time_elapsed(now: Timestamp, last: Timestamp) -> nat {
    if now >= last {
        (now - last) as nat
    } else {
        0
    }
}

impl Data {
    /// `next` is this state settled at time `now` on the balances given:
    /// they are the new reserves, and where time has passed since the last
    /// settlement the accumulators have moved on at the prices of
    /// `reserve_0` and `reserve_1`. The tokens and the factory are the same;
    /// of the product snapshot nothing is said.
    pub open spec fn settled_as(
        self,
        next: Data,
        balance_0: Balance,
        balance_1: Balance,
        reserve_0: Balance,
        reserve_1: Balance,
        now: Timestamp,
    ) -> bool {
        let elapsed = time_elapsed(now, self.block_timestamp_last);
        &&& next.factory == self.factory
        &&& next.token_0 == self.token_0
        &&& next.token_1 == self.token_1
        &&& next.reserve_0 == balance_0
        &&& next.reserve_1 == balance_1
        &&& next.block_timestamp_last == now
        &&& next.price_0_cumulative_last@ == if now != self.block_timestamp_last {
            accumulated_price(
                self.price_0_cumulative_last@,
                reserve_1 as nat,
                reserve_0 as nat,
                elapsed,
            )
        } else {
            self.price_0_cumulative_last@
        }
        &&& next.price_1_cumulative_last@ == if now != self.block_timestamp_last {
            accumulated_price(
                self.price_1_cumulative_last@,
                reserve_0 as nat,
                reserve_1 as nat,
                elapsed,
            )
        } else {
            self.price_1_cumulative_last@
        }
        &&& next.price_0_cumulative_last@ >= self.price_0_cumulative_last@
        &&& next.price_1_cumulative_last@ >= self.price_1_cumulative_last@
    }
}

/// A pool of two tokens: what it keeps about them, who may initialize it,
/// how much liquidity is outstanding, and the guard against nested calls.
#[derive(Clone, Copy, Debug, PartialEq, Eq)]
pub struct Pair {
    pub data: Data,
    pub owner: AccountId,
    pub total_supply: Balance,
    pub initialized: bool,
    pub entered: bool,
}

/// Where a pool stands in its life.
#[derive(Clone, Copy, Debug, PartialEq, Eq, Structural)]
pub enum Status {
    Uninitialized,
    Initialized,
    Locked,
}

/// The guard of a pool, taken. Only `enter` hands it out, and only while
/// nobody holds it; the operation that it is handed in to releases the
/// guard when it is done, or hands it on to the step that completes it.
#[derive(Debug, PartialEq, Eq)]
pub struct Entered {
    sealed: (),
}

/// One thing that is to be done for a pool on the ledgers: that of a token
/// or that of the pool's own claim.
#[allow(inconsistent_fields)]
#[derive(Clone, Copy, Debug, PartialEq, Eq)]
pub enum Action {
    /// `amount` of `token` goes from the pool to `to`.
    Transfer { token: AccountId, to: AccountId, amount: Balance },
    /// `amount` of the pool's claim is minted for `to`.
    Mint { to: AccountId, amount: Balance },
    /// `amount` of the pool's claim, which the pool itself holds, is burned.
    Burn { amount: Balance },
}

/// What a swap took in and gave out, and to whom.
#[derive(Clone, Copy, Debug, PartialEq, Eq)]
pub struct Swapped {
    pub amount_0_in: Balance,
    pub amount_1_in: Balance,
    pub amount_0_out: Balance,
    pub amount_1_out: Balance,
    pub to: AccountId,
}

/// What a pool received of a token during a swap: what it holds beyond the
/// reserve less the amount sent out.
pub open spec fn amount_received(balance: Balance, reserve: Balance, amount_out: Balance) -> nat {
    if balance > reserve - amount_out {
        (balance - (reserve - amount_out)) as nat
    } else {
        0
    }
}

/// A balance with the fee of 3 per 1000 on what came in taken off, in
/// thousandths.
pub open spec fn fee_adjusted(balance: Balance, amount_in: nat) -> int {
    balance * 1000 - amount_in * 3
}

/// Whether a pool with this state sends the outputs asked for to `to`: at
/// least one is positive and each is less than its reserve, for want of
/// which the pool has not the liquidity; and `to` is neither token.
pub open spec fn swap_request(
    data: Data,
    amount_0_out: Balance,
    amount_1_out: Balance,
    to: AccountId,
) -> Result<(), PairError> {
    if (amount_0_out == 0 && amount_1_out == 0) || amount_0_out >= data.reserve_0 || amount_1_out
        >= data.reserve_1 {
        Err(PairError::InsufficientLiquidity)
    } else if to == data.token_0 || to == data.token_1 {
        Err(PairError::InvalidTo)
    } else {
        Ok(())
    }
}

/// What a swap comes to once the outputs are sent and the pool holds
/// `balance_0` and `balance_1`: the amounts that came in, or the reason for
/// which the swap is refused.
pub open spec fn swap_outcome(
    data: Data,
    amount_0_out: Balance,
    amount_1_out: Balance,
    to: AccountId,
    balance_0: Balance,
    balance_1: Balance,
) -> Result<(nat, nat), PairError> {
    let in_0 = amount_received(balance_0, data.reserve_0, amount_0_out);
    let in_1 = amount_received(balance_1, data.reserve_1, amount_1_out);
    if swap_request(data, amount_0_out, amount_1_out, to) is Err {
        Err(swap_request(data, amount_0_out, amount_1_out, to)->Err_0)
    } else if in_0 == 0 && in_1 == 0 {
        Err(PairError::InsufficientInputAmount)
    } else if balance_0 * 1000 > u128::MAX {
        Err(PairError::MulOverFlow7)
    } else if balance_1 * 1000 > u128::MAX {
        Err(PairError::MulOverFlow9)
    } else if data.reserve_0 * data.reserve_1 * 1_000_000 > u256_max() {
        Err(PairError::MulOverFlow14)
    } else if fee_adjusted(balance_0, in_0) * fee_adjusted(balance_1, in_1) < data.reserve_0
        * data.reserve_1 * 1_000_000 {
        Err(PairError::K)
    } else {
        Ok((in_0, in_1))
    }
}


/// The liquidity owed to the fee recipient before liquidity is minted or
/// burned: where the fee is on and the square root of the product of the
/// reserves has grown beyond that of the snapshot `k_last`, the share
/// `total_supply * (root_k - root_k_last) / (5 * root_k + root_k_last)`;
/// nothing where the fee is off, no snapshot was taken, or the root has not
/// grown. It is refused where a step of the computation, or the supply with
/// the share added, exceeds 128 bits.
pub open spec fn fee_liquidity(
    k_last: nat,
    total_supply: Balance,
    reserve_0: Balance,
    reserve_1: Balance,
    fee_on: bool,
) -> Result<Balance, PairError> {
    let root_k = integer_sqrt((reserve_0 * reserve_1) as nat) as int;
    let root_k_last = integer_sqrt(k_last) as int;
    if !fee_on || k_last == 0 || root_k <= root_k_last {
        Ok(0)
    } else if total_supply * (root_k - root_k_last) > u128::MAX {
        Err(PairError::MulOverFlow13)
    } else if root_k * 5 > u128::MAX {
        Err(PairError::MulOverFlow13)
    } else if root_k * 5 + root_k_last > u128::MAX {
        Err(PairError::AddOverflow1)
    } else if total_supply + total_supply * (root_k - root_k_last) / (5 * root_k + root_k_last)
        > u128::MAX {
        Err(PairError::Overflow)
    } else {
        Ok((total_supply * (root_k - root_k_last) / (5 * root_k + root_k_last)) as u128)
    }
}

/// What a deposit mints.
#[derive(Clone, Copy, Debug, PartialEq, Eq)]
pub struct Minted {
    /// The liquidity that goes to the depositor.
    pub liquidity: Balance,
    /// The liquidity that goes to the fee recipient first.
    pub fee_liquidity: Balance,
    /// The liquidity that is locked: `MINIMUM_LIQUIDITY` on the first
    /// deposit, nothing afterwards.
    pub locked_liquidity: Balance,
    /// What was deposited of token 0.
    pub amount_0: Balance,
    /// What was deposited of token 1.
    pub amount_1: Balance,
}

/// The liquidity that a deposit of `amount_0` and `amount_1` earns, and
/// the liquidity that is locked with it. For the first deposit, with no
/// supply yet, the depositor gets the square root of the product of the two
/// amounts less `MINIMUM_LIQUIDITY`, which stays locked. Afterwards nothing
/// is locked, and the depositor gets the smaller of the shares that the
/// two amounts are of their reserves, taken of the supply. A deposit that
/// earns nothing is refused.
pub open spec fn deposit_liquidity(
    amount_0: Balance,
    amount_1: Balance,
    supply: Balance,
    reserve_0: Balance,
    reserve_1: Balance,
) -> Result<(Balance, Balance), PairError> {
    let root = integer_sqrt((amount_0 * amount_1) as nat);
    let share_0 = amount_0 * supply / (reserve_0 as int);
    let share_1 = amount_1 * supply / (reserve_1 as int);
    let share = if share_0 < share_1 {
        share_0
    } else {
        share_1
    };
    if supply == 0 {
        if amount_0 * amount_1 > u128::MAX {
            Err(PairError::MulOverFlow1)
        } else if root < MINIMUM_LIQUIDITY {
            Err(PairError::SubUnderFlow3)
        } else if root == MINIMUM_LIQUIDITY {
            Err(PairError::InsufficientLiquidityMinted)
        } else {
            Ok(((root - MINIMUM_LIQUIDITY) as u128, MINIMUM_LIQUIDITY))
        }
    } else if amount_0 * supply > u128::MAX {
        Err(PairError::MulOverFlow2)
    } else if reserve_0 == 0 {
        Err(PairError::DivByZero1)
    } else if amount_1 * supply > u128::MAX {
        Err(PairError::MulOverFlow3)
    } else if reserve_1 == 0 {
        Err(PairError::DivByZero2)
    } else if share == 0 {
        Err(PairError::InsufficientLiquidityMinted)
    } else if supply + share > u128::MAX {
        Err(PairError::Overflow)
    } else {
        Ok((share as u128, 0))
    }
}

/// What a pool that holds `balance_0` and `balance_1` mints for what it
/// holds beyond its reserves: first the fee recipient's share, then what
/// the deposit earns of the supply with that share in it.
pub open spec fn mint_outcome(
    pool: Pair,
    balance_0: Balance,
    balance_1: Balance,
    fee_on: bool,
) -> Result<Minted, PairError> {
    let reserve_0 = pool.data.reserve_0;
    let reserve_1 = pool.data.reserve_1;
    let amount_0 = (balance_0 - reserve_0) as u128;
    let amount_1 = (balance_1 - reserve_1) as u128;
    let fee = fee_liquidity(pool.data.k_last@, pool.total_supply, reserve_0, reserve_1, fee_on);
    let supply = (pool.total_supply + fee->Ok_0) as u128;
    let earned = deposit_liquidity(amount_0, amount_1, supply, reserve_0, reserve_1);
    if balance_0 < reserve_0 {
        Err(PairError::SubUnderFlow1)
    } else if balance_1 < reserve_1 {
        Err(PairError::SubUnderFlow2)
    } else if fee is Err {
        Err(fee->Err_0)
    } else if earned is Err {
        Err(earned->Err_0)
    } else {
        Ok(
            Minted {
                liquidity: earned->Ok_0.0,
                fee_liquidity: fee->Ok_0,
                locked_liquidity: earned->Ok_0.1,
                amount_0,
                amount_1,
            },
        )
    }
}

/// What a withdrawal pays out.
#[derive(Clone, Copy, Debug, PartialEq, Eq)]
pub struct Burned {
    /// What is owed of token 0.
    pub amount_0: Balance,
    /// What is owed of token 1.
    pub amount_1: Balance,
    /// The liquidity that goes to the fee recipient first.
    pub fee_liquidity: Balance,
}

/// What a pool that holds `balance_0` and `balance_1` owes for `liquidity`
/// handed back: of each balance the share that `liquidity` is of the
/// supply, the fee recipient's share counted in. A withdrawal that pays
/// nothing of one token is refused, and so is one of more than the supply.
pub open spec fn burn_outcome(
    pool: Pair,
    balance_0: Balance,
    balance_1: Balance,
    liquidity: Balance,
    fee_on: bool,
) -> Result<Burned, PairError> {
    let fee = fee_liquidity(
        pool.data.k_last@,
        pool.total_supply,
        pool.data.reserve_0,
        pool.data.reserve_1,
        fee_on,
    );
    let supply = (pool.total_supply + fee->Ok_0) as int;
    if fee is Err {
        Err(fee->Err_0)
    } else if liquidity * balance_0 > u128::MAX {
        Err(PairError::MulOverFlow5)
    } else if supply == 0 {
        Err(PairError::DivByZero3)
    } else if liquidity * balance_1 > u128::MAX {
        Err(PairError::MulOverFlow6)
    } else if liquidity * balance_0 / supply == 0 || liquidity * balance_1 / supply == 0 {
        Err(PairError::InsufficientLiquidityBurned)
    } else if liquidity > supply {
        Err(PairError::PSP22Error(PSP22Error::InsufficientBalance))
    } else {
        Ok(
            Burned {
                amount_0: (liquidity * balance_0 / supply) as u128,
                amount_1: (liquidity * balance_1 / supply) as u128,
                fee_liquidity: fee->Ok_0,
            },
        )
    }
}

/// What a pool holds of its two tokens beyond its reserves.
pub open spec fn skim_outcome(data: Data, balance_0: Balance, balance_1: Balance) -> Result<
    (Balance, Balance),
    PairError,
> {
    if balance_0 < data.reserve_0 {
        Err(PairError::SubUnderFlow12)
    } else if balance_1 < data.reserve_1 {
        Err(PairError::SubUnderFlow13)
    } else {
        Ok(((balance_0 - data.reserve_0) as u128, (balance_1 - data.reserve_1) as u128))
    }
}

/// What is minted for a deposit, in order: the fee recipient's share, if
/// there is one; the locked liquidity, if there is any, for the address
/// that stands for "no account", from which nothing is ever taken; and the
/// depositor's liquidity for `to`.
pub open spec fn mint_actions(minted: Minted, fee_to: AccountId, to: AccountId) -> Seq<Action> {
    let fee = if minted.fee_liquidity > 0 {
        seq![Action::Mint { to: fee_to, amount: minted.fee_liquidity }]
    } else {
        Seq::empty()
    };
    let locked = if minted.locked_liquidity > 0 {
        seq![Action::Mint { to: AccountId::spec_zero(), amount: minted.locked_liquidity }]
    } else {
        Seq::empty()
    };
    fee + locked + seq![Action::Mint { to, amount: minted.liquidity }]
}

/// What is done for a withdrawal, in order: the fee recipient's share is
/// minted, if there is one; the liquidity handed back is burned; and what
/// is owed of each token goes to `to`.
pub open spec fn burn_actions(
    burned: Burned,
    data: Data,
    liquidity: Balance,
    fee_to: AccountId,
    to: AccountId,
) -> Seq<Action> {
    let fee = if burned.fee_liquidity > 0 {
        seq![Action::Mint { to: fee_to, amount: burned.fee_liquidity }]
    } else {
        Seq::empty()
    };
    fee + seq![
        Action::Burn { amount: liquidity },
        Action::Transfer { token: data.token_0, to, amount: burned.amount_0 },
        Action::Transfer { token: data.token_1, to, amount: burned.amount_1 },
    ]
}

/// What a swap sends out before it is completed: each output that is
/// positive, to `to`.
pub open spec fn swap_actions(
    data: Data,
    amount_0_out: Balance,
    amount_1_out: Balance,
    to: AccountId,
) -> Seq<Action> {
    let first = if amount_0_out > 0 {
        seq![Action::Transfer { token: data.token_0, to, amount: amount_0_out }]
    } else {
        Seq::empty()
    };
    let second = if amount_1_out > 0 {
        seq![Action::Transfer { token: data.token_1, to, amount: amount_1_out }]
    } else {
        Seq::empty()
    };
    first + second
}

/// What a pool pays out of what it holds beyond its reserves: both
/// amounts, to `to`.
pub open spec fn skim_actions(data: Data, excess_0: Balance, excess_1: Balance, to: AccountId) -> Seq<
    Action,
> {
    seq![
        Action::Transfer { token: data.token_0, to, amount: excess_0 },
        Action::Transfer { token: data.token_1, to, amount: excess_1 },
    ]
}

/// The snapshot of the product of the reserves that a deposit or a
/// withdrawal leaves: the product of the new reserves while the fee is on,
/// zero while it is off.
pub open spec fn k_last_after(fee_on: bool, balance_0: Balance, balance_1: Balance) -> nat {
    if fee_on {
        (balance_0 * balance_1) as nat
    } else {
        0
    }
}

/// The liquidity that a deposit earns and the liquidity locked with it.
pub fn liquidity_for_deposit(
    amount_0: Balance,
    amount_1: Balance,
    supply: Balance,
    reserve_0: Balance,
    reserve_1: Balance,
) -> (result: Result<(Balance, Balance), PairError>)
    ensures
        result == deposit_liquidity(amount_0, amount_1, supply, reserve_0, reserve_1),
        result is Ok ==> result->Ok_0.0 > 0 && supply + result->Ok_0.0 + result->Ok_0.1
            <= u128::MAX,
{
    if supply == 0 {
        let product: u128 = match amount_0.checked_mul(amount_1) {
            Some(product) => product,
            None => {
                return Err(PairError::MulOverFlow1);
            },
        };
        let root = sqrt(product);
        if root < MINIMUM_LIQUIDITY {
            return Err(PairError::SubUnderFlow3);
        }
        if root == MINIMUM_LIQUIDITY {
            return Err(PairError::InsufficientLiquidityMinted);
        }
        return Ok((root - MINIMUM_LIQUIDITY, MINIMUM_LIQUIDITY));
    }
    let scaled_0: u128 = match amount_0.checked_mul(supply) {
        Some(scaled) => scaled,
        None => {
            return Err(PairError::MulOverFlow2);
        },
    };
    if reserve_0 == 0 {
        return Err(PairError::DivByZero1);
    }
    let scaled_1: u128 = match amount_1.checked_mul(supply) {
        Some(scaled) => scaled,
        None => {
            return Err(PairError::MulOverFlow3);
        },
    };
    if reserve_1 == 0 {
        return Err(PairError::DivByZero2);
    }
    let liquidity = min(scaled_0 / reserve_0, scaled_1 / reserve_1);
    if liquidity == 0 {
        return Err(PairError::InsufficientLiquidityMinted);
    }
    if liquidity > u128::MAX - supply {
        return Err(PairError::Overflow);
    }
    Ok((liquidity, 0))
}

/// What is minted for a deposit, in order.
fn actions_of_mint(minted: Minted, fee_to: AccountId, to: AccountId) -> (actions: Vec<Action>)
    ensures
        actions@ == mint_actions(minted, fee_to, to),
{
    let mut actions: Vec<Action> = Vec::new();
    if minted.fee_liquidity > 0 {
        actions.push(Action::Mint { to: fee_to, amount: minted.fee_liquidity });
    }
    if minted.locked_liquidity > 0 {
        actions.push(Action::Mint { to: AccountId::zero(), amount: minted.locked_liquidity });
    }
    actions.push(Action::Mint { to, amount: minted.liquidity });
    actions
}

/// What is done for a withdrawal, in order.
fn actions_of_burn(burned: Burned, data: Data, liquidity: Balance, fee_to: AccountId, to: AccountId) -> (actions:
    Vec<Action>)
    ensures
        actions@ == burn_actions(burned, data, liquidity, fee_to, to),
{
    let mut actions: Vec<Action> = Vec::new();
    if burned.fee_liquidity > 0 {
        actions.push(Action::Mint { to: fee_to, amount: burned.fee_liquidity });
    }
    actions.push(Action::Burn { amount: liquidity });
    actions.push(Action::Transfer { token: data.token_0, to, amount: burned.amount_0 });
    actions.push(Action::Transfer { token: data.token_1, to, amount: burned.amount_1 });
    actions
}

/// What a swap sends out before it is completed.
fn actions_of_swap(data: Data, amount_0_out: Balance, amount_1_out: Balance, to: AccountId) -> (actions:
    Vec<Action>)
    ensures
        actions@ == swap_actions(data, amount_0_out, amount_1_out, to),
{
    let mut actions: Vec<Action> = Vec::new();
    if amount_0_out > 0 {
        actions.push(Action::Transfer { token: data.token_0, to, amount: amount_0_out });
    }
    if amount_1_out > 0 {
        actions.push(Action::Transfer { token: data.token_1, to, amount: amount_1_out });
    }
    actions
}

impl Pair {
    /// A pool that `owner` may initialize: no tokens yet, nothing held.
    pub fn new(owner: AccountId) -> (pool: Pair)
        ensures
            pool.wf(),
            pool.owner == owner,
            pool.total_supply == 0,
            pool.status() == Status::Uninitialized,
            pool.data.reserve_0 == 0,
            pool.data.reserve_1 == 0,
            pool.data.block_timestamp_last == 0,
            pool.data.price_0_cumulative_last@ == 0,
            pool.data.price_1_cumulative_last@ == 0,
            pool.data.k_last@ == 0,
            pool.data.factory == owner,
            pool.data.token_0.spec_is_zero(),
            pool.data.token_1.spec_is_zero(),
    {
        let mut data = Data::default();
        data.factory = owner;
        Pair { data, owner, total_supply: 0, initialized: false, entered: false }
    }

    /// Where the pool stands in its life: locked while the guard is held,
    /// else initialized once it has its tokens.
    pub open spec fn spec_status(&self) -> Status {
        if self.entered {
            Status::Locked
        } else if self.initialized {
            Status::Initialized
        } else {
            Status::Uninitialized
        }
    }

    /// Where the pool stands in its life.
    #[verifier::when_used_as_spec(spec_status)]
    pub fn status(&self) -> (status: Status)
        ensures
            status == self.spec_status(),
    {
        if self.entered {
            Status::Locked
        } else if self.initialized {
            Status::Initialized
        } else {
            Status::Uninitialized
        }
    }

    /// Whether the pool is in order: once it has its tokens, the first comes
    /// before the second, so that the two are different.
    pub open spec fn wf(self) -> bool {
        self.initialized ==> self.data.token_0.spec_lt(self.data.token_1)
    }

    /// This pool with the guard released.
    pub open spec fn released(self) -> Pair {
        Pair { entered: false, ..self }
    }

    /// Gives the pool its two tokens, the one that comes first in front.
    /// Only the owner may, and only once.
    pub fn initialize(&mut self, caller: AccountId, token_0: AccountId, token_1: AccountId) -> (result:
        Result<(), PairError>)
        ensures
            result == if caller != old(self).owner {
                Err::<(), PairError>(PairError::OwnableError(OwnableError::CallerIsNotOwner))
            } else if old(self).initialized {
                Err::<(), PairError>(PairError::AlreadyInitialized)
            } else if !token_0.spec_lt(token_1) {
                Err::<(), PairError>(PairError::InvalidTokens)
            } else {
                Ok::<(), PairError>(())
            },
            result is Ok && !old(self).entered ==> old(self).status() == Status::Uninitialized
                && final(self).status() == Status::Initialized,
            result is Err ==> *final(self) == *old(self),
            result is Ok ==> *final(self) == (Pair {
                data: Data { token_0, token_1, ..old(self).data },
                initialized: true,
                ..*old(self)
            }),
            old(self).wf() ==> final(self).wf(),
    {
        if !(caller == self.owner) {
            return Err(PairError::OwnableError(OwnableError::CallerIsNotOwner));
        }
        if self.initialized {
            return Err(PairError::AlreadyInitialized);
        }
        if !token_0.lt(&token_1) {
            return Err(PairError::InvalidTokens);
        }
        self.data.token_0 = token_0;
        self.data.token_1 = token_1;
        self.initialized = true;
        Ok(())
    }

    /// Takes the guard against nested calls and hands it out, for one
    /// operation that changes the pool. While the guard is held, a second
    /// taker is refused.
    pub fn enter(&mut self) -> (result: Result<Entered, PairError>)
        ensures
            old(self).entered ==> result == Err::<Entered, PairError>(
                PairError::ReentrancyGuardError(ReentrancyGuardError::ReentrantCall),
            ) && *final(self) == *old(self),
            !old(self).entered ==> result is Ok && *final(self) == (Pair {
                entered: true,
                ..*old(self)
            }),
            result is Ok ==> final(self).status() == Status::Locked,
            old(self).wf() ==> final(self).wf(),
    {
        if self.entered {
            return Err(PairError::ReentrancyGuardError(ReentrancyGuardError::ReentrantCall));
        }
        self.entered = true;
        Ok(Entered { sealed: () })
    }

    /// Releases the guard that is handed in.
    fn release(&mut self, entered: Entered)
        ensures
            *final(self) == old(self).released(),
    {
        let Entered { sealed: _ } = entered;
        self.entered = false;
    }

    /// Both reserves and the time of the last settlement.
    pub fn get_reserves(&self) -> (reserves: (Balance, Balance, Timestamp))
        ensures
            reserves == (self.data.reserve_0, self.data.reserve_1, self.data.block_timestamp_last),
    {
        (self.data.reserve_0, self.data.reserve_1, self.data.block_timestamp_last)
    }

    /// Settles the pool on the balances it holds at time `now`: they become
    /// the reserves, and where time has passed since the last settlement
    /// both price accumulators move on, at the prices of `reserve_0` and
    /// `reserve_1`.
    pub fn _update(
        &mut self,
        balance_0: Balance,
        balance_1: Balance,
        reserve_0: Balance,
        reserve_1: Balance,
        now: Timestamp,
    )
        ensures
            old(self).data.settled_as(
                final(self).data,
                balance_0,
                balance_1,
                reserve_0,
                reserve_1,
                now,
            ),
            final(self).data.k_last == old(self).data.k_last,
            *final(self) == (Pair { data: final(self).data, ..*old(self) }),
            old(self).wf() ==> final(self).wf(),
    {
        let last_timestamp = self.data.block_timestamp_last;
        if now != last_timestamp {
            let elapsed: u64 = now.saturating_sub(last_timestamp);
            let (price_0, price_1) = update_cumulative(
                self.data.price_0_cumulative_last,
                self.data.price_1_cumulative_last,
                WrappedU256::from_u64(elapsed),
                reserve_0,
                reserve_1,
            );
            self.data.price_0_cumulative_last = price_0;
            self.data.price_1_cumulative_last = price_1;
        }
        self.data.reserve_0 = balance_0;
        self.data.reserve_1 = balance_1;
        self.data.block_timestamp_last = now;
    }

    /// Whether the pool sends out what a swap asks for. Where it does not,
    /// the guard is released; where it does, nothing changes, the guard is
    /// handed back, and the outputs are to be sent before the swap is
    /// completed with `swap`.
    pub fn swap_request(
        &mut self,
        entered: Entered,
        amount_0_out: Balance,
        amount_1_out: Balance,
        to: AccountId,
    ) -> (result: Result<(Vec<Action>, Entered), PairError>)
        ensures
            match swap_request(old(self).data, amount_0_out, amount_1_out, to) {
                Ok(()) => result is Ok && result->Ok_0.0@ == swap_actions(
                    old(self).data,
                    amount_0_out,
                    amount_1_out,
                    to,
                ) && *final(self) == *old(self),
                Err(e) => result == Err::<(Vec<Action>, Entered), PairError>(e) && *final(self)
                    == old(self).released(),
            },
            amount_0_out >= old(self).data.reserve_0 || amount_1_out >= old(self).data.reserve_1
                || (amount_0_out == 0 && amount_1_out == 0) ==> result == Err::<
                (Vec<Action>, Entered),
                PairError,
            >(PairError::InsufficientLiquidity),
            old(self).wf() ==> final(self).wf(),
    {
        if (amount_0_out == 0 && amount_1_out == 0) || amount_0_out >= self.data.reserve_0
            || amount_1_out >= self.data.reserve_1 {
            self.release(entered);
            return Err(PairError::InsufficientLiquidity);
        }
        if to == self.data.token_0 || to == self.data.token_1 {
            self.release(entered);
            return Err(PairError::InvalidTo);
        }
        Ok((actions_of_swap(self.data, amount_0_out, amount_1_out, to), entered))
    }

    /// Completes a swap whose outputs were sent to `to`: `balance_0` and
    /// `balance_1` are what the pool holds after that. What it holds beyond
    /// the reserves less the outputs came in. The swap stands only if the
    /// balances, each less 3 per 1000 of what came in of it, multiply to no
    /// less than the reserves did; the pool is then settled on the balances.
    /// A refused swap leaves the pool as it was. Either way the guard is
    /// released.
    #[verifier::rlimit(40)]
    pub fn swap(
        &mut self,
        entered: Entered,
        amount_0_out: Balance,
        amount_1_out: Balance,
        to: AccountId,
        balance_0: Balance,
        balance_1: Balance,
        now: Timestamp,
    ) -> (result: Result<Swapped, PairError>)
        ensures
            match swap_outcome(old(self).data, amount_0_out, amount_1_out, to, balance_0, balance_1) {
                Ok((in_0, in_1)) => {
                    &&& result == Ok::<Swapped, PairError>(
                        Swapped {
                            amount_0_in: in_0 as u128,
                            amount_1_in: in_1 as u128,
                            amount_0_out,
                            amount_1_out,
                            to,
                        },
                    )
                    &&& old(self).data.settled_as(
                        final(self).data,
                        balance_0,
                        balance_1,
                        old(self).data.reserve_0,
                        old(self).data.reserve_1,
                        now,
                    )
                    &&& final(self).data.k_last == old(self).data.k_last
                    &&& *final(self) == (Pair { data: final(self).data, ..old(self).released() })
                },
                Err(e) => result == Err::<Swapped, PairError>(e) && *final(self) == old(
                    self,
                ).released(),
            },
            result is Ok ==> fee_adjusted(balance_0, result->Ok_0.amount_0_in as nat) * fee_adjusted(
                balance_1,
                result->Ok_0.amount_1_in as nat,
            ) >= old(self).data.reserve_0 * old(self).data.reserve_1 * 1000 * 1000,
            amount_0_out >= old(self).data.reserve_0 || amount_1_out >= old(self).data.reserve_1
                || (amount_0_out == 0 && amount_1_out == 0) ==> result == Err::<Swapped, PairError>(
                PairError::InsufficientLiquidity,
            ),
            old(self).wf() ==> final(self).wf(),
    {
        let entered = match self.swap_request(entered, amount_0_out, amount_1_out, to) {
            Ok((_, entered)) => entered,
            Err(e) => {
                return Err(e);
            },
        };
        let reserve_0 = self.data.reserve_0;
        let reserve_1 = self.data.reserve_1;
        let amount_0_in: u128 = if balance_0 > reserve_0 - amount_0_out {
            balance_0 - (reserve_0 - amount_0_out)
        } else {
            0
        };
        let amount_1_in: u128 = if balance_1 > reserve_1 - amount_1_out {
            balance_1 - (reserve_1 - amount_1_out)
        } else {
            0
        };
        if amount_0_in == 0 && amount_1_in == 0 {
            self.release(entered);
            return Err(PairError::InsufficientInputAmount);
        }
        let balance_0_scaled: u128 = match balance_0.checked_mul(1000) {
            Some(scaled) => scaled,
            None => {
                self.release(entered);
                return Err(PairError::MulOverFlow7);
            },
        };
        let balance_0_adjusted: u128 = balance_0_scaled - amount_0_in * 3;
        let balance_1_scaled: u128 = match balance_1.checked_mul(1000) {
            Some(scaled) => scaled,
            None => {
                self.release(entered);
                return Err(PairError::MulOverFlow9);
            },
        };
        let balance_1_adjusted: u128 = balance_1_scaled - amount_1_in * 3;
        let required = match u256_checked_mul(
            casted_mul(reserve_0, reserve_1),
            u256_from_u128(1_000_000),
        ) {
            Some(product) => product,
            None => {
                self.release(entered);
                return Err(PairError::MulOverFlow14);
            },
        };
        if !u256_ge(casted_mul(balance_0_adjusted, balance_1_adjusted), required) {
            self.release(entered);
            return Err(PairError::K);
        }
        assert(reserve_0 * reserve_1 * 1_000_000 == reserve_0 * reserve_1 * 1000 * 1000)
            by (nonlinear_arith);
        self._update(balance_0, balance_1, reserve_0, reserve_1, now);
        self.release(entered);
        Ok(Swapped { amount_0_in, amount_1_in, amount_0_out, amount_1_out, to })
    }

    /// Gives the fee recipient its share before liquidity is minted or
    /// burned, and says whether the fee is on: it is unless `fee_to` is the
    /// address that stands for "no account". The share is added to the
    /// supply. While the fee is off, the snapshot of the product is cleared.
    #[verifier::rlimit(40)]
    pub fn _mint_fee(&mut self, reserve_0: Balance, reserve_1: Balance, fee_to: AccountId) -> (result:
        Result<(bool, Balance), PairError>)
        ensures
            match fee_liquidity(
                old(self).data.k_last@,
                old(self).total_supply,
                reserve_0,
                reserve_1,
                !fee_to.spec_is_zero(),
            ) {
                Ok(fee) => {
                    &&& result == Ok::<(bool, Balance), PairError>((!fee_to.spec_is_zero(), fee))
                    &&& final(self).total_supply == old(self).total_supply + fee
                    &&& final(self).data.k_last@ == if fee_to.spec_is_zero() {
                        0
                    } else {
                        old(self).data.k_last@
                    }
                    &&& *final(self) == (Pair {
                        data: Data { k_last: final(self).data.k_last, ..old(self).data },
                        total_supply: final(self).total_supply,
                        ..*old(self)
                    })
                },
                Err(e) => result == Err::<(bool, Balance), PairError>(e) && *final(self) == *old(
                    self,
                ),
            },
            old(self).wf() ==> final(self).wf(),
    {
        let fee_on = !fee_to.is_zero();
        let k_last = self.data.k_last;
        if !fee_on {
            if !k_last.is_zero() {
                self.data.k_last = WrappedU256::zero();
            }
            return Ok((false, 0));
        }
        if k_last.is_zero() {
            return Ok((true, 0));
        }
        let root_k = sqrt_wide(casted_mul(reserve_0, reserve_1));
        let root_k_last = sqrt_wide(k_last);
        if root_k <= root_k_last {
            return Ok((true, 0));
        }
        let numerator: u128 = match self.total_supply.checked_mul(root_k - root_k_last) {
            Some(n) => n,
            None => {
                return Err(PairError::MulOverFlow13);
            },
        };
        let five_roots: u128 = match root_k.checked_mul(5) {
            Some(n) => n,
            None => {
                return Err(PairError::MulOverFlow13);
            },
        };
        let denominator: u128 = match five_roots.checked_add(root_k_last) {
            Some(n) => n,
            None => {
                return Err(PairError::AddOverflow1);
            },
        };
        let liquidity: u128 = numerator / denominator;
        match self.total_supply.checked_add(liquidity) {
            Some(supply) => {
                self.total_supply = supply;
            },
            None => {
                return Err(PairError::Overflow);
            },
        }
        Ok((true, liquidity))
    }

    /// Mints liquidity for what the pool holds beyond its reserves, to go to
    /// `to`: `balance_0` and `balance_1` are what it holds at time `now`.
    /// The fee recipient's share is minted first. The pool is then settled
    /// on the balances, and the snapshot of the product is renewed while the
    /// fee is on. A refused deposit leaves the pool as it was. Either way
    /// the guard is released.
    #[verifier::rlimit(40)]
    pub fn mint(
        &mut self,
        entered: Entered,
        balance_0: Balance,
        balance_1: Balance,
        fee_to: AccountId,
        to: AccountId,
        now: Timestamp,
    ) -> (result: Result<(Minted, Vec<Action>), PairError>)
        ensures
            match mint_outcome(*old(self), balance_0, balance_1, !fee_to.spec_is_zero()) {
                Ok(minted) => result is Ok && result->Ok_0.0 == minted && result->Ok_0.1@
                    == mint_actions(minted, fee_to, to),
                Err(e) => result == Err::<(Minted, Vec<Action>), PairError>(e),
            },
            result is Err ==> *final(self) == old(self).released(),
            result is Ok ==> {
                let minted = result->Ok_0.0;
                &&& final(self).total_supply == old(self).total_supply + minted.fee_liquidity
                    + minted.locked_liquidity + minted.liquidity
                &&& old(self).data.settled_as(
                    final(self).data,
                    balance_0,
                    balance_1,
                    old(self).data.reserve_0,
                    old(self).data.reserve_1,
                    now,
                )
                &&& final(self).data.k_last@ == k_last_after(
                    !fee_to.spec_is_zero(),
                    balance_0,
                    balance_1,
                )
                &&& *final(self) == (Pair {
                    data: final(self).data,
                    total_supply: final(self).total_supply,
                    ..old(self).released()
                })
            },
            old(self).wf() ==> final(self).wf(),
    {
        let saved = *self;
        let reserve_0 = self.data.reserve_0;
        let reserve_1 = self.data.reserve_1;
        if balance_0 < reserve_0 {
            self.release(entered);
            return Err(PairError::SubUnderFlow1);
        }
        if balance_1 < reserve_1 {
            self.release(entered);
            return Err(PairError::SubUnderFlow2);
        }
        let amount_0: u128 = balance_0 - reserve_0;
        let amount_1: u128 = balance_1 - reserve_1;
        let (fee_on, fee) = match self._mint_fee(reserve_0, reserve_1, fee_to) {
            Ok(fee) => fee,
            Err(e) => {
                self.release(entered);
                return Err(e);
            },
        };
        let supply = self.total_supply;
        let (liquidity, locked) = match liquidity_for_deposit(
            amount_0,
            amount_1,
            supply,
            reserve_0,
            reserve_1,
        ) {
            Ok(earned) => earned,
            Err(e) => {
                *self = saved;
                self.release(entered);
                return Err(e);
            },
        };
        let new_supply: u128 = supply + liquidity + locked;
        self._update(balance_0, balance_1, reserve_0, reserve_1, now);
        if fee_on {
            self.data.k_last = casted_mul(balance_0, balance_1);
        }
        self.total_supply = new_supply;
        self.release(entered);
        let minted = Minted {
            liquidity,
            fee_liquidity: fee,
            locked_liquidity: locked,
            amount_0,
            amount_1,
        };
        Ok((minted, actions_of_mint(minted, fee_to, to)))
    }

    /// Takes back `liquidity`, which the pool holds of its own claim, and
    /// says what is owed for it of each token, to go to `to`: `balance_0`
    /// and `balance_1` are what the pool holds. The fee recipient's share is minted first.
    /// The supply shrinks by `liquidity`; the reserves stay, and the guard
    /// is handed back, until the amounts are sent and `burn_settle` is
    /// called. A refused withdrawal leaves the pool as it was, with the
    /// guard released.
    #[verifier::rlimit(40)]
    pub fn burn(
        &mut self,
        entered: Entered,
        balance_0: Balance,
        balance_1: Balance,
        liquidity: Balance,
        fee_to: AccountId,
        to: AccountId,
    ) -> (result: Result<(Burned, Vec<Action>, Entered), PairError>)
        ensures
            match burn_outcome(
                *old(self),
                balance_0,
                balance_1,
                liquidity,
                !fee_to.spec_is_zero(),
            ) {
                Ok(burned) => result is Ok && result->Ok_0.0 == burned && result->Ok_0.1@
                    == burn_actions(burned, old(self).data, liquidity, fee_to, to),
                Err(e) => result == Err::<(Burned, Vec<Action>, Entered), PairError>(e),
            },
            result is Err ==> *final(self) == old(self).released(),
            result is Ok ==> {
                let burned = result->Ok_0.0;
                &&& final(self).total_supply == old(self).total_supply + burned.fee_liquidity
                    - liquidity
                &&& burned.amount_0 <= balance_0
                &&& burned.amount_1 <= balance_1
                &&& final(self).data.k_last@ == if fee_to.spec_is_zero() {
                    0
                } else {
                    old(self).data.k_last@
                }
                &&& *final(self) == (Pair {
                    data: Data { k_last: final(self).data.k_last, ..old(self).data },
                    total_supply: final(self).total_supply,
                    ..*old(self)
                })
            },
            old(self).wf() ==> final(self).wf(),
    {
        let saved = *self;
        let reserve_0 = self.data.reserve_0;
        let reserve_1 = self.data.reserve_1;
        let (_, fee) = match self._mint_fee(reserve_0, reserve_1, fee_to) {
            Ok(fee) => fee,
            Err(e) => {
                self.release(entered);
                return Err(e);
            },
        };
        let supply = self.total_supply;
        let scaled_0: u128 = match liquidity.checked_mul(balance_0) {
            Some(scaled) => scaled,
            None => {
                *self = saved;
                self.release(entered);
                return Err(PairError::MulOverFlow5);
            },
        };
        if supply == 0 {
            *self = saved;
            self.release(entered);
            return Err(PairError::DivByZero3);
        }
        let scaled_1: u128 = match liquidity.checked_mul(balance_1) {
            Some(scaled) => scaled,
            None => {
                *self = saved;
                self.release(entered);
                return Err(PairError::MulOverFlow6);
            },
        };
        let amount_0: u128 = scaled_0 / supply;
        let amount_1: u128 = scaled_1 / supply;
        if amount_0 == 0 || amount_1 == 0 {
            *self = saved;
            self.release(entered);
            return Err(PairError::InsufficientLiquidityBurned);
        }
        if liquidity > supply {
            *self = saved;
            self.release(entered);
            return Err(PairError::PSP22Error(PSP22Error::InsufficientBalance));
        }
        proof {
            lemma_share_bounded(liquidity as int, balance_0 as int, supply as int);
            lemma_share_bounded(liquidity as int, balance_1 as int, supply as int);
        }
        self.total_supply = supply - liquidity;
        let burned = Burned { amount_0, amount_1, fee_liquidity: fee };
        Ok((burned, actions_of_burn(burned, saved.data, liquidity, fee_to, to), entered))
    }

    /// Completes a withdrawal whose amounts were sent: the pool is settled
    /// at time `now` on `balance_0` and `balance_1`, which it holds after
    /// that, and the snapshot of the product is renewed while the fee is on.
    /// The guard is released.
    pub fn burn_settle(
        &mut self,
        entered: Entered,
        balance_0: Balance,
        balance_1: Balance,
        fee_to: AccountId,
        now: Timestamp,
    )
        ensures
            old(self).data.settled_as(
                final(self).data,
                balance_0,
                balance_1,
                old(self).data.reserve_0,
                old(self).data.reserve_1,
                now,
            ),
            final(self).data.k_last@ == if fee_to.spec_is_zero() {
                old(self).data.k_last@
            } else {
                (balance_0 * balance_1) as nat
            },
            *final(self) == (Pair { data: final(self).data, ..old(self).released() }),
            old(self).wf() ==> final(self).wf(),
    {
        let reserve_0 = self.data.reserve_0;
        let reserve_1 = self.data.reserve_1;
        self._update(balance_0, balance_1, reserve_0, reserve_1, now);
        if !fee_to.is_zero() {
            self.data.k_last = casted_mul(balance_0, balance_1);
        }
        self.release(entered);
    }

    /// Pays out to `to` what the pool holds beyond its reserves: `balance_0`
    /// and `balance_1` are what it holds. The reserves stay. The guard is
    /// released.
    pub fn skim(&mut self, entered: Entered, balance_0: Balance, balance_1: Balance, to: AccountId) -> (result:
        Result<Vec<Action>, PairError>)
        ensures
            match skim_outcome(old(self).data, balance_0, balance_1) {
                Ok((excess_0, excess_1)) => result is Ok && result->Ok_0@ == skim_actions(
                    old(self).data,
                    excess_0,
                    excess_1,
                    to,
                ),
                Err(e) => result == Err::<Vec<Action>, PairError>(e),
            },
            *final(self) == old(self).released(),
            old(self).wf() ==> final(self).wf(),
    {
        self.release(entered);
        if balance_0 < self.data.reserve_0 {
            return Err(PairError::SubUnderFlow12);
        }
        if balance_1 < self.data.reserve_1 {
            return Err(PairError::SubUnderFlow13);
        }
        let mut actions: Vec<Action> = Vec::new();
        actions.push(
            Action::Transfer {
                token: self.data.token_0,
                to,
                amount: balance_0 - self.data.reserve_0,
            },
        );
        actions.push(
            Action::Transfer {
                token: self.data.token_1,
                to,
                amount: balance_1 - self.data.reserve_1,
            },
        );
        proof {
            assert(actions@ =~= skim_actions(
                old(self).data,
                (balance_0 - old(self).data.reserve_0) as u128,
                (balance_1 - old(self).data.reserve_1) as u128,
                to,
            ));
        }
        Ok(actions)
    }

    /// Settles the pool at time `now` on `balance_0` and `balance_1`, which
    /// it holds. The guard is released.
    pub fn sync(&mut self, entered: Entered, balance_0: Balance, balance_1: Balance, now: Timestamp)
        ensures
            old(self).data.settled_as(
                final(self).data,
                balance_0,
                balance_1,
                old(self).data.reserve_0,
                old(self).data.reserve_1,
                now,
            ),
            final(self).data.k_last == old(self).data.k_last,
            *final(self) == (Pair { data: final(self).data, ..old(self).released() }),
            old(self).wf() ==> final(self).wf(),
    {
        let reserve_0 = self.data.reserve_0;
        let reserve_1 = self.data.reserve_1;
        self._update(balance_0, balance_1, reserve_0, reserve_1, now);
        self.release(entered);
    }

    /// The first price accumulator.
    pub fn price_0_cumulative_last(&self) -> (price: WrappedU256)
        ensures
            price == self.data.price_0_cumulative_last,
    {
        self.data.price_0_cumulative_last
    }

    /// The second price accumulator.
    pub fn price_1_cumulative_last(&self) -> (price: WrappedU256)
        ensures
            price == self.data.price_1_cumulative_last,
    {
        self.data.price_1_cumulative_last
    }

    /// The token that the first reserve is of.
    pub fn get_token_0(&self) -> (token: AccountId)
        ensures
            token == self.data.token_0,
    {
        self.data.token_0
    }

    /// The token that the second reserve is of.
    pub fn get_token_1(&self) -> (token: AccountId)
        ensures
            token == self.data.token_1,
    {
        self.data.token_1
    }
}

impl From<OwnableError> for PairError {
    fn from(error: OwnableError) -> (wrapped: PairError) {
        PairError::OwnableError(error)
    }
}

impl vstd::std_specs::convert::FromSpecImpl<OwnableError> for PairError {
    open spec fn obeys_from_spec() -> bool {
        true
    }

    open spec fn from_spec(error: OwnableError) -> PairError {
        PairError::OwnableError(error)
    }
}

impl From<PausableError> for PairError {
    fn from(error: PausableError) -> (wrapped: PairError) {
        PairError::PausableError(error)
    }
}

impl vstd::std_specs::convert::FromSpecImpl<PausableError> for PairError {
    open spec fn obeys_from_spec() -> bool {
        true
    }

    open spec fn from_spec(error: PausableError) -> PairError {
        PairError::PausableError(error)
    }
}

impl From<PSP22Error> for PairError {
    fn from(error: PSP22Error) -> (wrapped: PairError) {
        PairError::PSP22Error(error)
    }
}

impl vstd::std_specs::convert::FromSpecImpl<PSP22Error> for PairError {
    open spec fn obeys_from_spec() -> bool {
        true
    }

    open spec fn from_spec(error: PSP22Error) -> PairError {
        PairError::PSP22Error(error)
    }
}

impl From<ReentrancyGuardError> for PairError {
    fn from(error: ReentrancyGuardError) -> (wrapped: PairError) {
        PairError::ReentrancyGuardError(error)
    }
}

impl vstd::std_specs::convert::FromSpecImpl<ReentrancyGuardError> for PairError {
    open spec fn obeys_from_spec() -> bool {
        true
    }

    open spec fn from_spec(error: ReentrancyGuardError) -> PairError {
        PairError::ReentrancyGuardError(error)
    }
}

} // verus!
