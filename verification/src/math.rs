//! Wide arithmetic: products of 128-bit numbers in 256 bits, integer
//! square roots and fixed-point prices. The 256-bit operations are those
//! of `primitive_types::U256`; the square root of a 128-bit number and the
//! fixed-point division are those of `sp_arithmetic`.

use crate::types::{u256_max, WrappedU256};
use primitive_types::U256;
use sp_arithmetic::traits::IntegerSquareRoot;
use sp_arithmetic::{FixedPointNumber, FixedU128};
use vstd::prelude::*;

verus! {

/// How many units of a fixed-point price make up the price 1.
pub const PRICE_ACCURACY: u128 = 1_000_000_000_000_000_000;

/// `root` is the integer square root of `x`: the largest number whose
/// square does not exceed `x`.
pub open spec fn is_integer_sqrt(x: nat, root: nat) -> bool {
    root * root <= x < (root + 1) * (root + 1)
}

/// The integer square root of `x`.
pub open spec fn integer_sqrt(x: nat) -> nat {
    choose|root: nat| is_integer_sqrt(x, root)
}

/// A fraction as a fixed-point price, rounded down: `n * PRICE_ACCURACY / d`,
/// where that exists and fits in 128 bits.
pub open spec fn fixed_ratio(n: nat, d: nat) -> Option<nat> {
    if d != 0 && n * (PRICE_ACCURACY as nat) / d <= u128::MAX {
        Some(n * (PRICE_ACCURACY as nat) / d)
    } else {
        None
    }
}

/// `U256::from` of `primitive_types`, on a `u128`: the wide value is the
/// argument's.
#[verifier::external_body]
pub(crate) fn u256_from_u128(value: u128) -> (wide: WrappedU256)
    ensures
        wide@ == value,
{
    WrappedU256(U256::from(value).0)
}

/// `TryFrom<U256>` for `u128` of `primitive_types`: the value itself where
/// it fits in 128 bits, nothing where it does not.
#[verifier::external_body]
pub(crate) fn u256_try_into_u128(wide: WrappedU256) -> (narrow: Option<u128>)
    ensures
        wide@ <= u128::MAX ==> narrow == Some(wide@ as u128),
        wide@ > u128::MAX ==> narrow.is_none(),
{
    u128::try_from(U256(wide.0)).ok()
}

/// The operator `*` of `U256`, which panics when the product does not fit:
/// such operands are left out.
#[verifier::external_body]
pub(crate) fn u256_mul(a: WrappedU256, b: WrappedU256) -> (product: WrappedU256)
    requires
        a@ * b@ <= u256_max(),
    ensures
        product@ == a@ * b@,
{
    WrappedU256((U256(a.0) * U256(b.0)).0)
}

/// `U256::checked_mul`: the product where it fits in 256 bits, nothing
/// where it does not.
#[verifier::external_body]
pub(crate) fn u256_checked_mul(a: WrappedU256, b: WrappedU256) -> (product: Option<WrappedU256>)
    ensures
        a@ * b@ <= u256_max() ==> product.is_some() && product.unwrap()@ == a@ * b@,
        a@ * b@ > u256_max() ==> product.is_none(),
{
    U256(a.0).checked_mul(U256(b.0)).map(|p| WrappedU256(p.0))
}

/// `U256::checked_add`: the sum where it fits in 256 bits, nothing where it
/// does not.
#[verifier::external_body]
pub(crate) fn u256_checked_add(a: WrappedU256, b: WrappedU256) -> (sum: Option<WrappedU256>)
    ensures
        a@ + b@ <= u256_max() ==> sum.is_some() && sum.unwrap()@ == a@ + b@,
        a@ + b@ > u256_max() ==> sum.is_none(),
{
    U256(a.0).checked_add(U256(b.0)).map(|s| WrappedU256(s.0))
}

/// `U256::checked_div`: the quotient, rounded down, unless the divisor is
/// zero.
#[verifier::external_body]
pub(crate) fn u256_checked_div(a: WrappedU256, b: WrappedU256) -> (quotient: Option<
    WrappedU256,
>)
    ensures
        b@ != 0 ==> quotient.is_some() && quotient.unwrap()@ == a@ / b@,
        b@ == 0 ==> quotient.is_none(),
{
    U256(a.0).checked_div(U256(b.0)).map(|q| WrappedU256(q.0))
}

/// `U256::saturating_mul`: the product, or the largest 256-bit value where
/// the product exceeds it.
#[verifier::external_body]
pub(crate) fn u256_saturating_mul(a: WrappedU256, b: WrappedU256) -> (product: WrappedU256)
    ensures
        product@ == if a@ * b@ <= u256_max() {
            a@ * b@
        } else {
            u256_max()
        },
{
    WrappedU256(U256(a.0).saturating_mul(U256(b.0)).0)
}

/// `U256::saturating_add`: the sum, or the largest 256-bit value where the
/// sum exceeds it.
#[verifier::external_body]
pub(crate) fn u256_saturating_add(a: WrappedU256, b: WrappedU256) -> (sum: WrappedU256)
    ensures
        sum@ == if a@ + b@ <= u256_max() {
            a@ + b@
        } else {
            u256_max()
        },
{
    WrappedU256(U256(a.0).saturating_add(U256(b.0)).0)
}

/// The operator `>=` of `U256`: the order of the values.
#[verifier::external_body]
pub(crate) fn u256_ge(a: WrappedU256, b: WrappedU256) -> (ge: bool)
    ensures
        ge == (a@ >= b@),
{
    U256(a.0) >= U256(b.0)
}

/// `U256::integer_sqrt`: the largest number whose square does not exceed
/// the argument.
#[verifier::external_body]
pub(crate) fn u256_integer_sqrt(x: WrappedU256) -> (root: WrappedU256)
    ensures
        is_integer_sqrt(x@, root@),
{
    WrappedU256(U256(x.0).integer_sqrt().0)
}

/// `IntegerSquareRoot::integer_sqrt` of `sp_arithmetic`, on a `u128`: the
/// largest number whose square does not exceed the argument.
#[verifier::external_body]
pub(crate) fn u128_integer_sqrt(x: u128) -> (root: u128)
    ensures
        is_integer_sqrt(x as nat, root as nat),
{
    x.integer_sqrt()
}

/// `FixedU128::checked_from_rational` of `sp_arithmetic`, read through
/// `into_inner`: `n / d` in units of `1 / PRICE_ACCURACY`, rounded down;
/// nothing where `d` is zero or the price does not fit in 128 bits.
#[verifier::external_body]
pub(crate) fn fixed_from_rational(n: u128, d: u128) -> (price: Option<u128>)
    ensures
        match fixed_ratio(n as nat, d as nat) {
            Some(p) => price == Some(p as u128),
            None => price.is_none(),
        },
{
    FixedU128::checked_from_rational(n, d).map(|p| p.into_inner())
}

/// The integer square root of a 128-bit number: the largest number whose
/// square does not exceed it.
pub fn sqrt(x: u128) -> (root: u128)
    ensures
        root == integer_sqrt(x as nat),
        root * root <= x < (root + 1) * (root + 1),
{
    let root = u128_integer_sqrt(x);
    proof {
        lemma_integer_sqrt_unique(x as nat, root as nat);
    }
    root
}

/// The integer square root of a 256-bit number, which fits in 128 bits.
pub fn sqrt_wide(x: WrappedU256) -> (root: u128)
    ensures
        root == integer_sqrt(x@),
        root * root <= x@ < (root + 1) * (root + 1),
{
    let wide_root = u256_integer_sqrt(x);
    proof {
        lemma_root_fits(x@, wide_root@);
        lemma_integer_sqrt_unique(x@, wide_root@);
    }
    match u256_try_into_u128(wide_root) {
        Some(root) => root,
        None => 0,
    }
}

/// The square root of a 256-bit number fits in 128 bits.
pub proof fn lemma_root_fits(x: nat, root: nat)
    requires
        x <= u256_max(),
        is_integer_sqrt(x, root),
    ensures
        root <= u128::MAX,
{
    if root > u128::MAX {
        assert(root * root >= 0x1_0000_0000_0000_0000_0000_0000_0000_0000nat
            * 0x1_0000_0000_0000_0000_0000_0000_0000_0000nat) by (nonlinear_arith)
            requires
                root >= 0x1_0000_0000_0000_0000_0000_0000_0000_0000nat,
        ;
        assert(0x1_0000_0000_0000_0000_0000_0000_0000_0000nat
            * 0x1_0000_0000_0000_0000_0000_0000_0000_0000nat > u256_max()) by (nonlinear_arith);
    }
}

/// The product of two 128-bit numbers, which always fits in 256 bits.
pub fn casted_mul(a: u128, b: u128) -> (product: WrappedU256)
    ensures
        product@ == a * b,
{
    proof {
        lemma_product_fits(a as nat, b as nat);
    }
    u256_mul(u256_from_u128(a), u256_from_u128(b))
}

/// The product of two numbers of 128 bits has at most 256.
pub proof fn lemma_product_fits(a: nat, b: nat)
    requires
        a <= u128::MAX,
        b <= u128::MAX,
    ensures
        a * b <= u256_max(),
        a * b <= (u128::MAX as nat) * (u128::MAX as nat),
{
    assert(a * b <= (u128::MAX as nat) * (u128::MAX as nat)) by (nonlinear_arith)
        requires
            a <= u128::MAX,
            b <= u128::MAX,
    ;
    assert((u128::MAX as nat) * (u128::MAX as nat) <= u256_max()) by (nonlinear_arith);
}

/// A number has one integer square root only.
pub proof fn lemma_integer_sqrt_unique(x: nat, root: nat)
    requires
        is_integer_sqrt(x, root),
    ensures
        integer_sqrt(x) == root,
{
    let other = integer_sqrt(x);
    assert(other == root) by (nonlinear_arith)
        requires
            root * root <= x < (root + 1) * (root + 1),
            other * other <= x < (other + 1) * (other + 1),
    ;
}

/// A share of a balance that is under the whole is under the balance.
pub proof fn lemma_share_less(part: int, balance: int, whole: int)
    requires
        0 <= part < whole,
        0 < balance,
    ensures
        part * balance / whole < balance,
{
    assert(part * balance < whole * balance) by (nonlinear_arith)
        requires
            0 <= part < whole,
            0 < balance,
    ;
    assert(part * balance / whole < balance) by (nonlinear_arith)
        requires
            part * balance < whole * balance,
            0 < whole,
    ;
}

/// A share of a balance is no more than the balance.
pub proof fn lemma_share_bounded(part: int, balance: int, whole: int)
    requires
        0 <= part <= whole,
        0 < whole,
        0 <= balance,
    ensures
        part * balance / whole <= balance,
{
    assert(part * balance <= whole * balance) by (nonlinear_arith)
        requires
            0 <= part <= whole,
            0 <= balance,
    ;
    assert(part * balance / whole <= balance) by (nonlinear_arith)
        requires
            part * balance <= whole * balance,
            0 < whole,
    ;
}

} // verus!
