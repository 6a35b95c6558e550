//! Checked arithmetic and identities for the runtime's numeric types,
//! delegated to the `num` crate.
//!
//! Each function here is a thin call into `num::traits`. Its body is not
//! verified: the contract restates what the implementation in `num-traits`
//! does for the primitive type in question.

use num::traits::{CheckedAdd, CheckedSub, One, Zero};
use vstd::prelude::*;

verus! {

/// `<u128 as num::traits::Zero>::zero`. Trusted: the result is the integer 0,
/// which is the literal that `num-traits` returns for every primitive
/// unsigned type.
#[verifier::external_body]
pub(crate) fn balance_zero() -> (z: u128)
    ensures
        z == 0,
{
    Zero::zero()
}

/// `<u32 as num::traits::Zero>::zero`. Trusted: the result is the integer 0.
#[verifier::external_body]
pub(crate) fn counter_zero() -> (z: u32)
    ensures
        z == 0,
{
    Zero::zero()
}

/// `<u32 as num::traits::One>::one`. Trusted: the result is the integer 1.
#[verifier::external_body]
pub(crate) fn counter_one() -> (n: u32)
    ensures
        n == 1,
{
    One::one()
}

/// `<u128 as num::traits::CheckedAdd>::checked_add`, which forwards to
/// `u128::checked_add`. Trusted: the result is the exact sum when it fits in
/// a `u128`, and `None` otherwise.
#[verifier::external_body]
pub(crate) fn balance_checked_add(a: u128, b: u128) -> (sum: Option<u128>)
    ensures
        a + b <= u128::MAX ==> sum == Some((a + b) as u128),
        a + b > u128::MAX ==> sum.is_none(),
{
    CheckedAdd::checked_add(&a, &b)
}

/// `<u128 as num::traits::CheckedSub>::checked_sub`, which forwards to
/// `u128::checked_sub`. Trusted: the result is the exact difference when it
/// is not negative, and `None` otherwise.
#[verifier::external_body]
pub(crate) fn balance_checked_sub(a: u128, b: u128) -> (difference: Option<u128>)
    ensures
        a >= b ==> difference == Some((a - b) as u128),
        a < b ==> difference.is_none(),
{
    CheckedSub::checked_sub(&a, &b)
}

} // verus!
