//! Integer arithmetic taken from `cosmwasm_std`.

use vstd::prelude::*;

verus! {

/// Calls `cosmwasm_std::Uint128::multiply_ratio`, which multiplies in 256 bits
/// and divides, rounding down. It panics on a zero denominator and on a
/// quotient that does not fit in 128 bits; both are excluded here. The result
/// is claimed to be the floor of `value * numerator / denominator`.
#[verifier::external_body]
pub(crate) fn multiply_ratio(value: u128, numerator: u128, denominator: u128) -> (r: u128)
    requires
        denominator > 0,
        value * numerator / (denominator as int) <= u128::MAX,
    ensures
        r == value * numerator / (denominator as int),
{
    cosmwasm_std::Uint128::new(value).multiply_ratio(numerator, denominator).u128()
}

} // verus!
