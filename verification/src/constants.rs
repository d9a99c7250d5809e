//! Curve-level constants: the order of the groups defined over BLS12-381.

use vstd::prelude::*;
use crate::field::fr_order;

verus! {

pub const MODULES_BIT_SIZE: usize = 255;

pub const PRIMITIVE_ROOT: usize = 5;

#[verifier::external_type_specification]
#[verifier::external_body]
pub struct ExBigUint(num_bigint::BigUint);

/// The big unsigned integer that stands for a natural number.
pub uninterp spec fn biguint_of(n: nat) -> num_bigint::BigUint;

/// Return the order of the group(s) defined over elliptic curves in
/// BLS12-381: the r in Fr.
///
/// Relies on num_bigint's decimal parsing; the digits below spell
/// `fr_order()`.
#[verifier::external_body]
pub fn curve_order() -> (r: num_bigint::BigUint)
    ensures
        r == biguint_of(fr_order()),
{
    num_bigint::BigUint::parse_bytes(
        b"52435875175126190479447740508185965837690552500527637822603658699938581184513",
        10,
    ).unwrap()
}

} // verus!
