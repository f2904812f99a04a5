//! Declarations of the outside numeric types that settlements carry:
//! 256-bit unsigned amounts, 20-byte token addresses, and exact big
//! rationals, together with the trusted views that the contracts use.

use vstd::prelude::*;

verus! {

#[verifier::external_type_specification]
#[verifier::external_body]
#[verifier::reject_recursive_types(T)]
pub struct ExRatio<T>(num::rational::Ratio<T>);

#[verifier::external_type_specification]
#[verifier::external_body]
pub struct ExBigInt(num::BigInt);

#[verifier::external_type_specification]
#[verifier::external_body]
pub struct ExU256(primitive_types::U256);

#[verifier::external_type_specification]
#[verifier::external_body]
pub struct ExH160(primitive_types::H160);

/// Relies on primitive-types' derived `Clone` for `U256`: a bitwise copy
/// of the same value.
pub assume_specification[ <primitive_types::U256 as core::clone::Clone>::clone ](
    v: &primitive_types::U256,
) -> (r: primitive_types::U256)
    ensures
        r == *v,
;

/// Relies on primitive-types' derived `Clone` for `H160`: a bitwise copy
/// of the same address.
pub assume_specification[ <primitive_types::H160 as core::clone::Clone>::clone ](
    a: &primitive_types::H160,
) -> (r: primitive_types::H160)
    ensures
        r == *a,
;

/// The unsigned integer a `U256` holds.
pub uninterp spec fn u256_of(v: primitive_types::U256) -> nat;

/// The twenty bytes an `H160` address holds, in order.
pub uninterp spec fn h160_bytes(a: primitive_types::H160) -> Seq<u8>;

/// Relies on primitive-types' `H160::from_slice`: on a slice of exactly
/// twenty bytes it returns, without panicking, the address holding those
/// bytes.
#[verifier::external_body]
pub fn h160_from_bytes(bytes: &Vec<u8>) -> (r: primitive_types::H160)
    requires
        bytes@.len() == 20,
    ensures
        h160_bytes(r) == bytes@,
{
    primitive_types::H160::from_slice(bytes)
}

} // verus!
