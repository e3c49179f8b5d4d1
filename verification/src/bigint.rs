//! Arbitrary-precision arithmetic from the `num` crate, on numbers that fit
//! in 128 bits. Nothing in this file is proved: each contract restates what
//! `num` documents of the function that the body calls.

use crate::wire::be_value;
use crate::wire::KeyBytes;
use num::BigUint;
use vstd::arithmetic::power::pow;
use vstd::prelude::*;

verus! {

/// Calls `BigUint::modpow`, which returns `(base ^ exponent) % modulus` and
/// panics on a zero modulus. The result is below the modulus, so it fits
/// the type it is converted to.
#[verifier::external_body]
pub(crate) fn modpow(base: u128, exponent: u128, modulus: u128) -> (result: u128)
    requires
        modulus != 0,
    ensures
        result == pow(base as int, exponent as nat) % (modulus as int),
{
    let power = BigUint::from(base).modpow(&BigUint::from(exponent), &BigUint::from(modulus));
    u128::try_from(power).unwrap()
}

/// Calls `BigUint::to_bytes_be`, which returns the digits of the number in
/// base 256, most significant first: a single zero byte for zero, and
/// otherwise no more bytes than the number needs.
#[verifier::external_body]
pub(crate) fn to_bytes_be(value: u128) -> (bytes: Vec<u8>)
    ensures
        be_value(bytes@) == value,
        bytes@.len() >= 1,
        bytes@.len() > 1 ==> bytes@[0] != 0,
{
    BigUint::from(value).to_bytes_be()
}

/// Calls `BigUint::from_bytes_be`, which reads the bytes as one number,
/// most significant byte first. Sixteen bytes always fit in 128 bits.
#[verifier::external_body]
pub(crate) fn from_bytes_be(bytes: &KeyBytes) -> (value: u128)
    ensures
        value == be_value(bytes@),
{
    u128::try_from(BigUint::from_bytes_be(bytes)).unwrap()
}

} // verus!
