//! Arbitrary-precision arithmetic, delegated to the `num_bigint` crate.
//!
//! The crate's numbers are big-endian byte vectors (see [`crate::bytes`]).
//! Each function here converts its arguments with
//! `BigUint::from_bytes_be`, makes exactly one arithmetic call, and
//! converts the result back with `BigUint::to_bytes_be`; its contract
//! states what that call returns in terms of [`be_val`].

use crate::arith::pow_mod;
use crate::bytes::be_val;
use num_bigint::BigUint;
use vstd::prelude::*;

verus! {

/// Relies on `BigUint::modpow`: returns `base ^ exponent % modulus` and
/// panics only on a zero modulus.
#[verifier::external_body]
pub(crate) fn mod_exp(base: &Vec<u8>, exponent: &Vec<u8>, modulus: &Vec<u8>) -> (r: Vec<u8>)
    requires
        be_val(modulus@) > 0,
    ensures
        be_val(r@) == pow_mod(be_val(base@), be_val(exponent@), be_val(modulus@)),
{
    let b = BigUint::from_bytes_be(base);
    let e = BigUint::from_bytes_be(exponent);
    let m = BigUint::from_bytes_be(modulus);
    b.modpow(&e, &m).to_bytes_be()
}

/// Relies on `Mul for BigUint`: returns the product.
#[verifier::external_body]
pub(crate) fn big_mul(a: &Vec<u8>, b: &Vec<u8>) -> (r: Vec<u8>)
    ensures
        be_val(r@) == be_val(a@) * be_val(b@),
{
    (BigUint::from_bytes_be(a) * BigUint::from_bytes_be(b)).to_bytes_be()
}

/// Relies on `Sub for BigUint`: returns the difference and panics only
/// when the subtrahend is larger.
#[verifier::external_body]
pub(crate) fn big_sub(a: &Vec<u8>, b: &Vec<u8>) -> (r: Vec<u8>)
    requires
        be_val(b@) <= be_val(a@),
    ensures
        be_val(r@) == be_val(a@) - be_val(b@),
{
    (BigUint::from_bytes_be(a) - BigUint::from_bytes_be(b)).to_bytes_be()
}

/// Relies on `Rem for BigUint`: returns the remainder and panics only on a
/// zero divisor.
#[verifier::external_body]
pub(crate) fn big_mod(a: &Vec<u8>, m: &Vec<u8>) -> (r: Vec<u8>)
    requires
        be_val(m@) > 0,
    ensures
        be_val(r@) == be_val(a@) % be_val(m@),
{
    (BigUint::from_bytes_be(a) % BigUint::from_bytes_be(m)).to_bytes_be()
}

/// Relies on `Ord for BigUint`: compares by numeric value.
#[verifier::external_body]
pub(crate) fn big_ge(a: &Vec<u8>, b: &Vec<u8>) -> (r: bool)
    ensures
        r == (be_val(a@) >= be_val(b@)),
{
    BigUint::from_bytes_be(a) >= BigUint::from_bytes_be(b)
}

/// Relies on `PartialEq for BigUint`: equality of numeric values.
#[verifier::external_body]
pub(crate) fn big_eq(a: &Vec<u8>, b: &Vec<u8>) -> (r: bool)
    ensures
        r == (be_val(a@) == be_val(b@)),
{
    BigUint::from_bytes_be(a) == BigUint::from_bytes_be(b)
}

} // verus!
