//! Trusted interface to curv's arbitrary-precision integers.
//!
//! The protocol's field elements are curv `BigInt` values.  Verus sees the
//! type as opaque; `big_value` names the integer a value holds, and each
//! wrapper states what the corresponding curv operation computes.

use vstd::prelude::*;
use vstd::arithmetic::power::pow;
use curv::BigInt;
use curv::arithmetic::Modulo;
use curv::arithmetic::Samplable;

verus! {

#[verifier::external_type_specification]
#[verifier::external_body]
pub struct ExBigInt(BigInt);

/// The integer that an opaque big-integer value holds.
pub uninterp spec fn big_value(b: BigInt) -> int;

/// The least nonnegative residue of `b^e` modulo `m`.
pub open spec fn pow_mod(b: int, e: int, m: int) -> int
    recommends
        e >= 0,
        m >= 1,
{
    pow(b, e as nat) % m
}

/// `a` has a multiplicative inverse modulo `m`.
pub open spec fn invertible(a: int, m: int) -> bool {
    exists|u: int| 0 <= u < m && #[trigger] ((a * u) % m) == 1
}

/// Relies on curv's `Modulo::mod_pow`: the least nonnegative residue of
/// `base^exponent` modulo `m`.  The exponent must be nonnegative, or the
/// call panics.
#[verifier::external_body]
pub(crate) fn mod_pow(base: &BigInt, exponent: &BigInt, m: &BigInt) -> (r: BigInt)
    requires
        big_value(*exponent) >= 0,
        big_value(*m) >= 2,
    ensures
        big_value(r) == pow_mod(big_value(*base), big_value(*exponent), big_value(*m)),
{
    BigInt::mod_pow(base, exponent, m)
}

/// Relies on curv's `Modulo::mod_mul`: the least nonnegative residue of
/// `a * b` modulo `m`.
#[verifier::external_body]
pub(crate) fn mod_mul(a: &BigInt, b: &BigInt, m: &BigInt) -> (r: BigInt)
    requires
        big_value(*m) >= 2,
    ensures
        big_value(r) == (big_value(*a) * big_value(*b)) % big_value(*m),
{
    BigInt::mod_mul(a, b, m)
}

/// Relies on curv's `Modulo::mod_inv`: the multiplicative inverse of `a`
/// modulo `m` when one exists, and `None` when none exists.
#[verifier::external_body]
pub(crate) fn mod_inv(a: &BigInt, m: &BigInt) -> (r: Option<BigInt>)
    requires
        big_value(*m) >= 2,
    ensures
        r is Some <==> invertible(big_value(*a), big_value(*m)),
        r matches Some(u) ==> 0 <= big_value(u) < big_value(*m)
            && (big_value(*a) * big_value(u)) % big_value(*m) == 1,
{
    BigInt::mod_inv(a, m)
}

/// Relies on curv's `Samplable::sample_below`: a random integer drawn from
/// `[0, upper)`.  The bound must be positive, or the call panics.
#[verifier::external_body]
pub(crate) fn sample_below(upper: &BigInt) -> (r: BigInt)
    requires
        big_value(*upper) >= 1,
    ensures
        0 <= big_value(r) < big_value(*upper),
{
    BigInt::sample_below(upper)
}

/// Relies on curv's `From<u64>` conversion for `BigInt`.
#[verifier::external_body]
pub(crate) fn big_from_u64(v: u64) -> (r: BigInt)
    ensures
        big_value(r) == v as int,
{
    BigInt::from(v)
}

/// Relies on `BigInt`'s derived `PartialEq`, which compares the held values.
#[verifier::external_body]
pub(crate) fn big_eq(a: &BigInt, b: &BigInt) -> (r: bool)
    ensures
        r == (big_value(*a) == big_value(*b)),
{
    a == b
}

/// Relies on `BigInt`'s derived `Ord`, which orders by the held values.
#[verifier::external_body]
pub(crate) fn big_lt(a: &BigInt, b: &BigInt) -> (r: bool)
    ensures
        r == (big_value(*a) < big_value(*b)),
{
    a < b
}

/// Relies on `BigInt`'s derived `Clone`, which copies the held value.
pub assume_specification[ <BigInt as Clone>::clone ](a: &BigInt) -> (r: BigInt)
    ensures
        big_value(r) == big_value(*a),
;

} // verus!
