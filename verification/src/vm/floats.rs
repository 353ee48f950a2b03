//! Arithmetic on floating-point numbers, each given by its IEEE 754 binary64
//! bit pattern.
//!
//! The arithmetic itself is `rustc_apfloat`'s, which computes on the bits in
//! software and so gives the same bits on every machine. The library knows of
//! a result that the two operands determine it, and nothing else. The
//! assertions in `rustc_apfloat` that guard its own invariants are taken
//! never to fail.

use vstd::prelude::*;
use rustc_apfloat::ieee::Double;
use rustc_apfloat::Float;

verus! {

/// The bits of the sum of the numbers with bits `a` and `b`, rounded to
/// nearest, ties to even.
pub uninterp spec fn float_sum(a: u64, b: u64) -> u64;

/// The bits of the number with bits `a` less the number with bits `b`, rounded
/// to nearest, ties to even.
pub uninterp spec fn float_difference(a: u64, b: u64) -> u64;

/// The bits of the product of the numbers with bits `a` and `b`, rounded to
/// nearest, ties to even.
pub uninterp spec fn float_product(a: u64, b: u64) -> u64;

/// The bits of the number with bits `a` divided by the number with bits `b`,
/// rounded to nearest, ties to even.
pub uninterp spec fn float_quotient(a: u64, b: u64) -> u64;

/// Adds through `rustc_apfloat`: `Double::from_bits` on each operand, `+`
/// (which is `add_r` with `Round::NearestTiesToEven`), then `to_bits`. The
/// contract claims only that the result is the one named `float_sum`.
#[verifier::external_body]
pub(crate) fn float_add(a: u64, b: u64) -> (bits: u64)
    ensures
        bits == float_sum(a, b),
{
    (Double::from_bits(a as u128) + Double::from_bits(b as u128)).value.to_bits() as u64
}

/// Subtracts through `rustc_apfloat`: `Double::from_bits` on each operand, `-`
/// (which is `sub_r` with `Round::NearestTiesToEven`), then `to_bits`. The
/// contract claims only that the result is the one named `float_difference`.
#[verifier::external_body]
pub(crate) fn float_sub(a: u64, b: u64) -> (bits: u64)
    ensures
        bits == float_difference(a, b),
{
    (Double::from_bits(a as u128) - Double::from_bits(b as u128)).value.to_bits() as u64
}

/// Multiplies through `rustc_apfloat`: `Double::from_bits` on each operand,
/// `*` (which is `mul_r` with `Round::NearestTiesToEven`), then `to_bits`. The
/// contract claims only that the result is the one named `float_product`.
#[verifier::external_body]
pub(crate) fn float_mul(a: u64, b: u64) -> (bits: u64)
    ensures
        bits == float_product(a, b),
{
    (Double::from_bits(a as u128) * Double::from_bits(b as u128)).value.to_bits() as u64
}

/// Divides through `rustc_apfloat`: `Double::from_bits` on each operand, `/`
/// (which is `div_r` with `Round::NearestTiesToEven`), then `to_bits`. The
/// contract claims only that the result is the one named `float_quotient`.
#[verifier::external_body]
pub(crate) fn float_div(a: u64, b: u64) -> (bits: u64)
    ensures
        bits == float_quotient(a, b),
{
    (Double::from_bits(a as u128) / Double::from_bits(b as u128)).value.to_bits() as u64
}

} // verus!
