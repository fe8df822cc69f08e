//! Arithmetic on prices and quantities: unsigned fixed-point numbers of 64
//! bits, 32 of them fractional, handled by their raw bits.

use vstd::prelude::*;

verus! {

/// The product of two fixed-point numbers, given and returned as raw bits:
/// the exact product cut off after 32 fractional bits, or nothing where that
/// does not fit in 64 bits.
pub open spec fn product(a: u64, b: u64) -> Option<u64> {
    let cut = (a as int * b as int) / 0x1_0000_0000;
    if cut <= u64::MAX {
        Some(cut as u64)
    } else {
        None
    }
}

/// Multiplies with `fixed::FixedU64::<U32>::checked_mul`. Believed, not
/// proved: the crate widens both factors to 128 bits, shifts one of them left
/// by 32 bits, multiplies, and returns the upper 64 bits of the product
/// unless the multiplication overflowed 128 bits. That is the exact product
/// without its 32 lowest bits, where it fits in 64 bits.
#[verifier::external_body]
pub(crate) fn checked_mul(a: u64, b: u64) -> (bits: Option<u64>)
    ensures
        bits == product(a, b),
{
    let left = fixed::FixedU64::<typenum::U32>::from_bits(a);
    let right = fixed::FixedU64::<typenum::U32>::from_bits(b);
    match left.checked_mul(right) {
        Some(p) => Some(p.to_bits()),
        None => None,
    }
}

/// Asks `num_traits::Zero::is_zero` whether a quantity is the zero of its
/// type. Believed, not proved: for `u64` the crate compares with 0.
#[verifier::external_body]
pub(crate) fn is_zero(quantity: u64) -> (zero: bool)
    ensures
        zero == (quantity == 0),
{
    num_traits::Zero::is_zero(&quantity)
}

} // verus!
