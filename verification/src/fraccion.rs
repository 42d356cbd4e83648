//! Fractions between zero and one, counted in parts of 2^53.
//!
//! A random fraction is the upper 53 bits of 64 random ones, and a
//! probability is a number of parts: an event of probability `p` happens on
//! the draws whose fraction is below `p`.

use vstd::prelude::*;

verus! {

/// The number of equal parts into which the interval from zero to one is
/// cut: 2^53.
pub const PARTES_POR_UNIDAD: u64 = 9_007_199_254_740_992;

/// One tenth, rounded up to a whole number of parts.
pub const UN_DECIMO: u64 = 900_719_925_474_100;

/// The fraction that 64 random bits stand for, in parts: their upper 53 bits.
pub open spec fn fraccion_de(bits: u64) -> int {
    bits as int / 2048
}

/// Whether the fraction of a draw is below a probability.
pub fn por_debajo(bits: u64, probabilidad: u64) -> (debajo: bool)
    ensures
        debajo == (fraccion_de(bits) < probabilidad),
        fraccion_de(bits) < PARTES_POR_UNIDAD,
{
    assert(bits >> 11 == bits / 2048) by (bit_vector);
    (bits >> 11) < probabilidad
}

} // verus!
