//! The random source of the pipeline: a seeded generator of the `rand` crate,
//! and the draws that the stages take from it.
//!
//! Nothing is proved of these functions: their bodies call into `rand`, and
//! their contracts say only what `rand` promises of every draw.

use vstd::prelude::*;
use rand::rngs::StdRng;
use rand::{Rng, RngCore, SeedableRng};

verus! {

/// `rand::rngs::StdRng`, the generator that each worker owns. Its state is
/// not visible to the contracts.
#[verifier::external_type_specification]
#[verifier::external_body]
pub struct ExStdRng(StdRng);

/// Makes a generator from a seed with `StdRng::seed_from_u64`. Equal seeds
/// give generators that draw alike; the contracts make no use of it.
#[verifier::external_body]
pub(crate) fn generador_con_semilla(semilla: u64) -> StdRng {
    StdRng::seed_from_u64(semilla)
}

/// Draws a whole number below `limite` with `Rng::gen_range` on the range
/// from zero up to, and without, `limite`. `gen_range` panics on an empty
/// range, so `limite` is not zero.
#[verifier::external_body]
pub(crate) fn sortear_menor_que(rng: &mut StdRng, limite: u64) -> (sorteo: u64)
    requires
        limite > 0,
    ensures
        sorteo < limite,
{
    rng.gen_range(0..limite)
}

/// Draws 64 random bits with `RngCore::next_u64`. Nothing is claimed of them.
#[verifier::external_body]
pub(crate) fn sortear_bits(rng: &mut StdRng) -> (bits: u64) {
    rng.next_u64()
}

/// Draws 32 random bits with `RngCore::next_u32`. Nothing is claimed of them.
#[verifier::external_body]
pub(crate) fn sortear_bits_cortos(rng: &mut StdRng) -> (bits: u32) {
    rng.next_u32()
}

} // verus!
