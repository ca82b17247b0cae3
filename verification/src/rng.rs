use vstd::prelude::*;
use rand::rngs::SmallRng;
use rand::{RngCore, SeedableRng};

verus! {

/// The small, fast random number generator of the `rand` crate.
#[verifier::external_type_specification]
#[verifier::external_body]
pub struct ExSmallRng(SmallRng);

/// A generator seeded from the operating system, through `SmallRng::from_entropy`.
/// Trusted: nothing is stated of the generator, whose state depends on the machine.
#[verifier::external_body]
pub(crate) fn entropy_rng() -> SmallRng {
    SmallRng::from_entropy()
}

/// The next random 64-bit number, through `RngCore::next_u64` of `SmallRng`.
/// Trusted: the result may be any number; nothing is stated of it or of the new state.
#[verifier::external_body]
pub(crate) fn next_u64(rng: &mut SmallRng) -> u64 {
    rng.next_u64()
}

/// The next random 32-bit number, through `RngCore::next_u32` of `SmallRng`.
/// Trusted: the result may be any number; nothing is stated of it or of the new state.
#[verifier::external_body]
pub(crate) fn next_u32(rng: &mut SmallRng) -> u32 {
    rng.next_u32()
}

} // verus!
