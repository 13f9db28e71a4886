//! The operating system's randomness.
use rand_core::{OsRng, RngCore};
use vstd::prelude::*;

verus! {

/// `rand_core::OsRng`, the generator which retrieves randomness from the operating system. It holds
/// no state.
#[verifier::external_type_specification]
#[verifier::external_body]
pub struct ExOsRng(rand_core::OsRng);

/// `RngCore::next_u32` of `OsRng`. It may return any value, so nothing is claimed of it. It panics
/// where the operating system fails to provide randomness.
#[verifier::external_body]
pub(crate) fn next_u32(rng: &mut OsRng) -> (value: u32) {
    rng.next_u32()
}

/// `RngCore::next_u64` of `OsRng`. It may return any value, so nothing is claimed of it. It panics
/// where the operating system fails to provide randomness.
#[verifier::external_body]
pub(crate) fn next_u64(rng: &mut OsRng) -> (value: u64) {
    rng.next_u64()
}

/// `RngCore::fill_bytes` of `OsRng`, which overwrites each of the bytes with any value. It's only
/// claimed that as many bytes remain, which is all that holds of every outcome. It panics where the
/// operating system fails to provide randomness.
#[verifier::external_body]
pub(crate) fn fill_bytes(rng: &mut OsRng, bytes: &mut [u8])
    ensures
        final(bytes)@.len() == old(bytes)@.len(),
{
    rng.fill_bytes(bytes)
}

} // verus!
