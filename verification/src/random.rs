//! The one source of randomness: the byte that `CXNN` masks.

use vstd::prelude::*;

verus! {

/// Draws a byte from the `rand` crate's thread-local generator, by
/// `rand::rng()` and then `RngExt::random::<u8>()`. Nothing is claimed of the
/// byte: every `u8` may come back, and two calls may differ. The generator
/// panics if the operating system's random source fails while it is first
/// seeded; nothing here states that.
#[verifier::external_body]
pub(crate) fn random_byte() -> u8 {
    rand::RngExt::random::<u8>(&mut rand::rng())
}

} // verus!
