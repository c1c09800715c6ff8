//! The source of random bytes.

use rand::Rng;
use vstd::prelude::*;

verus! {

/// Draws a byte from the generator that `rand::thread_rng` hands out, with
/// `rand::Rng::gen`.
///
/// Nothing is claimed of the byte: two calls may give any two values. The
/// generator is seeded from the operating system when a thread first asks
/// for it, and `rand` panics if the system then has no entropy to give.
#[verifier::external_body]
pub(crate) fn random_byte() -> (byte: u8) {
    rand::thread_rng().gen()
}

} // verus!
