//! The source of random bytes for `Cxkk`.
use vstd::prelude::*;
use rand::Rng;

verus! {

/// Relies on rand's thread-local generator (`rand::rng().random::<u8>()`)
/// for a uniformly drawn byte; nothing is promised of its value. The
/// generator is seeded from the operating system on first use and panics
/// only if that source is unavailable.
#[verifier::external_body]
pub(crate) fn random_byte() -> (r: u8) {
    rand::rng().random::<u8>()
}

} // verus!
