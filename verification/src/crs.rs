//! The common reference string of a session: a 32-byte seed from which every
//! party derives the same public randomness.
use rand::Rng;
use vstd::prelude::*;

verus! {

/// The common reference string: its 32-byte seed.
#[derive(Debug, Clone, Copy)]
pub struct Crs {
    seed: [u8; 32],
}

/// Calls `rand::thread_rng().gen::<[u8; 32]>()`.
///
/// Trusted only for its type: the bytes are random, and nothing is stated of
/// them.
#[verifier::external_body]
fn random_seed() -> [u8; 32] {
    rand::thread_rng().gen::<[u8; 32]>()
}

impl Crs {
    /// The reference string with the given seed.
    pub fn new(seed: [u8; 32]) -> (r: Crs)
        ensures
            r.seed_view() == seed@,
    {
        Crs { seed }
    }

    /// A reference string with a fresh random seed.
    pub fn from_entropy() -> (r: Crs) {
        Crs::new(random_seed())
    }

    /// The seed of this reference string.
    pub fn seed(&self) -> (r: [u8; 32])
        ensures
            r@ == self.seed_view(),
    {
        self.seed
    }

    /// The seed's bytes.
    pub closed spec fn seed_view(&self) -> Seq<u8> {
        self.seed@
    }
}

} // verus!
