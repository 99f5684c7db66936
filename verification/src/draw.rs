//! The draw of the secret word.

use vstd::prelude::*;
use rand::{Rng, SeedableRng};

verus! {

/// The place that the draw with the given seed picks among `len` places.
pub uninterp spec fn drawn_index(seed: u64, len: usize) -> usize;

/// Seeds the standard generator of `rand` with `StdRng::seed_from_u64` and
/// takes one sample with `Rng::gen_range` from the places `0..len`.
///
/// The generator is deterministic, so the same seed and the same number of
/// places give the same place again; the sample lies in the range it was
/// asked from. `gen_range` refuses an empty range, which `len > 0` rules
/// out. The sample is taken as a `u64`, so that it does not depend on
/// the width of `usize`.
#[verifier::external_body]
pub(crate) fn draw_index(seed: u64, len: usize) -> (index: usize)
    requires
        len > 0,
    ensures
        index == drawn_index(seed, len),
        index < len,
{
    let mut rng = rand::rngs::StdRng::seed_from_u64(seed);
    let index: u64 = rng.gen_range(0..len as u64);
    index as usize
}

} // verus!
