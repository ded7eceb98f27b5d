//! The randomness source.
//!
//! Every state-mutating step of the optimizers draws from an explicitly
//! passed `StdRng` handle, never from a hidden global generator, so
//! that parallel lanes can use independently seeded streams and tests
//! can fix the seed.  The draws go through the wrappers below; their
//! contracts state only the range of the values, which is all that
//! holds of every outcome of a random draw.

use vstd::prelude::*;

use rand::rngs::StdRng;
use rand::Rng;
use rand::SeedableRng;

verus! {

/// Declares rand's `StdRng` so that the populations can hold and pass
/// their randomness stream; the value stays opaque to the verifier.
#[verifier::external_type_specification]
#[verifier::external_body]
pub struct ExStdRng(StdRng);

/// Relies on rand's `SeedableRng::seed_from_u64`: builds the generator
/// for one run or lane from a plain seed.
#[verifier::external_body]
pub fn rng_from_seed(seed: u64) -> StdRng {
    StdRng::seed_from_u64(seed)
}

/// Relies on rand's `Rng::gen_range` over an `i64` half-open range: it
/// panics only on an empty range, which the precondition rules out, and
/// returns a value of the range.
#[verifier::external_body]
pub fn rand_in_range(rng: &mut StdRng, lo: i64, hi: i64) -> (r: i64)
    requires
        lo < hi,
    ensures
        lo <= r < hi,
{
    rng.gen_range(lo..hi)
}

/// Relies on rand's `Rng::gen_range` over a `usize` half-open range
/// starting at zero: it panics only on an empty range, which the
/// precondition rules out, and returns a value of the range.
#[verifier::external_body]
pub fn rand_index(rng: &mut StdRng, len: usize) -> (r: usize)
    requires
        len >= 1,
    ensures
        r < len,
{
    rng.gen_range(0..len)
}

} // verus!
