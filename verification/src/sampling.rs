//! Random draws. Everything in this module is trusted rather than proved.

use rand_distr::{Distribution, Uniform};
use vstd::prelude::*;

verus! {

/// `rand_chacha::ChaCha8Rng`, the generator that feeds every draw. Its state
/// is opaque to the verifier.
#[verifier::external_type_specification]
#[verifier::external_body]
pub struct ExChaCha8Rng(rand_chacha::ChaCha8Rng);

/// One draw from `rand_distr::Uniform::new(low, high)` through
/// `Distribution::sample`.
///
/// Trusted: the value lies in the half-open range `[low, high)`. Which value
/// of the range comes back depends on the generator's state and is not
/// specified; the sampler draws again until a draw falls into its
/// acceptance zone, which covers more than half of all draws.
/// `Uniform::new` panics unless `low < high`, hence the precondition.
#[verifier::external_body]
pub(crate) fn sample_uniform(
    rng: &mut rand_chacha::ChaCha8Rng,
    low: u64,
    high: u64,
) -> (value: u64)
    requires
        low < high,
    ensures
        low <= value < high,
{
    Uniform::new(low, high).sample(rng)
}

} // verus!
