//! Draws from the thread-local random generator.
use vstd::prelude::*;

verus! {

/// Relies on rand's `Rng::gen_range` on the thread-local generator: a value
/// drawn from `1..=total`, which must not be empty.
#[verifier::external_body]
pub(crate) fn roll_weight(total: u64) -> (r: u64)
    requires
        total >= 1,
    ensures
        1 <= r <= total,
{
    rand::Rng::gen_range(&mut rand::thread_rng(), 1..=total)
}

/// Relies on rand's `Rng::gen_ratio` on the thread-local generator: `true`
/// with probability `numerator / denominator`, so never for a numerator of
/// zero and always for one equal to the denominator. It panics on a zero
/// denominator or a numerator above it.
#[verifier::external_body]
pub(crate) fn chance(numerator: u32, denominator: u32) -> (r: bool)
    requires
        0 < denominator,
        numerator <= denominator,
    ensures
        numerator == 0 ==> !r,
        numerator == denominator ==> r,
{
    rand::Rng::gen_ratio(&mut rand::thread_rng(), numerator, denominator)
}

} // verus!
