//! Trusted boundary to the random-number source. The contracts state only
//! what holds of every outcome — a range for the uniform draws, nothing for
//! the coin flips — so everything proved downstream holds whatever the
//! source returns.

use vstd::prelude::*;

use rand::Rng;

verus! {

/// Relies on `rand::Rng::gen_range` on `rand::thread_rng` with an inclusive
/// range: the range must be non-empty, and the draw lies within it.
#[verifier::external_body]
pub(crate) fn rand_range_inclusive(lo: i32, hi: i32) -> (r: i32)
    requires
        lo <= hi,
    ensures
        lo <= r <= hi,
{
    rand::thread_rng().gen_range(lo..=hi)
}

/// Relies on `rand::Rng::gen_range` on `rand::thread_rng` with a half-open
/// range: the range must be non-empty, and the draw lies within it.
#[verifier::external_body]
pub(crate) fn rand_range_exclusive(lo: i32, hi: i32) -> (r: i32)
    requires
        lo < hi,
    ensures
        lo <= r < hi,
{
    rand::thread_rng().gen_range(lo..hi)
}

/// Relies on `rand::random::<bool>`: an unweighted coin flip, so nothing is
/// promised of the outcome.
#[verifier::external_body]
pub(crate) fn rand_bool() -> bool {
    rand::random()
}

/// Relies on `rand::Rng::gen_ratio` on `rand::thread_rng`: true with
/// probability `numerator` in `denominator`; it rejects a zero denominator or
/// a numerator above it, and nothing is promised of the outcome.
#[verifier::external_body]
pub(crate) fn rand_ratio(numerator: u32, denominator: u32) -> bool
    requires
        0 < denominator,
        numerator <= denominator,
{
    rand::thread_rng().gen_ratio(numerator, denominator)
}

} // verus!
