//! The adapter to the external random-variate generator: the kernel treats
//! it as an opaque supplier of bounded positive durations.
use vstd::prelude::*;
use rand::RngExt;

verus! {

/// Relies on rand::RngExt::random_range on the inclusive range `lo..=hi`:
/// the drawn value lies within the bounds. Nothing more is assumed of a
/// random draw. The range is non-empty, so the call does not panic.
#[verifier::external_body]
fn sample_in(lo: u64, hi: u64) -> (r: u64)
    requires
        lo <= hi,
    ensures
        lo <= r <= hi,
{
    rand::rng().random_range(lo..=hi)
}

/// Draw one positive duration of at most `max` time units from the
/// external generator.
pub fn draw_duration(max: u64) -> (d: u64)
    requires
        max >= 1,
    ensures
        1 <= d <= max,
{
    sample_in(1, max)
}

} // verus!
