//! Random glyphs and durations drawn from the thread-local generator.

use std::time::Duration;
use vstd::prelude::*;
use vstd::string::*;

use super::rng::{thread_u128_up_to, thread_usize_below};
use crate::time::{add_durations, as_millis, duration_nanos, from_millis, max_duration_nanos};

verus! {

/// The glyphs of the alphanumeric rain.
pub open spec fn alphanumeric_glyphs() -> Seq<char> {
    "EIOPQRTUWY012345789"@
}

/// Picks glyphs from a fixed alphanumeric charset.
#[derive(Debug, Clone, Copy, Default)]
pub struct AlphanumericMatrix;

impl AlphanumericMatrix {
    /// A glyph drawn uniformly from the charset by the thread-local
    /// generator.
    pub fn random_char() -> (c: char)
        ensures
            alphanumeric_glyphs().contains(c),
    {
        let charset = "EIOPQRTUWY012345789";
        proof {
            reveal_strlit("EIOPQRTUWY012345789");
        }
        let index = thread_usize_below(charset.unicode_len());
        let c = charset.get_char(index);
        assert(charset@[index as int] == c);
        c
    }
}

/// A duration from `min` up to `max`, drawn in whole milliseconds by the
/// thread-local generator: `min` plus a drawn number of milliseconds no
/// larger than the whole milliseconds between them.
pub fn random_duration(min: Duration, max: Duration) -> (d: Duration)
    requires
        duration_nanos(min) / 1_000_000 <= duration_nanos(max) / 1_000_000,
        duration_nanos(min) + (duration_nanos(max) / 1_000_000 - duration_nanos(min) / 1_000_000)
            * 1_000_000 <= max_duration_nanos(),
    ensures
        duration_nanos(min) <= duration_nanos(d),
        (duration_nanos(d) - duration_nanos(min)) % 1_000_000 == 0,
        duration_nanos(d) - duration_nanos(min) <= (duration_nanos(max) / 1_000_000 - duration_nanos(min)
            / 1_000_000) * 1_000_000,
{
    let range = as_millis(&max) - as_millis(&min);
    let drawn = thread_u128_up_to(range);
    let random_millis = #[verifier::truncate] (drawn as u64);
    assert(random_millis <= drawn) by (bit_vector)
        requires
            random_millis == drawn as u64,
    ;
    let duration = add_durations(min, from_millis(random_millis));
    duration
}

} // verus!
