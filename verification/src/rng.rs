//! The library's one tie to the process-wide random source.

use vstd::prelude::*;

verus! {

/// Relies on rand::Rng::gen_range on an `i64` range, which panics only on an
/// empty range and samples from the half-open range `[lo, hi)`. Nothing more
/// is assumed of the value: every caller's contract holds for every outcome.
#[verifier::external_body]
pub(crate) fn draw_in_range(lo: i64, hi: i64) -> (r: i64)
    requires
        lo < hi,
    ensures
        lo <= r < hi,
{
    rand::Rng::gen_range(&mut rand::thread_rng(), lo..hi)
}

} // verus!
