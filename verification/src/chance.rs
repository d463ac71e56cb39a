//! Trusted draws from the process-wide random generator.
//!
//! Every decision that depends on chance is made by a verified function that
//! takes the drawn value as an argument; these wrappers only produce the
//! draws, and promise nothing beyond the range a draw lies in.
use rand::Rng;
use vstd::prelude::*;

verus! {

/// Relies on rand::random::<bool>: a fair coin flip. Nothing is promised of
/// the outcome.
#[verifier::external_body]
pub(crate) fn coin() -> bool {
    rand::random()
}

/// Relies on rand::random::<u16>: a uniform draw over the whole of u16.
/// Nothing is promised of the outcome.
#[verifier::external_body]
pub(crate) fn wide_draw() -> u16 {
    rand::random()
}

/// Relies on rand::Rng::gen_range: the sample lies in the given half-open
/// range; the range must not be empty, as gen_range panics on an empty one.
#[verifier::external_body]
pub(crate) fn draw_in(lo: u32, hi: u32) -> (r: u32)
    requires
        lo < hi,
    ensures
        lo <= r < hi,
{
    rand::thread_rng().gen_range(lo..hi)
}

} // verus!
