//! Random identifiers and lottery draws, taken from the `rand` crate.

use crate::text::all_alphanumeric;
use rand::Rng;
use vstd::prelude::*;

verus! {

/// Samples `len` characters from `rand::distributions::Alphanumeric` with the
/// thread-local generator of `rand::thread_rng`.
///
/// Trusted: the result has `len` characters, and each of them is one of the
/// 62 ASCII letters and digits that the distribution samples from. Which of
/// them come out is left open.
#[verifier::external_body]
pub(crate) fn random_str(len: usize) -> (r: String)
    ensures
        r@.len() == len,
        all_alphanumeric(r@),
{
    rand::thread_rng().sample_iter(rand::distributions::Alphanumeric).map(char::from).take(len).collect()
}

/// Draws an integer with `rand::Rng::gen_range` from the half-open range
/// that starts at 1 and ends before `upper`.
///
/// Trusted: the draw lies in that range. `gen_range` panics on an empty
/// range, which the precondition rules out.
#[verifier::external_body]
pub(crate) fn draw_below(upper: u8) -> (r: u8)
    requires
        1 < upper,
    ensures
        1 <= r < upper,
{
    rand::thread_rng().gen_range(1..upper)
}

} // verus!
