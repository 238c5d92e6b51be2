//! English singular forms, taken from the `pluralizer` crate.

use vstd::prelude::*;

verus! {

/// Calls `pluralizer::pluralize(word, 1, false)`, which gives the singular
/// form of `word` by the rule tables of that crate.
///
/// Trusted: nothing. The tables are global to the process and can be
/// extended while it runs, so the contract promises nothing of the result.
#[verifier::external_body]
pub(crate) fn singular_of(word: &str) -> (r: String) {
    pluralizer::pluralize(word, 1, false)
}

} // verus!
