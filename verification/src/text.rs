//! String operations that the rules need.

use vstd::prelude::*;

verus! {

/// Whether `text` begins with `prefix`.
///
/// Calls `str::starts_with` with a string pattern. Trusted: the result is
/// true exactly when the characters of `prefix` are the first characters of
/// `text`.
#[verifier::external_body]
pub(crate) fn starts_with(text: &str, prefix: &str) -> (r: bool)
    ensures
        r == prefix@.is_prefix_of(text@),
{
    text.starts_with(prefix)
}

} // verus!
