//! Unicode lower-casing, which the library takes from the standard library.

use vstd::prelude::*;

use crate::text::lower_ascii;

verus! {

/// What `str::to_lowercase` returns for `s` (Unicode `Lowercase` mapping).
pub uninterp spec fn unicode_lower(s: Seq<char>) -> Seq<char>;

pub open spec fn all_ascii(s: Seq<char>) -> bool {
    forall|i: int| 0 <= i < s.len() ==> (#[trigger] s[i] as u32) < 128
}

/// `str::to_lowercase`: the Unicode lower-case form of `s`. On ASCII input
/// it maps exactly the letters `A`..`Z` to `a`..`z` and keeps every other
/// character, as the Unicode case tables do for that range; for other input
/// only the name is stated.
#[verifier::external_body]
pub(crate) fn to_lowercase(s: &str) -> (r: String)
    ensures
        r@ == unicode_lower(s@),
        all_ascii(s@) ==> r@ == lower_ascii(s@),
{
    s.to_lowercase()
}

} // verus!
