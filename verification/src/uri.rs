//! The authority grammar of the `http` crate.

use vstd::prelude::*;
use crate::text::{has_two_colons, is_address_text};

verus! {

/// Whether `Authority::try_from` accepts a byte string as the host and port
/// of a URI.
pub uninterp spec fn authority_accepts(text: Seq<u8>) -> bool;

/// `Authority::try_from` on bytes: says whether the crate's parser takes the
/// whole text as an authority. The parser reads nothing but the text. A text
/// of digits, the letters `a` to `f`, dots and colons it takes exactly where
/// the text is not empty and holds at most one colon: every such byte is a
/// character of a URI, and a second colon outside brackets is refused.
#[verifier::external_body]
pub(crate) fn authority_accepted(text: &[u8]) -> (r: bool)
    ensures
        r == authority_accepts(text@),
        is_address_text(text@) ==> r == (text@.len() > 0 && !has_two_colons(text@)),
{
    http::uri::Authority::try_from(text).is_ok()
}

} // verus!
