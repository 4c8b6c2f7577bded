//! The boundary to the `serde_json` crate, which writes names as JSON
//! strings. Nothing in this file is proved: the contract here is taken on
//! trust from that crate's source.

use vstd::prelude::*;

verus! {

#[verifier::external_type_specification]
#[verifier::external_body]
pub struct ExJsonError(serde_json::Error);

/// What `serde_json::to_vec` makes of the string `text`: the bytes of the
/// JSON string that stands for it (the text between double quotes, with the
/// characters that JSON does not take as they are written as escapes), or
/// `None` where it gives an error.
pub uninterp spec fn json_quoted(text: Seq<char>) -> Option<Seq<u8>>;

/// `serde_json::to_vec` on a string: whether it succeeds, and the bytes it
/// gives, depend on `text` alone.
#[verifier::external_body]
pub(crate) fn to_vec(text: &str) -> (bytes: Result<Vec<u8>, serde_json::Error>)
    ensures
        bytes is Ok <==> json_quoted(text@) is Some,
        bytes is Ok ==> json_quoted(text@) == Some(bytes->Ok_0@),
{
    serde_json::to_vec(text)
}

} // verus!
