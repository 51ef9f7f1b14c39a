//! Text that crosses the boundary: decoding and case normalisation.

use vstd::prelude::*;
use vstd::utf8::*;
use vstd::string::*;

verus! {

/// The upper-case form of a text: what `str::to_uppercase` returns for it.
/// Nothing is said here of what that form is.
pub uninterp spec fn uppercase_of(text: Seq<char>) -> Seq<char>;

/// The text that a byte string holds, if it is well-formed UTF-8.
pub open spec fn decoded(bytes: Seq<u8>) -> Option<Seq<char>> {
    if valid_utf8(bytes) {
        Some(decode_utf8(bytes))
    } else {
        None
    }
}

/// Calls `core::str::from_utf8`. Taken on trust: the call succeeds exactly
/// on well-formed UTF-8, and the string slice that it gives is made of the
/// very bytes that it was given.
#[verifier::external_body]
fn from_utf8(bytes: &[u8]) -> (text: Option<&str>)
    ensures
        text is Some <==> valid_utf8(bytes@),
        text matches Some(s) ==> s.spec_bytes() == bytes@,
{
    match core::str::from_utf8(bytes) {
        Ok(s) => Some(s),
        Err(_) => None,
    }
}

/// Calls `str::to_uppercase`. Taken on trust: the result depends on the
/// text alone, so that it can go by the name `uppercase_of`.
#[verifier::external_body]
pub(crate) fn to_uppercase(text: &str) -> (upper: String)
    ensures
        upper@ == uppercase_of(text@),
{
    text.to_uppercase()
}

/// Decodes a byte string into text without copying it.
pub fn decode_text(bytes: &[u8]) -> (text: Option<&str>)
    ensures
        text is Some <==> decoded(bytes@) is Some,
        text matches Some(s) ==> Some(s@) == decoded(bytes@),
{
    let text = from_utf8(bytes);
    proof {
        if let Some(s) = text {
            encode_utf8_decode_utf8(s@);
        }
    }
    text
}

/// Decodes a byte string and puts it in upper case.
pub fn decode_uppercase(bytes: &[u8]) -> (text: Option<String>)
    ensures
        match decoded(bytes@) {
            Some(t) => text matches Some(s) && s@ == uppercase_of(t),
            None => text is None,
        },
{
    match decode_text(bytes) {
        Some(s) => Some(to_uppercase(s)),
        None => None,
    }
}

} // verus!
