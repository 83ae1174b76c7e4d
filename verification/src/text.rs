//! Conversions between bytes and text.

use vstd::prelude::*;
use vstd::utf8::{decode_utf8, valid_utf8};

verus! {

/// The text that lossy decoding makes of `bytes`: the decoded text where
/// `bytes` is UTF-8, and otherwise a text in which each ill-formed sequence
/// is replaced by U+FFFD.
pub uninterp spec fn lossy_text(bytes: Seq<u8>) -> Seq<char>;

/// Calls `String::from_utf8_lossy`. The contract names the result, and
/// claims, as the standard library documents, that well-formed UTF-8 is
/// decoded unchanged; which replacement characters stand in an ill-formed
/// input is not stated.
#[verifier::external_body]
pub(crate) fn decode_lossy(bytes: &[u8]) -> (res: String)
    ensures
        res@ == lossy_text(bytes@),
        valid_utf8(bytes@) ==> res@ == decode_utf8(bytes@),
{
    String::from_utf8_lossy(bytes).into_owned()
}

/// Calls `String::from_utf8`. The contract claims what the standard library
/// documents: the call succeeds exactly on well-formed UTF-8, and the string
/// it returns is the decoding of the bytes.
#[verifier::external_body]
pub(crate) fn decode_strict(bytes: Vec<u8>) -> (res: Option<String>)
    ensures
        res is Some <==> valid_utf8(bytes@),
        res matches Some(s) ==> s@ == decode_utf8(bytes@),
{
    match String::from_utf8(bytes) {
        Ok(s) => Some(s),
        Err(_) => None,
    }
}

} // verus!
