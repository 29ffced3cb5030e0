//! Strict UTF-8: the text of bytes that are well-formed throughout.

use vstd::prelude::*;
use vstd::slice::slice_to_vec;
use vstd::utf8::*;

verus! {

/// `String::from_utf8`: succeeds exactly on well-formed UTF-8, and the
/// string it gives then consists of the very bytes it was given.
#[verifier::external_body]
pub(crate) fn string_from_utf8(bytes: Vec<u8>) -> (out: Option<String>)
    ensures
        out is Some <==> valid_utf8(bytes@),
        out matches Some(text) ==> encode_utf8(text@) == bytes@,
{
    match String::from_utf8(bytes) {
        Ok(text) => Some(text),
        Err(_) => None,
    }
}

/// Reads `bytes` as UTF-8 and refuses them if they are malformed anywhere.
pub fn text_of_utf8(bytes: &[u8]) -> (out: Option<String>)
    ensures
        out is Some <==> valid_utf8(bytes@),
        out matches Some(text) ==> text@ == decode_utf8(bytes@),
{
    let out = string_from_utf8(slice_to_vec(bytes));
    proof {
        if out is Some {
            encode_utf8_decode_utf8(out->0@);
        }
    }
    out
}

} // verus!
