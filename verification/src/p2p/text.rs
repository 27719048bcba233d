use vstd::prelude::*;
use vstd::string::*;
use vstd::utf8::*;

verus! {

/// The UTF-8 bytes of a string.
pub fn string_bytes(s: &String) -> (bytes: Vec<u8>)
    ensures
        bytes@ == encode_utf8(s@),
{
    let text: &str = s.as_str();
    let b = text.as_bytes();
    vstd::slice::slice_to_vec(b)
}

/// Converts bytes to a string with [`String::from_utf8`].
///
/// Trusted: `String::from_utf8` succeeds exactly on valid UTF-8 and then holds those very
/// bytes, as its documentation says.
#[verifier::external_body]
fn string_from_utf8(bytes: Vec<u8>) -> (r: Option<String>)
    ensures
        r is Some <==> valid_utf8(bytes@),
        r matches Some(s) ==> encode_utf8(s@) == bytes@,
{
    String::from_utf8(bytes).ok()
}

/// The string that UTF-8 `bytes` encode, or `None` where they are not UTF-8.
pub fn bytes_to_string(bytes: Vec<u8>) -> (r: Option<String>)
    ensures
        r is Some <==> valid_utf8(bytes@),
        r matches Some(s) ==> s@ == decode_utf8(bytes@) && encode_utf8(s@) == bytes@,
{
    let r = string_from_utf8(bytes);
    proof {
        if r is Some {
            encode_utf8_decode_utf8(r->0@);
        }
    }
    r
}

/// The text that `String::from_utf8_lossy` makes of `bytes`.
pub uninterp spec fn utf8_lossy(bytes: Seq<u8>) -> Seq<char>;

/// Converts bytes to text with [`String::from_utf8_lossy`], which puts a replacement
/// character where the bytes are not UTF-8.
///
/// Trusted: the text is named by `utf8_lossy`; where the bytes are UTF-8 it is the text
/// they encode, as the documentation says. What replaces invalid bytes is not stated.
#[verifier::external_body]
fn string_from_utf8_lossy(bytes: &[u8]) -> (s: String)
    ensures
        s@ == utf8_lossy(bytes@),
        valid_utf8(bytes@) ==> s@ == decode_utf8(bytes@),
{
    String::from_utf8_lossy(bytes).into_owned()
}

/// The text of `bytes`, with a replacement character where they are not UTF-8.
pub fn bytes_to_text_lossy(bytes: &[u8]) -> (s: String)
    ensures
        s@ == utf8_lossy(bytes@),
        valid_utf8(bytes@) ==> s@ == decode_utf8(bytes@),
{
    string_from_utf8_lossy(bytes)
}

} // verus!
