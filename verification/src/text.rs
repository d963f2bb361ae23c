//! ASCII bytes as Rust strings.
//!
//! The codec computes on bytes. This module is where bytes become `str` and
//! `String`: the two conversions of the standard library, with what is taken
//! on trust about them, and the proof that they cannot fail on ASCII.

use vstd::prelude::*;
use vstd::string::StringSliceAdditionalSpecFns;
use vstd::utf8::{encode_utf8, is_ascii_chars, valid_utf8};

verus! {

/// Every byte of `bytes` is an ASCII character.
pub open spec fn is_ascii_bytes(bytes: Seq<u8>) -> bool {
    forall|i: int| 0 <= i < bytes.len() ==> #[trigger] bytes[i] < 0x80
}

/// The characters that `bytes` spell when each byte is one character.
pub open spec fn as_text(bytes: Seq<u8>) -> Seq<char>
    recommends
        is_ascii_bytes(bytes),
{
    Seq::new(bytes.len(), |i: int| bytes[i] as char)
}

/// ASCII bytes are the UTF-8 encoding of the text they spell.
pub proof fn lemma_ascii_is_utf8(bytes: Seq<u8>)
    requires
        is_ascii_bytes(bytes),
    ensures
        encode_utf8(as_text(bytes)) == bytes,
        valid_utf8(bytes),
{
    let text = as_text(bytes);
    assert(is_ascii_chars(text));
    vstd::utf8::is_ascii_chars_encode_utf8(text);
    assert(encode_utf8(text) =~= bytes);
    vstd::utf8::encode_utf8_valid_utf8(text);
}

/// ASCII bytes are the UTF-8 encoding of no other text than the one they
/// spell.
pub proof fn lemma_ascii_text_unique(bytes: Seq<u8>, text: Seq<char>)
    requires
        is_ascii_bytes(bytes),
        encode_utf8(text) == bytes,
    ensures
        text == as_text(bytes),
{
    lemma_ascii_is_utf8(bytes);
    vstd::utf8::encode_utf8_decode_utf8(text);
    vstd::utf8::encode_utf8_decode_utf8(as_text(bytes));
}

/// Calls `core::str::from_utf8`, with the error dropped.
///
/// Taken on trust: the call succeeds exactly when `bytes` is well-formed
/// UTF-8, and the string slice it returns then has those very bytes.
#[verifier::external_body]
fn str_from_utf8<'a>(bytes: &'a [u8]) -> (text: Option<&'a str>)
    ensures
        text is Some <==> valid_utf8(bytes@),
        text matches Some(s) ==> s.spec_bytes() == bytes@,
{
    core::str::from_utf8(bytes).ok()
}

/// Calls `String::from_utf8`, with the error dropped.
///
/// Taken on trust: the call succeeds exactly when `bytes` is well-formed
/// UTF-8, and the string it returns then has those very bytes.
#[verifier::external_body]
fn string_from_utf8(bytes: Vec<u8>) -> (text: Option<String>)
    ensures
        text is Some <==> valid_utf8(bytes@),
        text matches Some(s) ==> encode_utf8(s@) == bytes@,
{
    String::from_utf8(bytes).ok()
}

/// Views ASCII bytes as the text they spell, without copying.
pub(crate) fn ascii_str<'a>(bytes: &'a [u8]) -> (text: &'a str)
    requires
        is_ascii_bytes(bytes@),
    ensures
        text@ == as_text(bytes@),
        text.spec_bytes() == bytes@,
{
    proof {
        lemma_ascii_is_utf8(bytes@);
    }
    match str_from_utf8(bytes) {
        Some(text) => {
            proof {
                lemma_ascii_text_unique(bytes@, text@);
            }
            text
        },
        None => vstd::pervasive::unreached(),
    }
}

/// Turns ASCII bytes into the text they spell, reusing the allocation.
pub(crate) fn ascii_string(bytes: Vec<u8>) -> (text: String)
    requires
        is_ascii_bytes(bytes@),
    ensures
        text@ == as_text(bytes@),
{
    proof {
        lemma_ascii_is_utf8(bytes@);
    }
    let ghost spelled = bytes@;
    match string_from_utf8(bytes) {
        Some(text) => {
            proof {
                lemma_ascii_text_unique(spelled, text@);
            }
            text
        },
        None => vstd::pervasive::unreached(),
    }
}

} // verus!
