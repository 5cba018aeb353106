//! Bytes as text: base64 and UTF-8.
use base64::Engine;
use vstd::prelude::*;
#[allow(unused_imports)]
use crate::text::utf8_len;

verus! {

/// What `base64`'s standard engine, with padding, writes for bytes.
pub uninterp spec fn base64_text(bytes: Seq<u8>) -> Seq<char>;

/// The bytes that `base64`'s standard engine, with padding, reads from a text, or
/// its error in words.
pub uninterp spec fn base64_bytes(text: Seq<char>) -> Result<Seq<u8>, Seq<char>>;

/// The bytes of a base64 text with padding.
pub open spec fn base64_len(bytes: nat) -> nat {
    (bytes + 2) / 3 * 4
}

/// The outcome of decoding that gives these bytes.
pub open spec fn decoded_as(bytes: Seq<u8>) -> Result<Seq<u8>, Seq<char>> {
    Ok(bytes)
}

/// `base64::Engine::encode` of the standard engine: four characters for each three
/// bytes begun, from which decoding gives the bytes back. It panics where the text
/// would not fit into memory.
#[verifier::external_body]
pub(crate) fn encode_base64(bytes: &[u8]) -> (text: String)
    requires
        base64_len(bytes@.len()) <= isize::MAX,
    ensures
        text@ == base64_text(bytes@),
        base64_bytes(text@) == decoded_as(bytes@),
        utf8_len(text@) == base64_len(bytes@.len()),
{
    base64::engine::general_purpose::STANDARD.encode(bytes)
}

/// `base64::Engine::decode` of the standard engine: the bytes that a text stands
/// for, or why it stands for none.
#[verifier::external_body]
pub(crate) fn decode_base64(text: &str) -> (r: Result<Vec<u8>, String>)
    ensures
        match r {
            Ok(bytes) => base64_bytes(text@) == Ok::<Seq<u8>, Seq<char>>(bytes@),
            Err(m) => base64_bytes(text@) == Err::<Seq<u8>, Seq<char>>(m@),
        },
{
    match base64::engine::general_purpose::STANDARD.decode(text) {
        Ok(bytes) => Ok(bytes),
        Err(error) => Err(error.to_string()),
    }
}

/// How `String::from_utf8` says that bytes are not UTF-8.
pub uninterp spec fn utf8_error(bytes: Seq<u8>) -> Seq<char>;

/// `String::from_utf8`: the text of which the bytes are the UTF-8 form, where there
/// is one, or the error in words.
#[verifier::external_body]
pub(crate) fn text_of(bytes: Vec<u8>) -> (r: Result<String, String>)
    ensures
        match r {
            Ok(s) => vstd::utf8::valid_utf8(bytes@) && s@ == vstd::utf8::decode_utf8(bytes@),
            Err(m) => !vstd::utf8::valid_utf8(bytes@) && m@ == utf8_error(bytes@),
        },
{
    match String::from_utf8(bytes) {
        Ok(text) => Ok(text),
        Err(error) => Err(error.to_string()),
    }
}

} // verus!
