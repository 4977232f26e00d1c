//! UTF-8 text in bytes.

use crate::error::CodecError;
use vstd::prelude::*;
use vstd::utf8::{decode_utf8, encode_utf8, valid_utf8};

verus! {

/// `std::string::FromUtf8Error`, the error of `String::from_utf8`. Nothing is claimed of
/// what it holds.
#[verifier::external_type_specification]
#[verifier::external_body]
pub struct ExFromUtf8Error(std::string::FromUtf8Error);

/// What reading `bytes` as UTF-8 text gives: the characters that they spell, or
/// `InvalidEncoding` where they are not valid UTF-8.
pub open spec fn decoded_text(bytes: Seq<u8>) -> Result<Seq<char>, CodecError> {
    if valid_utf8(bytes) {
        Ok(decode_utf8(bytes))
    } else {
        Err(CodecError::InvalidEncoding)
    }
}

/// A result that holds a string, with the string taken as the characters that it holds.
pub open spec fn viewed(r: Result<String, CodecError>) -> Result<Seq<char>, CodecError> {
    match r {
        Ok(text) => Ok(text@),
        Err(error) => Err(error),
    }
}

/// `String::from_utf8`: the string that `bytes` spell where they are valid UTF-8, and an
/// error where they are not.
#[verifier::external_body]
fn string_from_utf8(bytes: Vec<u8>) -> (r: Result<String, std::string::FromUtf8Error>)
    ensures
        r is Ok <==> valid_utf8(bytes@),
        r matches Ok(text) ==> text@ == decode_utf8(bytes@),
{
    String::from_utf8(bytes)
}

/// Reads `bytes` as UTF-8 text. Nothing is replaced or dropped: bytes that are not valid
/// UTF-8 give `InvalidEncoding`.
pub fn decode_text(bytes: Vec<u8>) -> (r: Result<String, CodecError>)
    ensures
        viewed(r) == decoded_text(bytes@),
{
    match string_from_utf8(bytes) {
        Ok(text) => Ok(text),
        Err(_) => Err(CodecError::InvalidEncoding),
    }
}

/// Text is read back from the bytes that spell it.
pub proof fn lemma_text_roundtrip(text: Seq<char>)
    ensures
        decoded_text(encode_utf8(text)) == Ok::<Seq<char>, CodecError>(text),
{
    vstd::utf8::encode_utf8_valid_utf8(text);
    vstd::utf8::encode_utf8_decode_utf8(text);
}

} // verus!
