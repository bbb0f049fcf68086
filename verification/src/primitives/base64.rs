//! Base64 text.

use crate::codec::{bytes_view, decoded, encoded, CodecError};
use crate::process::b64::{decoded_padded, from_url_safe, padding, to_url_safe};
use base64::engine::general_purpose::{STANDARD, STANDARD_NO_PAD, URL_SAFE_NO_PAD};
use base64::{DecodeError, Engine};
use vstd::prelude::*;

verus! {

/// `Engine::encode_string` of `STANDARD_NO_PAD`, into an empty text: one
/// symbol of the standard alphabet for every started group of six bits of
/// `data`, and no padding.
#[verifier::external_body]
pub(crate) fn encode_unpadded(data: &[u8]) -> (text: String)
    ensures
        text@ == encoded(data@),
{
    let mut text = String::new();
    STANDARD_NO_PAD.encode_string(data, &mut text);
    text
}

/// `Engine::decode` of `STANDARD_NO_PAD`: the bytes that `text` spells. A
/// byte that is no symbol of the alphabet, the padding sign among them, is
/// found before a length of one more than a multiple of four, and that
/// before bits of the last symbol that belong to no byte.
#[verifier::external_body]
pub(crate) fn decode_unpadded(text: &str) -> (r: Result<Vec<u8>, CodecError>)
    ensures
        bytes_view(r) == decoded(text@),
{
    match STANDARD_NO_PAD.decode(text) {
        Ok(bytes) => Ok(bytes),
        Err(DecodeError::InvalidByte(..)) => Err(CodecError::InvalidAlphabet),
        Err(DecodeError::InvalidPadding) => Err(CodecError::InvalidAlphabet),
        Err(DecodeError::InvalidLength(..)) => Err(CodecError::InvalidLength),
        Err(DecodeError::InvalidLastSymbol(..)) => Err(CodecError::InvalidLastSymbol),
    }
}

/// `Engine::encode_string` of `STANDARD`, into an empty text: the unpadded
/// text, and behind it as many `=` as are missing to a group of four
/// characters.
#[verifier::external_body]
pub(crate) fn encode_padded(data: &[u8]) -> (text: String)
    ensures
        text@ == encoded(data@) + padding(encoded(data@).len()),
{
    let mut text = String::new();
    STANDARD.encode_string(data, &mut text);
    text
}

/// `Engine::decode` of `STANDARD`: the bytes that the padded `text` spells.
/// One or two `=` count as padding where they end a last group of four
/// characters; every other `=` is refused as a byte outside the alphabet
/// is. Then a length of one more than a multiple of four is refused, then
/// any other length that is no multiple of four, then bits of the last
/// symbol that belong to no byte.
#[verifier::external_body]
pub(crate) fn decode_padded(text: &str) -> (r: Result<Vec<u8>, CodecError>)
    ensures
        bytes_view(r) == decoded_padded(text@),
{
    match STANDARD.decode(text) {
        Ok(bytes) => Ok(bytes),
        Err(DecodeError::InvalidByte(..)) => Err(CodecError::InvalidAlphabet),
        Err(DecodeError::InvalidPadding) => Err(CodecError::InvalidPadding),
        Err(DecodeError::InvalidLength(..)) => Err(CodecError::InvalidLength),
        Err(DecodeError::InvalidLastSymbol(..)) => Err(CodecError::InvalidLastSymbol),
    }
}

/// `Engine::encode_string` of `URL_SAFE_NO_PAD`, into an empty text: the
/// unpadded text with `-` for `+` and `_` for `/`.
#[verifier::external_body]
pub(crate) fn encode_url_safe(data: &[u8]) -> (text: String)
    ensures
        text@ == encoded(data@).map_values(|c: char| to_url_safe(c)),
{
    let mut text = String::new();
    URL_SAFE_NO_PAD.encode_string(data, &mut text);
    text
}

/// `Engine::decode` of `URL_SAFE_NO_PAD`: as that of `STANDARD_NO_PAD`, with
/// `-` and `_` as the last two symbols of the alphabet and `+` and `/`
/// outside it.
#[verifier::external_body]
pub(crate) fn decode_url_safe(text: &str) -> (r: Result<Vec<u8>, CodecError>)
    ensures
        bytes_view(r) == decoded(text@.map_values(|c: char| from_url_safe(c))),
{
    match URL_SAFE_NO_PAD.decode(text) {
        Ok(bytes) => Ok(bytes),
        Err(DecodeError::InvalidByte(..)) => Err(CodecError::InvalidAlphabet),
        Err(DecodeError::InvalidPadding) => Err(CodecError::InvalidAlphabet),
        Err(DecodeError::InvalidLength(..)) => Err(CodecError::InvalidLength),
        Err(DecodeError::InvalidLastSymbol(..)) => Err(CodecError::InvalidLastSymbol),
    }
}

} // verus!
