//! The values of the base64 commands.

use crate::codec::{bytes_view, CodecError};
use crate::process::b64::{decoded_as, encoded_as, process_decode, process_encode};
use crate::strings::trimmed;
use vstd::prelude::*;

verus! {

/// The form of base64 text.
#[derive(Clone, Copy, Debug, PartialEq, Eq, Structural)]
pub enum Base64Format {
    /// The standard alphabet, padded with `=` to groups of four characters.
    Standard,
    /// The alphabet for URLs and file names, with `-` and `_` in place of
    /// `+` and `/`, and no padding.
    UrlSafe,
}

/// What is encoded, and in which form.
#[derive(Clone, Debug, PartialEq, Eq)]
pub struct Base64EncodeOpts {
    /// The file that holds the data, or `-` for the standard input.
    pub input: String,
    /// The form of the text.
    pub format: Base64Format,
}

impl Base64EncodeOpts {
    /// The text of the data `input`.
    pub fn encode(&self, input: &[u8]) -> (text: String)
        ensures
            text@ == encoded_as(input@, self.format),
    {
        process_encode(input, self.format)
    }
}

/// What is decoded, and from which form.
#[derive(Clone, Debug, PartialEq, Eq)]
pub struct Base64DecodeOpts {
    /// The file that holds the text, or `-` for the standard input.
    pub input: String,
    /// The form of the text.
    pub format: Base64Format,
}

impl Base64DecodeOpts {
    /// The bytes that the text `input` spells, white space around it aside.
    pub fn decode(&self, input: &str) -> (r: Result<Vec<u8>, CodecError>)
        ensures
            bytes_view(r) == decoded_as(trimmed(input@), self.format),
    {
        process_decode(input, self.format)
    }
}

} // verus!
