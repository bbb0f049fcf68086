//! Base64 in the two forms of the encode and decode commands.

use crate::cli::Base64Format;
use crate::codec::{
    bytes_view, decoded, decoded_len, encoded, in_alphabet, lemma_decode_encode, octet,
    spare_bits, symbol_value, CodecError,
};
use crate::primitives::base64::{decode_padded, decode_url_safe, encode_padded, encode_url_safe};
use crate::strings::{trim, trimmed};
use vstd::prelude::*;

verus! {

/// The padding behind `n` symbols: as many `=` as are missing to a group of
/// four.
pub open spec fn padding(n: nat) -> Seq<char> {
    if n % 4 == 2 {
        seq!['=', '=']
    } else if n % 4 == 3 {
        seq!['=']
    } else {
        Seq::empty()
    }
}

/// The character of the alphabet for URLs that stands where `c` stands in
/// the standard alphabet.
pub open spec fn to_url_safe(c: char) -> char {
    if c == '+' {
        '-'
    } else if c == '/' {
        '_'
    } else {
        c
    }
}

/// The character of the standard alphabet that stands where `c` stands in
/// the alphabet for URLs; `+` and `/`, which that alphabet lacks, become a
/// character that no alphabet has.
pub open spec fn from_url_safe(c: char) -> char {
    if c == '-' {
        '+'
    } else if c == '_' {
        '/'
    } else if c == '+' || c == '/' {
        '='
    } else {
        c
    }
}

/// The text of `data` in the form `format`.
pub open spec fn encoded_as(data: Seq<u8>, format: Base64Format) -> Seq<char> {
    match format {
        Base64Format::Standard => encoded(data) + padding(encoded(data).len()),
        Base64Format::UrlSafe => encoded(data).map_values(|c: char| to_url_safe(c)),
    }
}

/// The number of `=` at the end of `text`.
pub open spec fn pad_count(text: Seq<char>) -> nat
    decreases text.len(),
{
    if text.len() > 0 && text.last() == '=' {
        pad_count(text.drop_last()) + 1
    } else {
        0
    }
}

/// The bytes that the padded text `text` spells, or why it spells none.
/// Padding is taken at the end of the last group of four characters alone,
/// and no more than two characters of it; any other `=` is a character
/// outside the alphabet. That is reported before a bad length, a bad length
/// before missing padding, and missing padding before spare bits.
pub open spec fn decoded_padded(text: Seq<char>) -> Result<Seq<u8>, CodecError> {
    let pads = pad_count(text);
    let body = text.subrange(0, text.len() - pads);
    let last_group = if text.len() % 4 == 0 {
        4int
    } else {
        (text.len() % 4) as int
    };
    if !in_alphabet(body) || (pads > 0 && pads + 2 > last_group) {
        Err(CodecError::InvalidAlphabet)
    } else if text.len() % 4 == 1 {
        Err(CodecError::InvalidLength)
    } else if text.len() % 4 != 0 {
        Err(CodecError::InvalidPadding)
    } else if spare_bits(body) != 0 {
        Err(CodecError::InvalidLastSymbol)
    } else {
        Ok(Seq::new(decoded_len(body.len()), |k: int| octet(body, k)))
    }
}

/// The bytes that `text` spells in the form `format`, or why it spells
/// none.
pub open spec fn decoded_as(text: Seq<char>, format: Base64Format) -> Result<Seq<u8>, CodecError> {
    match format {
        Base64Format::Standard => decoded_padded(text),
        Base64Format::UrlSafe => decoded(text.map_values(|c: char| from_url_safe(c))),
    }
}

/// Encodes `input` in the form `format`.
pub fn process_encode(input: &[u8], format: Base64Format) -> (text: String)
    ensures
        text@ == encoded_as(input@, format),
{
    match format {
        Base64Format::Standard => encode_padded(input),
        Base64Format::UrlSafe => encode_url_safe(input),
    }
}

/// Decodes `input`, without the white space around it, from the form
/// `format`.
pub fn process_decode(input: &str, format: Base64Format) -> (r: Result<Vec<u8>, CodecError>)
    ensures
        bytes_view(r) == decoded_as(trimmed(input@), format),
{
    let text = trim(input);
    match format {
        Base64Format::Standard => decode_padded(text),
        Base64Format::UrlSafe => decode_url_safe(text),
    }
}

/// A symbol of the standard alphabet is no padding, and is found again
/// from the character that stands for it in the alphabet for URLs.
proof fn lemma_symbol_forms(c: char)
    requires
        symbol_value(c) is Some,
    ensures
        c != '=',
        from_url_safe(to_url_safe(c)) == c,
{
}

/// Up to two `=` behind a text that does not end in one are counted as
/// they are, and the text before them is the text.
proof fn lemma_pad_count(body: Seq<char>, pads: Seq<char>)
    requires
        body.len() == 0 || body.last() != '=',
        pads.len() <= 2,
        forall|i: int| 0 <= i < pads.len() ==> pads[i] == '=',
    ensures
        pad_count(body + pads) == pads.len(),
        (body + pads).subrange(0, body.len() as int) == body,
{
    let text = body + pads;
    assert(text.subrange(0, body.len() as int) =~= body);
    reveal_with_fuel(pad_count, 3);
    if pads.len() == 0 {
        assert(text =~= body);
    } else if pads.len() == 1 {
        assert(text.last() == pads[0]);
        assert(text.drop_last() =~= body);
    } else {
        assert(text.last() == pads[1]);
        assert(text.drop_last() =~= body.push('='));
        assert(text.drop_last().last() == '=');
        assert(text.drop_last().drop_last() =~= body);
    }
}

/// A text that decodes without padding does not end in `=`, and with its
/// padding behind it its length is a multiple of four.
proof fn lemma_decodable_takes_padding(body: Seq<char>)
    requires
        decoded(body) is Ok,
    ensures
        body.len() == 0 || body.last() != '=',
        (body.len() + padding(body.len()).len()) % 4 == 0,
        padding(body.len()).len() <= 2,
        forall|i: int| 0 <= i < padding(body.len()).len() ==> padding(body.len())[i] == '=',
{
    if body.len() > 0 {
        assert(symbol_value(body[body.len() - 1]) is Some);
        lemma_symbol_forms(body.last());
    }
}

/// A padded text whose length is a multiple of four spells what the text
/// before its padding spells without padding.
proof fn lemma_padded_as_unpadded(text: Seq<char>, body: Seq<char>)
    requires
        decoded(body) is Ok,
        text.len() % 4 == 0,
        pad_count(text) <= 2,
        text.len() >= pad_count(text),
        body == text.subrange(0, text.len() - pad_count(text)),
    ensures
        decoded_padded(text) == decoded(body),
{
}

/// Decoding a padded text gives the bytes back.
proof fn lemma_decode_encode_padded(data: Seq<u8>)
    ensures
        decoded_padded(encoded(data) + padding(encoded(data).len())) == Ok::<Seq<u8>, CodecError>(
            data,
        ),
{
    let plain = encoded(data);
    let pads = padding(plain.len());
    let text = plain + pads;
    lemma_decode_encode(data);
    lemma_decodable_takes_padding(plain);
    lemma_pad_count(plain, pads);
    lemma_padded_as_unpadded(text, plain);
}

/// Decoding a text for URLs gives the bytes back.
proof fn lemma_decode_encode_url_safe(data: Seq<u8>)
    ensures
        decoded(
            encoded(data).map_values(|c: char| to_url_safe(c)).map_values(
                |c: char| from_url_safe(c),
            ),
        ) == Ok::<Seq<u8>, CodecError>(data),
{
    let plain = encoded(data);
    lemma_decode_encode(data);
    let there = plain.map_values(|c: char| to_url_safe(c));
    assert forall|i: int| 0 <= i < plain.len() implies from_url_safe(to_url_safe(plain[i]))
        == plain[i] by {
        assert(symbol_value(plain[i]) is Some);
        lemma_symbol_forms(plain[i]);
    }
    assert(there.map_values(|c: char| from_url_safe(c)) =~= plain);
}

/// Decoding a text in the form it was encoded in gives the bytes back.
pub proof fn lemma_decode_encode_as(data: Seq<u8>, format: Base64Format)
    ensures
        decoded_as(encoded_as(data, format), format) == Ok::<Seq<u8>, CodecError>(data),
{
    match format {
        Base64Format::UrlSafe => lemma_decode_encode_url_safe(data),
        Base64Format::Standard => lemma_decode_encode_padded(data),
    }
}

} // verus!
