//! Unpadded base64 over the standard alphabet: what the text of given bytes
//! is, what the bytes of a given text are, and that the one undoes the other.
//!
//! The model reads the input as one string of bits: the text has one symbol
//! for every started group of six bits, and the missing bits of the last
//! group are zero.

use crate::primitives::base64::{decode_unpadded, encode_unpadded};
use vstd::prelude::*;

verus! {

/// Why a text is not the encoding of any byte sequence.
#[derive(Clone, Copy, Debug, PartialEq, Eq, Structural)]
pub enum CodecError {
    /// The text holds a character that is not one of the 64 symbols.
    InvalidAlphabet,
    /// The number of symbols is one more than a multiple of four.
    InvalidLength,
    /// The last symbol carries bits that belong to no byte.
    InvalidLastSymbol,
    /// Padded text does not end where a group of four characters ends.
    InvalidPadding,
}

/// The symbol that stands for the six-bit value `v`.
pub open spec fn symbol(v: u8) -> char {
    if v < 26 {
        ((65 + v) as u8) as char
    } else if v < 52 {
        ((71 + v) as u8) as char
    } else if v < 62 {
        ((v - 4) as u8) as char
    } else if v == 62 {
        '+'
    } else {
        '/'
    }
}

/// The six-bit value that `c` stands for, if `c` is a symbol of the alphabet.
pub open spec fn symbol_value(c: char) -> Option<u8> {
    let n = c as u32;
    if 65 <= n <= 90 {
        Some((n - 65) as u8)
    } else if 97 <= n <= 122 {
        Some((n - 71) as u8)
    } else if 48 <= n <= 57 {
        Some((n + 4) as u8)
    } else if n == 43 {
        Some(62u8)
    } else if n == 47 {
        Some(63u8)
    } else {
        None
    }
}

/// Every six-bit value is found again from its symbol.
pub proof fn lemma_symbol_value_of_symbol(v: u8)
    requires
        v < 64,
    ensures
        symbol_value(symbol(v)) == Some(v),
        (symbol(v) as u32) < 128,
{
}

/// Every symbol is found again from its value.
pub proof fn lemma_symbol_of_symbol_value(c: char)
    requires
        symbol_value(c) is Some,
    ensures
        symbol_value(c).unwrap() < 64,
        symbol(symbol_value(c).unwrap()) == c,
{
}

/// The byte at position `i` of `data`, and zero past its end.
pub open spec fn byte_at(data: Seq<u8>, i: int) -> u8 {
    if 0 <= i < data.len() {
        data[i]
    } else {
        0
    }
}

/// The `k`-th group of six bits of `data`, read as one string of bits that
/// zeros follow.
pub open spec fn sextet(data: Seq<u8>, k: int) -> u8 {
    let j = k / 4 * 3;
    let r = k % 4;
    if r == 0 {
        byte_at(data, j) >> 2
    } else if r == 1 {
        ((byte_at(data, j) & 3) << 4) | (byte_at(data, j + 1) >> 4)
    } else if r == 2 {
        ((byte_at(data, j + 1) & 15) << 2) | (byte_at(data, j + 2) >> 6)
    } else {
        byte_at(data, j + 2) & 63
    }
}

/// The number of symbols that encode `n` bytes.
pub open spec fn encoded_len(n: nat) -> nat {
    if n % 3 == 0 {
        n / 3 * 4
    } else {
        n / 3 * 4 + n % 3 + 1
    }
}

/// The text that encodes `data`.
pub open spec fn encoded(data: Seq<u8>) -> Seq<char> {
    Seq::new(encoded_len(data.len()), |k: int| symbol(sextet(data, k)))
}

/// The six-bit value of the symbol at position `i` of `text`, and zero where
/// there is none.
pub open spec fn value_at(text: Seq<char>, i: int) -> u8 {
    if 0 <= i < text.len() && symbol_value(text[i]) is Some {
        symbol_value(text[i]).unwrap()
    } else {
        0
    }
}

/// The `k`-th byte spelled by the symbols of `text`.
pub open spec fn octet(text: Seq<char>, k: int) -> u8 {
    let j = k / 3 * 4;
    let r = k % 3;
    if r == 0 {
        (value_at(text, j) << 2) | (value_at(text, j + 1) >> 4)
    } else if r == 1 {
        ((value_at(text, j + 1) & 15) << 4) | (value_at(text, j + 2) >> 2)
    } else {
        ((value_at(text, j + 2) & 3) << 6) | value_at(text, j + 3)
    }
}

/// The number of bytes that `n` symbols spell.
pub open spec fn decoded_len(n: nat) -> nat {
    if n % 4 == 0 {
        n / 4 * 3
    } else {
        (n / 4 * 3 + n % 4 - 1) as nat
    }
}

/// Whether every character of `text` is a symbol of the alphabet.
pub open spec fn in_alphabet(text: Seq<char>) -> bool {
    forall|i: int| 0 <= i < text.len() ==> (#[trigger] symbol_value(text[i])) is Some
}

/// The bits of the last symbol of `text` that belong to no byte.
pub open spec fn spare_bits(text: Seq<char>) -> u8 {
    if text.len() % 4 == 2 {
        value_at(text, text.len() - 1) & 15
    } else if text.len() % 4 == 3 {
        value_at(text, text.len() - 1) & 3
    } else {
        0
    }
}

/// The bytes that `text` encodes, or why it encodes none. A character outside
/// the alphabet is reported before a bad length, and that before spare bits.
pub open spec fn decoded(text: Seq<char>) -> Result<Seq<u8>, CodecError> {
    if !in_alphabet(text) {
        Err(CodecError::InvalidAlphabet)
    } else if text.len() % 4 == 1 {
        Err(CodecError::InvalidLength)
    } else if spare_bits(text) != 0 {
        Err(CodecError::InvalidLastSymbol)
    } else {
        Ok(Seq::new(decoded_len(text.len()), |k: int| octet(text, k)))
    }
}

/// The bytes of a decoding result.
pub open spec fn bytes_view(r: Result<Vec<u8>, CodecError>) -> Result<Seq<u8>, CodecError> {
    match r {
        Ok(bytes) => Ok(bytes@),
        Err(e) => Err(e),
    }
}

/// How three bytes fall into four groups of six bits, and back.
proof fn lemma_split_bits(b0: u8, b1: u8, b2: u8)
    by (bit_vector)
    ensures
        b0 >> 2 < 64,
        ((b0 & 3) << 4) | (b1 >> 4) < 64,
        ((b1 & 15) << 2) | (b2 >> 6) < 64,
        b2 & 63 < 64,
        ((b0 >> 2) << 2) | ((((b0 & 3) << 4) | (b1 >> 4)) >> 4) == b0,
        (((((b0 & 3) << 4) | (b1 >> 4)) & 15) << 4) | ((((b1 & 15) << 2) | (b2 >> 6)) >> 2) == b1,
        (((((b1 & 15) << 2) | (b2 >> 6)) & 3) << 6) | (b2 & 63) == b2,
        b1 == 0 ==> (((b0 & 3) << 4) | (b1 >> 4)) & 15 == 0,
        b1 == 0 ==> ((b0 & 3) << 4) | (b1 >> 4) == (b0 & 3) << 4,
        b2 == 0 ==> (((b1 & 15) << 2) | (b2 >> 6)) & 3 == 0,
        b2 == 0 ==> ((b1 & 15) << 2) | (b2 >> 6) == (b1 & 15) << 2,
{
}

/// How four groups of six bits fall into three bytes, and back.
proof fn lemma_join_bits(v0: u8, v1: u8, v2: u8, v3: u8)
    by (bit_vector)
    requires
        v0 < 64,
        v1 < 64,
        v2 < 64,
        v3 < 64,
    ensures
        ((v0 << 2) | (v1 >> 4)) >> 2 == v0,
        ((((v0 << 2) | (v1 >> 4)) & 3) << 4) | ((((v1 & 15) << 4) | (v2 >> 2)) >> 4) == v1,
        (((((v1 & 15) << 4) | (v2 >> 2)) & 15) << 2) | ((((v2 & 3) << 6) | v3) >> 6) == v2,
        (((v2 & 3) << 6) | v3) & 63 == v3,
        v1 & 15 == 0 ==> ((((v0 << 2) | (v1 >> 4)) & 3) << 4) | (0u8 >> 4) == v1,
        v2 & 3 == 0 ==> (((((v1 & 15) << 4) | (v2 >> 2)) & 15) << 2) | (0u8 >> 6) == v2,
{
}

/// Encodes `data` as unpadded base64 text.
pub fn encode(data: &[u8]) -> (text: String)
    ensures
        text@ == encoded(data@),
{
    encode_unpadded(data)
}

/// Decodes unpadded base64 text.
pub fn decode(text: &str) -> (r: Result<Vec<u8>, CodecError>)
    ensures
        bytes_view(r) == decoded(text@),
{
    decode_unpadded(text)
}

/// Decoding an encoded text gives the bytes back.
pub proof fn lemma_decode_encode(data: Seq<u8>)
    ensures
        decoded(encoded(data)) == Ok::<Seq<u8>, CodecError>(data),
{
    let text = encoded(data);
    let n = data.len() as int;
    let m = text.len() as int;
    assert forall|k: int| 0 <= k < m implies (#[trigger] symbol_value(text[k])) == Some(
        sextet(data, k),
    ) by {
        let j = k / 4 * 3;
        lemma_split_bits(byte_at(data, j), byte_at(data, j + 1), byte_at(data, j + 2));
        lemma_symbol_value_of_symbol(sextet(data, k));
    }
    assert(in_alphabet(text));
    assert(m % 4 != 1);
    assert(spare_bits(text) == 0) by {
        if m % 4 == 2 || m % 4 == 3 {
            let k = m - 1;
            let j = k / 4 * 3;
            lemma_split_bits(byte_at(data, j), byte_at(data, j + 1), byte_at(data, j + 2));
            assert(symbol_value(text[k]) == Some(sextet(data, k)));
        }
    }
    assert(decoded_len(m as nat) == n);
    let bytes = Seq::new(decoded_len(m as nat), |k: int| octet(text, k));
    assert forall|k: int| 0 <= k < n implies octet(text, k) == data[k] by {
        let g = k / 3;
        let j = g * 4;
        lemma_split_bits(byte_at(data, g * 3), byte_at(data, g * 3 + 1), byte_at(data, g * 3 + 2));
        assert(symbol_value(text[j]) == Some(sextet(data, j)));
        assert(symbol_value(text[j + 1]) == Some(sextet(data, j + 1)));
        if k % 3 >= 1 {
            assert(symbol_value(text[j + 2]) == Some(sextet(data, j + 2)));
        }
        if k % 3 == 2 {
            assert(symbol_value(text[j + 3]) == Some(sextet(data, j + 3)));
        }
    }
    assert(bytes =~= data);
}

/// Encoding the bytes of a decodable text gives the text back.
pub proof fn lemma_encode_decode(text: Seq<char>)
    requires
        decoded(text) is Ok,
    ensures
        encoded(decoded(text).unwrap()) == text,
{
    let data = decoded(text).unwrap();
    let m = text.len() as int;
    let n = data.len() as int;
    assert(encoded_len(n as nat) == m);
    assert forall|k: int| 0 <= k < m implies symbol(sextet(data, k)) == text[k] by {
        let g = k / 4;
        let j = g * 3;
        assert(symbol_value(text[k]) is Some);
        assert(symbol_value(text[g * 4]) is Some);
        assert(symbol_value(text[g * 4 + 1]) is Some);
        if g * 4 + 2 < m {
            assert(symbol_value(text[g * 4 + 2]) is Some);
        }
        if g * 4 + 3 < m {
            assert(symbol_value(text[g * 4 + 3]) is Some);
        }
        lemma_symbol_of_symbol_value(text[g * 4]);
        lemma_symbol_of_symbol_value(text[g * 4 + 1]);
        if g * 4 + 2 < m {
            lemma_symbol_of_symbol_value(text[g * 4 + 2]);
        }
        if g * 4 + 3 < m {
            lemma_symbol_of_symbol_value(text[g * 4 + 3]);
        }
        lemma_join_bits(
            value_at(text, g * 4),
            value_at(text, g * 4 + 1),
            value_at(text, g * 4 + 2),
            value_at(text, g * 4 + 3),
        );
        assert(sextet(data, k) == value_at(text, k));
        lemma_symbol_of_symbol_value(text[k]);
    }
    assert(encoded(data) =~= text);
}

} // verus!
