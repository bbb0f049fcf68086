//! ChaCha20-Poly1305 without associated data.

use chacha20poly1305::aead::{Aead, KeyInit};
use chacha20poly1305::ChaCha20Poly1305;
use vstd::prelude::*;

verus! {

/// The ciphertext, tag included, of `plaintext` under `key` and `nonce`.
pub uninterp spec fn chacha20poly1305_sealed(key: Seq<u8>, nonce: Seq<u8>, plaintext: Seq<u8>) -> Seq<u8>;

/// The plaintext that `ciphertext` opens to under `key` and `nonce`, where
/// its tag is the right one.
pub uninterp spec fn chacha20poly1305_opened(key: Seq<u8>, nonce: Seq<u8>, ciphertext: Seq<u8>) -> Option<Seq<u8>>;

/// The longest plaintext, in bytes, that the cipher takes under one nonce:
/// the blocks of 64 bytes that are left once the first block of the key
/// stream has made the key of the tag.
pub open spec fn max_plaintext_len() -> int {
    64int * 0xffff_fffe
}

/// `Aead::encrypt` of `ChaCha20Poly1305`: the ciphertext of a plaintext that
/// the key stream can cover. It is 16 bytes longer than the plaintext,
/// depends on the three arguments alone, and opens to the plaintext again.
#[verifier::external_body]
pub(crate) fn seal(key: &[u8; 32], nonce: &[u8; 12], plaintext: &[u8]) -> (sealed: Option<Vec<u8>>)
    requires
        plaintext@.len() <= max_plaintext_len(),
    ensures
        sealed is Some,
        sealed matches Some(c) ==> c@ == chacha20poly1305_sealed(key@, nonce@, plaintext@),
        sealed matches Some(c) ==> c@.len() == plaintext@.len() + 16,
        sealed matches Some(c) ==> chacha20poly1305_opened(key@, nonce@, c@) == Some(plaintext@),
{
    ChaCha20Poly1305::new(key.into()).encrypt(nonce.into(), plaintext).ok()
}

/// `Aead::decrypt` of `ChaCha20Poly1305`, for a ciphertext whose payload the
/// key stream can cover: the plaintext, which is 16 bytes shorter, or
/// nothing where the ciphertext is shorter than a tag or its tag does not
/// match.
#[verifier::external_body]
pub(crate) fn open(key: &[u8; 32], nonce: &[u8; 12], ciphertext: &[u8]) -> (opened: Option<Vec<u8>>)
    requires
        ciphertext@.len() <= max_plaintext_len() + 16,
    ensures
        opened is Some <==> chacha20poly1305_opened(key@, nonce@, ciphertext@) is Some,
        opened matches Some(p) ==> chacha20poly1305_opened(key@, nonce@, ciphertext@) == Some(p@),
        opened matches Some(p) ==> p@.len() + 16 == ciphertext@.len(),
        ciphertext@.len() < 16 ==> opened is None,
{
    ChaCha20Poly1305::new(key.into()).decrypt(nonce.into(), ciphertext).ok()
}

} // verus!
