//! Ed25519 signatures.

use ed25519_dalek::{Signature, Signer, SigningKey, Verifier, VerifyingKey};
use vstd::prelude::*;

verus! {

/// The public key that belongs to the 32-byte secret key `secret`.
pub uninterp spec fn ed25519_public_key(secret: Seq<u8>) -> Seq<u8>;

/// The signature of `message` under the 32-byte secret key `secret`.
pub uninterp spec fn ed25519_signature(secret: Seq<u8>, message: Seq<u8>) -> Seq<u8>;

/// Whether the 32 bytes `public` are the encoding of a point of the curve.
pub uninterp spec fn ed25519_point(public: Seq<u8>) -> bool;

/// Whether the 64 bytes `signature` are accepted for `message` under the
/// public key `public`.
pub uninterp spec fn ed25519_accepts(public: Seq<u8>, message: Seq<u8>, signature: Seq<u8>) -> bool;

/// `SigningKey::from_bytes` followed by `verifying_key` and `to_bytes`: the
/// public key of a secret key. It is the encoding of the point that the
/// secret key determines, so it decodes again.
#[verifier::external_body]
pub(crate) fn public_key_of(secret: &[u8; 32]) -> (public: [u8; 32])
    ensures
        public@ == ed25519_public_key(secret@),
        ed25519_point(public@),
{
    SigningKey::from_bytes(secret).verifying_key().to_bytes()
}

/// `Signer::sign` of a `SigningKey`: the signature of `message`. Ed25519
/// draws no randomness when it signs, so the signature depends on the key
/// and the message alone, and the scheme accepts it under the public key of
/// the same secret key.
#[verifier::external_body]
pub(crate) fn sign_message(secret: &[u8; 32], message: &[u8]) -> (signature: [u8; 64])
    ensures
        signature@ == ed25519_signature(secret@, message@),
        ed25519_accepts(ed25519_public_key(secret@), message@, signature@),
{
    SigningKey::from_bytes(secret).sign(message).to_bytes()
}

/// `VerifyingKey::from_bytes`: whether 32 bytes decode as a public key.
#[verifier::external_body]
pub(crate) fn is_public_key(bytes: &[u8; 32]) -> (ok: bool)
    ensures
        ok == ed25519_point(bytes@),
{
    VerifyingKey::from_bytes(bytes).is_ok()
}

/// `Verifier::verify` of a `VerifyingKey`: whether `signature` is accepted
/// for `message` under `public`. Every failure of the check is `false`.
#[verifier::external_body]
pub(crate) fn verify_signature(public: &[u8; 32], message: &[u8], signature: &[u8; 64]) -> (ok:
    bool)
    requires
        ed25519_point(public@),
    ensures
        ok == ed25519_accepts(public@, message@, signature@),
{
    match VerifyingKey::from_bytes(public) {
        Ok(key) => key.verify(message, &Signature::from_bytes(signature)).is_ok(),
        Err(_) => false,
    }
}

/// `SigningKey::generate` over the operating system's random source: a fresh
/// secret key. Nothing is known of its bytes.
#[verifier::external_body]
pub(crate) fn random_secret_key() -> (secret: [u8; 32]) {
    SigningKey::generate(&mut rand::rngs::OsRng).to_bytes()
}

} // verus!
