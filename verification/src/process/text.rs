//! Signing, verifying, encrypting, decrypting and making keys.
//!
//! Every operation takes the content of its input and of its key file and
//! hands back a value: reading and writing files is left to the caller.

use crate::cli::TextSignFormat;
use crate::codec::{decode, decoded, encode, encoded, lemma_decode_encode, CodecError};
use crate::primitives::aead::{
    chacha20poly1305_opened, chacha20poly1305_sealed, max_plaintext_len, open, seal,
};
use crate::primitives::ed25519::{
    ed25519_accepts, ed25519_point, ed25519_public_key, ed25519_signature, is_public_key,
    public_key_of, random_secret_key, sign_message, verify_signature,
};
use crate::primitives::keyed_hash::{blake3_hash, blake3_keyed_hash, hash, keyed_hash};
use crate::process::gen_pass::{is_password, lemma_password_len, process_genpass};
use crate::strings::{
    lemma_trimmed_is_no_longer, str_from_utf8, string_from_utf8, trim, trimmed,
};
use vstd::prelude::*;
use vstd::slice::slice_to_vec;
use vstd::utf8::{decode_utf8, encode_utf8, valid_utf8};

verus! {

/// Why the content of a key file is not a key.
#[derive(Clone, Copy, Debug, PartialEq, Eq, Structural)]
pub enum LoadError {
    /// A key that is kept as text is not valid UTF-8.
    Unreadable,
    /// The key does not have the number of bytes that its algorithm fixes.
    KeySizeMismatch,
    /// The bytes have the right number but are no key of the scheme.
    InvalidKeyEncoding,
}

/// Why the cipher gave no result.
#[derive(Clone, Copy, Debug, PartialEq, Eq, Structural)]
pub enum CipherError {
    /// The ciphertext is malformed or its tag does not match.
    AuthenticationFailed,
    /// The plaintext was recovered but is not valid UTF-8.
    NotText,
    /// The plaintext is longer than the cipher can take under one nonce.
    MessageTooLong,
}

/// Why an operation on text gave no result.
#[derive(Clone, Copy, Debug, PartialEq, Eq, Structural)]
pub enum TextError {
    /// The key could not be loaded.
    Load(LoadError),
    /// A signature or a ciphertext is not base64.
    Codec(CodecError),
    /// The cipher failed.
    Cipher(CipherError),
    /// A signature does not have the number of bytes that its scheme fixes.
    MalformedSignature,
}

/// The characters of a text result.
pub open spec fn text_view(r: Result<String, TextError>) -> Result<Seq<char>, TextError> {
    match r {
        Ok(s) => Ok(s@),
        Err(e) => Err(e),
    }
}

/// The keys of a list, each as its bytes.
pub open spec fn keys_view(keys: Vec<Vec<u8>>) -> Seq<Seq<u8>> {
    keys@.map_values(|k: Vec<u8>| k@)
}

/// Something that signs data.
pub trait TextSign {
    /// The signature of `data`.
    spec fn signature(&self, data: Seq<u8>) -> Seq<u8>;

    /// Signs all of `data`. Signing the same data again gives the same
    /// signature.
    fn sign(&self, data: &[u8]) -> (sig: Vec<u8>)
        ensures
            sig@ == self.signature(data@),
    ;
}

/// Something that checks a signature against data.
pub trait TextVerify {
    /// Whether `sig` is the signature of `data`, or why that cannot be said.
    spec fn verified(&self, data: Seq<u8>, sig: Seq<u8>) -> Result<bool, TextError>;

    /// Checks `sig` against all of `data`. A signature that does not match
    /// is `Ok(false)`, never an error.
    fn verify(&self, data: &[u8], sig: &[u8]) -> (r: Result<bool, TextError>)
        ensures
            r == self.verified(data@, sig@),
    ;
}

/// Something that encrypts data to text and decrypts text to text.
pub trait TextCipher {
    /// The text that `data` encrypts to.
    spec fn encrypted(&self, data: Seq<u8>) -> Result<Seq<char>, TextError>;

    /// The text that `text` decrypts to.
    spec fn decrypted(&self, text: Seq<char>) -> Result<Seq<char>, TextError>;

    /// Encrypts all of `data` and encodes the ciphertext as base64.
    fn encrypt(&self, data: &[u8]) -> (r: Result<String, TextError>)
        ensures
            text_view(r) == self.encrypted(data@),
    ;

    /// Decodes `text` from base64 and decrypts it.
    fn decrypt(&self, text: &str) -> (r: Result<String, TextError>)
        ensures
            text_view(r) == self.decrypted(text@),
    ;
}

/// A key that can be made from the content of a key file.
pub trait KeyLoader: Sized + View {
    /// The key that `content` holds, or why it holds none.
    spec fn loaded(content: Seq<u8>) -> Result<Self::V, LoadError>;

    /// Makes a key from the content of a key file.
    fn load(content: &[u8]) -> (r: Result<Self, LoadError>)
        ensures
            match r {
                Ok(key) => Self::loaded(content@) == Ok::<Self::V, LoadError>(key@),
                Err(e) => Self::loaded(content@) == Err::<Self::V, LoadError>(e),
            },
    ;
}

/// A kind of key that can be made anew.
pub trait KeyGenerate {
    /// What holds of the contents of the key files whatever the random
    /// source gave.
    spec fn generated(keys: Seq<Seq<u8>>) -> bool;

    /// Makes fresh key material: the content of each key file, the secret
    /// first.
    fn generate() -> (keys: Vec<Vec<u8>>)
        ensures
            Self::generated(keys_view(keys)),
    ;
}

/// The bytes of `bytes` as an array, where there are `N` of them.
fn to_array<const N: usize>(bytes: &[u8]) -> (r: Option<[u8; N]>)
    ensures
        r is Some <==> bytes@.len() == N,
        r matches Some(a) ==> a@ == bytes@,
{
    if bytes.len() != N {
        return None;
    }
    let mut a = [0u8;N];
    let mut i: usize = 0;
    while i < N
        invariant
            i <= N,
            bytes@.len() == N,
            forall|k: int| 0 <= k < i ==> a@[k] == bytes@[k],
        decreases N - i,
    {
        a[i] = bytes[i];
        i += 1;
    }
    assert(a@ =~= bytes@);
    Some(a)
}

/// Whether two byte strings are the same, length included.
fn same_bytes(a: &[u8], b: &[u8]) -> (same: bool)
    ensures
        same == (a@ == b@),
{
    if a.len() != b.len() {
        return false;
    }
    let mut i: usize = 0;
    while i < a.len()
        invariant
            i <= a@.len(),
            a@.len() == b@.len(),
            forall|k: int| 0 <= k < i ==> a@[k] == b@[k],
        decreases a@.len() - i,
    {
        if a[i] != b[i] {
            return false;
        }
        i += 1;
    }
    assert(a@ =~= b@);
    true
}

/// The secret that a key file kept as text holds: the UTF-8 bytes of the
/// text without the white space around it, where they are 32.
pub open spec fn text_secret(content: Seq<u8>) -> Result<Seq<u8>, LoadError> {
    if !valid_utf8(content) {
        Err(LoadError::Unreadable)
    } else {
        let secret = encode_utf8(trimmed(decode_utf8(content)));
        if secret.len() == 32 {
            Ok(secret)
        } else {
            Err(LoadError::KeySizeMismatch)
        }
    }
}

/// Reads the secret of a key file that is kept as text.
fn load_text_secret(content: &[u8]) -> (r: Result<[u8; 32], LoadError>)
    ensures
        match r {
            Ok(key) => text_secret(content@) == Ok::<Seq<u8>, LoadError>(key@),
            Err(e) => text_secret(content@) == Err::<Seq<u8>, LoadError>(e),
        },
{
    match str_from_utf8(content) {
        None => Err(LoadError::Unreadable),
        Some(text) => {
            let secret = trim(text).as_bytes();
            match to_array::<32>(secret) {
                Some(key) => Ok(key),
                None => Err(LoadError::KeySizeMismatch),
            }
        },
    }
}

/// The BLAKE3 keyed hash under a secret of 32 bytes, which both signs and
/// verifies.
pub struct Blake3 {
    key: [u8; 32],
}

impl View for Blake3 {
    type V = Seq<u8>;

    /// The 32 bytes of the secret.
    closed spec fn view(&self) -> Seq<u8> {
        self.key@
    }
}

impl Blake3 {
    /// The secret has 32 bytes.
    pub proof fn lemma_key_len(&self)
        ensures
            self@.len() == 32,
    {
    }

    /// The signer and verifier under `key`.
    pub fn new(key: [u8; 32]) -> (mac: Self)
        ensures
            mac@ == key@,
    {
        Self { key }
    }

    /// The signer and verifier under `key`, which must have 32 bytes.
    pub fn try_new(key: &[u8]) -> (r: Result<Self, LoadError>)
        ensures
            r is Ok <==> key@.len() == 32,
            r matches Ok(mac) ==> mac@ == key@,
            r matches Err(e) ==> e == LoadError::KeySizeMismatch,
    {
        match to_array::<32>(key) {
            Some(key) => Ok(Self::new(key)),
            None => Err(LoadError::KeySizeMismatch),
        }
    }
}

impl KeyLoader for Blake3 {
    open spec fn loaded(content: Seq<u8>) -> Result<Seq<u8>, LoadError> {
        text_secret(content)
    }

    fn load(content: &[u8]) -> (r: Result<Self, LoadError>) {
        match load_text_secret(content) {
            Ok(key) => Ok(Self::new(key)),
            Err(e) => Err(e),
        }
    }
}

impl TextSign for Blake3 {
    open spec fn signature(&self, data: Seq<u8>) -> Seq<u8> {
        blake3_keyed_hash(self@, data)
    }

    fn sign(&self, data: &[u8]) -> (sig: Vec<u8>)
        ensures
            sig@.len() == 32,
    {
        let digest = keyed_hash(&self.key, data);
        slice_to_vec(digest.as_slice())
    }
}

impl TextVerify for Blake3 {
    open spec fn verified(&self, data: Seq<u8>, sig: Seq<u8>) -> Result<bool, TextError> {
        Ok(blake3_keyed_hash(self@, data) == sig)
    }

    fn verify(&self, data: &[u8], sig: &[u8]) -> (r: Result<bool, TextError>) {
        let digest = keyed_hash(&self.key, data);
        Ok(same_bytes(digest.as_slice(), sig))
    }
}

impl KeyGenerate for Blake3 {
    open spec fn generated(keys: Seq<Seq<u8>>) -> bool {
        &&& keys.len() == 1
        &&& keys[0].len() == 32
        &&& is_password(keys[0], 32, true, true, true, true)
    }

    fn generate() -> (keys: Vec<Vec<u8>>) {
        let password = process_genpass(32, true, true, true, true);
        let key = slice_to_vec(password.as_str().as_bytes());
        proof {
            lemma_password_len(key@, 32, true, true, true, true);
        }
        let mut keys: Vec<Vec<u8>> = Vec::new();
        keys.push(key);
        assert(keys_view(keys)[0] == key@);
        keys
    }
}

/// A tag that `sign` made is accepted by `verify` under the same secret.
pub proof fn lemma_mac_accepts_own_tag(mac: Blake3, data: Seq<u8>)
    ensures
        mac.verified(data, mac.signature(data)) == Ok::<bool, TextError>(true),
{
}

/// `verify` accepts no tag but the one that `sign` makes: a tag with a
/// changed bit, or of another length, is refused, and data with a changed
/// bit is accepted only where its tag is the same.
pub proof fn lemma_mac_refuses_other_tags(mac: Blake3, data: Seq<u8>, other: Seq<u8>, tag: Seq<u8>)
    ensures
        tag != mac.signature(data) ==> mac.verified(data, tag) == Ok::<bool, TextError>(false),
        mac.verified(other, mac.signature(data)) == Ok::<bool, TextError>(
            mac.signature(other) == mac.signature(data),
        ),
{
}

/// What `Ed25519Verifier::verify` makes of a signature under the public key
/// `public`: an error where it does not have 64 bytes, else whether the
/// scheme accepts it.
pub open spec fn verified_under(public: Seq<u8>, data: Seq<u8>, sig: Seq<u8>) -> Result<
    bool,
    TextError,
> {
    if sig.len() == 64 {
        Ok(ed25519_accepts(public, data, sig))
    } else {
        Err(TextError::MalformedSignature)
    }
}

/// The signing half of an Ed25519 key pair: the 32 bytes of the secret key.
pub struct Ed25519Signer {
    key: [u8; 32],
}

impl View for Ed25519Signer {
    type V = Seq<u8>;

    /// The 32 bytes of the secret key.
    closed spec fn view(&self) -> Seq<u8> {
        self.key@
    }
}

impl Ed25519Signer {
    /// The secret key has 32 bytes.
    pub proof fn lemma_key_len(&self)
        ensures
            self@.len() == 32,
    {
    }

    /// The signer under the secret key `key`.
    pub fn new(key: [u8; 32]) -> (signer: Self)
        ensures
            signer@ == key@,
    {
        Self { key }
    }

    /// The signer under the secret key `key`, which must have 32 bytes.
    /// Every string of 32 bytes is a secret key.
    pub fn try_new(key: &[u8]) -> (r: Result<Self, LoadError>)
        ensures
            r is Ok <==> key@.len() == 32,
            r matches Ok(signer) ==> signer@ == key@,
            r matches Err(e) ==> e == LoadError::KeySizeMismatch,
    {
        match to_array::<32>(key) {
            Some(key) => Ok(Self::new(key)),
            None => Err(LoadError::KeySizeMismatch),
        }
    }

    /// The contents of the two key files of the pair that `secret` begins:
    /// the secret key, then the public key that belongs to it.
    pub fn key_pair(secret: [u8; 32]) -> (keys: Vec<Vec<u8>>)
        ensures
            keys_view(keys) == seq![secret@, ed25519_public_key(secret@)],
            ed25519_public_key(secret@).len() == 32,
            ed25519_point(ed25519_public_key(secret@)),
    {
        let public = public_key_of(&secret);
        let mut keys: Vec<Vec<u8>> = Vec::new();
        keys.push(slice_to_vec(secret.as_slice()));
        keys.push(slice_to_vec(public.as_slice()));
        assert(keys_view(keys) =~= seq![secret@, ed25519_public_key(secret@)]);
        keys
    }
}

impl KeyLoader for Ed25519Signer {
    open spec fn loaded(content: Seq<u8>) -> Result<Seq<u8>, LoadError> {
        if content.len() == 32 {
            Ok(content)
        } else {
            Err(LoadError::KeySizeMismatch)
        }
    }

    fn load(content: &[u8]) -> (r: Result<Self, LoadError>) {
        Self::try_new(content)
    }
}

impl TextSign for Ed25519Signer {
    open spec fn signature(&self, data: Seq<u8>) -> Seq<u8> {
        ed25519_signature(self@, data)
    }

    /// The signature has 64 bytes, and a verifier that holds the public key
    /// of this secret key accepts it for the same data.
    fn sign(&self, data: &[u8]) -> (sig: Vec<u8>)
        ensures
            sig@.len() == 64,
            verified_under(ed25519_public_key(self@), data@, sig@) == Ok::<bool, TextError>(true),
    {
        let signature = sign_message(&self.key, data);
        slice_to_vec(signature.as_slice())
    }
}

impl KeyGenerate for Ed25519Signer {
    open spec fn generated(keys: Seq<Seq<u8>>) -> bool {
        &&& keys.len() == 2
        &&& keys[0].len() == 32
        &&& keys[1].len() == 32
        &&& keys[1] == ed25519_public_key(keys[0])
        &&& ed25519_point(keys[1])
    }

    fn generate() -> (keys: Vec<Vec<u8>>) {
        Self::key_pair(random_secret_key())
    }
}

/// The verifying half of an Ed25519 key pair: the 32 bytes of a public key,
/// which always decode as a point of the curve.
pub struct Ed25519Verifier {
    key: [u8; 32],
}

impl View for Ed25519Verifier {
    type V = Seq<u8>;

    /// The 32 bytes of the public key.
    closed spec fn view(&self) -> Seq<u8> {
        self.key@
    }
}

impl Ed25519Verifier {
    #[verifier::type_invariant]
    spec fn decodes(self) -> bool {
        ed25519_point(self.key@)
    }

    /// The public key has 32 bytes.
    pub proof fn lemma_key_len(&self)
        ensures
            self@.len() == 32,
    {
    }

    /// The verifier under the public key `key`.
    pub fn new(key: [u8; 32]) -> (verifier: Self)
        requires
            ed25519_point(key@),
        ensures
            verifier@ == key@,
    {
        Self { key }
    }

    /// The verifier under the public key `key`, which must have 32 bytes
    /// that decode as a point of the curve.
    pub fn try_new(key: &[u8]) -> (r: Result<Self, LoadError>)
        ensures
            match r {
                Ok(verifier) => Self::loaded(key@) == Ok::<Seq<u8>, LoadError>(verifier@),
                Err(e) => Self::loaded(key@) == Err::<Seq<u8>, LoadError>(e),
            },
    {
        match to_array::<32>(key) {
            None => Err(LoadError::KeySizeMismatch),
            Some(key) => {
                if is_public_key(&key) {
                    Ok(Self::new(key))
                } else {
                    Err(LoadError::InvalidKeyEncoding)
                }
            },
        }
    }
}

impl KeyLoader for Ed25519Verifier {
    open spec fn loaded(content: Seq<u8>) -> Result<Seq<u8>, LoadError> {
        if content.len() != 32 {
            Err(LoadError::KeySizeMismatch)
        } else if !ed25519_point(content) {
            Err(LoadError::InvalidKeyEncoding)
        } else {
            Ok(content)
        }
    }

    fn load(content: &[u8]) -> (r: Result<Self, LoadError>) {
        Self::try_new(content)
    }
}

impl TextVerify for Ed25519Verifier {
    open spec fn verified(&self, data: Seq<u8>, sig: Seq<u8>) -> Result<bool, TextError> {
        verified_under(self@, data, sig)
    }

    fn verify(&self, data: &[u8], sig: &[u8]) -> (r: Result<bool, TextError>) {
        proof {
            use_type_invariant(self);
        }
        match to_array::<64>(sig) {
            Some(signature) => Ok(verify_signature(&self.key, data, &signature)),
            None => Err(TextError::MalformedSignature),
        }
    }
}

/// A key file of any length but 32 bytes holds neither half of an Ed25519
/// key pair.
pub proof fn lemma_signature_key_size(content: Seq<u8>)
    requires
        content.len() != 32,
    ensures
        Ed25519Signer::loaded(content) == Err::<Seq<u8>, LoadError>(LoadError::KeySizeMismatch),
        Ed25519Verifier::loaded(content) == Err::<Seq<u8>, LoadError>(LoadError::KeySizeMismatch),
{
}

/// The nonce that goes with the secret `key`: the first 12 bytes of its
/// unkeyed BLAKE3 hash.
pub open spec fn derived_nonce(key: Seq<u8>) -> Seq<u8> {
    blake3_hash(key).subrange(0, 12)
}

/// What `decrypt` makes of the plaintext that the cipher recovered.
pub open spec fn plain_text(plain: Seq<u8>) -> Result<Seq<char>, TextError> {
    if valid_utf8(plain) {
        Ok(decode_utf8(plain))
    } else {
        Err(TextError::Cipher(CipherError::NotText))
    }
}

/// The longest plaintext, in bytes, that the cipher takes.
pub const MAX_PLAINTEXT_LEN: u64 = 274_877_906_816;

/// What `decrypt` makes of the bytes `sealed` under `key` and `nonce`: a
/// ciphertext that is shorter than a tag of 16 bytes, or longer than any
/// that the cipher makes, or that the cipher does not open, fails
/// authentication.
pub open spec fn opened_text(key: Seq<u8>, nonce: Seq<u8>, sealed: Seq<u8>) -> Result<
    Seq<char>,
    TextError,
> {
    if sealed.len() < 16 || sealed.len() > max_plaintext_len() + 16 {
        Err(TextError::Cipher(CipherError::AuthenticationFailed))
    } else {
        match chacha20poly1305_opened(key, nonce, sealed) {
            None => Err(TextError::Cipher(CipherError::AuthenticationFailed)),
            Some(plain) => plain_text(plain),
        }
    }
}

/// ChaCha20-Poly1305 under a secret of 32 bytes and a nonce of 12 bytes.
pub struct Chacha20poly1305Cipher {
    key: [u8; 32],
    nonce: [u8; 12],
}

impl View for Chacha20poly1305Cipher {
    type V = (Seq<u8>, Seq<u8>);

    /// The 32 bytes of the secret and the 12 bytes of the nonce.
    closed spec fn view(&self) -> (Seq<u8>, Seq<u8>) {
        (self.key@, self.nonce@)
    }
}

impl Chacha20poly1305Cipher {
    /// The secret has 32 bytes and the nonce 12.
    pub proof fn lemma_key_len(&self)
        ensures
            self@.0.len() == 32,
            self@.1.len() == 12,
    {
    }

    /// The cipher under `key` and `nonce`.
    pub fn new(key: [u8; 32], nonce: [u8; 12]) -> (cipher: Self)
        ensures
            cipher@ == (key@, nonce@),
    {
        Self { key, nonce }
    }

    /// The cipher under `key`, which must have 32 bytes, and `nonce`, which
    /// must have 12.
    pub fn try_new(key: &[u8], nonce: &[u8]) -> (r: Result<Self, LoadError>)
        ensures
            r is Ok <==> key@.len() == 32 && nonce@.len() == 12,
            r matches Ok(cipher) ==> cipher@ == (key@, nonce@),
            r matches Err(e) ==> e == LoadError::KeySizeMismatch,
    {
        match to_array::<32>(key) {
            None => Err(LoadError::KeySizeMismatch),
            Some(key) => match to_array::<12>(nonce) {
                None => Err(LoadError::KeySizeMismatch),
                Some(nonce) => Ok(Self::new(key, nonce)),
            },
        }
    }
}

impl KeyLoader for Chacha20poly1305Cipher {
    /// The secret is read as that of a keyed hash is, and the nonce is
    /// derived from it: the same key file always gives the same nonce.
    open spec fn loaded(content: Seq<u8>) -> Result<(Seq<u8>, Seq<u8>), LoadError> {
        match text_secret(content) {
            Ok(secret) => Ok((secret, derived_nonce(secret))),
            Err(e) => Err(e),
        }
    }

    fn load(content: &[u8]) -> (r: Result<Self, LoadError>) {
        match load_text_secret(content) {
            Ok(key) => {
                let digest = hash(key.as_slice());
                let nonce = slice_to_vec(vstd::slice::slice_subrange(digest.as_slice(), 0, 12));
                Self::try_new(key.as_slice(), nonce.as_slice())
            },
            Err(e) => Err(e),
        }
    }
}

/// A key file kept as text that has 31 bytes holds no secret for the keyed
/// hash or the cipher, and one that has 33 bytes holds one only if a single
/// byte of white space stands at its start or its end.
pub proof fn lemma_text_key_size(content: Seq<u8>)
    requires
        valid_utf8(content),
        content.len() == 31 || (content.len() == 33 && encode_utf8(
            trimmed(decode_utf8(content)),
        ).len() != 32),
    ensures
        Blake3::loaded(content) == Err::<Seq<u8>, LoadError>(LoadError::KeySizeMismatch),
        Chacha20poly1305Cipher::loaded(content) == Err::<(Seq<u8>, Seq<u8>), LoadError>(
            LoadError::KeySizeMismatch,
        ),
{
    lemma_trimmed_is_no_longer(decode_utf8(content));
    vstd::utf8::decode_utf8_encode_utf8(content);
}

impl TextCipher for Chacha20poly1305Cipher {
    open spec fn encrypted(&self, data: Seq<u8>) -> Result<Seq<char>, TextError> {
        if data.len() <= max_plaintext_len() {
            Ok(encoded(chacha20poly1305_sealed(self@.0, self@.1, data)))
        } else {
            Err(TextError::Cipher(CipherError::MessageTooLong))
        }
    }

    open spec fn decrypted(&self, text: Seq<char>) -> Result<Seq<char>, TextError> {
        match decoded(text) {
            Err(e) => Err(TextError::Codec(e)),
            Ok(sealed) => opened_text(self@.0, self@.1, sealed),
        }
    }

    /// The text depends on the key, the nonce and the data alone, so the
    /// same data encrypts to the same text again. It spells 16 bytes more
    /// than the data has, and `decrypt` turns it back into the data, where
    /// the data is valid UTF-8.
    fn encrypt(&self, data: &[u8]) -> (r: Result<String, TextError>)
        ensures
            r matches Ok(text) ==> decoded(text@) == Ok::<Seq<u8>, CodecError>(
                chacha20poly1305_sealed(self@.0, self@.1, data@),
            ),
            r matches Ok(text) ==> chacha20poly1305_sealed(self@.0, self@.1, data@).len()
                == data@.len() + 16,
            r matches Ok(text) ==> self.decrypted(text@) == plain_text(data@),
    {
        if data.len() as u64 > MAX_PLAINTEXT_LEN {
            return Err(TextError::Cipher(CipherError::MessageTooLong));
        }
        match seal(&self.key, &self.nonce, data) {
            Some(sealed) => {
                proof {
                    lemma_decode_encode(sealed@);
                }
                Ok(encode(sealed.as_slice()))
            },
            None => Err(TextError::Cipher(CipherError::MessageTooLong)),
        }
    }

    fn decrypt(&self, text: &str) -> (r: Result<String, TextError>) {
        match decode(text) {
            Err(e) => Err(TextError::Codec(e)),
            Ok(sealed) => {
                if sealed.len() as u64 > MAX_PLAINTEXT_LEN + 16 {
                    return Err(TextError::Cipher(CipherError::AuthenticationFailed));
                }
                match open(&self.key, &self.nonce, sealed.as_slice()) {
                    None => Err(TextError::Cipher(CipherError::AuthenticationFailed)),
                    Some(plain) => match string_from_utf8(plain) {
                        Some(text) => Ok(text),
                        None => Err(TextError::Cipher(CipherError::NotText)),
                    },
                }
            },
        }
    }
}

/// Two ciphers with the same secret and the same nonce encrypt every
/// plaintext to the same text; so do two ciphers loaded from key files that
/// hold the same secret.
pub proof fn lemma_same_key_same_ciphertext(
    a: Chacha20poly1305Cipher,
    b: Chacha20poly1305Cipher,
    data: Seq<u8>,
)
    requires
        a@.0 == b@.0,
        a@.1 == b@.1 || (a@.1 == derived_nonce(a@.0) && b@.1 == derived_nonce(b@.0)),
    ensures
        a.encrypted(data) == b.encrypted(data),
{
}

/// The signature text of `input` under the key file `key`.
pub open spec fn signed_text(input: Seq<u8>, key: Seq<u8>, format: TextSignFormat) -> Result<
    Seq<char>,
    TextError,
> {
    match format {
        TextSignFormat::Blake3 => match Blake3::loaded(key) {
            Ok(secret) => Ok(encoded(blake3_keyed_hash(secret, input))),
            Err(e) => Err(TextError::Load(e)),
        },
        TextSignFormat::Ed25519 => match Ed25519Signer::loaded(key) {
            Ok(secret) => Ok(encoded(ed25519_signature(secret, input))),
            Err(e) => Err(TextError::Load(e)),
        },
    }
}

/// The number of bytes of a signature of `format`.
pub open spec fn signature_len(format: TextSignFormat) -> nat {
    match format {
        TextSignFormat::Blake3 => 32,
        TextSignFormat::Ed25519 => 64,
    }
}

/// Signs `input` under the key that the key file `key` holds, and encodes
/// the signature as base64. The text spells as many bytes as a signature of
/// `format` has.
pub fn process_text_sign(input: &[u8], key: &[u8], format: TextSignFormat) -> (r: Result<
    String,
    TextError,
>)
    ensures
        text_view(r) == signed_text(input@, key@, format),
        r matches Ok(text) ==> decoded(text@) matches Ok(sig) && sig.len() == signature_len(format),
{
    let signed = match format {
        TextSignFormat::Blake3 => match Blake3::load(key) {
            Ok(signer) => signer.sign(input),
            Err(e) => {
                return Err(TextError::Load(e));
            },
        },
        TextSignFormat::Ed25519 => match Ed25519Signer::load(key) {
            Ok(signer) => signer.sign(input),
            Err(e) => {
                return Err(TextError::Load(e));
            },
        },
    };
    proof {
        lemma_decode_encode(signed@);
    }
    Ok(encode(signed.as_slice()))
}

/// Whether the signature text `sig` is accepted for `input` under the key
/// file `key`. The signature is decoded before the key is loaded.
pub open spec fn verified_text(
    input: Seq<u8>,
    key: Seq<u8>,
    format: TextSignFormat,
    sig: Seq<char>,
) -> Result<bool, TextError> {
    match decoded(sig) {
        Err(e) => Err(TextError::Codec(e)),
        Ok(sig) => match format {
            TextSignFormat::Blake3 => match Blake3::loaded(key) {
                Ok(secret) => Ok(blake3_keyed_hash(secret, input) == sig),
                Err(e) => Err(TextError::Load(e)),
            },
            TextSignFormat::Ed25519 => match Ed25519Verifier::loaded(key) {
                Ok(public) => verified_under(public, input, sig),
                Err(e) => Err(TextError::Load(e)),
            },
        },
    }
}

/// Decodes the signature `sig` from base64 and checks it against `input`
/// under the key that the key file `key` holds.
pub fn process_text_verify(input: &[u8], key: &[u8], format: TextSignFormat, sig: &str) -> (r:
    Result<bool, TextError>)
    ensures
        r == verified_text(input@, key@, format, sig@),
{
    let sig = match decode(sig) {
        Ok(sig) => sig,
        Err(e) => {
            return Err(TextError::Codec(e));
        },
    };
    match format {
        TextSignFormat::Blake3 => match Blake3::load(key) {
            Ok(verifier) => verifier.verify(input, sig.as_slice()),
            Err(e) => Err(TextError::Load(e)),
        },
        TextSignFormat::Ed25519 => match Ed25519Verifier::load(key) {
            Ok(verifier) => verifier.verify(input, sig.as_slice()),
            Err(e) => Err(TextError::Load(e)),
        },
    }
}

/// The signature text that `process_text_sign` makes with the keyed hash
/// is accepted by `process_text_verify` for the same input and key file.
pub proof fn lemma_mac_text_is_verified(input: Seq<u8>, key: Seq<u8>)
    requires
        signed_text(input, key, TextSignFormat::Blake3) is Ok,
    ensures
        verified_text(
            input,
            key,
            TextSignFormat::Blake3,
            signed_text(input, key, TextSignFormat::Blake3).unwrap(),
        ) == Ok::<bool, TextError>(true),
{
    lemma_decode_encode(blake3_keyed_hash(Blake3::loaded(key).unwrap(), input));
}

/// What holds of fresh key material of `format`, whatever the random source
/// gave: one secret of 32 password characters, or a secret key of 32 bytes
/// followed by its public key.
pub open spec fn generated_keys(keys: Seq<Seq<u8>>, format: TextSignFormat) -> bool {
    match format {
        TextSignFormat::Blake3 => Blake3::generated(keys),
        TextSignFormat::Ed25519 => Ed25519Signer::generated(keys),
    }
}

/// Makes fresh key material for `format`: the content of each key file, the
/// secret first.
pub fn process_text_generate(format: TextSignFormat) -> (keys: Vec<Vec<u8>>)
    ensures
        generated_keys(keys_view(keys), format),
{
    match format {
        TextSignFormat::Blake3 => Blake3::generate(),
        TextSignFormat::Ed25519 => Ed25519Signer::generate(),
    }
}

/// The text that `input` encrypts to under the key file `key`.
pub open spec fn encrypted_text(input: Seq<u8>, key: Seq<u8>) -> Result<Seq<char>, TextError> {
    match Chacha20poly1305Cipher::loaded(key) {
        Err(e) => Err(TextError::Load(e)),
        Ok((secret, nonce)) => if input.len() <= max_plaintext_len() {
            Ok(encoded(chacha20poly1305_sealed(secret, nonce, input)))
        } else {
            Err(TextError::Cipher(CipherError::MessageTooLong))
        },
    }
}

/// The text that the ciphertext `input` decrypts to under the key file
/// `key`. The key is loaded before the ciphertext is decoded.
pub open spec fn decrypted_text(input: Seq<char>, key: Seq<u8>) -> Result<Seq<char>, TextError> {
    match Chacha20poly1305Cipher::loaded(key) {
        Err(e) => Err(TextError::Load(e)),
        Ok((secret, nonce)) => match decoded(input) {
            Err(e) => Err(TextError::Codec(e)),
            Ok(sealed) => opened_text(secret, nonce, sealed),
        },
    }
}

/// Encrypts `input` under the key that the key file `key` holds. The text
/// decrypts to `input` again under the same key file, where `input` is valid
/// UTF-8.
pub fn process_text_encrypt(input: &[u8], key: &[u8]) -> (r: Result<String, TextError>)
    ensures
        text_view(r) == encrypted_text(input@, key@),
        r matches Ok(text) ==> decoded(text@) matches Ok(sealed) && sealed.len() == input@.len()
            + 16,
        r matches Ok(text) ==> decrypted_text(text@, key@) == plain_text(input@),
{
    match Chacha20poly1305Cipher::load(key) {
        Ok(cipher) => cipher.encrypt(input),
        Err(e) => Err(TextError::Load(e)),
    }
}

/// Decrypts the ciphertext `input` under the key that the key file `key`
/// holds.
pub fn process_text_decrypt(input: &str, key: &[u8]) -> (r: Result<String, TextError>)
    ensures
        text_view(r) == decrypted_text(input@, key@),
{
    match Chacha20poly1305Cipher::load(key) {
        Ok(cipher) => cipher.decrypt(input),
        Err(e) => Err(TextError::Load(e)),
    }
}

} // verus!
