//! The values of the text commands.

use crate::codec::decoded;
use crate::process::text::{
    decrypted_text, encrypted_text, generated_keys, keys_view, plain_text, process_text_decrypt,
    process_text_encrypt, process_text_generate, process_text_sign, process_text_verify,
    signature_len, signed_text, text_view, verified_text, TextError,
};
use vstd::prelude::*;

verus! {

/// The algorithm that signs and verifies.
#[derive(Clone, Copy, Debug, PartialEq, Eq, Structural)]
pub enum TextSignFormat {
    /// The BLAKE3 keyed hash, under a shared secret.
    Blake3,
    /// Ed25519 signatures, under a pair of keys.
    Ed25519,
}

/// What is signed, and how.
#[derive(Clone, Debug, PartialEq, Eq)]
pub struct TextSignOpts {
    /// The file that holds the data, or `-` for the standard input.
    pub input: String,
    /// The file that holds the key.
    pub key: String,
    /// The algorithm.
    pub format: TextSignFormat,
}

impl TextSignOpts {
    /// The signature text of the data `input` under the key file `key`.
    pub fn sign(&self, input: &[u8], key: &[u8]) -> (r: Result<String, TextError>)
        ensures
            text_view(r) == signed_text(input@, key@, self.format),
            r matches Ok(text) ==> decoded(text@) matches Ok(sig) && sig.len() == signature_len(
                self.format,
            ),
    {
        process_text_sign(input, key, self.format)
    }
}

/// What is verified, and how.
#[derive(Clone, Debug, PartialEq, Eq)]
pub struct TextVerifyOpts {
    /// The file that holds the data, or `-` for the standard input.
    pub input: String,
    /// The file that holds the key.
    pub key: String,
    /// The signature, as base64.
    pub sig: String,
    /// The algorithm.
    pub format: TextSignFormat,
}

impl TextVerifyOpts {
    /// Whether the signature is accepted for the data `input` under the key
    /// file `key`.
    pub fn verify(&self, input: &[u8], key: &[u8]) -> (r: Result<bool, TextError>)
        ensures
            r == verified_text(input@, key@, self.format, self.sig@),
    {
        process_text_verify(input, key, self.format, self.sig.as_str())
    }
}

/// The names of the key files of `format`, the secret first.
pub open spec fn key_file_names(format: TextSignFormat) -> Seq<Seq<char>> {
    match format {
        TextSignFormat::Blake3 => seq!["blake3.txt"@],
        TextSignFormat::Ed25519 => seq!["ed25519.sk"@, "ed25519.pk"@],
    }
}

/// The names of a list of key files.
pub open spec fn names_view(files: Vec<(&'static str, Vec<u8>)>) -> Seq<Seq<char>> {
    files@.map_values(|f: (&'static str, Vec<u8>)| f.0@)
}

/// The contents of a list of key files.
pub open spec fn contents_view(files: Vec<(&'static str, Vec<u8>)>) -> Seq<Seq<u8>> {
    files@.map_values(|f: (&'static str, Vec<u8>)| f.1@)
}

/// What keys are made, and where they go.
#[derive(Clone, Debug, PartialEq, Eq)]
pub struct TextKeyGenerateOpts {
    /// The algorithm.
    pub format: TextSignFormat,
    /// The directory that takes the key files.
    pub output: String,
}

impl TextKeyGenerateOpts {
    /// Gives each key of fresh key material the name of its file: the
    /// secret goes to the first file, the public key to the second.
    pub fn name_keys(format: TextSignFormat, keys: Vec<Vec<u8>>) -> (files: Vec<
        (&'static str, Vec<u8>),
    >)
        requires
            keys@.len() == key_file_names(format).len(),
        ensures
            names_view(files) == key_file_names(format),
            contents_view(files) == keys_view(keys),
    {
        let mut keys = keys;
        let ghost all = keys_view(keys);
        let mut files: Vec<(&'static str, Vec<u8>)> = Vec::new();
        match format {
            TextSignFormat::Blake3 => {
                let secret = keys.remove(0);
                files.push(("blake3.txt", secret));
            },
            TextSignFormat::Ed25519 => {
                let secret = keys.remove(0);
                let public = keys.remove(0);
                files.push(("ed25519.sk", secret));
                files.push(("ed25519.pk", public));
            },
        }
        assert(names_view(files) =~= key_file_names(format));
        assert(contents_view(files) =~= all);
        files
    }

    /// Fresh key material, each key with the name of its file.
    pub fn key_files(&self) -> (files: Vec<(&'static str, Vec<u8>)>)
        ensures
            names_view(files) == key_file_names(self.format),
            generated_keys(contents_view(files), self.format),
    {
        let keys = process_text_generate(self.format);
        Self::name_keys(self.format, keys)
    }
}

/// What is encrypted.
#[derive(Clone, Debug, PartialEq, Eq)]
pub struct TextEncryptOpts {
    /// The file that holds the data, or `-` for the standard input.
    pub input: String,
    /// The file that holds the key.
    pub key: String,
}

impl TextEncryptOpts {
    /// The text that the data `input` encrypts to under the key file `key`.
    pub fn encrypt(&self, input: &[u8], key: &[u8]) -> (r: Result<String, TextError>)
        ensures
            text_view(r) == encrypted_text(input@, key@),
            r matches Ok(text) ==> decoded(text@) matches Ok(sealed) && sealed.len() == input@.len()
                + 16,
            r matches Ok(text) ==> decrypted_text(text@, key@) == plain_text(input@),
    {
        process_text_encrypt(input, key)
    }
}

/// What is decrypted.
#[derive(Clone, Debug, PartialEq, Eq)]
pub struct TextDecryptOpts {
    /// The file that holds the ciphertext, or `-` for the standard input.
    pub input: String,
    /// The file that holds the key.
    pub key: String,
}

impl TextDecryptOpts {
    /// The text that the ciphertext `input` decrypts to under the key file
    /// `key`.
    pub fn decrypt(&self, input: &str, key: &[u8]) -> (r: Result<String, TextError>)
        ensures
            text_view(r) == decrypted_text(input@, key@),
    {
        process_text_decrypt(input, key)
    }
}

} // verus!
