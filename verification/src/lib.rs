//! Text signing, verification, encryption and key handling over three
//! primitives (a keyed hash, an asymmetric signature scheme and an
//! authenticated cipher), with the unpadded base64 transport encoding they
//! share, a password generator and the validation of command-line values.

pub mod cli;
pub mod codec;
pub mod primitives;
pub mod process;
pub mod strings;

pub use process::b64::{process_decode, process_encode};
pub use process::gen_pass::process_genpass;
pub use process::text::{
    process_text_decrypt, process_text_encrypt, process_text_generate, process_text_sign,
    process_text_verify, Blake3, Chacha20poly1305Cipher, CipherError, Ed25519Signer,
    Ed25519Verifier, KeyGenerate, KeyLoader, LoadError, TextCipher, TextError, TextSign,
    TextVerify,
};
