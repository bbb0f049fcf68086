//! The cryptographic primitives and the random source, each behind a
//! contract that is believed, not proved: the functions here only pass
//! values to another crate and hand its answer back.

pub mod aead;
pub mod base64;
pub mod ed25519;
pub mod keyed_hash;
pub mod pattern;
pub mod random;
