use chacha20poly1305::aead::{Aead, KeyInit};
use chacha20poly1305::{ChaCha20Poly1305, Nonce};
use rcli::cli::TextSignFormat;
use rcli::codec::{decode, encode, CodecError};
use rcli::{
    process_text_decrypt, process_text_encrypt, process_text_generate, process_text_sign,
    process_text_verify, Blake3, Chacha20poly1305Cipher, CipherError, Ed25519Signer,
    Ed25519Verifier, KeyGenerate, KeyLoader, LoadError, TextCipher, TextError, TextSign,
    TextVerify,
};

fn hex(bytes: &[u8]) -> String {
    let mut s = String::new();
    for b in bytes {
        s.push_str(&format!("{b:02x}"));
    }
    s
}

fn unhex(text: &str) -> Vec<u8> {
    (0..text.len() / 2)
        .map(|i| u8::from_str_radix(&text[2 * i..2 * i + 2], 16).unwrap())
        .collect()
}

const SECRET: &str = "9d61b19deffd5a60ba844af492ec2cc44449c5697b326919703bac031cae7f60";
const PUBLIC: &str = "d75a980182b10ab7d54bfed3c964073a0ee172f3daa62325af021a68f707511a";
const SIGNATURE_OF_NOTHING: &str = "e5564300c360ac729086e2cc806e828a84877f1eb8e5d974d873e06522490155\
5fb8821590a33bacc61e39701cf9b46bd25bf5f0595bbe24655141438e7a100b";
const TEXT_KEY: &[u8] = b"abcdefghijklmnopqrstuvwxyz012345";

#[test]
fn test_blake3_sign_verify() {
    let key = [0u8; 32];
    let blake3 = Blake3::try_new(&key).unwrap();
    let data = b"hello world";
    let sig = blake3.sign(&data[..]);

    assert!(blake3.verify(&data[..], &sig).unwrap());
}

#[test]
fn test_ed25519_sign_verify() {
    let sk = Ed25519Signer::load(&unhex(SECRET)).unwrap();
    let pk = Ed25519Verifier::load(&unhex(PUBLIC)).unwrap();

    let data = b"hello world";
    let sig = sk.sign(&data[..]);

    assert!(pk.verify(&data[..], &sig).unwrap());
}

#[test]
fn blake3_tag_of_hello_world_under_the_zero_key() {
    let blake3 = Blake3::new([0u8; 32]);
    let sig = blake3.sign(b"hello world");
    assert_eq!(sig.len(), 32);
    assert_eq!(sig, blake3::keyed_hash(&[0u8; 32], b"hello world").as_bytes());
    assert_eq!(
        hex(&sig),
        "f70d67530338246a6522eae9daad92c0dfd4bcf4e511602d96e9afd1d2210479"
    );
    assert_eq!(blake3.verify(b"hello world", &sig), Ok(true));
    assert_eq!(blake3.verify(b"hello world", &[0u8; 32]), Ok(false));
}

#[test]
fn blake3_known_keyed_hash() {
    let blake3 = Blake3::try_new(b"whats the Elvish word for friend").unwrap();
    assert_eq!(
        hex(&blake3.sign(b"")),
        "92b2b75604ed3c761f9d6f62392c8a9227ad0ea3f09573e783f1498a4ed60d26"
    );
}

#[test]
fn blake3_refuses_any_changed_bit() {
    let blake3 = Blake3::new([7u8; 32]);
    let data = b"hello world".to_vec();
    let sig = blake3.sign(&data);
    for i in 0..sig.len() {
        for bit in 0..8 {
            let mut other = sig.clone();
            other[i] ^= 1 << bit;
            assert_eq!(blake3.verify(&data, &other), Ok(false));
        }
    }
    for i in 0..data.len() {
        for bit in 0..8 {
            let mut other = data.clone();
            other[i] ^= 1 << bit;
            assert_eq!(blake3.verify(&other, &sig), Ok(false));
        }
    }
}

#[test]
fn blake3_tag_of_another_length_is_a_mismatch() {
    let blake3 = Blake3::new([7u8; 32]);
    let sig = blake3.sign(b"data");
    assert_eq!(blake3.verify(b"data", &sig[..31]), Ok(false));
    let mut longer = sig.clone();
    longer.push(0);
    assert_eq!(blake3.verify(b"data", &longer), Ok(false));
    assert_eq!(blake3.verify(b"data", &[]), Ok(false));
}

#[test]
fn blake3_key_must_have_32_bytes() {
    assert!(matches!(Blake3::try_new(&[0u8; 31]), Err(LoadError::KeySizeMismatch)));
    assert!(matches!(Blake3::try_new(&[0u8; 33]), Err(LoadError::KeySizeMismatch)));
    assert!(matches!(Blake3::try_new(&[]), Err(LoadError::KeySizeMismatch)));
    assert!(Blake3::try_new(&[0u8; 32]).is_ok());
}

#[test]
fn text_key_is_trimmed() {
    let plain = Blake3::load(TEXT_KEY).unwrap();
    let mut padded = b" \t\n".to_vec();
    padded.extend_from_slice(TEXT_KEY);
    padded.extend_from_slice("\r\n\u{a0}\u{3000}".as_bytes());
    let trimmed = Blake3::load(&padded).unwrap();
    assert_eq!(plain.sign(b"data"), trimmed.sign(b"data"));
    assert_eq!(plain.sign(b"data"), Blake3::try_new(TEXT_KEY).unwrap().sign(b"data"));
    let mut inner = TEXT_KEY.to_vec();
    inner[5] = b' ';
    let spaced = Blake3::load(&inner).unwrap();
    assert_eq!(spaced.sign(b"data"), Blake3::try_new(&inner).unwrap().sign(b"data"));
}

#[test]
fn text_key_counts_bytes_not_characters() {
    let sixteen = "éééééééééééééééé";
    assert_eq!(sixteen.len(), 32);
    assert!(Blake3::load(sixteen.as_bytes()).is_ok());
    let thirty_two = "éééééééééééééééééééééééééééééééé";
    assert!(matches!(Blake3::load(thirty_two.as_bytes()), Err(LoadError::KeySizeMismatch)));
}

#[test]
fn key_files_of_31_or_33_bytes_are_refused() {
    let short = [b'k'; 31];
    let long = [b'k'; 33];
    assert!(matches!(Blake3::load(&short), Err(LoadError::KeySizeMismatch)));
    assert!(matches!(Blake3::load(&long), Err(LoadError::KeySizeMismatch)));
    assert!(matches!(Chacha20poly1305Cipher::load(&short), Err(LoadError::KeySizeMismatch)));
    assert!(matches!(Chacha20poly1305Cipher::load(&long), Err(LoadError::KeySizeMismatch)));
    assert!(matches!(Ed25519Signer::load(&short), Err(LoadError::KeySizeMismatch)));
    assert!(matches!(Ed25519Signer::load(&long), Err(LoadError::KeySizeMismatch)));
    assert!(matches!(Ed25519Verifier::load(&short), Err(LoadError::KeySizeMismatch)));
    assert!(matches!(Ed25519Verifier::load(&long), Err(LoadError::KeySizeMismatch)));
    let mut with_newline = [b'k'; 33];
    with_newline[32] = b'\n';
    assert!(Blake3::load(&with_newline).is_ok());
    assert!(Chacha20poly1305Cipher::load(&with_newline).is_ok());
    assert!(matches!(Ed25519Signer::load(&with_newline), Err(LoadError::KeySizeMismatch)));
}

#[test]
fn text_key_must_be_utf8() {
    let mut key = [b'k'; 32];
    key[3] = 0xff;
    assert!(matches!(Blake3::load(&key), Err(LoadError::Unreadable)));
    assert!(matches!(Chacha20poly1305Cipher::load(&key), Err(LoadError::Unreadable)));
    assert!(Blake3::try_new(&key).is_ok());
    assert!(Ed25519Signer::load(&key).is_ok());
}

#[test]
fn ed25519_known_signature() {
    let signer = Ed25519Signer::try_new(&unhex(SECRET)).unwrap();
    let sig = signer.sign(b"");
    assert_eq!(hex(&sig), SIGNATURE_OF_NOTHING);
    assert_eq!(sig, signer.sign(b""));
    let verifier = Ed25519Verifier::try_new(&unhex(PUBLIC)).unwrap();
    assert_eq!(verifier.verify(b"", &sig), Ok(true));
    assert_eq!(verifier.verify(b"x", &sig), Ok(false));
    let mut other = sig.clone();
    other[10] ^= 4;
    assert_eq!(verifier.verify(b"", &other), Ok(false));
}

#[test]
fn generated_public_key_has_32_bytes_and_loads() {
    for _ in 0..20 {
        let keys = process_text_generate(TextSignFormat::Ed25519);
        assert_eq!(keys.len(), 2);
        assert_eq!(keys[0].len(), 32);
        assert_eq!(keys[1].len(), 32);
        assert!(Ed25519Verifier::try_new(&keys[1]).is_ok());
        assert!(Ed25519Signer::try_new(&keys[0]).is_ok());
    }
}

#[test]
fn ciphertext_is_16_bytes_longer_than_the_plaintext() {
    let cipher = Chacha20poly1305Cipher::try_new(&[0u8; 32], &[0u8; 12]).unwrap();
    let text = cipher.encrypt(b"hello world").unwrap();
    assert_eq!(text.len(), 36);
    assert!(!text.contains('='));
    assert_ne!(text, "aGVsbG8gd29ybGQ");
    assert_eq!(decode(&text).unwrap().len(), 27);
    assert_eq!(decode(&cipher.encrypt(b"").unwrap()).unwrap().len(), 16);
    let sealed = process_text_encrypt(&[b'x'; 100], TEXT_KEY).unwrap();
    assert_eq!(decode(&sealed).unwrap().len(), 116);
}

#[test]
fn ciphertext_shorter_than_a_tag_fails_authentication() {
    let cipher = Chacha20poly1305Cipher::try_new(&[0u8; 32], &[0u8; 12]).unwrap();
    for n in 0..16usize {
        let short = encode(&vec![0u8; n]);
        assert_eq!(
            cipher.decrypt(&short),
            Err(TextError::Cipher(CipherError::AuthenticationFailed))
        );
    }
}

#[test]
fn ed25519_public_key_of_a_secret_key() {
    let mut secret = [0u8; 32];
    secret.copy_from_slice(&unhex(SECRET));
    let keys = Ed25519Signer::key_pair(secret);
    assert_eq!(keys.len(), 2);
    assert_eq!(hex(&keys[0]), SECRET);
    assert_eq!(hex(&keys[1]), PUBLIC);
}

#[test]
fn ed25519_signature_must_have_64_bytes() {
    let verifier = Ed25519Verifier::try_new(&unhex(PUBLIC)).unwrap();
    assert_eq!(verifier.verify(b"", &[0u8; 63]), Err(TextError::MalformedSignature));
    assert_eq!(verifier.verify(b"", &[0u8; 65]), Err(TextError::MalformedSignature));
    assert_eq!(verifier.verify(b"", &[]), Err(TextError::MalformedSignature));
    assert_eq!(verifier.verify(b"", &[0u8; 64]), Ok(false));
    assert_eq!(verifier.verify(b"", &[0xffu8; 64]), Ok(false));
}

#[test]
fn ed25519_keys_generated_twice_differ() {
    let a = Ed25519Signer::generate();
    let b = Ed25519Signer::generate();
    assert_eq!(a.len(), 2);
    assert_eq!(a[0].len(), 32);
    assert_eq!(a[1].len(), 32);
    assert_ne!(a[1], b[1]);
    assert_ne!(a[0], b[0]);
}

#[test]
fn ed25519_generated_pair_signs_and_verifies() {
    let keys = Ed25519Signer::generate();
    let other = Ed25519Signer::generate();
    let signer = Ed25519Signer::load(&keys[0]).unwrap();
    let verifier = Ed25519Verifier::load(&keys[1]).unwrap();
    let stranger = Ed25519Verifier::load(&other[1]).unwrap();
    let sig = signer.sign(b"hello world");
    assert_eq!(sig.len(), 64);
    assert_eq!(verifier.verify(b"hello world", &sig), Ok(true));
    assert_eq!(stranger.verify(b"hello world", &sig), Ok(false));
    assert_eq!(verifier.verify(b"hello world!", &sig), Ok(false));
}

#[test]
fn blake3_generated_key_loads() {
    let keys = Blake3::generate();
    assert_eq!(keys.len(), 1);
    assert_eq!(keys[0].len(), 32);
    assert!(keys[0].iter().all(|b| b.is_ascii_graphic()));
    assert!(Blake3::load(&keys[0]).is_ok());
    assert!(Chacha20poly1305Cipher::load(&keys[0]).is_ok());
    assert_ne!(keys, Blake3::generate());
}

#[test]
fn process_generate_gives_the_files_of_each_format() {
    assert_eq!(process_text_generate(TextSignFormat::Blake3).len(), 1);
    let pair = process_text_generate(TextSignFormat::Ed25519);
    assert_eq!(pair.len(), 2);
    let mut secret = [0u8; 32];
    secret.copy_from_slice(&pair[0]);
    assert_eq!(Ed25519Signer::key_pair(secret), pair);
}

#[test]
fn cipher_round_trip() {
    let cipher = Chacha20poly1305Cipher::load(TEXT_KEY).unwrap();
    for text in ["", "a", "hello world", "naïve café ☕", &"x".repeat(1000)] {
        let sealed = cipher.encrypt(text.as_bytes()).unwrap();
        assert_eq!(decode(&sealed).unwrap().len(), text.len() + 16);
        assert_eq!(cipher.decrypt(&sealed), Ok(text.to_string()));
    }
}

#[test]
fn cipher_is_deterministic() {
    let a = Chacha20poly1305Cipher::load(TEXT_KEY).unwrap();
    let mut padded = TEXT_KEY.to_vec();
    padded.push(b'\n');
    let b = Chacha20poly1305Cipher::load(&padded).unwrap();
    assert_eq!(a.encrypt(b"hello world"), a.encrypt(b"hello world"));
    assert_eq!(a.encrypt(b"hello world"), b.encrypt(b"hello world"));
    assert_ne!(a.encrypt(b"hello world"), a.encrypt(b"hello world!"));
}

#[test]
fn cipher_nonce_is_derived_from_the_key() {
    let digest = blake3::hash(TEXT_KEY);
    let nonce = Nonce::from_slice(&digest.as_bytes()[..12]);
    let expected = ChaCha20Poly1305::new_from_slice(TEXT_KEY)
        .unwrap()
        .encrypt(nonce, &b"hello world"[..])
        .unwrap();
    let cipher = Chacha20poly1305Cipher::load(TEXT_KEY).unwrap();
    assert_eq!(cipher.encrypt(b"hello world"), Ok(encode(&expected)));
    let explicit = Chacha20poly1305Cipher::try_new(TEXT_KEY, &digest.as_bytes()[..12]).unwrap();
    assert_eq!(explicit.encrypt(b"hello world"), Ok(encode(&expected)));
    let other = Chacha20poly1305Cipher::new([1u8; 32], [2u8; 12]);
    assert_ne!(other.encrypt(b"hello world"), Ok(encode(&expected)));
}

#[test]
fn cipher_sizes() {
    assert!(matches!(
        Chacha20poly1305Cipher::try_new(&[0u8; 31], &[0u8; 12]),
        Err(LoadError::KeySizeMismatch)
    ));
    assert!(matches!(
        Chacha20poly1305Cipher::try_new(&[0u8; 32], &[0u8; 11]),
        Err(LoadError::KeySizeMismatch)
    ));
    assert!(matches!(
        Chacha20poly1305Cipher::try_new(&[0u8; 32], &[0u8; 13]),
        Err(LoadError::KeySizeMismatch)
    ));
    assert!(Chacha20poly1305Cipher::try_new(&[0u8; 32], &[0u8; 12]).is_ok());
}

#[test]
fn tampered_ciphertext_fails_authentication() {
    let cipher = Chacha20poly1305Cipher::load(TEXT_KEY).unwrap();
    let sealed = cipher.encrypt(b"hello world").unwrap();
    for i in 0..sealed.len() - 1 {
        let mut bytes = sealed.clone().into_bytes();
        bytes[i] = if bytes[i] == b'A' { b'B' } else { b'A' };
        let tampered = String::from_utf8(bytes).unwrap();
        assert_eq!(
            cipher.decrypt(&tampered),
            Err(TextError::Cipher(CipherError::AuthenticationFailed))
        );
    }
    let other = Chacha20poly1305Cipher::load(b"ABCDEFGHIJKLMNOPQRSTUVWXYZ012345").unwrap();
    assert_eq!(
        other.decrypt(&sealed),
        Err(TextError::Cipher(CipherError::AuthenticationFailed))
    );
}

#[test]
fn decrypt_errors() {
    let cipher = Chacha20poly1305Cipher::load(TEXT_KEY).unwrap();
    assert_eq!(
        cipher.decrypt(""),
        Err(TextError::Cipher(CipherError::AuthenticationFailed))
    );
    assert_eq!(
        cipher.decrypt("AAAA"),
        Err(TextError::Cipher(CipherError::AuthenticationFailed))
    );
    assert_eq!(cipher.decrypt("AAAA\n"), Err(TextError::Codec(CodecError::InvalidAlphabet)));
    assert_eq!(cipher.decrypt("AAAAA"), Err(TextError::Codec(CodecError::InvalidLength)));
    assert_eq!(cipher.decrypt("AAAAAB"), Err(TextError::Codec(CodecError::InvalidLastSymbol)));
    let sealed = cipher.encrypt(&[0xff, 0xfe, 0x00]).unwrap();
    assert_eq!(cipher.decrypt(&sealed), Err(TextError::Cipher(CipherError::NotText)));
}

#[test]
fn process_sign_and_verify_blake3() {
    let sig = process_text_sign(b"hello world", TEXT_KEY, TextSignFormat::Blake3).unwrap();
    assert_eq!(sig.len(), 43);
    assert_eq!(decode(&sig).unwrap(), Blake3::load(TEXT_KEY).unwrap().sign(b"hello world"));
    assert_eq!(process_text_verify(b"hello world", TEXT_KEY, TextSignFormat::Blake3, &sig), Ok(true));
    assert_eq!(process_text_verify(b"hello", TEXT_KEY, TextSignFormat::Blake3, &sig), Ok(false));
    assert_eq!(process_text_verify(b"hello world", TEXT_KEY, TextSignFormat::Blake3, "AAAA"), Ok(false));
}

#[test]
fn process_sign_and_verify_ed25519() {
    let sig = process_text_sign(b"", &unhex(SECRET), TextSignFormat::Ed25519).unwrap();
    assert_eq!(sig, encode(&unhex(SIGNATURE_OF_NOTHING)));
    assert_eq!(sig.len(), 86);
    assert_eq!(process_text_verify(b"", &unhex(PUBLIC), TextSignFormat::Ed25519, &sig), Ok(true));
    assert_eq!(process_text_verify(b"a", &unhex(PUBLIC), TextSignFormat::Ed25519, &sig), Ok(false));
    assert_eq!(
        process_text_verify(b"", &unhex(PUBLIC), TextSignFormat::Ed25519, "AAAA"),
        Err(TextError::MalformedSignature)
    );
}

#[test]
fn process_errors_come_in_order() {
    assert_eq!(
        process_text_sign(b"x", b"short", TextSignFormat::Blake3),
        Err(TextError::Load(LoadError::KeySizeMismatch))
    );
    assert_eq!(
        process_text_sign(b"x", b"short", TextSignFormat::Ed25519),
        Err(TextError::Load(LoadError::KeySizeMismatch))
    );
    assert_eq!(
        process_text_verify(b"x", b"short", TextSignFormat::Blake3, "not base64!"),
        Err(TextError::Codec(CodecError::InvalidAlphabet))
    );
    assert_eq!(
        process_text_verify(b"x", b"short", TextSignFormat::Ed25519, "AAAA"),
        Err(TextError::Load(LoadError::KeySizeMismatch))
    );
    assert_eq!(
        process_text_decrypt("not base64!", b"short"),
        Err(TextError::Load(LoadError::KeySizeMismatch))
    );
    assert_eq!(
        process_text_decrypt("not base64!", TEXT_KEY),
        Err(TextError::Codec(CodecError::InvalidAlphabet))
    );
    assert_eq!(
        process_text_encrypt(b"x", &[0xff; 32]),
        Err(TextError::Load(LoadError::Unreadable))
    );
}

#[test]
fn process_encrypt_and_decrypt() {
    let sealed = process_text_encrypt(b"hello world", TEXT_KEY).unwrap();
    assert_eq!(process_text_decrypt(&sealed, TEXT_KEY), Ok("hello world".to_string()));
    assert_eq!(process_text_encrypt(b"hello world", TEXT_KEY), Ok(sealed));
}

#[test]
fn ed25519_public_key_must_decode() {
    let mut bytes = [0u8; 32];
    bytes[0] = 2;
    assert!(matches!(Ed25519Verifier::try_new(&bytes), Err(LoadError::InvalidKeyEncoding)));
    assert!(matches!(Ed25519Verifier::load(&bytes), Err(LoadError::InvalidKeyEncoding)));
    bytes[0] = 1;
    assert!(Ed25519Verifier::try_new(&bytes).is_ok());
    assert!(matches!(Ed25519Verifier::try_new(&bytes[..31]), Err(LoadError::KeySizeMismatch)));
    assert_eq!(
        process_text_verify(b"", &[2u8; 32], TextSignFormat::Ed25519, "AAAA"),
        Err(TextError::Load(LoadError::InvalidKeyEncoding))
    );
}
