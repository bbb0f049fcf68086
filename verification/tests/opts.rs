use rcli::cli::{
    TextDecryptOpts, TextEncryptOpts, TextKeyGenerateOpts, TextSignFormat, TextSignOpts,
    TextVerifyOpts,
};
use rcli::codec::CodecError;
use rcli::process::http_serve::{directory_listing, target, Target};
use rcli::{process_text_sign, LoadError, TextError};

const KEY: &[u8] = b"0123456789abcdef0123456789abcdef\n";

#[test]
fn sign_opts_sign_with_their_format() {
    let opts = TextSignOpts {
        input: "-".to_string(),
        key: "blake3.txt".to_string(),
        format: TextSignFormat::Blake3,
    };
    assert_eq!(
        opts.sign(b"hello", KEY),
        process_text_sign(b"hello", KEY, TextSignFormat::Blake3)
    );
    let opts = TextSignOpts { format: TextSignFormat::Ed25519, ..opts };
    assert_eq!(opts.sign(b"hello", KEY), Err(TextError::Load(LoadError::KeySizeMismatch)));
    assert_eq!(
        opts.sign(b"hello", &KEY[..32]),
        process_text_sign(b"hello", &KEY[..32], TextSignFormat::Ed25519)
    );
}

#[test]
fn verify_opts_check_their_signature() {
    let sig = process_text_sign(b"hello", KEY, TextSignFormat::Blake3).unwrap();
    let mut opts = TextVerifyOpts {
        input: "-".to_string(),
        key: "blake3.txt".to_string(),
        sig,
        format: TextSignFormat::Blake3,
    };
    assert_eq!(opts.verify(b"hello", KEY), Ok(true));
    assert_eq!(opts.verify(b"hullo", KEY), Ok(false));
    opts.sig.push('A');
    assert_eq!(opts.verify(b"hello", KEY), Ok(false));
    opts.sig.push('A');
    assert_eq!(opts.verify(b"hello", KEY), Err(TextError::Codec(CodecError::InvalidLength)));
}

#[test]
fn encrypt_and_decrypt_opts() {
    let enc = TextEncryptOpts { input: "-".to_string(), key: "key.txt".to_string() };
    let dec = TextDecryptOpts { input: "-".to_string(), key: "key.txt".to_string() };
    let sealed = enc.encrypt("grüße".as_bytes(), KEY).unwrap();
    assert_eq!(dec.decrypt(&sealed, KEY), Ok("grüße".to_string()));
    assert_eq!(dec.decrypt(&sealed, &KEY[..31]), Err(TextError::Load(LoadError::KeySizeMismatch)));
}

#[test]
fn key_files_of_the_keyed_hash() {
    let opts = TextKeyGenerateOpts { format: TextSignFormat::Blake3, output: ".".to_string() };
    let files = opts.key_files();
    assert_eq!(files.len(), 1);
    assert_eq!(files[0].0, "blake3.txt");
    assert_eq!(files[0].1.len(), 32);
}

#[test]
fn key_files_of_the_signature_scheme() {
    let opts = TextKeyGenerateOpts { format: TextSignFormat::Ed25519, output: ".".to_string() };
    let files = opts.key_files();
    assert_eq!(files.len(), 2);
    assert_eq!(files[0].0, "ed25519.sk");
    assert_eq!(files[1].0, "ed25519.pk");
    let mut secret = [0u8; 32];
    secret.copy_from_slice(&files[0].1);
    assert_eq!(rcli::Ed25519Signer::key_pair(secret)[1], files[1].1);
}

#[test]
fn keys_are_named_in_order() {
    let files = TextKeyGenerateOpts::name_keys(TextSignFormat::Ed25519, vec![vec![1], vec![2]]);
    assert_eq!(files, vec![("ed25519.sk", vec![1]), ("ed25519.pk", vec![2])]);
    let files = TextKeyGenerateOpts::name_keys(TextSignFormat::Blake3, vec![vec![3]]);
    assert_eq!(files, vec![("blake3.txt", vec![3])]);
}

#[test]
fn targets() {
    assert_eq!(target(false, false), Target::Missing);
    assert_eq!(target(false, true), Target::Missing);
    assert_eq!(target(true, true), Target::File);
    assert_eq!(target(true, false), Target::Directory);
}

#[test]
fn listing_of_a_directory() {
    assert_eq!(directory_listing(&[]), "<html><body><ul></ul></body></html>");
    let entries = vec![("src".to_string(), true), ("Cargo.toml".to_string(), false)];
    assert_eq!(
        directory_listing(&entries),
        "<html><body><ul><li><a href=\"src/\">src/</a></li>\
<li><a href=\"Cargo.toml\">Cargo.toml</a></li></ul></body></html>"
    );
}
