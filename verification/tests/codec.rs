use rcli::codec::{decode, encode, CodecError};

#[test]
fn encode_known_values() {
    assert_eq!(encode(b""), "");
    assert_eq!(encode(b"f"), "Zg");
    assert_eq!(encode(b"fo"), "Zm8");
    assert_eq!(encode(b"foo"), "Zm9v");
    assert_eq!(encode(b"foob"), "Zm9vYg");
    assert_eq!(encode(b"fooba"), "Zm9vYmE");
    assert_eq!(encode(b"foobar"), "Zm9vYmFy");
    assert_eq!(encode(&[0xfb, 0xff]), "+/8");
}

#[test]
fn decode_known_values() {
    assert_eq!(decode(""), Ok(vec![]));
    assert_eq!(decode("Zg"), Ok(b"f".to_vec()));
    assert_eq!(decode("Zm8"), Ok(b"fo".to_vec()));
    assert_eq!(decode("Zm9v"), Ok(b"foo".to_vec()));
    assert_eq!(decode("Zm9vYmFy"), Ok(b"foobar".to_vec()));
    assert_eq!(decode("+/8"), Ok(vec![0xfb, 0xff]));
}

#[test]
fn decode_errors() {
    assert_eq!(decode("Zg=="), Err(CodecError::InvalidAlphabet));
    assert_eq!(decode("Zm 9v"), Err(CodecError::InvalidAlphabet));
    assert_eq!(decode("Zm9v\n"), Err(CodecError::InvalidAlphabet));
    assert_eq!(decode("Zm9\u{e9}"), Err(CodecError::InvalidAlphabet));
    assert_eq!(decode("Z"), Err(CodecError::InvalidLength));
    assert_eq!(decode("Zm9vY"), Err(CodecError::InvalidLength));
    assert_eq!(decode("Zh"), Err(CodecError::InvalidLastSymbol));
    assert_eq!(decode("Zm9"), Err(CodecError::InvalidLastSymbol));
    assert_eq!(decode("-_8"), Err(CodecError::InvalidAlphabet));
    assert_eq!(decode("!"), Err(CodecError::InvalidAlphabet));
}

#[test]
fn decode_inverts_encode() {
    let mut data = Vec::new();
    for n in 0..300usize {
        assert_eq!(decode(&encode(&data)), Ok(data.clone()));
        data.push((n * 37 % 256) as u8);
    }
    let all: Vec<u8> = (0..=255u8).collect();
    assert_eq!(decode(&encode(&all)), Ok(all));
}

#[test]
fn encode_inverts_decode() {
    for text in ["", "AA", "AAA", "AAAA", "Zm9vYmFy", "+/8", "abcdefgh0123", "////"] {
        let bytes = decode(text).unwrap();
        assert_eq!(encode(&bytes), text);
    }
}
