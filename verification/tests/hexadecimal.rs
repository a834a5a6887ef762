use star_cloudburst::crypto::digest::Digest;
use star_cloudburst::crypto::digest::DigestError;
use star_cloudburst::crypto::digest::Md5;
use star_cloudburst::crypto::digest::Sha1;
use star_cloudburst::crypto::digest::Sha256;
use star_cloudburst::hexadecimal::ascii_lower;
use star_cloudburst::hexadecimal::hex_digit;
use star_cloudburst::hexadecimal::hex_to_byte;
use star_cloudburst::hexadecimal::pack;
use star_cloudburst::hexadecimal::pack_bytes;
use star_cloudburst::hexadecimal::unpack_byte;
use star_cloudburst::hexadecimal::validate_hex;
use star_cloudburst::hexadecimal::EmptyString;
use star_cloudburst::hexadecimal::HexBytes;
use star_cloudburst::hexadecimal::HexError;
use star_cloudburst::hexadecimal::Hexadecimal;
use star_cloudburst::hexadecimal::Nibbles;
use star_cloudburst::hexadecimal::PackedHex;

#[test]
fn hex_of_either_case_is_written_in_lower_case() {
    let coffee_hex = HexBytes::from_hex_str("cafeD00d").unwrap();
    assert_eq!(coffee_hex.as_slice(), &[0xca, 0xfe, 0xd0, 0x0d]);
    assert_eq!(coffee_hex.to_string(), "cafed00d");
    assert_eq!(coffee_hex.to_hex(), b"cafed00d".to_vec());
    assert_eq!(coffee_hex.len(), 4);
    assert!(!coffee_hex.is_empty());
    assert_eq!(coffee_hex.iter(), vec![0xca, 0xfe, 0xd0, 0x0d]);
    assert_eq!(HexBytes::from_hex_str("CAFED00D").unwrap(), coffee_hex);
    assert_eq!(HexBytes::from_hex_str("dead").unwrap().len(), 2);
}

#[test]
fn hex_refuses_what_is_no_hex() {
    assert!(HexBytes::from_hex_str("*giraffe noises* 🦒").is_err());
    assert_eq!(HexBytes::from_hex_str(""), Err(HexError::InvalidLength(0)));
    assert_eq!(HexBytes::from_hex_str("abc"), Err(HexError::InvalidLength(3)));
    assert_eq!(HexBytes::from_hex_str("0g"), Err(HexError::InvalidDigit(b'g')));
    // the first pair with a fault is reported, and of it the first byte
    assert_eq!(HexBytes::from_hex_str("00ZY11"), Err(HexError::InvalidDigit(b'z')));
    assert_eq!(HexBytes::from_hex_str("0Yx1"), Err(HexError::InvalidDigit(b'y')));
}

#[test]
fn hex_of_every_byte_reads_back() {
    let all: Vec<u8> = (0..=255).collect();
    let hex = HexBytes::new(all.clone());
    let text = hex.to_string();
    assert_eq!(text.len(), 512);
    assert_eq!(&text[..8], "00010203");
    assert_eq!(&text[504..], "fcfdfeff");
    assert_eq!(HexBytes::from_hex_str(&text).unwrap().as_slice(), &all[..]);
    assert_eq!(HexBytes::from_hex_str(&text.to_uppercase()).unwrap().as_slice(), &all[..]);
}

#[test]
fn nibbles_and_packing() {
    assert_eq!(pack_bytes([0xc, 0xa]), 0xca);
    assert_eq!(pack([0x0, 0xf]), 0x0f);
    assert_eq!(unpack_byte(0xca), [0xc, 0xa]);
    assert_eq!(hex_to_byte(b'a'), Ok(10));
    assert_eq!(hex_to_byte(b'7'), Ok(7));
    assert_eq!(hex_to_byte(b'A'), Err(HexError::InvalidDigit(b'A')));
    assert_eq!(hex_digit(11), b'b');
    assert_eq!(ascii_lower(b'Q'), b'q');
    assert_eq!(ascii_lower(b'['), b'[');

    let mut nibbles = Nibbles::new(vec![0xde, 0xad]);
    assert_eq!(nibbles.len(), 2);
    assert_eq!(nibbles.size_hint(), (2, Some(2)));
    assert_eq!(nibbles.next(), Some([0xd, 0xe]));
    let copy = nibbles.clone();
    assert_eq!(nibbles.next(), Some([0xa, 0xd]));
    assert_eq!(nibbles.next(), None);
    assert_eq!(nibbles.next(), None);
    assert_eq!(copy.len(), 1);

    let mut packed = vec![0xbe, 0xef].nibbles().packed_hex();
    assert_eq!(packed.len(), 2);
    assert_eq!(packed.next(), Some(0xbe));
    assert_eq!(packed.size_hint(), (1, Some(1)));
    assert_eq!(packed.next(), Some(0xef));
    assert_eq!(packed.next(), None);
    assert_eq!(packed.next(), None);

    let mut pairs = PackedHex::new(vec![[1, 2], [0xf, 0xf]]);
    let second = pairs.clone();
    assert_eq!(pairs.next(), Some(0x12));
    assert_eq!(pairs.next(), Some(0xff));
    assert_eq!(pairs.next(), None);
    assert_eq!(second.len(), 2);

    let mut bytes = Hexadecimal::packed_hex(vec![0x01, 0x80]);
    assert_eq!(bytes.next(), Some(0x01));
    assert_eq!(bytes.next(), Some(0x80));
}

#[test]
fn hex_digits_are_told_from_other_bytes() {
    assert!(validate_hex(b"0123456789abcdefABCDEF"));
    assert!(validate_hex(b""));
    assert!(!validate_hex(b"12g4"));
    assert!(b"cafe".to_vec().validate_hex());
    assert!(!b"caf\xc3\xa9".to_vec().validate_hex());
    assert!(EmptyString::matches(b""));
    assert!(!EmptyString::matches(b" "));
    assert_eq!(EmptyString::new().as_str(), "");
    assert_eq!(EmptyString::new(), EmptyString::new());
}

#[test]
fn digests_hold_to_their_length() {
    let sha1 = Sha1::from_bytes(&[7u8; 20]).unwrap();
    assert_eq!(sha1.as_slice(), &[7u8; 20]);
    assert_eq!(
        Sha1::from_bytes(&[7u8; 19]).unwrap_err(),
        DigestError::InvalidLength { actual: 19, expected: 20 }
    );
    assert_eq!(
        Sha1::from_bytes(&[7u8; 21]).unwrap_err(),
        DigestError::InvalidLength { actual: 21, expected: 20 }
    );
    assert!(Sha256::from_bytes(&[1u8; 32]).is_ok());
    assert_eq!(
        Sha256::from_bytes(&[1u8; 20]).unwrap_err(),
        DigestError::InvalidLength { actual: 20, expected: 32 }
    );
    assert!(Md5::from_bytes(&[1u8; 16]).is_ok());
    assert_eq!(
        Md5::from_bytes(&[]).unwrap_err(),
        DigestError::InvalidLength { actual: 0, expected: 16 }
    );
    assert_eq!(Md5::new([9u8; 16]).as_slice(), &[9u8; 16]);
    assert_eq!(Digest::<4>::new([1, 2, 3, 4]).to_string(), "01020304");
}

#[test]
fn digests_from_hex() {
    let text = "00112233445566778899AABBCCDDEEFF00112233";
    let sha1 = Sha1::from_hex_str(text).unwrap();
    assert_eq!(sha1.to_string(), text.to_lowercase());
    assert_eq!(sha1.to_hex(), text.to_lowercase().into_bytes());
    assert_eq!(sha1, Sha1::from_hex_str(&text.to_lowercase()).unwrap());
    assert_ne!(sha1, Sha1::new([0u8; 20]));
    assert_eq!(sha1.clone(), sha1);
    // 38 and 42 digits are hexadecimal, and of the wrong length
    assert_eq!(
        Sha1::from_hex_str(&text[..38]).unwrap_err(),
        DigestError::InvalidLength { actual: 19, expected: 20 }
    );
    assert_eq!(
        Sha1::from_hex_str(&format!("{text}00")).unwrap_err(),
        DigestError::InvalidLength { actual: 21, expected: 20 }
    );
    assert_eq!(
        Sha1::from_hex_str(&text[..39]).unwrap_err(),
        DigestError::Hex(HexError::InvalidLength(39))
    );
    assert_eq!(
        Md5::from_hex_str("0123456789abcdef0123456789abcdeg").unwrap_err(),
        DigestError::Hex(HexError::InvalidDigit(b'g'))
    );
    assert_eq!(
        Sha256::from_hex_str(&"aB".repeat(32)).unwrap().as_slice(),
        &[0xab; 32]
    );
    assert_eq!(
        Sha256::from_hex_bytes(HexBytes::new(vec![1; 31])).unwrap_err(),
        DigestError::InvalidLength { actual: 31, expected: 32 }
    );
}
