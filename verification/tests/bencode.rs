use num_bigint::BigInt;
use num_bigint::BigUint;
use num_bigint::ToBigInt;
use num_bigint::ToBigUint;
use star_cloudburst::bencode::bytes::bytes;
use star_cloudburst::bencode::bytes::bytes_str;
use star_cloudburst::bencode::encode::encode_bytes;
use star_cloudburst::bencode::encode::encode_integer;
use star_cloudburst::bencode::error::label;
use star_cloudburst::bencode::error::BertErrorKind;
use star_cloudburst::bencode::error::BertErrorTrace;
use star_cloudburst::bencode::error::ContextLabel;
use star_cloudburst::bencode::error::GrammarKind;
use star_cloudburst::bencode::error::IntegerFault;
use star_cloudburst::bencode::error::ParseIntegerDelegate;
use star_cloudburst::bencode::integer::bytes_to_str_to_int;
use star_cloudburst::bencode::integer::integer;
use star_cloudburst::bencode::integer::integer_text;
use star_cloudburst::bencode::integer::is_decimal;

fn kinds(trail: &BertErrorTrace) -> Vec<BertErrorKind> {
    (0..trail.len()).map(|i| trail.frame(i).source()).collect()
}

// Success case
#[test]
fn bytes_to_str_success() -> Result<(), BertErrorTrace> {
    // Cats are cute.
    let cats = "14:A cicák cukik";
    let cats_bytes_str = cats.as_bytes();
    let (remaining, cat_parsed_bytes) = bytes(cats_bytes_str)?;

    // Check if the bytes were parsed properly
    assert_eq!(remaining.len(), 0);
    let cats_parsed = std::str::from_utf8(cat_parsed_bytes).unwrap();
    assert!(cats.chars().skip(3).eq(cats_parsed.chars()));

    Ok(())
}

// Incorrect delimiter
#[test]
#[should_panic(expected = "")]
fn missing_colon() {
    let twist_bytes_str = "46;fekete bika pata kopog a patika pepita kövein".as_bytes();
    bytes(twist_bytes_str).unwrap();
}

// Zero length bytes array
#[test]
fn zero_length_bytes_array() -> Result<(), BertErrorTrace> {
    let zero_bytes_str = b"0:";
    let (remaining, parsed_bytes) = bytes(zero_bytes_str)?;

    // Check that both remaining and parsed_bytes are empty.
    assert_eq!(remaining.len(), 0);
    assert_eq!(parsed_bytes.len(), 0);

    Ok(())
}

// Try to take 42 bytes from an bytes array which is only 32 bytes long.
#[test]
#[should_panic(expected = "")]
fn length_too_large() {
    let wrong_bytes_str = "42:This is not 42 bytes. LOLOL 🐈".as_bytes();
    assert!(wrong_bytes_str.len() < 42);
    bytes(wrong_bytes_str).unwrap();
}

// Try to take a smaller amount of bytes than the actual length.
// This won't fail, but the next parser will fail because the rest of the bytes
// won't be in proper Bencode
#[test]
fn length_too_small() -> Result<(), BertErrorTrace> {
    // Cabbaging hm hm.
    let emi_bytes_str =
        "48:Elkelkáposztásíthatatlanságoskodásaitokért kivégezlek titeket".as_bytes();
    assert_ne!(48, emi_bytes_str.len());

    // Parse 48 bytes.
    let (remaining, parsed_bytes) = bytes(emi_bytes_str)?;

    // Check that parsed bytes were parsed properly
    assert_eq!(parsed_bytes.len(), 48);
    let parsed_str = std::str::from_utf8(parsed_bytes).unwrap();
    assert_eq!(parsed_str, "Elkelkáposztásíthatatlanságoskodásaitokért");

    // Check that the remaining bytes array is the correct length
    assert_eq!(remaining.len(), 20);

    Ok(())
}

// A bytes array of null characters.
#[test]
fn null_bytes() -> Result<(), BertErrorTrace> {
    let unparsed = b"4:\x00\x00\x00\x00";
    let (remaining, parsed_bytes) = bytes(unparsed)?;

    // Check that bytes were parsed correctly
    assert_eq!(remaining.len(), 0);
    let parsed_str = std::str::from_utf8(parsed_bytes).unwrap();
    assert_eq!(parsed_str, "\x00\x00\x00\x00");

    Ok(())
}

// Test bytes_str directly
#[test]
fn bytes_str_works() -> Result<(), BertErrorTrace> {
    let rin_unparsed = "9:星空凛";
    let (remaining, rin_parsed) = bytes_str(rin_unparsed.as_bytes())?;

    // Check that bytes were parsed correctly.
    assert_eq!(remaining.len(), 0);
    assert_eq!(&rin_unparsed[2..], rin_parsed);

    Ok(())
}

// Test [bytes_to_str_int] directly
#[test]
fn bytes_to_pos_int() -> Result<(), BertErrorKind> {
    let num_raw = b"54";
    let num: i32 = bytes_to_str_to_int(&num_raw[..])?;
    assert_eq!(num, 54);
    Ok(())
}

// Leading zeroes are invalid according to the spec
#[test]
#[should_panic(expected = "")]
fn leading_zero_fails() {
    let (_bytes, _num): (&[u8], i32) = integer(b"i014e")
        .expect("This should panic because integers with leading zeroes are invalid.");
}

#[test]
fn zero() -> Result<(), BertErrorTrace> {
    let (_bytes, num) = integer::<i32>(b"i0e")?;
    assert_eq!(num, 0);
    Ok(())
}

#[test]
#[should_panic(expected = "")]
fn missing_delimiters() {
    integer::<u32>(b"14").unwrap();
}

// -0 is invalid Bencode.
#[test]
#[should_panic(expected = "")]
fn negative_zero() {
    let bad_zero = b"i-0e";
    let (_bytes, _num) =
        integer::<i32>(&bad_zero[..]).expect("Negative zero is invalid Bencode.");
}

// Positive BigInt
#[test]
fn parse_bigint_pos() -> Result<(), BertErrorTrace> {
    let big_num_raw = u128::MAX.to_bigint().unwrap() * 2;
    let big_num = format!("i{big_num_raw}e",);
    let (_bytes, num_big) = integer::<BigInt>(big_num.as_bytes())?;

    assert_eq!(big_num_raw, num_big);
    Ok(())
}

// Negative BigInt
#[test]
fn parse_bigint_neg() -> Result<(), BertErrorTrace> {
    let big_num_raw = i128::MIN.to_bigint().unwrap() - u128::MAX.to_bigint().unwrap();
    let big_num = format!("i{big_num_raw}e",);
    let (_bytes, num_big) = integer::<BigInt>(big_num.as_bytes())?;

    assert_eq!(big_num_raw, num_big);
    Ok(())
}

// BigUint
#[test]
fn parse_biguint_pos() -> Result<(), BertErrorTrace> {
    let big_num_raw = u128::MAX.to_biguint().unwrap() * 2u32;
    let big_num = format!("i{big_num_raw}e",);
    let (_bytes, num_big) = integer::<BigUint>(big_num.as_bytes())?;

    assert_eq!(big_num_raw, num_big);
    Ok(())
}

#[test]
fn integer_leaves_the_rest() {
    let (rest, num) = integer::<i64>(b"i-28e4:spam").unwrap();
    assert_eq!(num, -28);
    assert_eq!(rest, b"4:spam");
    let (rest, text) = integer_text(b"i14e").unwrap();
    assert_eq!(text, b"14");
    assert!(rest.is_empty());
}

#[test]
fn integer_extremes_of_each_type() {
    assert_eq!(integer::<u8>(b"i255e").unwrap().1, 255);
    assert_eq!(integer::<i32>(b"i-2147483648e").unwrap().1, i32::MIN);
    assert_eq!(integer::<i64>(b"i9223372036854775807e").unwrap().1, i64::MAX);
    assert_eq!(integer::<i64>(b"i-9223372036854775808e").unwrap().1, i64::MIN);
    assert_eq!(integer::<u64>(b"i18446744073709551615e").unwrap().1, u64::MAX);
    assert_eq!(integer::<u32>(b"i4294967295e").unwrap().1, u32::MAX);
    assert_eq!(integer::<usize>(b"i0e").unwrap().1, 0);
}

#[test]
fn integer_trail_of_a_missing_opening() {
    let trail = integer::<i32>(b"14").unwrap_err();
    assert_eq!(
        kinds(&trail),
        vec![
            BertErrorKind::Grammar(GrammarKind::Tag),
            BertErrorKind::Context(ContextLabel::Integer),
        ]
    );
    assert_eq!(trail.frame(0).input(), b"14");
    assert_eq!(trail.frame(1).input(), b"14");
}

#[test]
fn integer_trail_of_negative_zero() {
    let trail = integer::<i32>(b"i-0e").unwrap_err();
    assert_eq!(
        kinds(&trail),
        vec![
            BertErrorKind::Grammar(GrammarKind::Verify),
            BertErrorKind::Context(ContextLabel::IntegerNegativeZero),
            BertErrorKind::Context(ContextLabel::Integer),
        ]
    );
    assert_eq!(trail.frame(0).input(), b"-0e");
    assert_eq!(trail.frame(2).input(), b"i-0e");
    // what follows `-0` does not matter
    let trail = integer::<i32>(b"i-01428e").unwrap_err();
    assert_eq!(
        trail.frame(1).source(),
        BertErrorKind::Context(ContextLabel::IntegerNegativeZero)
    );
}

#[test]
fn integer_trail_of_a_leading_zero() {
    let trail = integer::<i32>(b"i014e").unwrap_err();
    assert_eq!(
        kinds(&trail),
        vec![
            BertErrorKind::Grammar(GrammarKind::Verify),
            BertErrorKind::Context(ContextLabel::IntegerLeadingZero),
            BertErrorKind::Context(ContextLabel::Integer),
        ]
    );
    assert_eq!(trail.frame(0).input(), b"014e");
}

#[test]
fn integer_trail_of_missing_digits() {
    let trail = integer::<i32>(b"ie").unwrap_err();
    assert_eq!(
        kinds(&trail),
        vec![
            BertErrorKind::ErrantChar(b'-'),
            BertErrorKind::Grammar(GrammarKind::Alt),
            BertErrorKind::Context(ContextLabel::Integer),
        ]
    );
    let trail = integer::<i32>(b"i-e").unwrap_err();
    assert_eq!(
        kinds(&trail),
        vec![
            BertErrorKind::Grammar(GrammarKind::Digit),
            BertErrorKind::Grammar(GrammarKind::Alt),
            BertErrorKind::Context(ContextLabel::Integer),
        ]
    );
    assert_eq!(trail.frame(0).input(), b"e");
    assert_eq!(trail.frame(1).input(), b"-e");
}

#[test]
fn integer_trail_of_a_missing_close() {
    let trail = integer::<i32>(b"i14").unwrap_err();
    assert_eq!(
        kinds(&trail),
        vec![
            BertErrorKind::Grammar(GrammarKind::Tag),
            BertErrorKind::Context(ContextLabel::Integer),
        ]
    );
    assert_eq!(trail.frame(0).input(), b"");
    let trail = integer::<i32>(b"i14x").unwrap_err();
    assert_eq!(trail.frame(0).input(), b"x");
}

#[test]
fn integer_refused_by_the_number_type() {
    let trail = integer::<u8>(b"i256e").unwrap_err();
    assert_eq!(
        kinds(&trail),
        vec![
            BertErrorKind::Grammar(GrammarKind::MapRes),
            BertErrorKind::ParseInt(ParseIntegerDelegate(IntegerFault::PosOverflow)),
            BertErrorKind::Context(ContextLabel::Integer),
        ]
    );
    assert_eq!(trail.frame(1).input(), b"i256e");
    let trail = integer::<u32>(b"i-1e").unwrap_err();
    assert_eq!(
        trail.frame(1).source(),
        BertErrorKind::ParseInt(ParseIntegerDelegate(IntegerFault::InvalidDigit))
    );
    let trail = integer::<i32>(b"i-2147483649e").unwrap_err();
    assert_eq!(
        trail.frame(1).source(),
        BertErrorKind::ParseInt(ParseIntegerDelegate(IntegerFault::NegOverflow))
    );
    let trail = integer::<i64>(b"i340282366920938463463374607431768211456e").unwrap_err();
    assert_eq!(
        trail.frame(1).source(),
        BertErrorKind::ParseInt(ParseIntegerDelegate(IntegerFault::PosOverflow))
    );
    let trail = integer::<BigUint>(b"i-5e").unwrap_err();
    assert_eq!(
        trail.frame(1).source(),
        BertErrorKind::ParseInt(ParseIntegerDelegate(IntegerFault::InvalidDigit))
    );
    assert_eq!(ParseIntegerDelegate(IntegerFault::NegOverflow).fault(), IntegerFault::NegOverflow);
}

#[test]
fn integer_written_and_read_again() {
    for n in [0i64, 1, -1, 9, 10, -10, 1024, i64::MAX, i64::MIN] {
        let mut out = Vec::new();
        encode_integer(&n, &mut out);
        assert_eq!(out, format!("i{n}e").into_bytes());
        let (rest, back) = integer::<i64>(&out).unwrap();
        assert!(rest.is_empty());
        assert_eq!(back, n);
    }
    let big = BigInt::parse_bytes(b"-123456789012345678901234567890123456789012", 10).unwrap();
    let mut out = b"x".to_vec();
    encode_integer(&big, &mut out);
    assert_eq!(out, b"xi-123456789012345678901234567890123456789012e".to_vec());
    let (_, back) = integer::<BigInt>(&out[1..]).unwrap();
    assert_eq!(back, big);
    let unsigned = BigUint::parse_bytes(b"18446744073709551616", 10).unwrap();
    let mut out = Vec::new();
    encode_integer(&unsigned, &mut out);
    assert_eq!(out, b"i18446744073709551616e".to_vec());
}

#[test]
fn decimal_texts() {
    assert!(is_decimal(b"0"));
    assert!(is_decimal(b"-7"));
    assert!(is_decimal(b"1230"));
    assert!(!is_decimal(b""));
    assert!(!is_decimal(b"-"));
    assert!(!is_decimal(b"-0"));
    assert!(!is_decimal(b"007"));
    assert!(!is_decimal(b"+5"));
    assert!(!is_decimal(b"5x"));
    assert_eq!(
        bytes_to_str_to_int::<i32>(b"5x"),
        Err(BertErrorKind::ParseInt(ParseIntegerDelegate(IntegerFault::InvalidDigit)))
    );
    assert_eq!(
        bytes_to_str_to_int::<u8>(b"300"),
        Err(BertErrorKind::ParseInt(ParseIntegerDelegate(IntegerFault::PosOverflow)))
    );
}

#[test]
fn bytes_examples() {
    let (rest, body) = bytes(b"4:spam").unwrap();
    assert_eq!(body, b"spam");
    assert_eq!(rest, b"");
    let (rest, body) = bytes(b"0:").unwrap();
    assert_eq!(body, b"");
    assert_eq!(rest, b"");
    let dood = [b'4', b':', 0xCA, 0xFE, 0xD0, 0x0D];
    let (rest, body) = bytes(&dood).unwrap();
    assert_eq!(body, &dood[2..]);
    assert!(rest.is_empty());
}

#[test]
fn bytes_truncated_names_both_lengths() {
    let trail = bytes(b"5:abcd").unwrap_err();
    assert_eq!(
        kinds(&trail),
        vec![
            BertErrorKind::Truncated { requested: 5, available: 4 },
            BertErrorKind::Context(ContextLabel::Bytes),
        ]
    );
    assert_eq!(trail.frame(0).input(), b"abcd");
    assert_eq!(trail.frame(1).input(), b"5:abcd");
}

#[test]
fn bytes_trails_of_a_bad_prefix() {
    let trail = bytes(b"spam").unwrap_err();
    assert_eq!(
        kinds(&trail),
        vec![
            BertErrorKind::Grammar(GrammarKind::Digit),
            BertErrorKind::Context(ContextLabel::BytesLength),
            BertErrorKind::Context(ContextLabel::Bytes),
        ]
    );
    let trail = bytes(b"04:spam").unwrap_err();
    assert_eq!(
        kinds(&trail),
        vec![
            BertErrorKind::Grammar(GrammarKind::Verify),
            BertErrorKind::Context(ContextLabel::BytesLength),
            BertErrorKind::Context(ContextLabel::Bytes),
        ]
    );
    let trail = bytes(b"4;spam").unwrap_err();
    assert_eq!(
        kinds(&trail),
        vec![
            BertErrorKind::ErrantChar(b':'),
            BertErrorKind::Context(ContextLabel::BytesDelimiter),
            BertErrorKind::Context(ContextLabel::Bytes),
        ]
    );
    assert_eq!(trail.frame(0).input(), b";spam");
    let trail = bytes(b"99999999999999999999999999:x").unwrap_err();
    assert_eq!(
        kinds(&trail),
        vec![
            BertErrorKind::Grammar(GrammarKind::MapRes),
            BertErrorKind::ParseInt(ParseIntegerDelegate(IntegerFault::PosOverflow)),
            BertErrorKind::Context(ContextLabel::Bytes),
        ]
    );
}

#[test]
fn bytes_str_refuses_what_is_not_utf8() {
    let storm = "18:Il pleut à mourir";
    let (remaining, storm_parsed) = bytes_str(storm.as_bytes()).unwrap();
    assert_eq!(&storm[3..], storm_parsed);
    assert_eq!(remaining.len(), 0);

    let not_utf8 = [0xfc, 0x80, 0x80, 0x80, 0x80, 0xaf];
    let nope: Vec<u8> = "6:".bytes().chain(not_utf8.into_iter()).collect();
    let trail = bytes_str(&nope).unwrap_err();
    assert_eq!(kinds(&trail), vec![BertErrorKind::Unicode { valid_up_to: 0 }]);
    assert_eq!(trail.frame(0).input(), &not_utf8[..]);

    let trail = bytes_str(b"3:ab\xff").unwrap_err();
    assert_eq!(kinds(&trail), vec![BertErrorKind::Unicode { valid_up_to: 2 }]);
}

#[test]
fn bytes_written_and_read_again() {
    let mut out = Vec::new();
    encode_bytes(b"spam", &mut out);
    assert_eq!(out, b"4:spam".to_vec());
    encode_bytes(b"", &mut out);
    assert_eq!(out, b"4:spam0:".to_vec());
    let (rest, body) = bytes(&out).unwrap();
    assert_eq!(body, b"spam");
    assert_eq!(bytes(rest).unwrap().1, b"");
    let long = vec![7u8; 1234];
    let mut out = Vec::new();
    encode_bytes(&long, &mut out);
    assert_eq!(&out[..5], b"1234:");
    assert_eq!(bytes(&out).unwrap().1, &long[..]);
}

#[test]
fn trail_built_by_hand() {
    let inner = BertErrorTrace::from_error_kind(b"xyz", GrammarKind::Digit);
    let inner = BertErrorTrace::append(b"xyz", GrammarKind::Alt, inner);
    let trail = BertErrorTrace::add_context(b"ixyz", ContextLabel::Integer, inner);
    assert_eq!(trail.len(), 3);
    assert_eq!(trail.frame(2).input(), b"ixyz");
    let pair = BertErrorTrace::from_external_error(
        b"i1e",
        GrammarKind::MapRes,
        BertErrorKind::ParseInt(ParseIntegerDelegate(IntegerFault::PosOverflow)),
    );
    assert_eq!(pair.len(), 2);
    assert_eq!(BertErrorTrace::from_char(b"a", b':').frame(0).source(), BertErrorKind::ErrantChar(b':'));
    assert_eq!(label(ContextLabel::BytesDelimiter), "[Expected] {bytes} Delimiter `:`");
    assert_eq!(label(ContextLabel::Integer), "[Parse] {integer} Arbitrary precision integer");
}
