use v5_serial::decode::{Decode, DecodeError};
use v5_serial::encode::{Encode, EncodeError};
use v5_serial::packets::{
    TerminatedFixedLengthString, UnterminatedFixedLengthString, VarLengthString,
};

#[test]
fn var_length_string_ends_with_a_zero_byte() {
    let string = VarLengthString::<16>::new("slot_1".to_string()).unwrap();
    assert_eq!(string.encode(), Ok(b"slot_1\0".to_vec()));
}

#[test]
fn var_length_string_of_nothing_is_one_zero_byte() {
    let string = VarLengthString::<0>::new(String::new()).unwrap();
    assert_eq!(string.encode(), Ok(vec![0]));
}

#[test]
fn var_length_string_of_exactly_max_len_is_accepted() {
    let string = VarLengthString::<8>::new("12345678".to_string());
    assert_eq!(string.map(VarLengthString::into_inner), Ok("12345678".to_string()));
}

#[test]
fn var_length_string_of_max_len_plus_one_is_refused() {
    assert_eq!(
        VarLengthString::<8>::new("123456789".to_string()),
        Err(EncodeError::StringTooLong)
    );
}

#[test]
fn var_length_string_counts_bytes_not_characters() {
    // Two characters, four bytes.
    assert!(VarLengthString::<4>::new("\u{e9}\u{e8}".to_string()).is_ok());
    assert_eq!(
        VarLengthString::<3>::new("\u{e9}\u{e8}".to_string()),
        Err(EncodeError::StringTooLong)
    );
}

#[test]
fn var_length_string_clone_is_equal() {
    let string = VarLengthString::<8>::new("abc".to_string()).unwrap();
    assert_eq!(string.clone(), string);
}

#[test]
fn var_length_string_round_trips() {
    let string = VarLengthString::<32>::new("gr\u{fc}n \u{1F916}".to_string()).unwrap();
    let bytes = string.encode().unwrap();
    assert_eq!(VarLengthString::<32>::decode(&bytes), Ok((string, 11)));
}

#[test]
fn var_length_string_decode_stops_at_the_first_zero() {
    let decoded = VarLengthString::<8>::decode(b"ab\0cd\0").unwrap();
    assert_eq!(decoded.0.into_inner(), "ab");
    assert_eq!(decoded.1, 3);
}

#[test]
fn var_length_string_with_nul_inside_does_not_round_trip() {
    let string = VarLengthString::<8>::new("a\0b".to_string()).unwrap();
    let bytes = string.encode().unwrap();
    assert_eq!(bytes, b"a\0b\0".to_vec());
    let decoded = VarLengthString::<8>::decode(&bytes).unwrap();
    assert_eq!(decoded.0.into_inner(), "a");
    assert_eq!(decoded.1, 2);
}

#[test]
fn var_length_string_without_zero_is_unterminated() {
    assert_eq!(VarLengthString::<8>::decode(b"abc"), Err(DecodeError::UnterminatedString));
    assert_eq!(VarLengthString::<8>::decode(b""), Err(DecodeError::UnterminatedString));
}

#[test]
fn var_length_string_decode_refuses_more_than_max_len() {
    assert_eq!(VarLengthString::<2>::decode(b"abc\0"), Err(DecodeError::StringTooLong));
    assert!(VarLengthString::<3>::decode(b"abc\0").is_ok());
}

#[test]
fn var_length_string_decode_refuses_bytes_that_are_not_utf8() {
    assert_eq!(VarLengthString::<8>::decode(&[0xFF, 0xFE, 0x00]), Err(DecodeError::InvalidString));
    // An overlong form of '/', and a lone surrogate.
    assert_eq!(VarLengthString::<8>::decode(&[0xC0, 0xAF, 0x00]), Err(DecodeError::InvalidString));
    assert_eq!(
        VarLengthString::<8>::decode(&[0xED, 0xA0, 0x80, 0x00]),
        Err(DecodeError::InvalidString)
    );
}

#[test]
fn var_length_string_decode_keeps_the_bytes_it_was_given() {
    let decoded = VarLengthString::<8>::decode(&[0xE2, 0x82, 0xAC, 0x00]).unwrap();
    assert_eq!(decoded.0.into_inner(), "\u{20AC}");
    assert_eq!(decoded.1, 4);
}

#[test]
fn terminated_string_shorter_than_len_is_zero_padded() {
    let string = TerminatedFixedLengthString::<8>::new("abc".to_string()).unwrap();
    assert_eq!(string.as_bytes(), b"abc\0\0\0\0\0");
    assert_eq!(string.encode(), Ok(b"abc\0\0\0\0\0\0".to_vec()));
}

#[test]
fn terminated_string_takes_len_plus_one_bytes() {
    let short = TerminatedFixedLengthString::<8>::new("a".to_string()).unwrap();
    let full = TerminatedFixedLengthString::<8>::new("abcdefgh".to_string()).unwrap();
    let empty = TerminatedFixedLengthString::<8>::new(String::new()).unwrap();
    assert_eq!(short.encode().unwrap().len(), 9);
    assert_eq!(full.encode().unwrap().len(), 9);
    assert_eq!(empty.encode().unwrap().len(), 9);
    assert_eq!(full.encode().unwrap().last(), Some(&0));
}

#[test]
fn terminated_string_of_exactly_len_is_accepted() {
    let string = TerminatedFixedLengthString::<4>::new("abcd".to_string()).unwrap();
    assert_eq!(string.encode(), Ok(b"abcd\0".to_vec()));
}

#[test]
fn terminated_string_of_len_plus_one_is_refused() {
    assert_eq!(
        TerminatedFixedLengthString::<4>::new("abcde".to_string()),
        Err(EncodeError::StringTooLong)
    );
}

#[test]
fn terminated_string_of_len_zero() {
    let string = TerminatedFixedLengthString::<0>::new(String::new()).unwrap();
    assert_eq!(string.encode(), Ok(vec![0]));
    assert_eq!(
        TerminatedFixedLengthString::<0>::new("a".to_string()),
        Err(EncodeError::StringTooLong)
    );
}

#[test]
fn terminated_string_round_trips() {
    let string = TerminatedFixedLengthString::<6>::new("V5".to_string()).unwrap();
    let mut bytes = string.encode().unwrap();
    bytes.extend_from_slice(&[1, 2, 3]);
    assert_eq!(TerminatedFixedLengthString::<6>::decode(&bytes), Ok((string, 7)));
}

#[test]
fn terminated_string_decode_needs_len_plus_one_bytes() {
    assert_eq!(
        TerminatedFixedLengthString::<4>::decode(b"abcd"),
        Err(DecodeError::PacketTooShort)
    );
    assert_eq!(TerminatedFixedLengthString::<4>::decode(b""), Err(DecodeError::PacketTooShort));
}

#[test]
fn terminated_string_decode_needs_the_terminator() {
    assert_eq!(
        TerminatedFixedLengthString::<4>::decode(b"abcde"),
        Err(DecodeError::UnterminatedString)
    );
}

#[test]
fn unterminated_string_shorter_than_len_is_zero_padded() {
    let string = UnterminatedFixedLengthString::<23>::new("program.bin".to_string()).unwrap();
    let mut expected = b"program.bin".to_vec();
    expected.resize(23, 0);
    assert_eq!(string.encode(), Ok(expected));
}

#[test]
fn unterminated_string_takes_exactly_len_bytes() {
    let string = UnterminatedFixedLengthString::<23>::new("x".to_string()).unwrap();
    assert_eq!(string.encode().unwrap().len(), 23);
    let full = UnterminatedFixedLengthString::<23>::new("a".repeat(23)).unwrap();
    assert_eq!(full.encode(), Ok("a".repeat(23).into_bytes()));
}

#[test]
fn unterminated_string_of_exactly_len_is_accepted() {
    let string = UnterminatedFixedLengthString::<5>::new("abcde".to_string()).unwrap();
    assert_eq!(string.as_bytes(), b"abcde");
}

#[test]
fn unterminated_string_of_len_plus_one_is_refused() {
    assert_eq!(
        UnterminatedFixedLengthString::<23>::new("a".repeat(24)),
        Err(EncodeError::StringTooLong)
    );
    assert_eq!(
        UnterminatedFixedLengthString::<5>::new("abcdef".to_string()),
        Err(EncodeError::StringTooLong)
    );
}

#[test]
fn unterminated_string_round_trips() {
    let string = UnterminatedFixedLengthString::<23>::new("slot_3.ini".to_string()).unwrap();
    let mut bytes = string.encode().unwrap();
    bytes.push(0xEE);
    assert_eq!(UnterminatedFixedLengthString::<23>::decode(&bytes), Ok((string, 23)));
}

#[test]
fn unterminated_string_decode_needs_len_bytes() {
    assert_eq!(
        UnterminatedFixedLengthString::<23>::decode(&[0u8; 22]),
        Err(DecodeError::PacketTooShort)
    );
}
