use byte_num::error::ParseIntErr;
use byte_num::from_ascii::FromAscii;
use byte_num::into_ascii::IntoAscii;

#[test]
fn to_u8() {
    assert_eq!(u8::atoi(b"123"), Ok(123));
    assert_eq!(u8::atoi(b"256"), Ok(0));

    // Wraps around
    assert_eq!(u8::atoi(b"257"), Ok(1));

    // Error: InvalidDigit
    assert_eq!(u8::atoi(b"!23"), Err(ParseIntErr::with_byte(b'!')));

    // Error: Overflow
    assert_eq!(u8::atoi(b"1000"), Err(ParseIntErr::Overflow));
}

#[test]
fn overflow_isize() {
    assert_eq!(isize::atoi(b"-9223372036854775809"), Ok(9223372036854775807));
    assert_eq!(isize::atoi(b"9223372036854775809"), Ok(-9223372036854775807));
}

#[test]
fn checked_parse_reports_first_bad_byte() {
    assert_eq!(u32::atoi(b"12e3"), Err(ParseIntErr::with_byte(b'e')));
    assert_eq!(u32::atoi(b"12e?"), Err(ParseIntErr::with_byte(b'e')));
    assert_eq!(u64::atoi(b"1234567x9"), Err(ParseIntErr::with_byte(b'x')));
    assert_eq!(i16::atoi(b"-1-"), Err(ParseIntErr::with_byte(b'-')));
    assert_eq!(u16::atoi(b"-1"), Err(ParseIntErr::with_byte(b'-')));
    assert_eq!(ParseIntErr::with_byte(b'!'), ParseIntErr::InvalidDigit([b'!']));
    assert_ne!(ParseIntErr::with_byte(b'!'), ParseIntErr::with_byte(b'?'));
    assert_ne!(ParseIntErr::with_byte(b'!'), ParseIntErr::Overflow);
}

#[test]
fn checked_parse_overflow_is_by_length() {
    assert_eq!(u16::atoi(b"000001"), Err(ParseIntErr::Overflow));
    assert_eq!(u32::atoi(b"12345678901"), Err(ParseIntErr::Overflow));
    assert_eq!(u64::atoi(b"123456789012345678901"), Err(ParseIntErr::Overflow));
    assert_eq!(i8::atoi(b"-1000"), Err(ParseIntErr::Overflow));
    // the length check comes before the digit check
    assert_eq!(u8::atoi(b"abcd"), Err(ParseIntErr::Overflow));
    assert_eq!(i8::atoi(b"-100"), Ok(-100));
}

#[test]
fn checked_parse_empty_is_zero() {
    assert_eq!(u8::atoi(b""), Ok(0));
    assert_eq!(i64::atoi(b""), Ok(0));
    assert_eq!(i64::atoi(b"-"), Ok(0));
}

#[test]
fn signed_extremes_round_trip() {
    let min = b"-9223372036854775808";
    let n = i64::atoi(min);
    assert_eq!(n, Ok(i64::MIN));
    assert_eq!(n.unwrap().itoa(), min.to_vec());
    assert_eq!(i64::atoi(b"9223372036854775807"), Ok(i64::MAX));
    assert_eq!(i64::MAX.itoa(), b"9223372036854775807".to_vec());
    assert_eq!(i8::MIN.itoa(), b"-128".to_vec());
    assert_eq!(i8::atoi(b"-128"), Ok(i8::MIN));
}

#[test]
fn parse_of_format_is_identity() {
    for n in [0u8, 1, 9, 10, 99, 100, 255] {
        assert_eq!(u8::atoi(&n.itoa()), Ok(n));
    }
    for n in [0u16, 7, 9999, 10000, 65535] {
        assert_eq!(u16::atoi(&n.itoa()), Ok(n));
    }
    for n in [0u32, 10000, 123456789, u32::MAX] {
        assert_eq!(u32::atoi(&n.itoa()), Ok(n));
    }
    for n in [0u64, 10000, 100000000, u64::MAX] {
        assert_eq!(u64::atoi(&n.itoa()), Ok(n));
    }
    for n in [0usize, 42, usize::MAX] {
        assert_eq!(usize::atoi(&n.itoa()), Ok(n));
    }
    for n in [i8::MIN, -1, 0, 1, i8::MAX] {
        assert_eq!(i8::atoi(&n.itoa()), Ok(n));
    }
    for n in [i16::MIN, -10000, 0, i16::MAX] {
        assert_eq!(i16::atoi(&n.itoa()), Ok(n));
    }
    for n in [i32::MIN, -123456, 0, i32::MAX] {
        assert_eq!(i32::atoi(&n.itoa()), Ok(n));
    }
    for n in [i64::MIN, -1, 0, i64::MAX] {
        assert_eq!(i64::atoi(&n.itoa()), Ok(n));
    }
    for n in [isize::MIN, -5, 0, isize::MAX] {
        assert_eq!(isize::atoi(&n.itoa()), Ok(n));
    }
}

#[test]
fn format_of_parse_strips_leading_zeros() {
    assert_eq!(u16::atoi(b"00123").unwrap().itoa(), b"123".to_vec());
    assert_eq!(u8::atoi(b"007").unwrap().itoa(), b"7".to_vec());
    assert_eq!(u32::atoi(b"0000").unwrap().itoa(), b"0".to_vec());
    assert_eq!(i32::atoi(b"0042").unwrap().itoa(), b"42".to_vec());
    assert_eq!(u64::atoi(b"18446744073709551615").unwrap().itoa(), b"18446744073709551615".to_vec());
}
