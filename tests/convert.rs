use byte_num::convert::{atoi_structured, FromAscii, IntoAscii};

#[test]
fn bytes_to_int() {
    assert_eq!(i32::atoi(b"-123"), Ok(-123));
    assert_eq!(i32::atoi(b"123"), Ok(123));

    assert_eq!(i32::atoi(b"123e"), Err(()));

    assert_eq!(isize::atoi(b"9223372036854775807"), Ok(isize::max_value()));
    assert_eq!(isize::atoi(b"9223372036854775808"), Ok(isize::min_value()));

    assert_eq!(usize::atoi(b"18446744073709551615"), Ok(usize::max_value()));
    assert_eq!(usize::atoi(b"18446744073709551616"), Ok(usize::min_value()));

    assert_eq!(u64::atoi(b"12345"), Ok(12345));
}

#[test]
fn test_itoa() {
    assert_eq!(9987u32.itoa(), [b'9', b'9', b'8', b'7']);

    assert_eq!(
        isize::max_value().itoa(),
        [
            b'9', b'2', b'2', b'3', b'3', b'7', b'2', b'0', b'3', b'6', b'8', b'5', b'4', b'7',
            b'7', b'5', b'8', b'0', b'7'
        ]
    )
}

#[test]
fn test_digits10() {
    assert_eq!((-99i8).digits10(), 2);
    assert_eq!((-99i16).digits10(), 2);
    assert_eq!((-99i32).digits10(), 2);
    assert_eq!((-99i64).digits10(), 2);
    assert_eq!((-99isize).digits10(), 2);
}

#[test]
fn test_atoi_unchecked() {
    assert_eq!(u64::atoi_unchecked(b"12345"), 12345);
}

#[test]
fn wrapping_parse_wraps_u8() {
    assert_eq!(u8::atoi(b"257"), Ok(1));
    assert_eq!(u8::atoi(b"256"), Ok(0));
    assert_eq!(u8::atoi(b"999"), Ok((999 % 256) as u8));
}

#[test]
fn wrapping_parse_wraps_full_u64_table() {
    // 99999999999999999999 mod 2^64
    assert_eq!(u64::atoi(b"99999999999999999999"), Ok(7766279631452241919));
    assert_eq!(u16::atoi(b"99999"), Ok((99999u32 % 65536) as u16));
}

#[test]
fn wrapping_parse_empty_is_zero() {
    assert_eq!(u32::atoi(b""), Ok(0));
    assert_eq!(i32::atoi(b"-"), Ok(0));
}

#[test]
fn wrapping_parse_signed_reinterprets() {
    assert_eq!(i8::atoi(b"200"), Ok(-56));
    assert_eq!(i8::atoi(b"-128"), Ok(-128));
    assert_eq!(i8::atoi(b"-129"), Ok(127));
    assert_eq!(i16::atoi(b"-32768"), Ok(i16::MIN));
}

#[test]
fn wrapping_parse_rejects_non_digits() {
    assert_eq!(u16::atoi(b"12a"), Err(()));
    assert_eq!(u8::atoi(b"-1"), Err(()));
    assert_eq!(i64::atoi(b"--1"), Err(()));
    assert_eq!(u32::atoi(b"1234/678"), Err(()));
}

#[test]
fn unchecked_parse_takes_bytes_as_decoded() {
    // ':' decodes to 10, so "1:" is 1 * 10 + 10.
    assert_eq!(u8::atoi_unchecked(b"1:"), 20);
    assert_eq!(i32::atoi_unchecked(b"-42"), -42);
    assert_eq!(u16::bytes_to_int_unchecked(b"65535"), 65535);
}

#[test]
fn structured_parse_of_u64() {
    assert_eq!(atoi_structured(b"12345678"), Ok(12345678));
    assert_eq!(atoi_structured(b"18446744073709551615"), Ok(u64::MAX));
    assert_eq!(atoi_structured(b"1234x678"), Err(()));
    assert_eq!(atoi_structured(b""), Ok(0));
}
