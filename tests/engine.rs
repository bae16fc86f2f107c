use byte_num::engine::{decode, parse_byte};

#[test]
fn parse_byte_scales_a_digit() {
    assert_eq!(parse_byte::<u32>(b'7', 100), Ok(700));
    assert_eq!(parse_byte::<u64>(b'0', 10_000), Ok(0));
    // 9 * 100 wraps in a u8
    assert_eq!(parse_byte::<u8>(b'9', 100), Ok((900 % 256) as u8));
}

#[test]
fn parse_byte_rejects_non_digits() {
    assert_eq!(parse_byte::<u16>(b'a', 1), Err(b'a'));
    assert_eq!(parse_byte::<u16>(b'/', 1), Err(b'/'));
    assert_eq!(parse_byte::<u16>(b':', 1), Err(b':'));
}

#[test]
fn decode_wraps_below_zero() {
    assert_eq!(decode(b'0'), 0);
    assert_eq!(decode(b'9'), 9);
    assert_eq!(decode(b'/'), 255);
    assert_eq!(decode(b':'), 10);
}
