use byte_num::convert::{FromAscii, InvalidDigit};

#[test]
fn test_atoi() {
    let n = u64::atoi2(b"100");

    assert_eq!(n, Ok(100));

    let errs = u64::atoi2(b"10000o1");

    assert_eq!(errs, Err(InvalidDigit('o')));

    let fault = u64::atoi2(b"!2345");

    assert_eq!(fault, Err(InvalidDigit('!')));
}

#[test]
fn atoi2_reports_byte_after_minus() {
    assert_eq!(i16::atoi2(b"-12x"), Err(InvalidDigit('x')));
    assert_eq!(i16::atoi2(b"-123"), Ok(-123));
    assert_eq!(u8::atoi2(b"257"), Ok(1));
}
