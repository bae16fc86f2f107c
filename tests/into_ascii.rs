use byte_num::into_ascii::IntoAscii;

#[test]
fn itoa_usize() {
    assert_eq!(
        123_456_789usize.itoa(),
        vec![b'1', b'2', b'3', b'4', b'5', b'6', b'7', b'8', b'9']
    );
}

#[test]
fn itoa_isize() {
    assert_eq!(
        (-123_456_789isize).itoa(),
        vec![b'-', b'1', b'2', b'3', b'4', b'5', b'6', b'7', b'8', b'9']
    );
}

#[test]
fn itoa_0usize() {
    assert_eq!(0usize.itoa(), vec![b'0']);
}

#[test]
fn itoa_0isize() {
    assert_eq!((-0isize).itoa(), vec![b'0']);
}

#[test]
fn digits10_usize() {
    assert_eq!(123456789usize.digits10(), 9);
}

#[test]
fn digits10_isize() {
    assert_eq!((-123456789isize).digits10(), 9);
}

#[test]
fn digits10_0usize() {
    assert_eq!(0usize.digits10(), 1);
}

#[test]
fn digits10_0isize() {
    assert_eq!((-0isize).digits10(), 1);
}

#[test]
fn digits10_counts_canonical_digits() {
    assert_eq!(0u8.digits10(), 1);
    assert_eq!(9u8.digits10(), 1);
    assert_eq!(10u8.digits10(), 2);
    assert_eq!(255u8.digits10(), 3);
    assert_eq!(9999u16.digits10(), 4);
    assert_eq!(10000u16.digits10(), 5);
    assert_eq!(100000000u32.digits10(), 9);
    assert_eq!(u64::MAX.digits10(), 20);
    assert_eq!(i64::MIN.digits10(), 19);
    assert_eq!(i8::MIN.digits10(), 3);
    for n in [0u64, 1, 9, 10, 99, 100, 12345, 99999999, 100000000, u64::MAX] {
        assert_eq!(n.digits10(), format!("{}", n).len());
    }
}

#[test]
fn itoa_matches_display() {
    for n in [0u64, 5, 10, 9999, 10000, 10001, 123456789012, u64::MAX] {
        assert_eq!(n.itoa(), format!("{}", n).into_bytes());
    }
    for n in [i32::MIN, -10000, -9999, -1, 0, 1, 10000, i32::MAX] {
        assert_eq!(n.itoa(), format!("{}", n).into_bytes());
    }
    assert_eq!(i64::MIN.itoa(), format!("{}", i64::MIN).into_bytes());
    assert_eq!(i16::MIN.itoa(), b"-32768".to_vec());
    assert_eq!(u8::MAX.itoa(), b"255".to_vec());
}

#[test]
fn int_to_bytes_fills_exact_buffer() {
    let mut v = vec![0u8; 5];
    12345u32.int_to_bytes(&mut v);
    assert_eq!(v, [b'1', b'2', b'3', b'4', b'5']);
    54321u64.int_to_bytes(&mut v);
    assert_eq!(v, [b'5', b'4', b'3', b'2', b'1']);
}

#[test]
fn int_to_bytes_leaves_head_untouched() {
    let mut v = vec![b'x'; 8];
    123u8.int_to_bytes(&mut v);
    assert_eq!(v, b"xxxxx123".to_vec());

    let mut v = vec![b'x'; 8];
    10000u32.int_to_bytes(&mut v);
    assert_eq!(v, b"xxx10000".to_vec());

    let mut v = vec![b'x'; 8];
    0u16.int_to_bytes(&mut v);
    assert_eq!(v, b"xxxxxxx0".to_vec());

    let mut v = vec![b'x'; 8];
    (-42i32).int_to_bytes(&mut v);
    assert_eq!(v, b"xxxxx-42".to_vec());
}

#[test]
fn int_to_bytes_into_slices() {
    let mut v = vec![0u8; 5];
    12u8.int_to_bytes(&mut v[..2]);
    648u32.int_to_bytes(&mut v[2..]);
    assert_eq!(v, [b'1', b'2', b'6', b'4', b'8']);
}
