use byte_num::convert::FromAscii;
use byte_num::convert_simd::FromAsciiSIMD;

#[test]
fn parse_simd() {
    assert_eq!(u32::atoi_simd(b"123"), Ok(123));

    assert_eq!(u32::atoi_simd(b"123e"), Err(()));
}

fn digits_of(seed: &mut u64, len: usize) -> Vec<u8> {
    let mut out = Vec::new();
    for _ in 0..len {
        *seed = seed.wrapping_mul(6364136223846793005).wrapping_add(1442695040888963407);
        out.push(b'0' + ((*seed >> 33) % 10) as u8);
    }
    out
}

#[test]
fn simd_agrees_with_scalar_on_random_digits() {
    let mut seed = 7u64;
    for len in [0usize, 1, 3, 4, 5, 8, 10] {
        for _ in 0..50 {
            let s = digits_of(&mut seed, len);
            assert_eq!(u32::atoi_simd(&s), <u32 as FromAscii>::atoi(&s));
        }
    }
    for len in [0usize, 1, 3, 4, 5, 8, 20] {
        for _ in 0..50 {
            let s = digits_of(&mut seed, len);
            assert_eq!(u64::atoi_simd(&s), <u64 as FromAscii>::atoi(&s));
        }
    }
}

#[test]
fn simd_agrees_with_scalar_on_bad_bytes() {
    let mut seed = 11u64;
    for len in [1usize, 3, 4, 5, 8, 20] {
        for pos in 0..len {
            for bad in [b'/', b':', b'a', 0u8, 255u8] {
                let mut s = digits_of(&mut seed, len);
                s[pos] = bad;
                assert_eq!(u64::atoi_simd(&s), Err(()));
                assert_eq!(u64::atoi_simd(&s), <u64 as FromAscii>::atoi(&s));
                if len <= 10 {
                    assert_eq!(u32::atoi_simd(&s), <u32 as FromAscii>::atoi(&s));
                }
            }
        }
    }
}

#[test]
fn simd_edge_values() {
    assert_eq!(u32::atoi_simd(b""), Ok(0));
    assert_eq!(u32::atoi_simd(b"4294967295"), Ok(u32::MAX));
    assert_eq!(u32::atoi_simd(b"4294967296"), Ok(0));
    assert_eq!(u64::atoi_simd(b"18446744073709551615"), Ok(u64::MAX));
    assert_eq!(u64::atoi_simd(b"99999999999999999999"), Ok(7766279631452241919));
    assert_eq!(u64::bytes_to_int_simd(b"00000000"), Ok(0));
    assert_eq!(u64::bytes_to_int_simd(b"12345678"), Ok(12345678));
}
