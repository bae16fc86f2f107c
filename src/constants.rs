//! Constants shared by the parse and format engines.
use vstd::prelude::*;

verus! {

/// The byte `b'0'`; subtracting it from an ASCII digit gives the digit's value.
pub const ASCII_TO_INT_FACTOR: u8 = 48;

/// The byte `b'-'` that starts a negative number.
pub const MINUS: u8 = 45;

pub const POW10_U8_LEN: usize = 3;

pub const POW10_U16_LEN: usize = 5;

pub const POW10_U32_LEN: usize = 10;

pub const POW10_U64_LEN: usize = 20;

/// All powers of ten that fit in a `u8`, largest first.
pub const POW10_U8: [u8; 3] = [100, 10, 1];

/// All powers of ten that fit in a `u16`, largest first.
pub const POW10_U16: [u16; 5] = [10_000, 1_000, 100, 10, 1];

/// All powers of ten that fit in a `u32`, largest first.
pub const POW10_U32: [u32; 10] = [
    1_000_000_000,
    100_000_000,
    10_000_000,
    1_000_000,
    100_000,
    10_000,
    1_000,
    100,
    10,
    1,
];

/// All powers of ten that fit in a `u64`, largest first.
pub const POW10_U64: [u64; 20] = [
    10_000_000_000_000_000_000,
    1_000_000_000_000_000_000,
    100_000_000_000_000_000,
    10_000_000_000_000_000,
    1_000_000_000_000_000,
    100_000_000_000_000,
    10_000_000_000_000,
    1_000_000_000_000,
    100_000_000_000,
    10_000_000_000,
    1_000_000_000,
    100_000_000,
    10_000_000,
    1_000_000,
    100_000,
    10_000,
    1_000,
    100,
    10,
    1,
];

} // verus!
