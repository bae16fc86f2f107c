//! The wrapping parse: no length check against the table, so the caller keeps
//! the digits within the table's length; values that do not fit wrap around.
pub use crate::into_ascii::IntoAscii;

use crate::decimal::{digits_part, signed_value};
use crate::sign::{first_bad, fits_table, signed_engine, unsigned_engine, well_formed};
use crate::width::FixedWidth;
use vstd::prelude::*;

verus! {

/// A byte that is not a decimal digit, as a character.
#[derive(Debug, Ord, PartialOrd, Eq, PartialEq, Structural, Default, Hash, Copy, Clone)]
pub struct InvalidDigit(pub char);

/// What the wrapping parse of `s` yields for `T`: the value `s` spells wrapped
/// into `T`, or a bare error when a byte is no digit.
pub open spec fn wrapping_parse<T: FixedWidth>(s: Seq<u8>) -> Result<T, ()> {
    if well_formed::<T>(s) {
        Ok(T::wrap(signed_value(s, T::is_signed())))
    } else {
        Err(())
    }
}

/// The wrapping parse of `s` reporting the first byte that is no digit.
pub open spec fn wrapping_parse_reporting<T: FixedWidth>(s: Seq<u8>) -> Result<T, InvalidDigit> {
    if well_formed::<T>(s) {
        Ok(T::wrap(signed_value(s, T::is_signed())))
    } else {
        Err(InvalidDigit(digits_part(s, T::is_signed())[first_bad::<T>(s)] as char))
    }
}

/// The wrapping parse of `s` that takes every byte as decoded: a byte that is
/// no digit counts as `b - b'0'`, wrapping.
pub open spec fn unchecked_parse<T: FixedWidth>(s: Seq<u8>) -> T {
    T::wrap(signed_value(s, T::is_signed()))
}

/// Conversion from decimal ASCII bytes to integers, wrapping around.
///
/// `u8::atoi(b"257")` is `Ok(1)`. The input's digits must not outnumber the
/// type's table of powers of ten.
pub trait FromAscii: FixedWidth {
    /// Parses `s`; the same as `bytes_to_int`.
    fn atoi(s: &[u8]) -> (r: Result<Self, ()>)
        requires
            fits_table::<Self>(s@),
        ensures
            r == wrapping_parse::<Self>(s@),
    {
        Self::bytes_to_int(s)
    }

    /// Parses `s`; a byte that is no digit fails the parse.
    fn bytes_to_int(s: &[u8]) -> (r: Result<Self, ()>)
        requires
            fits_table::<Self>(s@),
        ensures
            r == wrapping_parse::<Self>(s@),
    ;

    /// Parses `s` without looking at whether its bytes are digits.
    fn atoi_unchecked(s: &[u8]) -> (r: Self)
        requires
            fits_table::<Self>(s@),
        ensures
            r == unchecked_parse::<Self>(s@),
    {
        Self::bytes_to_int_unchecked(s)
    }

    /// Parses `s` without looking at whether its bytes are digits.
    fn bytes_to_int_unchecked(s: &[u8]) -> (r: Self)
        requires
            fits_table::<Self>(s@),
        ensures
            r == unchecked_parse::<Self>(s@),
    ;

    /// Parses `s`; the first byte that is no digit is reported.
    fn atoi2(s: &[u8]) -> (r: Result<Self, InvalidDigit>)
        requires
            fits_table::<Self>(s@),
        ensures
            r == wrapping_parse_reporting::<Self>(s@),
    ;
}

/// The wrapping parse of a `u64`, four digits at a time.
pub fn atoi_structured(bytes: &[u8]) -> (r: Result<u64, ()>)
    requires
        bytes@.len() <= 20,
    ensures
        r == wrapping_parse::<u64>(bytes@),
{
    <u64 as FromAscii>::bytes_to_int(bytes)
}

impl FromAscii for u8 {
    fn bytes_to_int(s: &[u8]) -> (r: Result<u8, ()>) {
        match unsigned_engine::<u8>(s, true) {
            Ok(v) => Ok(v),
            Err(_) => Err(()),
        }
    }

    fn bytes_to_int_unchecked(s: &[u8]) -> (r: u8) {
        unsigned_engine::<u8>(s, false).unwrap()
    }

    fn atoi2(s: &[u8]) -> (r: Result<u8, InvalidDigit>) {
        match unsigned_engine::<u8>(s, true) {
            Ok(v) => Ok(v),
            Err(b) => Err(InvalidDigit(b as char)),
        }
    }
}

impl FromAscii for u16 {
    fn bytes_to_int(s: &[u8]) -> (r: Result<u16, ()>) {
        match unsigned_engine::<u16>(s, true) {
            Ok(v) => Ok(v),
            Err(_) => Err(()),
        }
    }

    fn bytes_to_int_unchecked(s: &[u8]) -> (r: u16) {
        unsigned_engine::<u16>(s, false).unwrap()
    }

    fn atoi2(s: &[u8]) -> (r: Result<u16, InvalidDigit>) {
        match unsigned_engine::<u16>(s, true) {
            Ok(v) => Ok(v),
            Err(b) => Err(InvalidDigit(b as char)),
        }
    }
}

impl FromAscii for u32 {
    fn bytes_to_int(s: &[u8]) -> (r: Result<u32, ()>) {
        match unsigned_engine::<u32>(s, true) {
            Ok(v) => Ok(v),
            Err(_) => Err(()),
        }
    }

    fn bytes_to_int_unchecked(s: &[u8]) -> (r: u32) {
        unsigned_engine::<u32>(s, false).unwrap()
    }

    fn atoi2(s: &[u8]) -> (r: Result<u32, InvalidDigit>) {
        match unsigned_engine::<u32>(s, true) {
            Ok(v) => Ok(v),
            Err(b) => Err(InvalidDigit(b as char)),
        }
    }
}

impl FromAscii for u64 {
    fn bytes_to_int(s: &[u8]) -> (r: Result<u64, ()>) {
        match unsigned_engine::<u64>(s, true) {
            Ok(v) => Ok(v),
            Err(_) => Err(()),
        }
    }

    fn bytes_to_int_unchecked(s: &[u8]) -> (r: u64) {
        unsigned_engine::<u64>(s, false).unwrap()
    }

    fn atoi2(s: &[u8]) -> (r: Result<u64, InvalidDigit>) {
        match unsigned_engine::<u64>(s, true) {
            Ok(v) => Ok(v),
            Err(b) => Err(InvalidDigit(b as char)),
        }
    }
}

impl FromAscii for usize {
    fn bytes_to_int(s: &[u8]) -> (r: Result<usize, ()>) {
        match unsigned_engine::<usize>(s, true) {
            Ok(v) => Ok(v),
            Err(_) => Err(()),
        }
    }

    fn bytes_to_int_unchecked(s: &[u8]) -> (r: usize) {
        unsigned_engine::<usize>(s, false).unwrap()
    }

    fn atoi2(s: &[u8]) -> (r: Result<usize, InvalidDigit>) {
        match unsigned_engine::<usize>(s, true) {
            Ok(v) => Ok(v),
            Err(b) => Err(InvalidDigit(b as char)),
        }
    }
}

impl FromAscii for i8 {
    fn bytes_to_int(s: &[u8]) -> (r: Result<i8, ()>) {
        match signed_engine::<i8>(s, true) {
            Ok(v) => Ok(v),
            Err(_) => Err(()),
        }
    }

    fn bytes_to_int_unchecked(s: &[u8]) -> (r: i8) {
        signed_engine::<i8>(s, false).unwrap()
    }

    fn atoi2(s: &[u8]) -> (r: Result<i8, InvalidDigit>) {
        match signed_engine::<i8>(s, true) {
            Ok(v) => Ok(v),
            Err(b) => Err(InvalidDigit(b as char)),
        }
    }
}

impl FromAscii for i16 {
    fn bytes_to_int(s: &[u8]) -> (r: Result<i16, ()>) {
        match signed_engine::<i16>(s, true) {
            Ok(v) => Ok(v),
            Err(_) => Err(()),
        }
    }

    fn bytes_to_int_unchecked(s: &[u8]) -> (r: i16) {
        signed_engine::<i16>(s, false).unwrap()
    }

    fn atoi2(s: &[u8]) -> (r: Result<i16, InvalidDigit>) {
        match signed_engine::<i16>(s, true) {
            Ok(v) => Ok(v),
            Err(b) => Err(InvalidDigit(b as char)),
        }
    }
}

impl FromAscii for i32 {
    fn bytes_to_int(s: &[u8]) -> (r: Result<i32, ()>) {
        match signed_engine::<i32>(s, true) {
            Ok(v) => Ok(v),
            Err(_) => Err(()),
        }
    }

    fn bytes_to_int_unchecked(s: &[u8]) -> (r: i32) {
        signed_engine::<i32>(s, false).unwrap()
    }

    fn atoi2(s: &[u8]) -> (r: Result<i32, InvalidDigit>) {
        match signed_engine::<i32>(s, true) {
            Ok(v) => Ok(v),
            Err(b) => Err(InvalidDigit(b as char)),
        }
    }
}

impl FromAscii for i64 {
    fn bytes_to_int(s: &[u8]) -> (r: Result<i64, ()>) {
        match signed_engine::<i64>(s, true) {
            Ok(v) => Ok(v),
            Err(_) => Err(()),
        }
    }

    fn bytes_to_int_unchecked(s: &[u8]) -> (r: i64) {
        signed_engine::<i64>(s, false).unwrap()
    }

    fn atoi2(s: &[u8]) -> (r: Result<i64, InvalidDigit>) {
        match signed_engine::<i64>(s, true) {
            Ok(v) => Ok(v),
            Err(b) => Err(InvalidDigit(b as char)),
        }
    }
}

impl FromAscii for isize {
    fn bytes_to_int(s: &[u8]) -> (r: Result<isize, ()>) {
        match signed_engine::<isize>(s, true) {
            Ok(v) => Ok(v),
            Err(_) => Err(()),
        }
    }

    fn bytes_to_int_unchecked(s: &[u8]) -> (r: isize) {
        signed_engine::<isize>(s, false).unwrap()
    }

    fn atoi2(s: &[u8]) -> (r: Result<isize, InvalidDigit>) {
        match signed_engine::<isize>(s, true) {
            Ok(v) => Ok(v),
            Err(b) => Err(InvalidDigit(b as char)),
        }
    }
}

} // verus!
