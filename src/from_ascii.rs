//! The checked parse: the input's length is held against the width's table of
//! powers of ten, and every byte must be a digit.
use crate::constants::MINUS;
use crate::decimal::{digits_part, first_non_digit, lemma_first_non_digit_all, signed_value};
use crate::error::ParseIntErr;
use crate::sign::{signed_engine, unsigned_engine};
use crate::width::{FixedWidth, Signed, Unsigned};
use vstd::prelude::*;

verus! {

/// What the checked parse of `s` yields for the width `T`: `Overflow` when the
/// digits are more than the table holds, else the first non-digit byte as
/// `InvalidDigit`, else the value that `s` spells, wrapped into `T`.
pub open spec fn checked_parse<T: FixedWidth>(s: Seq<u8>) -> Result<T, ParseIntErr> {
    let d = digits_part(s, T::is_signed());
    if d.len() > T::max_digits() {
        Err(ParseIntErr::Overflow)
    } else if first_non_digit(d) < d.len() {
        Err(ParseIntErr::InvalidDigit([d[first_non_digit(d) as int]]))
    } else {
        Ok(T::wrap(signed_value(s, T::is_signed())))
    }
}

/// Conversion from decimal ASCII bytes to integers, with explicit errors.
///
/// An empty input gives 0. A value that does not fit the type but whose digits
/// fit its table wraps around: `u8::atoi(b"257")` is `Ok(1)`.
pub trait FromAscii: FixedWidth {
    /// Parses `s`; the same as `bytes_to_int`.
    fn atoi(s: &[u8]) -> (r: Result<Self, ParseIntErr>)
        ensures
            r == checked_parse::<Self>(s@),
    {
        Self::bytes_to_int(s)
    }

    /// Parses `s`.
    fn bytes_to_int(s: &[u8]) -> (r: Result<Self, ParseIntErr>)
        ensures
            r == checked_parse::<Self>(s@),
    ;
}

/// The checked parse of an unsigned width.
pub fn parse_unsigned<W: Unsigned>(bytes: &[u8]) -> (r: Result<W, ParseIntErr>)
    ensures
        r == checked_parse::<W>(bytes@),
{
    proof {
        W::lemma_unsigned(0);
        lemma_first_non_digit_all(bytes@);
    }
    if bytes.len() > W::table_len() {
        return Err(ParseIntErr::Overflow);
    }
    match unsigned_engine::<W>(bytes, true) {
        Ok(v) => Ok(v),
        Err(b) => Err(ParseIntErr::with_byte(b)),
    }
}

/// The checked parse of a signed width: the digits after a leading `-` are held
/// against the table of the unsigned width of the same size.
pub fn parse_signed<S: Signed>(bytes: &[u8]) -> (r: Result<S, ParseIntErr>)
    ensures
        r == checked_parse::<S>(bytes@),
{
    proof {
        S::lemma_signed();
    }
    let negative = bytes.len() > 0 && bytes[0] == MINUS;
    let n_digits = if negative {
        bytes.len() - 1
    } else {
        bytes.len()
    };
    proof {
        assert(n_digits == digits_part(bytes@, S::is_signed()).len());
        lemma_first_non_digit_all(digits_part(bytes@, S::is_signed()));
    }
    if n_digits > <S::Magnitude as Unsigned>::table_len() {
        return Err(ParseIntErr::Overflow);
    }
    match signed_engine::<S>(bytes, true) {
        Ok(v) => Ok(v),
        Err(b) => Err(ParseIntErr::with_byte(b)),
    }
}

impl FromAscii for u8 {
    fn bytes_to_int(s: &[u8]) -> (r: Result<u8, ParseIntErr>) {
        parse_unsigned::<u8>(s)
    }
}

impl FromAscii for u16 {
    fn bytes_to_int(s: &[u8]) -> (r: Result<u16, ParseIntErr>) {
        parse_unsigned::<u16>(s)
    }
}

impl FromAscii for u32 {
    fn bytes_to_int(s: &[u8]) -> (r: Result<u32, ParseIntErr>) {
        parse_unsigned::<u32>(s)
    }
}

impl FromAscii for u64 {
    fn bytes_to_int(s: &[u8]) -> (r: Result<u64, ParseIntErr>) {
        parse_unsigned::<u64>(s)
    }
}

impl FromAscii for usize {
    fn bytes_to_int(s: &[u8]) -> (r: Result<usize, ParseIntErr>) {
        parse_unsigned::<usize>(s)
    }
}

impl FromAscii for i8 {
    fn bytes_to_int(s: &[u8]) -> (r: Result<i8, ParseIntErr>) {
        parse_signed::<i8>(s)
    }
}

impl FromAscii for i16 {
    fn bytes_to_int(s: &[u8]) -> (r: Result<i16, ParseIntErr>) {
        parse_signed::<i16>(s)
    }
}

impl FromAscii for i32 {
    fn bytes_to_int(s: &[u8]) -> (r: Result<i32, ParseIntErr>) {
        parse_signed::<i32>(s)
    }
}

impl FromAscii for i64 {
    fn bytes_to_int(s: &[u8]) -> (r: Result<i64, ParseIntErr>) {
        parse_signed::<i64>(s)
    }
}

impl FromAscii for isize {
    fn bytes_to_int(s: &[u8]) -> (r: Result<isize, ParseIntErr>) {
        parse_signed::<isize>(s)
    }
}

} // verus!
