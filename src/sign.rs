//! The sign adapter over the scalar engine: a leading `-` is split off, the
//! digits are accumulated in the unsigned width of the same size, and the
//! result is negated with wrapping or reinterpreted. Every parse policy goes
//! through it.
use crate::constants::MINUS;
use crate::decimal::{
    digits_part, first_non_digit, has_minus, lemma_first_non_digit_all, signed_value, value_of,
};
use crate::engine::accumulate;
use crate::width::{lemma_mod_difference, FixedWidth, Signed, Unsigned};
use vstd::prelude::*;

verus! {

/// The digits of `s` fit the table of powers of ten of `T`.
pub open spec fn fits_table<T: FixedWidth>(s: Seq<u8>) -> bool {
    digits_part(s, T::is_signed()).len() <= T::max_digits()
}

/// The index, within the digits of `s`, of the first byte that is no digit;
/// their length if there is none.
pub open spec fn first_bad<T: FixedWidth>(s: Seq<u8>) -> int {
    first_non_digit(digits_part(s, T::is_signed())) as int
}

/// The digits of `s` are all digits.
pub open spec fn well_formed<T: FixedWidth>(s: Seq<u8>) -> bool {
    first_bad::<T>(s) == digits_part(s, T::is_signed()).len()
}

/// What the engine yields for `s` and `T`: with `validate`, the first byte of the
/// digits that is no digit, as the error; else the value `s` spells, wrapped.
pub open spec fn engine_outcome<T: FixedWidth>(s: Seq<u8>, validate: bool) -> Result<T, u8> {
    if validate && !well_formed::<T>(s) {
        Err(digits_part(s, T::is_signed())[first_bad::<T>(s)])
    } else {
        Ok(T::wrap(signed_value(s, T::is_signed())))
    }
}

/// Parses the digits of an unsigned width.
pub fn unsigned_engine<W: Unsigned>(bytes: &[u8], validate: bool) -> (r: Result<W, u8>)
    requires
        fits_table::<W>(bytes@),
    ensures
        r == engine_outcome::<W>(bytes@, validate),
{
    proof {
        W::lemma_unsigned(0);
        lemma_first_non_digit_all(bytes@);
    }
    accumulate::<W>(bytes, validate)
}

/// Parses a signed width: after a leading `-` the rest is parsed as the unsigned
/// width and negated with wrapping; without one the unsigned result is
/// reinterpreted.
pub fn signed_engine<S: Signed>(bytes: &[u8], validate: bool) -> (r: Result<S, u8>)
    requires
        fits_table::<S>(bytes@),
    ensures
        r == engine_outcome::<S>(bytes@, validate),
{
    proof {
        S::lemma_signed();
    }
    let negative = bytes.len() > 0 && bytes[0] == MINUS;
    let digits = if negative {
        &bytes[1..bytes.len()]
    } else {
        bytes
    };
    proof {
        assert(negative == has_minus(bytes@, S::is_signed()));
        assert(digits@ =~= digits_part(bytes@, S::is_signed()));
        <S::Magnitude as Unsigned>::lemma_unsigned(value_of(digits@));
        lemma_first_non_digit_all(digits@);
    }
    match accumulate::<S::Magnitude>(digits, validate) {
        Ok(m) => {
            proof {
                let v = value_of(digits@);
                lemma_mod_difference(v, S::modulus());
                if negative {
                    S::lemma_wrap_congruent(-m.to_int(), -v);
                } else {
                    S::lemma_wrap_congruent(m.to_int(), v);
                }
            }
            Ok(S::from_magnitude(m, negative))
        },
        Err(b) => Err(b),
    }
}

} // verus!
