//! Properties that relate parsing and formatting.
use crate::convert::wrapping_parse;
use crate::decimal::{
    all_digits, ascii, decimal, digits_part, first_non_digit, has_minus, lemma_canonical,
    lemma_decimal_len_bound, lemma_decimal_value, lemma_first_non_digit_all,
    lemma_strip_leading_zeros, magnitude, signed_value, strip_leading_zeros, value_of,
};
use crate::from_ascii::checked_parse;
use crate::width::FixedWidth;
use vstd::prelude::*;

verus! {

/// Parsing what `itoa` writes gives the number back, for every value of every
/// width, with the checked parse and with the wrapping one.
pub proof fn lemma_parse_format<T: FixedWidth>(n: T)
    ensures
        checked_parse::<T>(ascii(n.to_int())) == Ok::<T, crate::error::ParseIntErr>(n),
        wrapping_parse::<T>(ascii(n.to_int())) == Ok::<T, ()>(n),
{
    let v = n.to_int();
    let m = magnitude(v);
    let text = ascii(v);
    T::lemma_width(n);
    lemma_decimal_value(m);
    lemma_decimal_len_bound(m, T::max_digits());
    lemma_first_non_digit_all(decimal(m));
    if v < 0 {
        assert(has_minus(text, T::is_signed()));
        assert(digits_part(text, T::is_signed()) =~= decimal(m));
    } else {
        assert(!has_minus(text, T::is_signed()));
    }
    assert(signed_value(text, T::is_signed()) == v);
}

/// Formatting what the checked parse reads from digits gives those digits back
/// without their leading zeros, or `"0"` for zero, when the digits fit the
/// width's table and spell one of its values.
pub proof fn lemma_format_parse<T: FixedWidth>(s: Seq<u8>)
    requires
        all_digits(s),
        s.len() <= T::max_digits(),
        exists|n: T| n.to_int() == value_of(s),
    ensures
        checked_parse::<T>(s) is Ok,
        value_of(s) != 0 ==> ascii(checked_parse::<T>(s)->Ok_0.to_int()) == strip_leading_zeros(s),
        value_of(s) == 0 ==> ascii(checked_parse::<T>(s)->Ok_0.to_int()) == seq![48u8],
{
    let n = choose|n: T| n.to_int() == value_of(s);
    T::lemma_width(n);
    lemma_first_non_digit_all(s);
    if s.len() > 0 {
        assert(!has_minus(s, T::is_signed())) by {
            assert(crate::decimal::is_digit(s[0]));
        }
    }
    assert(checked_parse::<T>(s) == Ok::<T, crate::error::ParseIntErr>(n));
    lemma_strip_leading_zeros(s);
    let t = strip_leading_zeros(s);
    if value_of(s) != 0 {
        assert(t.len() > 0);
        lemma_canonical(t);
    }
}

/// The digit count is the length of the canonical spelling; zero has one digit.
pub proof fn lemma_digit_count(v: int)
    requires
        v >= 0,
    ensures
        ascii(v).len() == decimal(magnitude(v)).len(),
        decimal(0).len() == 1,
{
}

} // verus!
