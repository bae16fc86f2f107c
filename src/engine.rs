//! The scalar parse engine, shared by every parse policy and width.
use crate::constants::ASCII_TO_INT_FACTOR;
use crate::decimal::{
    all_digits, digit_value, first_non_digit, is_digit, lemma_first_non_digit_all,
    lemma_first_non_digit_at, lemma_value_step, pow10, value_of,
};
use crate::width::{FixedWidth, Unsigned};
use vstd::arithmetic::div_mod::lemma_add_mod_noop;
use vstd::arithmetic::mul::lemma_mul_is_commutative;
use vstd::prelude::*;

verus! {

/// `x` stands for the integer `v` in the wrapping arithmetic of its width.
pub open spec fn represents<W: FixedWidth>(x: W, v: int) -> bool {
    x.to_int() == v % W::modulus()
}

/// Decodes one byte: `b - b'0'`, wrapping. A result above 9 means `b` is no digit.
pub fn decode(b: u8) -> (d: u8)
    ensures
        d == digit_value(b),
        is_digit(b) <==> d <= 9,
{
    b.wrapping_sub(ASCII_TO_INT_FACTOR)
}

/// Wrapping addition adds what the operands stand for.
pub proof fn lemma_plus_represents<W: Unsigned>(x: W, a: int, y: W, b: int, z: W)
    requires
        represents(x, a),
        represents(y, b),
        z.to_int() == (x.to_int() + y.to_int()) % W::modulus(),
    ensures
        represents(z, a + b),
{
    W::lemma_unsigned(0);
    lemma_add_mod_noop(a, b, W::modulus());
}

/// The term for `s[i]`, scaled by table entry `idx` (the entry aligned with
/// position `i` when `s` is aligned with the table's tail), stands for the digit
/// at its place value in `s`.
pub proof fn lemma_digit_term<W: Unsigned>(s: Seq<u8>, i: int, idx: int, p: W, r: W)
    requires
        0 <= i < s.len(),
        s.len() <= W::max_digits(),
        idx == W::max_digits() - s.len() + i,
        p.to_int() == pow10((W::max_digits() - 1 - idx) as nat),
        r.to_int() == (p.to_int() * digit_value(s[i])) % W::modulus(),
    ensures
        represents(r, digit_value(s[i]) * pow10((s.len() - i - 1) as nat)),
{
    assert((W::max_digits() - 1 - idx) as nat == (s.len() - i - 1) as nat);
    lemma_mul_is_commutative(p.to_int(), digit_value(s[i]));
}

/// Decodes `byte` and scales it by the place value `pow10`, wrapping. A byte
/// that is no digit is returned as the error.
pub fn parse_byte<W: Unsigned>(byte: u8, pow10: W) -> (r: Result<W, u8>)
    ensures
        !is_digit(byte) ==> r == Err::<W, u8>(byte),
        is_digit(byte) ==> r is Ok && r->Ok_0.to_int() == (pow10.to_int() * digit_value(byte))
            % W::modulus(),
{
    let d = decode(byte);
    if d > 9 {
        return Err(byte);
    }
    Ok(pow10.times_digit(d))
}

/// One digit's term: `parse_byte` when validating, else the byte as decoded,
/// whatever it is, scaled by `pow10`.
fn digit_term<W: Unsigned>(byte: u8, pow10: W, validate: bool) -> (r: Result<W, u8>)
    ensures
        validate && !is_digit(byte) ==> r == Err::<W, u8>(byte),
        !(validate && !is_digit(byte)) ==> r is Ok && r->Ok_0.to_int() == (pow10.to_int()
            * digit_value(byte)) % W::modulus(),
{
    if validate {
        parse_byte(byte, pow10)
    } else {
        Ok(pow10.times_digit(decode(byte)))
    }
}

/// Accumulates the positional value of `bytes` in the wrapping arithmetic of `W`,
/// four digits at a time and then one at a time. With `validate`, the first byte
/// that is not a digit stops the work and is returned; without it every byte is
/// taken as decoded.
pub fn accumulate<W: Unsigned>(bytes: &[u8], validate: bool) -> (r: Result<W, u8>)
    requires
        bytes@.len() <= W::max_digits(),
    ensures
        validate && first_non_digit(bytes@) < bytes@.len() ==> r == Err::<W, u8>(
            bytes@[first_non_digit(bytes@) as int],
        ),
        !(validate && first_non_digit(bytes@) < bytes@.len()) ==> r == Ok::<W, u8>(
            W::wrap(value_of(bytes@)),
        ),
{
    let ghost s = bytes@;
    let len = bytes.len();
    let mut idx: usize = W::table_len() - len;
    let mut result = W::zero();
    let mut i: usize = 0;
    proof {
        W::lemma_unsigned(0);
        assert(s.take(0) =~= Seq::<u8>::empty());
    }
    while len - i >= 4
        invariant
            s == bytes@,
            len == s.len(),
            len <= W::max_digits(),
            i <= len,
            idx == W::max_digits() - len + i,
            represents(result, value_of(s.take(i as int)) * pow10((len - i) as nat)),
            validate ==> forall|j: int| 0 <= j < i ==> #[trigger] is_digit(s[j]),
        decreases len - i,
    {
        proof {
            W::lemma_unsigned(0);
        }
        let place1 = W::table_entry(idx);
        let r1 = match digit_term(bytes[i], place1, validate) {
            Ok(t) => t,
            Err(b) => {
                proof {
                    lemma_first_non_digit_at(s, i as int);
                }
                return Err(b);
            },
        };
        let place2 = W::table_entry(idx + 1);
        let r2 = match digit_term(bytes[i + 1], place2, validate) {
            Ok(t) => t,
            Err(b) => {
                proof {
                    lemma_first_non_digit_at(s, i + 1);
                }
                return Err(b);
            },
        };
        let place3 = W::table_entry(idx + 2);
        let r3 = match digit_term(bytes[i + 2], place3, validate) {
            Ok(t) => t,
            Err(b) => {
                proof {
                    lemma_first_non_digit_at(s, i + 2);
                }
                return Err(b);
            },
        };
        let place4 = W::table_entry(idx + 3);
        let r4 = match digit_term(bytes[i + 3], place4, validate) {
            Ok(t) => t,
            Err(b) => {
                proof {
                    lemma_first_non_digit_at(s, i + 3);
                }
                return Err(b);
            },
        };
        let r12 = r1.plus(r2);
        let r123 = r12.plus(r3);
        let sum = r123.plus(r4);
        let next = result.plus(sum);
        proof {
            let ii = i as int;
            let t1 = digit_value(s[ii]) * pow10((len - ii - 1) as nat);
            let t2 = digit_value(s[ii + 1]) * pow10((len - ii - 2) as nat);
            let t3 = digit_value(s[ii + 2]) * pow10((len - ii - 3) as nat);
            let t4 = digit_value(s[ii + 3]) * pow10((len - ii - 4) as nat);
            lemma_digit_term(s, ii, idx as int, place1, r1);
            lemma_digit_term(s, ii + 1, idx + 1, place2, r2);
            lemma_digit_term(s, ii + 2, idx + 2, place3, r3);
            lemma_digit_term(s, ii + 3, idx + 3, place4, r4);
            lemma_plus_represents(r1, t1, r2, t2, r12);
            lemma_plus_represents(r12, t1 + t2, r3, t3, r123);
            lemma_plus_represents(r123, t1 + t2 + t3, r4, t4, sum);
            let v0 = value_of(s.take(ii)) * pow10((len - ii) as nat);
            lemma_plus_represents(result, v0, sum, t1 + t2 + t3 + t4, next);
            lemma_value_step(s, ii, len as nat);
            lemma_value_step(s, ii + 1, len as nat);
            lemma_value_step(s, ii + 2, len as nat);
            lemma_value_step(s, ii + 3, len as nat);
        }
        result = next;
        i = i + 4;
        idx = idx + 4;
    }
    accumulate_from(bytes, i, result, validate)
}

/// Finishes a parse one digit at a time from position `start`, where `result`
/// stands for the value of the bytes before `start` at their place values.
pub fn accumulate_from<W: Unsigned>(bytes: &[u8], start: usize, result: W, validate: bool) -> (r:
    Result<W, u8>)
    requires
        bytes@.len() <= W::max_digits(),
        start <= bytes@.len(),
        represents(result, value_of(bytes@.take(start as int)) * pow10((bytes@.len() - start) as nat)),
        validate ==> forall|j: int| 0 <= j < start ==> #[trigger] is_digit(bytes@[j]),
    ensures
        validate && first_non_digit(bytes@) < bytes@.len() ==> r == Err::<W, u8>(
            bytes@[first_non_digit(bytes@) as int],
        ),
        !(validate && first_non_digit(bytes@) < bytes@.len()) ==> r == Ok::<W, u8>(
            W::wrap(value_of(bytes@)),
        ),
{
    let ghost s = bytes@;
    let len = bytes.len();
    proof {
        W::lemma_unsigned(0);
    }
    let mut idx: usize = W::table_len() - len + start;
    let mut result = result;
    let mut i: usize = start;
    while i < len
        invariant
            s == bytes@,
            len == s.len(),
            len <= W::max_digits(),
            i <= len,
            idx == W::max_digits() - len + i,
            represents(result, value_of(s.take(i as int)) * pow10((len - i) as nat)),
            validate ==> forall|j: int| 0 <= j < i ==> #[trigger] is_digit(s[j]),
        decreases len - i,
    {
        proof {
            W::lemma_unsigned(0);
        }
        let p = W::table_entry(idx);
        let term = match digit_term(bytes[i], p, validate) {
            Ok(t) => t,
            Err(b) => {
                proof {
                    lemma_first_non_digit_at(s, i as int);
                }
                return Err(b);
            },
        };
        let next = result.plus(term);
        proof {
            let ii = i as int;
            let t = digit_value(s[ii]) * pow10((len - ii - 1) as nat);
            lemma_digit_term(s, ii, idx as int, p, term);
            let v0 = value_of(s.take(ii)) * pow10((len - ii) as nat);
            lemma_plus_represents(result, v0, term, t, next);
            lemma_value_step(s, ii, len as nat);
        }
        result = next;
        i = i + 1;
        idx = idx + 1;
    }
    proof {
        assert(s.take(len as int) =~= s);
        assert(pow10(0) == 1);
        assert(i == len);
        assert(pow10((len - i) as nat) == 1);
        assert(value_of(s.take(len as int)) == value_of(s));
        let v = value_of(s);
        let one = pow10((len - i) as nat);
        assert(v * one == v) by (nonlinear_arith)
            requires
                one == 1,
        ;
        W::lemma_unsigned(value_of(s));
        assert(result.to_int() == W::wrap(value_of(s)).to_int());
        W::lemma_to_int_injective(result, W::wrap(value_of(s)));
        lemma_first_non_digit_all(s);
        if validate {
            assert(all_digits(s));
        }
    }
    Ok(result)
}

} // verus!
