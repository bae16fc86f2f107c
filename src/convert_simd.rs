//! The vector parse engine: groups of four bytes are decoded, checked,
//! multiplied and accumulated lane by lane, four lanes side by side; the lanes
//! are summed at the end and the remaining bytes go through the scalar engine.
use crate::constants::ASCII_TO_INT_FACTOR;
use crate::convert::wrapping_parse;
use crate::decimal::{
    all_digits, digit_value, first_non_digit, is_digit, lemma_first_non_digit_all, lemma_value_step,
    pow10, value_of,
};
use crate::engine::{accumulate_from, lemma_digit_term, lemma_plus_represents, represents};
use crate::sign::fits_table;
use crate::width::{lemma_sum4_mod, FixedWidth, Unsigned};
use vstd::arithmetic::div_mod::lemma_small_mod;
use vstd::prelude::*;

verus! {

/// What lane `k` (of four) holds after `c` groups of four bytes of `s`: the digit
/// at `4 * j + k`, at its place value, summed over the groups `j < c`.
pub open spec fn lane_sum(s: Seq<u8>, k: int, c: nat) -> int
    decreases c,
{
    if c == 0 {
        0
    } else {
        let at = 4 * (c - 1) + k;
        lane_sum(s, k, (c - 1) as nat) + digit_value(s[at]) * pow10((s.len() - 1 - at) as nat)
    }
}

/// The four lanes together hold what the scalar engine accumulates over the same
/// groups: the value of the first `4 * c` bytes at their place values. So the
/// vector engine and the scalar one agree on every input.
pub proof fn lemma_lanes_sum_to_value(s: Seq<u8>, c: nat)
    requires
        4 * c <= s.len(),
    ensures
        lane_sum(s, 0, c) + lane_sum(s, 1, c) + lane_sum(s, 2, c) + lane_sum(s, 3, c) == value_of(
            s.take(4 * c as int),
        ) * pow10((s.len() - 4 * c) as nat),
    decreases c,
{
    if c == 0 {
        assert(s.take(0) =~= Seq::<u8>::empty());
        let p = pow10(s.len());
        assert(0 * p == 0);
    } else {
        let i = 4 * (c - 1);
        lemma_lanes_sum_to_value(s, (c - 1) as nat);
        lemma_value_step(s, i, s.len());
        lemma_value_step(s, i + 1, s.len());
        lemma_value_step(s, i + 2, s.len());
        lemma_value_step(s, i + 3, s.len());
    }
}

/// The vector parse of a `u32` or a `u64`.
pub trait FromAsciiSIMD: Unsigned {
    /// Parses `s`; the same as `bytes_to_int_simd`.
    fn atoi_simd(s: &[u8]) -> (r: Result<Self, ()>)
        requires
            s@.len() <= Self::max_digits(),
        ensures
            r == wrapping_parse::<Self>(s@),
    {
        Self::bytes_to_int_simd(s)
    }

    /// Parses `s`, four bytes at a time in four lanes; a byte that is no digit
    /// fails the parse.
    fn bytes_to_int_simd(s: &[u8]) -> (r: Result<Self, ()>)
        requires
            s@.len() <= Self::max_digits(),
        ensures
            r == wrapping_parse::<Self>(s@),
    ;
}

/// Every input that the vector engine takes, the scalar wrapping parse
/// (`convert::FromAscii::bytes_to_int`) takes too; as both are bound to
/// `wrapping_parse`, they agree on every input, in value and in error.
pub proof fn lemma_vector_inputs_are_scalar_inputs<T: FromAsciiSIMD>(s: Seq<u8>)
    requires
        s.len() <= T::max_digits(),
    ensures
        fits_table::<T>(s),
{
    T::lemma_unsigned(0);
}

/// Subtracts `b'0'` from each lane, wrapping.
fn lanes_decode(group: [u8; 4]) -> (r: [u8; 4])
    ensures
        forall|k: int| 0 <= k < 4 ==> r[k] == digit_value(#[trigger] group[k]),
{
    [
        group[0].wrapping_sub(ASCII_TO_INT_FACTOR),
        group[1].wrapping_sub(ASCII_TO_INT_FACTOR),
        group[2].wrapping_sub(ASCII_TO_INT_FACTOR),
        group[3].wrapping_sub(ASCII_TO_INT_FACTOR),
    ]
}

/// Whether any lane is above 9.
fn lanes_any_above_nine(v: [u8; 4]) -> (r: bool)
    ensures
        r <==> (v[0] > 9 || v[1] > 9 || v[2] > 9 || v[3] > 9),
{
    let above = [v[0] > 9, v[1] > 9, v[2] > 9, v[3] > 9];
    above[0] || above[1] || above[2] || above[3]
}

/// Multiplies each lane of `p` by the digit in the same lane of `d`, wrapping.
fn lanes_mul<W: Unsigned>(p: [W; 4], d: [u8; 4]) -> (r: [W; 4])
    ensures
        forall|k: int|
            0 <= k < 4 ==> (#[trigger] r[k]).to_int() == (p[k].to_int() * d[k]) % W::modulus(),
{
    [p[0].times_digit(d[0]), p[1].times_digit(d[1]), p[2].times_digit(d[2]), p[3].times_digit(d[3])]
}

/// Adds two vectors lane by lane, wrapping.
fn lanes_add<W: Unsigned>(a: [W; 4], b: [W; 4]) -> (r: [W; 4])
    ensures
        forall|k: int|
            0 <= k < 4 ==> (#[trigger] r[k]).to_int() == (a[k].to_int() + b[k].to_int())
                % W::modulus(),
{
    [a[0].plus(b[0]), a[1].plus(b[1]), a[2].plus(b[2]), a[3].plus(b[3])]
}

/// Sums the four lanes, wrapping.
fn horizontal_sum<W: Unsigned>(a: [W; 4]) -> (r: W)
    ensures
        r.to_int() == (a[0].to_int() + a[1].to_int() + a[2].to_int() + a[3].to_int())
            % W::modulus(),
{
    let s01 = a[0].plus(a[1]);
    let s012 = s01.plus(a[2]);
    let r = s012.plus(a[3]);
    proof {
        W::lemma_unsigned(0);
        W::lemma_range(a[0]);
        W::lemma_range(a[1]);
        W::lemma_range(a[2]);
        W::lemma_range(a[3]);
        let (x0, x1, x2, x3) = (a[0].to_int(), a[1].to_int(), a[2].to_int(), a[3].to_int());
        lemma_small_mod(x0 as nat, W::modulus() as nat);
        lemma_small_mod(x1 as nat, W::modulus() as nat);
        lemma_small_mod(x2 as nat, W::modulus() as nat);
        lemma_small_mod(x3 as nat, W::modulus() as nat);
        lemma_plus_represents(a[0], x0, a[1], x1, s01);
        lemma_plus_represents(s01, x0 + x1, a[2], x2, s012);
        lemma_plus_represents(s012, x0 + x1 + x2, a[3], x3, r);
    }
    r
}

/// The vector engine.
pub fn parse_lanes<W: Unsigned>(bytes: &[u8]) -> (r: Result<W, ()>)
    requires
        bytes@.len() <= W::max_digits(),
    ensures
        r == wrapping_parse::<W>(bytes@),
{
    let ghost s = bytes@;
    proof {
        W::lemma_unsigned(0);
        lemma_first_non_digit_all(s);
    }
    let len = bytes.len();
    let mut idx: usize = W::table_len() - len;
    let zero = W::zero();
    let mut acc: [W; 4] = [zero, zero, zero, zero];
    let mut i: usize = 0;
    let ghost mut c: nat = 0;
    while len - i >= 4
        invariant
            s == bytes@,
            len == s.len(),
            len <= W::max_digits(),
            i <= len,
            i == 4 * c,
            idx == W::max_digits() - len + i,
            represents(acc[0], lane_sum(s, 0, c)),
            represents(acc[1], lane_sum(s, 1, c)),
            represents(acc[2], lane_sum(s, 2, c)),
            represents(acc[3], lane_sum(s, 3, c)),
            forall|j: int| 0 <= j < i ==> #[trigger] is_digit(s[j]),
            first_non_digit(s) <= s.len(),
            (first_non_digit(s) == s.len()) == all_digits(s),
        decreases len - i,
    {
        proof {
            W::lemma_unsigned(0);
        }
        let digits = lanes_decode([bytes[i], bytes[i + 1], bytes[i + 2], bytes[i + 3]]);
        if lanes_any_above_nine(digits) {
            proof {
                let k = choose|k: int| 0 <= k < 4 && digits[k] > 9;
                assert(!is_digit(s[i + k]));
            }
            return Err(());
        }
        let powers = [
            W::table_entry(idx),
            W::table_entry(idx + 1),
            W::table_entry(idx + 2),
            W::table_entry(idx + 3),
        ];
        let products = lanes_mul(powers, digits);
        let next = lanes_add(acc, products);
        proof {
            let ii = i as int;
            assert forall|k: int| 0 <= k < 4 implies represents(
                #[trigger] next[k],
                lane_sum(s, k, c + 1),
            ) by {
                assert(digits[k] == digit_value(s[ii + k]));
                lemma_digit_term(s, ii + k, idx + k, powers[k], products[k]);
                lemma_plus_represents(
                    acc[k],
                    lane_sum(s, k, c),
                    products[k],
                    digit_value(s[ii + k]) * pow10((len - (ii + k) - 1) as nat),
                    next[k],
                );
            }
            assert forall|j: int| 0 <= j < i + 4 implies #[trigger] is_digit(s[j]) by {
                if j >= i {
                    assert(digits[j - ii] == digit_value(s[j]));
                }
            }
            c = c + 1;
        }
        acc = next;
        i = i + 4;
        idx = idx + 4;
    }
    let result = horizontal_sum(acc);
    proof {
        let (l0, l1, l2, l3) = (lane_sum(s, 0, c), lane_sum(s, 1, c), lane_sum(s, 2, c), lane_sum(s, 3, c));
        lemma_sum4_mod(l0, l1, l2, l3, W::modulus());
        lemma_lanes_sum_to_value(s, c);
    }
    match accumulate_from(bytes, i, result, true) {
        Ok(v) => Ok(v),
        Err(_) => Err(()),
    }
}

impl FromAsciiSIMD for u32 {
    fn bytes_to_int_simd(s: &[u8]) -> (r: Result<u32, ()>) {
        parse_lanes::<u32>(s)
    }
}

impl FromAsciiSIMD for u64 {
    fn bytes_to_int_simd(s: &[u8]) -> (r: Result<u64, ()>) {
        parse_lanes::<u64>(s)
    }
}

} // verus!
