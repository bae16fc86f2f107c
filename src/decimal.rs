//! The mathematical model of decimal text: digits, their positional value, and
//! the canonical decimal spelling of a number.
use vstd::prelude::*;

verus! {

/// `10^n`.
pub open spec fn pow10(n: nat) -> nat
    decreases n,
{
    if n == 0 {
        1
    } else {
        10 * pow10((n - 1) as nat)
    }
}

/// An ASCII decimal digit, `b'0'..=b'9'`.
pub open spec fn is_digit(b: u8) -> bool {
    48 <= b <= 57
}

/// What a byte decodes to: `b - b'0'` with wrapping subtraction on bytes.
/// For a digit this is its value; any other byte decodes to more than 9.
pub open spec fn digit_value(b: u8) -> int {
    if b >= 48 {
        b - 48
    } else {
        b + 208
    }
}

/// The positional base-10 value of `s`, each byte decoded by `digit_value`.
/// The empty sequence is worth 0.
pub open spec fn value_of(s: Seq<u8>) -> int
    decreases s.len(),
{
    if s.len() == 0 {
        0
    } else {
        value_of(s.drop_last()) * 10 + digit_value(s.last())
    }
}

/// Every byte of `s` is a digit.
pub open spec fn all_digits(s: Seq<u8>) -> bool {
    forall|i: int| 0 <= i < s.len() ==> #[trigger] is_digit(s[i])
}

/// The index of the first byte of `s` that is not a digit, or `s.len()` if there is none.
pub open spec fn first_non_digit(s: Seq<u8>) -> nat
    decreases s.len(),
{
    if s.len() == 0 {
        0
    } else if !is_digit(s[0]) {
        0
    } else {
        1 + first_non_digit(s.drop_first())
    }
}

/// The canonical decimal spelling of `n`: no leading zero, and `"0"` for zero.
pub open spec fn decimal(n: nat) -> Seq<u8>
    decreases n,
{
    if n < 10 {
        seq![(48 + n) as u8]
    } else {
        decimal(n / 10).push((48 + n % 10) as u8)
    }
}

/// The absolute value of `v`.
pub open spec fn magnitude(v: int) -> nat {
    if v < 0 {
        (-v) as nat
    } else {
        v as nat
    }
}

/// The canonical spelling of a signed value: `decimal` of its magnitude,
/// after a `-` when it is negative.
pub open spec fn ascii(v: int) -> Seq<u8> {
    if v < 0 {
        seq![45u8] + decimal(magnitude(v))
    } else {
        decimal(magnitude(v))
    }
}

/// `s` without its leading `b'0'` bytes.
pub open spec fn strip_leading_zeros(s: Seq<u8>) -> Seq<u8>
    decreases s.len(),
{
    if s.len() > 0 && s[0] == 48 {
        strip_leading_zeros(s.drop_first())
    } else {
        s
    }
}

/// `s` starts with the minus sign, and the target type is signed.
pub open spec fn has_minus(s: Seq<u8>, signed: bool) -> bool {
    signed && s.len() > 0 && s[0] == 45
}

/// The digits of `s`: all of it, or what follows the minus sign.
pub open spec fn digits_part(s: Seq<u8>, signed: bool) -> Seq<u8> {
    if has_minus(s, signed) {
        s.drop_first()
    } else {
        s
    }
}

/// The value `s` spells: the value of its digits, negated after a minus sign.
pub open spec fn signed_value(s: Seq<u8>, signed: bool) -> int {
    if has_minus(s, signed) {
        -value_of(digits_part(s, signed))
    } else {
        value_of(digits_part(s, signed))
    }
}

/// The canonical spelling of `n` is made of digits, spells `n`, and starts with a digit.
pub proof fn lemma_decimal_value(n: nat)
    ensures
        all_digits(decimal(n)),
        value_of(decimal(n)) == n,
        decimal(n).len() >= 1,
        is_digit(decimal(n)[0]),
    decreases n,
{
    let d = decimal(n);
    if n < 10 {
        assert(d.drop_last() =~= Seq::<u8>::empty());
        assert(value_of(d.drop_last()) == 0);
        assert(digit_value(d.last()) == n);
    } else {
        lemma_decimal_value(n / 10);
        assert(d.drop_last() =~= decimal(n / 10));
        assert(digit_value(d.last()) == n % 10);
        assert(value_of(d) == (n / 10) * 10 + n % 10);
        assert forall|i: int| 0 <= i < d.len() implies #[trigger] is_digit(d[i]) by {
            if i < d.len() - 1 {
                assert(d[i] == decimal(n / 10)[i]);
            }
        }
    }
}

/// A leading `b'0'` does not change the value.
pub proof fn lemma_leading_zero(t: Seq<u8>)
    ensures
        value_of(seq![48u8] + t) == value_of(t),
    decreases t.len(),
{
    let z = seq![48u8] + t;
    if t.len() == 0 {
        assert(z.drop_last() =~= Seq::<u8>::empty());
        assert(value_of(z.drop_last()) == 0);
        assert(value_of(z) == 0);
    } else {
        lemma_leading_zero(t.drop_last());
        assert(z.drop_last() =~= seq![48u8] + t.drop_last());
        assert(z.last() == t.last());
    }
}

/// Stripping the leading zeros keeps the value and the digits.
pub proof fn lemma_strip_leading_zeros(s: Seq<u8>)
    requires
        all_digits(s),
    ensures
        value_of(strip_leading_zeros(s)) == value_of(s),
        all_digits(strip_leading_zeros(s)),
        strip_leading_zeros(s).len() > 0 ==> strip_leading_zeros(s)[0] != 48,
    decreases s.len(),
{
    if s.len() > 0 && s[0] == 48 {
        let t = s.drop_first();
        assert forall|i: int| 0 <= i < t.len() implies #[trigger] is_digit(t[i]) by {
            assert(t[i] == s[i + 1]);
        }
        lemma_strip_leading_zeros(t);
        assert(s =~= seq![48u8] + t);
        lemma_leading_zero(t);
    }
}

/// Digits without a leading zero are the canonical spelling of their value.
pub proof fn lemma_canonical(t: Seq<u8>)
    requires
        all_digits(t),
        t.len() > 0,
        t[0] != 48,
    ensures
        decimal(value_of(t) as nat) == t,
        value_of(t) >= 1,
    decreases t.len(),
{
    let u = t.drop_last();
    let d = t.last();
    assert(is_digit(t[t.len() - 1]));
    if u.len() == 0 {
        assert(t =~= seq![d]);
        assert(value_of(u) == 0);
    } else {
        assert forall|i: int| 0 <= i < u.len() implies #[trigger] is_digit(u[i]) by {
            assert(u[i] == t[i]);
        }
        assert(u[0] == t[0]);
        lemma_canonical(u);
        let v = value_of(t);
        assert(v == value_of(u) * 10 + digit_value(d));
        assert(v / 10 == value_of(u));
        assert(v % 10 == digit_value(d));
        assert(t =~= u.push(d));
    }
}

/// The values of `pow10` that the tables of powers of ten hold.
pub proof fn lemma_pow10_values()
    ensures
        pow10(0) == 1,
        pow10(1) == 10,
        pow10(2) == 100,
        pow10(3) == 1_000,
        pow10(4) == 10_000,
        pow10(5) == 100_000,
        pow10(6) == 1_000_000,
        pow10(7) == 10_000_000,
        pow10(8) == 100_000_000,
        pow10(9) == 1_000_000_000,
        pow10(10) == 10_000_000_000,
        pow10(11) == 100_000_000_000,
        pow10(12) == 1_000_000_000_000,
        pow10(13) == 10_000_000_000_000,
        pow10(14) == 100_000_000_000_000,
        pow10(15) == 1_000_000_000_000_000,
        pow10(16) == 10_000_000_000_000_000,
        pow10(17) == 100_000_000_000_000_000,
        pow10(18) == 1_000_000_000_000_000_000,
        pow10(19) == 10_000_000_000_000_000_000,
        pow10(20) == 100_000_000_000_000_000_000,
{
    assert(pow10(0) == 1);
    assert(pow10(1) == 10);
    assert(pow10(2) == 100);
    assert(pow10(3) == 1_000);
    assert(pow10(4) == 10_000);
    assert(pow10(5) == 100_000);
    assert(pow10(6) == 1_000_000);
    assert(pow10(7) == 10_000_000);
    assert(pow10(8) == 100_000_000);
    assert(pow10(9) == 1_000_000_000);
    assert(pow10(10) == 10_000_000_000);
    assert(pow10(11) == 100_000_000_000);
    assert(pow10(12) == 1_000_000_000_000);
    assert(pow10(13) == 10_000_000_000_000);
    assert(pow10(14) == 100_000_000_000_000);
    assert(pow10(15) == 1_000_000_000_000_000);
    assert(pow10(16) == 10_000_000_000_000_000);
    assert(pow10(17) == 100_000_000_000_000_000);
    assert(pow10(18) == 1_000_000_000_000_000_000);
    assert(pow10(19) == 10_000_000_000_000_000_000);
    assert(pow10(20) == 100_000_000_000_000_000_000);
}

/// A number below `10^k` has at most `k` digits.
pub proof fn lemma_decimal_len_bound(v: nat, k: nat)
    requires
        v < pow10(k),
        k >= 1,
    ensures
        decimal(v).len() <= k,
    decreases v,
{
    if v >= 10 {
        assert(k >= 2) by {
            if k == 1 {
                assert(pow10(1) == 10 * pow10(0));
            }
        }
        assert(v / 10 < pow10((k - 1) as nat));
        lemma_decimal_len_bound(v / 10, (k - 1) as nat);
    }
}

/// `first_non_digit` stops at `i` when the bytes before `i` are digits and `s[i]` is not.
pub proof fn lemma_first_non_digit_at(s: Seq<u8>, i: int)
    requires
        0 <= i < s.len(),
        forall|j: int| 0 <= j < i ==> #[trigger] is_digit(s[j]),
        !is_digit(s[i]),
    ensures
        first_non_digit(s) == i,
    decreases i,
{
    if i > 0 {
        let t = s.drop_first();
        assert forall|j: int| 0 <= j < i - 1 implies #[trigger] is_digit(t[j]) by {
            assert(t[j] == s[j + 1]);
        }
        assert(is_digit(s[0]));
        lemma_first_non_digit_at(t, i - 1);
    }
}

/// `first_non_digit` reaches the end exactly when every byte is a digit.
pub proof fn lemma_first_non_digit_all(s: Seq<u8>)
    ensures
        first_non_digit(s) <= s.len(),
        all_digits(s) <==> first_non_digit(s) == s.len(),
        first_non_digit(s) < s.len() ==> !is_digit(s[first_non_digit(s) as int]),
    decreases s.len(),
{
    if s.len() > 0 {
        let t = s.drop_first();
        lemma_first_non_digit_all(t);
        if is_digit(s[0]) {
            if all_digits(t) {
                assert forall|i: int| 0 <= i < s.len() implies #[trigger] is_digit(s[i]) by {
                    if i > 0 {
                        assert(s[i] == t[i - 1]);
                    }
                }
            }
            if all_digits(s) {
                assert forall|i: int| 0 <= i < t.len() implies #[trigger] is_digit(t[i]) by {
                    assert(t[i] == s[i + 1]);
                }
            }
            if first_non_digit(t) < t.len() {
                assert(t[first_non_digit(t) as int] == s[first_non_digit(s) as int]);
            }
        } else {
            assert(!is_digit(s[0]));
        }
    }
}

/// Taking one more byte of `s` into a prefix whose value is scaled by `10^(len - i)`
/// adds that byte's digit at its place value.
pub proof fn lemma_value_step(s: Seq<u8>, i: int, len: nat)
    requires
        0 <= i < s.len(),
        i < len,
    ensures
        value_of(s.take(i + 1)) * pow10((len - i - 1) as nat) == value_of(s.take(i)) * pow10(
            (len - i) as nat,
        ) + digit_value(s[i]) * pow10((len - i - 1) as nat),
{
    let p = s.take(i + 1);
    assert(p.drop_last() =~= s.take(i));
    assert(p.last() == s[i]);
    let v = value_of(s.take(i));
    let d = digit_value(s[i]);
    let q = pow10((len - i - 1) as nat);
    assert(pow10((len - i) as nat) == 10 * q);
    assert((v * 10 + d) * q == v * (10 * q) + d * q) by (nonlinear_arith);
}

} // verus!
