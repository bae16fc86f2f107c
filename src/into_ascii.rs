//! Formatting integers as decimal ASCII bytes.
use crate::constants::{ASCII_TO_INT_FACTOR, MINUS};
use crate::decimal::{ascii, decimal, lemma_decimal_len_bound, lemma_pow10_values, magnitude};
use crate::width::{FixedWidth, Signed, Unsigned};
use vstd::prelude::*;

verus! {

/// `after` is `before` with its last `text.len()` bytes replaced by `text`: the
/// bytes in front of the text are left as they were.
pub open spec fn right_aligned(before: Seq<u8>, text: Seq<u8>) -> Seq<u8> {
    before.take(before.len() - text.len()) + text
}

/// The ASCII digit of `v`'s last decimal place.
pub open spec fn last_digit(v: nat) -> u8 {
    ((v % 10) + 48) as u8
}

proof fn lemma_decimal_step(v: nat)
    requires
        v >= 10,
    ensures
        decimal(v) == decimal(v / 10).push(last_digit(v)),
        decimal(v).len() == decimal(v / 10).len() + 1,
{
}

proof fn lemma_decimal_four(v: nat)
    requires
        v >= 10_000,
    ensures
        decimal(v) == decimal(v / 10_000) + seq![
            last_digit(v / 1000),
            last_digit(v / 100),
            last_digit(v / 10),
            last_digit(v),
        ],
        decimal(v).len() == decimal(v / 10_000).len() + 4,
{
    lemma_decimal_step(v);
    lemma_decimal_step(v / 10);
    lemma_decimal_step(v / 10 / 10);
    lemma_decimal_step(v / 10 / 10 / 10);
    assert(v / 10 / 10 == v / 100);
    assert(v / 100 / 10 == v / 1000);
    assert(v / 1000 / 10 == v / 10_000);
    assert(decimal(v) =~= decimal(v / 10_000) + seq![
        last_digit(v / 1000),
        last_digit(v / 100),
        last_digit(v / 10),
        last_digit(v),
    ]);
}

proof fn lemma_decimal_small(v: nat)
    ensures
        v < 10 ==> decimal(v).len() == 1,
        10 <= v < 100 ==> decimal(v).len() == 2,
        100 <= v < 1000 ==> decimal(v).len() == 3,
        1000 <= v < 10_000 ==> decimal(v).len() == 4,
        decimal(v).len() >= 1,
    decreases v,
{
    if v >= 10 {
        lemma_decimal_step(v);
        lemma_decimal_small(v / 10);
    }
}

/// The number of decimal digits of `n`: 1 for 0, never 0. Counts four digits at a time.
pub fn digits10_u64(n: u64) -> (r: usize)
    ensures
        r == decimal(n as nat).len(),
        1 <= r <= 20,
{
    let mut v = n;
    let mut result: usize = 1;
    proof {
        lemma_pow10_values();
        lemma_decimal_len_bound(n as nat, 20);
    }
    loop
        invariant
            decimal(n as nat).len() == decimal(v as nat).len() + result - 1,
            1 <= result,
            decimal(n as nat).len() <= 20,
        decreases v,
    {
        proof {
            lemma_decimal_small(v as nat);
        }
        if v < 10 {
            return result;
        }
        if v < 100 {
            return result + 1;
        }
        if v < 1000 {
            return result + 2;
        }
        if v < 10_000 {
            return result + 3;
        }
        proof {
            lemma_decimal_four(v as nat);
            lemma_decimal_small(v as nat / 10_000);
        }
        v = v / 10_000;
        result = result + 4;
    }
}

/// Writes the decimal digits of `n` into the tail of `buff`, the last byte
/// holding the least significant digit, and returns where the digits start.
/// Works four digits at a time while `n >= 10_000`, then one at a time, and
/// stops once the quotient reaches 0: the bytes in front are left untouched.
pub fn write_u64(n: u64, buff: &mut [u8]) -> (start: usize)
    requires
        old(buff)@.len() >= decimal(n as nat).len(),
    ensures
        final(buff)@ == right_aligned(old(buff)@, decimal(n as nat)),
        start == old(buff)@.len() - decimal(n as nat).len(),
{
    let ghost before = buff@;
    let ghost dn = decimal(n as nat);
    let total = buff.len();
    let mut v = n;
    let mut len = total;
    proof {
        assert(buff@.subrange(len as int, total as int) =~= Seq::<u8>::empty());
        assert(decimal(v as nat) + Seq::<u8>::empty() =~= dn);
    }
    while v >= 10_000
        invariant
            buff@.len() == total,
            before.len() == total,
            dn == decimal(n as nat),
            len <= total,
            decimal(v as nat).len() <= len,
            decimal(v as nat) + buff@.subrange(len as int, total as int) == dn,
            buff@.subrange(0, len as int) == before.subrange(0, len as int),
        decreases v,
    {
        let q = v / 10;
        let q1 = v / 100;
        let q2 = v / 1000;
        let r = (v % 10) as u8 + ASCII_TO_INT_FACTOR;
        let r1 = (q % 10) as u8 + ASCII_TO_INT_FACTOR;
        let r2 = (q1 % 10) as u8 + ASCII_TO_INT_FACTOR;
        let r3 = (q2 % 10) as u8 + ASCII_TO_INT_FACTOR;
        proof {
            lemma_decimal_four(v as nat);
            lemma_decimal_small(v as nat / 10_000);
        }
        let ghost tail = buff@.subrange(len as int, total as int);
        buff[len - 1] = r;
        buff[len - 2] = r1;
        buff[len - 3] = r2;
        buff[len - 4] = r3;
        proof {
            assert(buff@.subrange(len - 4, total as int) =~= seq![r3, r2, r1, r] + tail);
            assert(buff@.subrange(0, len - 4) =~= before.subrange(0, len - 4));
            assert(decimal(v as nat / 10_000) + buff@.subrange(len - 4, total as int) =~= dn);
        }
        len = len - 4;
        v = v / 10_000;
    }
    loop
        invariant_except_break
            buff@.len() == total,
            before.len() == total,
            dn == decimal(n as nat),
            len <= total,
            decimal(v as nat).len() <= len,
            decimal(v as nat) + buff@.subrange(len as int, total as int) == dn,
            buff@.subrange(0, len as int) == before.subrange(0, len as int),
        ensures
            buff@.len() == total,
            buff@.subrange(len as int, total as int) == dn,
            buff@.subrange(0, len as int) == before.subrange(0, len as int),
            len == total - dn.len(),
        decreases v,
    {
        proof {
            lemma_decimal_small(v as nat);
        }
        let q = v / 10;
        let ghost tail = buff@.subrange(len as int, total as int);
        len = len - 1;
        buff[len] = (v % 10) as u8 + ASCII_TO_INT_FACTOR;
        proof {
            assert(buff@.subrange(len as int, total as int) =~= seq![last_digit(v as nat)] + tail);
            assert(buff@.subrange(0, len as int) =~= before.subrange(0, len as int));
        }
        if q == 0 {
            proof {
                assert(decimal(v as nat) =~= seq![last_digit(v as nat)]);
                assert(buff@.subrange(len as int, total as int) =~= dn);
            }
            break;
        }
        proof {
            lemma_decimal_step(v as nat);
            assert(decimal(q as nat) + buff@.subrange(len as int, total as int) =~= dn);
        }
        v = q;
    }
    proof {
        assert(buff@ =~= buff@.subrange(0, len as int) + buff@.subrange(len as int, total as int));
        assert(before.take(before.len() - dn.len()) =~= before.subrange(0, len as int));
    }
    len
}

/// Conversion from integers to decimal ASCII bytes.
pub trait IntoAscii: FixedWidth {
    /// The canonical decimal representation of `self`, after a `-` when it is
    /// negative.
    fn itoa(&self) -> (r: Vec<u8>)
        ensures
            r@ == ascii(self.to_int()),
    ;

    /// How many decimal digits the magnitude of `self` has (the sign is not
    /// counted); 1 for zero.
    fn digits10(self) -> (r: usize)
        ensures
            r == decimal(magnitude(self.to_int())).len(),
    ;

    /// Writes the representation of `self` into the tail of `buff`, the last
    /// byte holding the least significant digit. The bytes in front of it are
    /// left as they were: size `buff` by `digits10` (one more for a negative
    /// value) to get exactly the representation.
    fn int_to_bytes(self, buff: &mut [u8])
        requires
            old(buff)@.len() >= ascii(self.to_int()).len(),
        ensures
            final(buff)@ == right_aligned(old(buff)@, ascii(self.to_int())),
    ;
}

/// Formats an unsigned width into the tail of `buff`.
pub fn unsigned_to_bytes<W: Unsigned>(n: W, buff: &mut [u8])
    requires
        old(buff)@.len() >= ascii(n.to_int()).len(),
    ensures
        final(buff)@ == right_aligned(old(buff)@, ascii(n.to_int())),
{
    proof {
        W::lemma_range(n);
    }
    write_u64(n.widen(), buff);
}

/// Formats a signed width into the tail of `buff`: the digits of its magnitude,
/// and a `-` just in front of them when it is negative.
pub fn signed_to_bytes<S: Signed>(n: S, buff: &mut [u8])
    requires
        old(buff)@.len() >= ascii(n.to_int()).len(),
    ensures
        final(buff)@ == right_aligned(old(buff)@, ascii(n.to_int())),
{
    let ghost before = buff@;
    let m = n.magnitude_of().widen();
    let start = write_u64(m, buff);
    if n.is_negative() {
        buff[start - 1] = MINUS;
        proof {
            assert(buff@ =~= right_aligned(before, ascii(n.to_int())));
        }
    }
}

/// The representation of an unsigned width, in a buffer of exactly its size.
pub fn unsigned_itoa<W: Unsigned>(n: W) -> (r: Vec<u8>)
    ensures
        r@ == ascii(n.to_int()),
{
    proof {
        W::lemma_range(n);
    }
    let size = digits10_u64(n.widen());
    let mut buff = vec![0u8; size];
    unsigned_to_bytes(n, buff.as_mut_slice());
    proof {
        assert(buff@ =~= ascii(n.to_int()));
    }
    buff
}

/// The representation of a signed width, in a buffer of exactly its size.
pub fn signed_itoa<S: Signed>(n: S) -> (r: Vec<u8>)
    ensures
        r@ == ascii(n.to_int()),
{
    let digits = digits10_u64(n.magnitude_of().widen());
    let size = if n.is_negative() {
        digits + 1
    } else {
        digits
    };
    let mut buff = vec![0u8; size];
    signed_to_bytes(n, buff.as_mut_slice());
    proof {
        assert(buff@ =~= ascii(n.to_int()));
    }
    buff
}

impl IntoAscii for u8 {
    fn itoa(&self) -> (r: Vec<u8>) {
        unsigned_itoa(*self)
    }

    fn digits10(self) -> (r: usize) {
        digits10_u64(self as u64)
    }

    fn int_to_bytes(self, buff: &mut [u8]) {
        unsigned_to_bytes(self, buff)
    }
}

impl IntoAscii for u16 {
    fn itoa(&self) -> (r: Vec<u8>) {
        unsigned_itoa(*self)
    }

    fn digits10(self) -> (r: usize) {
        digits10_u64(self as u64)
    }

    fn int_to_bytes(self, buff: &mut [u8]) {
        unsigned_to_bytes(self, buff)
    }
}

impl IntoAscii for u32 {
    fn itoa(&self) -> (r: Vec<u8>) {
        unsigned_itoa(*self)
    }

    fn digits10(self) -> (r: usize) {
        digits10_u64(self as u64)
    }

    fn int_to_bytes(self, buff: &mut [u8]) {
        unsigned_to_bytes(self, buff)
    }
}

impl IntoAscii for u64 {
    fn itoa(&self) -> (r: Vec<u8>) {
        unsigned_itoa(*self)
    }

    fn digits10(self) -> (r: usize) {
        digits10_u64(self as u64)
    }

    fn int_to_bytes(self, buff: &mut [u8]) {
        unsigned_to_bytes(self, buff)
    }
}

impl IntoAscii for usize {
    fn itoa(&self) -> (r: Vec<u8>) {
        unsigned_itoa(*self)
    }

    fn digits10(self) -> (r: usize) {
        digits10_u64(self as u64)
    }

    fn int_to_bytes(self, buff: &mut [u8]) {
        unsigned_to_bytes(self, buff)
    }
}

impl IntoAscii for i8 {
    fn itoa(&self) -> (r: Vec<u8>) {
        signed_itoa(*self)
    }

    fn digits10(self) -> (r: usize) {
        digits10_u64(self.magnitude_of() as u64)
    }

    fn int_to_bytes(self, buff: &mut [u8]) {
        signed_to_bytes(self, buff)
    }
}

impl IntoAscii for i16 {
    fn itoa(&self) -> (r: Vec<u8>) {
        signed_itoa(*self)
    }

    fn digits10(self) -> (r: usize) {
        digits10_u64(self.magnitude_of() as u64)
    }

    fn int_to_bytes(self, buff: &mut [u8]) {
        signed_to_bytes(self, buff)
    }
}

impl IntoAscii for i32 {
    fn itoa(&self) -> (r: Vec<u8>) {
        signed_itoa(*self)
    }

    fn digits10(self) -> (r: usize) {
        digits10_u64(self.magnitude_of() as u64)
    }

    fn int_to_bytes(self, buff: &mut [u8]) {
        signed_to_bytes(self, buff)
    }
}

impl IntoAscii for i64 {
    fn itoa(&self) -> (r: Vec<u8>) {
        signed_itoa(*self)
    }

    fn digits10(self) -> (r: usize) {
        digits10_u64(self.magnitude_of() as u64)
    }

    fn int_to_bytes(self, buff: &mut [u8]) {
        signed_to_bytes(self, buff)
    }
}

impl IntoAscii for isize {
    fn itoa(&self) -> (r: Vec<u8>) {
        signed_itoa(*self)
    }

    fn digits10(self) -> (r: usize) {
        digits10_u64(self.magnitude_of() as u64)
    }

    fn int_to_bytes(self, buff: &mut [u8]) {
        signed_to_bytes(self, buff)
    }
}

} // verus!
