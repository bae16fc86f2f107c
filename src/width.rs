//! What the codec needs to know of each integer width: its mathematical value,
//! its modulus, its table of powers of ten, and wrapping arithmetic on it.
use crate::constants::{
    POW10_U16, POW10_U16_LEN, POW10_U32, POW10_U32_LEN, POW10_U64, POW10_U64_LEN, POW10_U8,
    POW10_U8_LEN,
};
use crate::decimal::{lemma_pow10_values, magnitude, pow10};
use vstd::arithmetic::div_mod::{
    lemma_add_mod_noop, lemma_fundamental_div_mod, lemma_mod_multiples_basic, lemma_mod_multiples_vanish,
};
use vstd::prelude::*;

verus! {

/// The value in `[-m/2, m/2)` congruent to `v` modulo `m`: two's complement
/// reinterpretation.
pub open spec fn wrap_signed(v: int, m: int) -> int {
    if v % m >= m / 2 {
        v % m - m
    } else {
        v % m
    }
}

/// `2^bits` of the platform word.
pub open spec fn word_modulus() -> int {
    if usize::BITS == 64 {
        0x1_0000_0000_0000_0000
    } else {
        0x1_0000_0000
    }
}

/// The table length of the platform word.
pub open spec fn word_digits() -> nat {
    if usize::BITS == 64 {
        POW10_U64_LEN as nat
    } else {
        POW10_U32_LEN as nat
    }
}

/// Integers whose difference is a multiple of `m` leave the same remainder.
pub proof fn lemma_mod_congruent(a: int, b: int, m: int)
    requires
        m > 0,
        (a - b) % m == 0,
    ensures
        a % m == b % m,
{
    lemma_fundamental_div_mod(a - b, m);
    lemma_mod_multiples_vanish((a - b) / m, b, m);
}

/// `v` and its remainder modulo `m` are congruent.
pub proof fn lemma_mod_difference(v: int, m: int)
    requires
        m > 0,
    ensures
        (v % m - v) % m == 0,
        (-(v % m) - (-v)) % m == 0,
{
    lemma_fundamental_div_mod(v, m);
    lemma_mod_multiples_basic(v / m, m);
    lemma_mod_multiples_basic(-(v / m), m);
    assert(v % m - v == (-(v / m)) * m) by (nonlinear_arith)
        requires
            v == m * (v / m) + v % m,
    ;
    assert(v - v % m == (v / m) * m) by (nonlinear_arith)
        requires
            v == m * (v / m) + v % m,
    ;
}

/// Congruence modulo `m` is kept by addition.
pub proof fn lemma_congruent_add(x1: int, y1: int, x2: int, y2: int, m: int)
    requires
        m > 0,
        (x1 - y1) % m == 0,
        (x2 - y2) % m == 0,
    ensures
        ((x1 + x2) - (y1 + y2)) % m == 0,
{
    lemma_add_mod_noop(x1 - y1, x2 - y2, m);
    assert((x1 + x2) - (y1 + y2) == (x1 - y1) + (x2 - y2));
}

/// Reducing four terms modulo `m` before summing them does not change the sum modulo `m`.
pub proof fn lemma_sum4_mod(a0: int, a1: int, a2: int, a3: int, m: int)
    requires
        m > 0,
    ensures
        (a0 % m + a1 % m + a2 % m + a3 % m) % m == (a0 + a1 + a2 + a3) % m,
{
    lemma_mod_difference(a0, m);
    lemma_mod_difference(a1, m);
    lemma_mod_difference(a2, m);
    lemma_mod_difference(a3, m);
    lemma_congruent_add(a0 % m, a0, a1 % m, a1, m);
    lemma_congruent_add(a0 % m + a1 % m, a0 + a1, a2 % m, a2, m);
    lemma_congruent_add(a0 % m + a1 % m + a2 % m, a0 + a1 + a2, a3 % m, a3, m);
    lemma_mod_congruent(a0 % m + a1 % m + a2 % m + a3 % m, a0 + a1 + a2 + a3, m);
}

/// A fixed-width integer type, as seen by the decimal codec.
pub trait FixedWidth: Sized + Copy {
    /// The mathematical value of `self`.
    spec fn to_int(self) -> int;

    /// `2^bits`: arithmetic on the type wraps modulo this.
    spec fn modulus() -> int;

    /// Whether the type holds negative values.
    spec fn is_signed() -> bool;

    /// The length of the type's table of powers of ten: the most decimal digits
    /// that a magnitude of the type can have.
    spec fn max_digits() -> nat;

    /// The value of the type congruent to `v` modulo `modulus()`.
    spec fn wrap(v: int) -> Self;

    /// Each value of the type is its own wrap, has a magnitude of at most
    /// `max_digits()` digits, and is negative only in a signed type.
    proof fn lemma_width(n: Self)
        ensures
            Self::modulus() > 1,
            Self::max_digits() >= 1,
            Self::wrap(n.to_int()) == n,
            magnitude(n.to_int()) < pow10(Self::max_digits()),
            n.to_int() < 0 ==> Self::is_signed(),
    ;

    /// Values congruent modulo `modulus()` wrap to the same value.
    proof fn lemma_wrap_congruent(a: int, b: int)
        requires
            Self::modulus() > 0,
            (a - b) % Self::modulus() == 0,
        ensures
            Self::wrap(a) == Self::wrap(b),
    ;
}

/// A signed width, parsed and formatted through the unsigned width of the same size.
pub trait Signed: FixedWidth {
    /// The unsigned width of the same size.
    type Magnitude: Unsigned;

    /// The signed width shares its table and its modulus with its magnitude's width.
    proof fn lemma_signed()
        ensures
            Self::is_signed(),
            Self::max_digits() == <Self::Magnitude as FixedWidth>::max_digits(),
            Self::modulus() == <Self::Magnitude as FixedWidth>::modulus(),
    ;

    /// The magnitude `m`, negated when `negative`, reinterpreted in two's complement.
    fn from_magnitude(m: Self::Magnitude, negative: bool) -> (r: Self)
        ensures
            r == Self::wrap(
                if negative {
                    -m.to_int()
                } else {
                    m.to_int()
                },
            ),
    ;

    /// The absolute value, as the unsigned width (so that the minimum has one too).
    fn magnitude_of(self) -> (r: Self::Magnitude)
        ensures
            r.to_int() == magnitude(self.to_int()),
    ;

    /// Whether `self` is below zero.
    fn is_negative(self) -> (r: bool)
        ensures
            r <==> self.to_int() < 0,
    ;
}

/// An unsigned width, with the operations of the parse engine.
pub trait Unsigned: FixedWidth {
    /// Wrapping is the remainder modulo `modulus()`, and the table's largest
    /// power of ten is a value of the type.
    proof fn lemma_unsigned(v: int)
        ensures
            !Self::is_signed(),
            Self::modulus() > 1,
            1 <= Self::max_digits() <= 20,
            Self::wrap(v).to_int() == v % Self::modulus(),
            pow10((Self::max_digits() - 1) as nat) < Self::modulus(),
    ;

    /// The values of the type are the remainders modulo `modulus()`.
    proof fn lemma_range(n: Self)
        ensures
            0 <= n.to_int() < Self::modulus(),
    ;

    /// Values with the same mathematical value are equal.
    proof fn lemma_to_int_injective(a: Self, b: Self)
        ensures
            a.to_int() == b.to_int() ==> a == b,
    ;

    /// The length of the table of powers of ten.
    fn table_len() -> (r: usize)
        ensures
            r == Self::max_digits(),
    ;

    /// The value 0.
    fn zero() -> (r: Self)
        ensures
            r.to_int() == 0,
    ;

    /// Entry `i` of the table of powers of ten, which is `10^(table_len - 1 - i)`.
    fn table_entry(i: usize) -> (r: Self)
        requires
            i < Self::max_digits(),
        ensures
            r.to_int() == pow10((Self::max_digits() - 1 - i) as nat),
    ;

    /// `self * d`, wrapping.
    fn times_digit(self, d: u8) -> (r: Self)
        ensures
            r.to_int() == (self.to_int() * d) % Self::modulus(),
    ;

    /// `self + other`, wrapping.
    fn plus(self, other: Self) -> (r: Self)
        ensures
            r.to_int() == (self.to_int() + other.to_int()) % Self::modulus(),
    ;

    /// `self` as a `u64`, which holds every value of an unsigned width.
    fn widen(self) -> (r: u64)
        ensures
            r == self.to_int(),
    ;
}

impl FixedWidth for u8 {
    open spec fn to_int(self) -> int {
        self as int
    }

    open spec fn modulus() -> int {
        0x100
    }

    open spec fn is_signed() -> bool {
        false
    }

    open spec fn max_digits() -> nat {
        POW10_U8_LEN as nat
    }

    open spec fn wrap(v: int) -> u8 {
        (v % 0x100) as u8
    }

    proof fn lemma_width(n: u8) {
        lemma_pow10_values();
    }

    proof fn lemma_wrap_congruent(a: int, b: int) {
        lemma_mod_congruent(a, b, Self::modulus());
    }
}

impl Unsigned for u8 {
    proof fn lemma_unsigned(v: int) {
        lemma_pow10_values();
    }

    proof fn lemma_range(n: u8) {
    }

    proof fn lemma_to_int_injective(a: u8, b: u8) {
    }

    fn table_len() -> (r: usize) {
        POW10_U8_LEN
    }

    fn zero() -> (r: u8) {
        0
    }

    fn table_entry(i: usize) -> (r: u8) {
        proof {
            lemma_pow10_values();
        }
        POW10_U8[i]
    }

    fn times_digit(self, d: u8) -> (r: u8) {
        self.wrapping_mul(d)
    }

    fn plus(self, other: u8) -> (r: u8) {
        self.wrapping_add(other)
    }

    fn widen(self) -> (r: u64) {
        self as u64
    }
}


impl FixedWidth for u16 {
    open spec fn to_int(self) -> int {
        self as int
    }

    open spec fn modulus() -> int {
        0x1_0000
    }

    open spec fn is_signed() -> bool {
        false
    }

    open spec fn max_digits() -> nat {
        POW10_U16_LEN as nat
    }

    open spec fn wrap(v: int) -> u16 {
        (v % 0x1_0000) as u16
    }

    proof fn lemma_width(n: u16) {
        lemma_pow10_values();
    }

    proof fn lemma_wrap_congruent(a: int, b: int) {
        lemma_mod_congruent(a, b, Self::modulus());
    }
}

impl Unsigned for u16 {
    proof fn lemma_unsigned(v: int) {
        lemma_pow10_values();
    }

    proof fn lemma_range(n: u16) {
    }

    proof fn lemma_to_int_injective(a: u16, b: u16) {
    }

    fn table_len() -> (r: usize) {
        POW10_U16_LEN
    }

    fn zero() -> (r: u16) {
        0
    }

    fn table_entry(i: usize) -> (r: u16) {
        proof {
            lemma_pow10_values();
        }
        POW10_U16[i]
    }

    fn times_digit(self, d: u8) -> (r: u16) {
        self.wrapping_mul(d as u16)
    }

    fn plus(self, other: u16) -> (r: u16) {
        self.wrapping_add(other)
    }

    fn widen(self) -> (r: u64) {
        self as u64
    }
}

impl FixedWidth for u32 {
    open spec fn to_int(self) -> int {
        self as int
    }

    open spec fn modulus() -> int {
        0x1_0000_0000
    }

    open spec fn is_signed() -> bool {
        false
    }

    open spec fn max_digits() -> nat {
        POW10_U32_LEN as nat
    }

    open spec fn wrap(v: int) -> u32 {
        (v % 0x1_0000_0000) as u32
    }

    proof fn lemma_width(n: u32) {
        lemma_pow10_values();
    }

    proof fn lemma_wrap_congruent(a: int, b: int) {
        lemma_mod_congruent(a, b, Self::modulus());
    }
}

impl Unsigned for u32 {
    proof fn lemma_unsigned(v: int) {
        lemma_pow10_values();
    }

    proof fn lemma_range(n: u32) {
    }

    proof fn lemma_to_int_injective(a: u32, b: u32) {
    }

    fn table_len() -> (r: usize) {
        POW10_U32_LEN
    }

    fn zero() -> (r: u32) {
        0
    }

    fn table_entry(i: usize) -> (r: u32) {
        proof {
            lemma_pow10_values();
        }
        POW10_U32[i]
    }

    fn times_digit(self, d: u8) -> (r: u32) {
        self.wrapping_mul(d as u32)
    }

    fn plus(self, other: u32) -> (r: u32) {
        self.wrapping_add(other)
    }

    fn widen(self) -> (r: u64) {
        self as u64
    }
}

impl FixedWidth for u64 {
    open spec fn to_int(self) -> int {
        self as int
    }

    open spec fn modulus() -> int {
        0x1_0000_0000_0000_0000
    }

    open spec fn is_signed() -> bool {
        false
    }

    open spec fn max_digits() -> nat {
        POW10_U64_LEN as nat
    }

    open spec fn wrap(v: int) -> u64 {
        (v % 0x1_0000_0000_0000_0000) as u64
    }

    proof fn lemma_width(n: u64) {
        lemma_pow10_values();
    }

    proof fn lemma_wrap_congruent(a: int, b: int) {
        lemma_mod_congruent(a, b, Self::modulus());
    }
}

impl Unsigned for u64 {
    proof fn lemma_unsigned(v: int) {
        lemma_pow10_values();
    }

    proof fn lemma_range(n: u64) {
    }

    proof fn lemma_to_int_injective(a: u64, b: u64) {
    }

    fn table_len() -> (r: usize) {
        POW10_U64_LEN
    }

    fn zero() -> (r: u64) {
        0
    }

    fn table_entry(i: usize) -> (r: u64) {
        proof {
            lemma_pow10_values();
        }
        POW10_U64[i]
    }

    fn times_digit(self, d: u8) -> (r: u64) {
        self.wrapping_mul(d as u64)
    }

    fn plus(self, other: u64) -> (r: u64) {
        self.wrapping_add(other)
    }

    fn widen(self) -> (r: u64) {
        self as u64
    }
}

impl FixedWidth for usize {
    open spec fn to_int(self) -> int {
        self as int
    }

    open spec fn modulus() -> int {
        word_modulus()
    }

    open spec fn is_signed() -> bool {
        false
    }

    open spec fn max_digits() -> nat {
        word_digits()
    }

    open spec fn wrap(v: int) -> usize {
        (v % word_modulus()) as usize
    }

    proof fn lemma_width(n: usize) {
        lemma_pow10_values();
    }

    proof fn lemma_wrap_congruent(a: int, b: int) {
        lemma_mod_congruent(a, b, Self::modulus());
    }
}

impl Unsigned for usize {
    proof fn lemma_unsigned(v: int) {
        lemma_pow10_values();
    }

    proof fn lemma_range(n: usize) {
    }

    proof fn lemma_to_int_injective(a: usize, b: usize) {
    }

    fn table_len() -> (r: usize) {
        if usize::BITS == 64 {
            POW10_U64_LEN
        } else {
            POW10_U32_LEN
        }
    }

    fn zero() -> (r: usize) {
        0
    }

    fn table_entry(i: usize) -> (r: usize) {
        proof {
            lemma_pow10_values();
        }
        if usize::BITS == 64 {
            POW10_U64[i] as usize
        } else {
            POW10_U32[i] as usize
        }
    }

    fn times_digit(self, d: u8) -> (r: usize) {
        self.wrapping_mul(d as usize)
    }

    fn plus(self, other: usize) -> (r: usize) {
        self.wrapping_add(other)
    }

    fn widen(self) -> (r: u64) {
        self as u64
    }
}

impl FixedWidth for i8 {
    open spec fn to_int(self) -> int {
        self as int
    }

    open spec fn modulus() -> int {
        0x100
    }

    open spec fn is_signed() -> bool {
        true
    }

    open spec fn max_digits() -> nat {
        POW10_U8_LEN as nat
    }

    open spec fn wrap(v: int) -> i8 {
        wrap_signed(v, 0x100) as i8
    }

    proof fn lemma_width(n: i8) {
        lemma_pow10_values();
    }

    proof fn lemma_wrap_congruent(a: int, b: int) {
        lemma_mod_congruent(a, b, Self::modulus());
    }
}

impl FixedWidth for i16 {
    open spec fn to_int(self) -> int {
        self as int
    }

    open spec fn modulus() -> int {
        0x1_0000
    }

    open spec fn is_signed() -> bool {
        true
    }

    open spec fn max_digits() -> nat {
        POW10_U16_LEN as nat
    }

    open spec fn wrap(v: int) -> i16 {
        wrap_signed(v, 0x1_0000) as i16
    }

    proof fn lemma_width(n: i16) {
        lemma_pow10_values();
    }

    proof fn lemma_wrap_congruent(a: int, b: int) {
        lemma_mod_congruent(a, b, Self::modulus());
    }
}

impl FixedWidth for i32 {
    open spec fn to_int(self) -> int {
        self as int
    }

    open spec fn modulus() -> int {
        0x1_0000_0000
    }

    open spec fn is_signed() -> bool {
        true
    }

    open spec fn max_digits() -> nat {
        POW10_U32_LEN as nat
    }

    open spec fn wrap(v: int) -> i32 {
        wrap_signed(v, 0x1_0000_0000) as i32
    }

    proof fn lemma_width(n: i32) {
        lemma_pow10_values();
    }

    proof fn lemma_wrap_congruent(a: int, b: int) {
        lemma_mod_congruent(a, b, Self::modulus());
    }
}

impl FixedWidth for i64 {
    open spec fn to_int(self) -> int {
        self as int
    }

    open spec fn modulus() -> int {
        0x1_0000_0000_0000_0000
    }

    open spec fn is_signed() -> bool {
        true
    }

    open spec fn max_digits() -> nat {
        POW10_U64_LEN as nat
    }

    open spec fn wrap(v: int) -> i64 {
        wrap_signed(v, 0x1_0000_0000_0000_0000) as i64
    }

    proof fn lemma_width(n: i64) {
        lemma_pow10_values();
    }

    proof fn lemma_wrap_congruent(a: int, b: int) {
        lemma_mod_congruent(a, b, Self::modulus());
    }
}

impl FixedWidth for isize {
    open spec fn to_int(self) -> int {
        self as int
    }

    open spec fn modulus() -> int {
        word_modulus()
    }

    open spec fn is_signed() -> bool {
        true
    }

    open spec fn max_digits() -> nat {
        word_digits()
    }

    open spec fn wrap(v: int) -> isize {
        wrap_signed(v, word_modulus()) as isize
    }

    proof fn lemma_width(n: isize) {
        lemma_pow10_values();
    }

    proof fn lemma_wrap_congruent(a: int, b: int) {
        lemma_mod_congruent(a, b, Self::modulus());
    }
}

impl Signed for i8 {
    type Magnitude = u8;

    proof fn lemma_signed() {
    }

    fn from_magnitude(m: u8, negative: bool) -> (r: i8) {
        let bits: u8 = if negative {
            0u8.wrapping_sub(m)
        } else {
            m
        };
        proof {
            assert(bits >= 0x80 ==> (bits as i8) == bits - 0x100) by (bit_vector);
            assert(bits < 0x80 ==> (bits as i8) == bits) by (bit_vector);
        }
        bits as i8
    }

    fn magnitude_of(self) -> (r: u8) {
        let x = self;
        proof {
            assert(x < 0 ==> (x as u8) == x + 0x100) by (bit_vector);
        }
        if x < 0 {
            0u8.wrapping_sub(x as u8)
        } else {
            x as u8
        }
    }

    fn is_negative(self) -> (r: bool) {
        self < 0
    }
}

impl Signed for i16 {
    type Magnitude = u16;

    proof fn lemma_signed() {
    }

    fn from_magnitude(m: u16, negative: bool) -> (r: i16) {
        let bits: u16 = if negative {
            0u16.wrapping_sub(m)
        } else {
            m
        };
        proof {
            assert(bits >= 0x8000 ==> (bits as i16) == bits - 0x1_0000) by (bit_vector);
            assert(bits < 0x8000 ==> (bits as i16) == bits) by (bit_vector);
        }
        bits as i16
    }

    fn magnitude_of(self) -> (r: u16) {
        let x = self;
        proof {
            assert(x < 0 ==> (x as u16) == x + 0x1_0000) by (bit_vector);
        }
        if x < 0 {
            0u16.wrapping_sub(x as u16)
        } else {
            x as u16
        }
    }

    fn is_negative(self) -> (r: bool) {
        self < 0
    }
}

impl Signed for i32 {
    type Magnitude = u32;

    proof fn lemma_signed() {
    }

    fn from_magnitude(m: u32, negative: bool) -> (r: i32) {
        let bits: u32 = if negative {
            0u32.wrapping_sub(m)
        } else {
            m
        };
        proof {
            assert(bits >= 0x8000_0000 ==> (bits as i32) == bits - 0x1_0000_0000) by (bit_vector);
            assert(bits < 0x8000_0000 ==> (bits as i32) == bits) by (bit_vector);
        }
        bits as i32
    }

    fn magnitude_of(self) -> (r: u32) {
        let x = self;
        proof {
            assert(x < 0 ==> (x as u32) == x + 0x1_0000_0000) by (bit_vector);
        }
        if x < 0 {
            0u32.wrapping_sub(x as u32)
        } else {
            x as u32
        }
    }

    fn is_negative(self) -> (r: bool) {
        self < 0
    }
}

impl Signed for i64 {
    type Magnitude = u64;

    proof fn lemma_signed() {
    }

    fn from_magnitude(m: u64, negative: bool) -> (r: i64) {
        let bits: u64 = if negative {
            0u64.wrapping_sub(m)
        } else {
            m
        };
        proof {
            assert(bits >= 0x8000_0000_0000_0000 ==> (bits as i64) == bits - 0x1_0000_0000_0000_0000) by (bit_vector);
            assert(bits < 0x8000_0000_0000_0000 ==> (bits as i64) == bits) by (bit_vector);
        }
        bits as i64
    }

    fn magnitude_of(self) -> (r: u64) {
        let x = self;
        proof {
            assert(x < 0 ==> (x as u64) == x + 0x1_0000_0000_0000_0000) by (bit_vector);
        }
        if x < 0 {
            0u64.wrapping_sub(x as u64)
        } else {
            x as u64
        }
    }

    fn is_negative(self) -> (r: bool) {
        self < 0
    }
}

impl Signed for isize {
    type Magnitude = usize;

    proof fn lemma_signed() {
    }

    fn from_magnitude(m: usize, negative: bool) -> (r: isize) {
        if usize::BITS == 64 {
            i64::from_magnitude(m as u64, negative) as isize
        } else {
            i32::from_magnitude(m as u32, negative) as isize
        }
    }

    fn magnitude_of(self) -> (r: usize) {
        if usize::BITS == 64 {
            (self as i64).magnitude_of() as usize
        } else {
            (self as i32).magnitude_of() as usize
        }
    }

    fn is_negative(self) -> (r: bool) {
        self < 0
    }
}

} // verus!
