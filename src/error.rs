//! The error of the checked parse.
use vstd::prelude::*;

verus! {

/// Why a checked parse failed.
#[derive(Copy, Clone, Debug, Eq, PartialOrd, Ord)]
pub enum ParseIntErr {
    /// A byte that is not a decimal digit; it holds that byte.
    InvalidDigit([u8; 1]),
    /// The input has more digits than the target type's table of powers of ten.
    Overflow,
}

impl PartialEq for ParseIntErr {
    fn eq(&self, other: &ParseIntErr) -> (r: bool) {
        match (self, other) {
            (ParseIntErr::InvalidDigit(a), ParseIntErr::InvalidDigit(b)) => {
                let r = a[0] == b[0];
                proof {
                    broadcast use vstd::array::group_array_axioms;

                    if r {
                        assert(*a =~= *b);
                    }
                }
                r
            },
            (ParseIntErr::Overflow, ParseIntErr::Overflow) => true,
            _ => false,
        }
    }
}

impl vstd::std_specs::cmp::PartialEqSpecImpl for ParseIntErr {
    open spec fn obeys_eq_spec() -> bool {
        true
    }

    open spec fn eq_spec(&self, other: &ParseIntErr) -> bool {
        *self == *other
    }
}

impl ParseIntErr {
    /// The error for the non-digit byte `c`.
    pub fn with_byte(c: u8) -> (r: Self)
        ensures
            r == ParseIntErr::InvalidDigit([c]),
    {
        ParseIntErr::InvalidDigit([c])
    }
}

} // verus!
