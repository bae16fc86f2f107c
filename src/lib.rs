//! Conversion between decimal ASCII bytes and fixed-width integers.
//!
//! Parsing aligns the input with the tail of a per-width table of powers of ten
//! and accumulates four digits at a time with wrapping arithmetic. Formatting
//! writes digits from the least significant end, four at a time.
pub mod constants;
pub mod decimal;
pub mod error;
pub mod width;
pub mod engine;
pub mod sign;
pub mod from_ascii;
pub mod into_ascii;
pub mod convert;
pub mod convert_simd;
pub mod laws;
