//! Binary-coded-decimal codec.
//!
//! A BCD byte holds a decimal tens digit in its high nibble and a decimal
//! units digit in its low nibble.
use vstd::prelude::*;

verus! {

/// Whether both nibbles of `value` are decimal digits.
pub open spec fn is_bcd(value: u8) -> bool {
    value / 16 <= 9 && value % 16 <= 9
}

/// The number that a BCD byte stands for: ten times the high nibble plus the
/// low nibble. Defined for every byte; a nibble above nine is counted as it is.
pub open spec fn spec_bcd_to_dec(value: u8) -> u8 {
    ((value / 16) * 10 + value % 16) as u8
}

/// The BCD byte of a number: tens digit in the high nibble, units digit in the
/// low nibble, reduced modulo 256. Exact for `0..=99`; larger values alias.
pub open spec fn spec_dec_to_bcd(value: u8) -> u8 {
    (((value / 10) * 16 + value % 10) % 256) as u8
}

/// Decodes a BCD byte.
///
/// No validation is made: a nibble above nine yields a numerically wrong
/// result, never a failure.
pub fn bcd_to_dec(value: u8) -> (dec: u8)
    ensures
        dec == spec_bcd_to_dec(value),
        dec == (value / 16) * 10 + value % 16,
        is_bcd(value) ==> dec <= 99,
{
    ((value / 0x10) * 10) + (value % 0x10)
}

/// Encodes a number as a BCD byte.
///
/// Meant for `0..=99`. A larger value is not rejected: its tens count is
/// shifted into the high nibble and what does not fit in a byte is lost.
pub fn dec_to_bcd(value: u8) -> (bcd: u8)
    ensures
        bcd == spec_dec_to_bcd(value),
        value <= 99 ==> bcd == (value / 10) * 16 + value % 10 && is_bcd(bcd),
{
    let tens: u8 = value / 10;
    let units: u8 = value % 10;
    // The tens count is at most 25, so sixteen times it wraps at most once.
    assert((tens as nat * 16) % 256 == if tens >= 16 {
        tens * 16 - 256
    } else {
        tens * 16
    });
    tens.wrapping_mul(0x10).wrapping_add(units)
}

/// Encoding undoes decoding on every valid BCD byte.
pub proof fn lemma_bcd_round_trip(b: u8)
    requires
        is_bcd(b),
    ensures
        spec_dec_to_bcd(spec_bcd_to_dec(b)) == b,
{
    // The decoded number has the high nibble for its tens and the low nibble
    // for its units.
    let hi: int = b as int / 16;
    let lo: int = b as int % 16;
    assert(spec_bcd_to_dec(b) == hi * 10 + lo);
    assert((hi * 10 + lo) / 10 == hi && (hi * 10 + lo) % 10 == lo);
}

/// Decoding undoes encoding on every value from 0 to 99.
pub proof fn lemma_dec_round_trip(v: u8)
    requires
        v <= 99,
    ensures
        spec_bcd_to_dec(spec_dec_to_bcd(v)) == v,
        is_bcd(spec_dec_to_bcd(v)),
{
    // The encoded byte has the tens digit for its high nibble and the units
    // digit for its low nibble.
    let tens: int = v as int / 10;
    let units: int = v as int % 10;
    assert(spec_dec_to_bcd(v) == tens * 16 + units);
    assert((tens * 16 + units) / 16 == tens && (tens * 16 + units) % 16 == units);
}

} // verus!
