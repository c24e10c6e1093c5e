//! Numbers as IEEE-754 binary64 bit patterns, and their conversion to
//! integers by truncation toward zero with saturation.
use vstd::prelude::*;

verus! {

/// The bit pattern of the number 1.
pub const ONE: u64 = 0x3ff0_0000_0000_0000;

/// The bit pattern of the number 0.
pub const ZERO: u64 = 0;

/// The biased exponent field.
pub open spec fn exponent(bits: u64) -> u64 {
    (bits >> 52) & 0x7ff
}

/// The fraction field.
pub open spec fn fraction(bits: u64) -> u64 {
    bits & 0x000f_ffff_ffff_ffff
}

/// The sign bit is set.
pub open spec fn is_negative(bits: u64) -> bool {
    bits >> 63 == 1
}

/// The pattern is not a number.
pub open spec fn is_nan(bits: u64) -> bool {
    exponent(bits) == 0x7ff && fraction(bits) != 0
}

/// The integer part of the absolute value, capped at 2^63.
pub open spec fn magnitude(bits: u64) -> u64 {
    let e = exponent(bits);
    let significand = fraction(bits) | 0x0010_0000_0000_0000;
    if e < 1023 {
        0
    } else if e <= 1075 {
        significand >> ((1075 - e) as u64)
    } else if e <= 1085 {
        significand << ((e - 1075) as u64)
    } else {
        0x8000_0000_0000_0000
    }
}

/// The number truncated toward zero; 0 where it is not a number. Beyond
/// the range of 64-bit integers the result lies at -2^63 or 2^63.
pub open spec fn truncated(bits: u64) -> int {
    if is_nan(bits) {
        0
    } else if is_negative(bits) {
        -(magnitude(bits) as int)
    } else {
        magnitude(bits) as int
    }
}

/// `x` moved into the range from `lo` to `hi`.
pub open spec fn saturate(x: int, lo: int, hi: int) -> int {
    if x < lo {
        lo
    } else if x > hi {
        hi
    } else {
        x
    }
}

proof fn lemma_magnitude_bound(bits: u64)
    ensures
        magnitude(bits) <= 0x8000_0000_0000_0000,
{
    let e = exponent(bits);
    let f = fraction(bits);
    let significand = f | 0x0010_0000_0000_0000;
    assert(significand < 0x0020_0000_0000_0000) by (bit_vector)
        requires
            f == bits & 0x000f_ffff_ffff_ffff,
            significand == f | 0x0010_0000_0000_0000,
    ;
    if 1023 <= e && e <= 1075 {
        let k = (1075 - e) as u64;
        assert(significand >> k <= significand) by (bit_vector)
            requires
                k < 64,
        ;
    } else if 1075 < e && e <= 1085 {
        let k = (e - 1075) as u64;
        assert(significand << k < 0x8000_0000_0000_0000) by (bit_vector)
            requires
                k <= 10,
                significand < 0x0020_0000_0000_0000,
        ;
    }
}

/// The number as a 64-bit integer: truncated toward zero, saturated at
/// the ends of the range, 0 where it is not a number.
pub fn to_i64(bits: u64) -> (r: i64)
    ensures
        r == saturate(truncated(bits), i64::MIN as int, i64::MAX as int),
{
    let e: u64 = (bits >> 52) & 0x7ff;
    let f: u64 = bits & 0x000f_ffff_ffff_ffff;
    let negative = (bits >> 63) == 1;
    if e == 0x7ff && f != 0 {
        return 0;
    }
    let significand: u64 = f | 0x0010_0000_0000_0000;
    proof {
        lemma_magnitude_bound(bits);
    }
    let mag: u64 = if e < 1023 {
        0
    } else if e <= 1075 {
        significand >> (1075 - e)
    } else if e <= 1085 {
        significand << (e - 1075)
    } else {
        0x8000_0000_0000_0000
    };
    assert(mag == magnitude(bits));
    if negative {
        if mag >= 0x8000_0000_0000_0000 {
            i64::MIN
        } else {
            -(mag as i64)
        }
    } else {
        if mag >= 0x8000_0000_0000_0000 {
            i64::MAX
        } else {
            mag as i64
        }
    }
}

/// The number as an unsigned byte, saturated.
pub fn to_u8(bits: u64) -> (r: u8)
    ensures
        r == saturate(truncated(bits), 0, 255),
{
    proof {
        lemma_magnitude_bound(bits);
    }
    let x = to_i64(bits);
    if x < 0 {
        0
    } else if x > 255 {
        255
    } else {
        x as u8
    }
}

/// The number as a signed 16-bit integer, saturated.
pub fn to_i16(bits: u64) -> (r: i16)
    ensures
        r == saturate(truncated(bits), i16::MIN as int, i16::MAX as int),
{
    proof {
        lemma_magnitude_bound(bits);
    }
    let x = to_i64(bits);
    if x < -32768 {
        -32768
    } else if x > 32767 {
        32767
    } else {
        x as i16
    }
}

/// The number as a signed 32-bit integer, saturated.
pub fn to_i32(bits: u64) -> (r: i32)
    ensures
        r == saturate(truncated(bits), i32::MIN as int, i32::MAX as int),
{
    proof {
        lemma_magnitude_bound(bits);
    }
    let x = to_i64(bits);
    if x < -2147483648 {
        -2147483648
    } else if x > 2147483647 {
        2147483647
    } else {
        x as i32
    }
}

/// Two patterns denote equal numbers: neither is not a number, and
/// they are the same pattern or both a zero of either sign.
pub open spec fn equal_numbers(a: u64, b: u64) -> bool {
    !is_nan(a) && !is_nan(b) && (a == b || (a & 0x7fff_ffff_ffff_ffff == 0 && b
        & 0x7fff_ffff_ffff_ffff == 0))
}

pub fn number_eq(a: u64, b: u64) -> (r: bool)
    ensures
        r == equal_numbers(a, b),
{
    let a_nan = ((a >> 52) & 0x7ff) == 0x7ff && (a & 0x000f_ffff_ffff_ffff) != 0;
    let b_nan = ((b >> 52) & 0x7ff) == 0x7ff && (b & 0x000f_ffff_ffff_ffff) != 0;
    !a_nan && !b_nan && (a == b || ((a & 0x7fff_ffff_ffff_ffff) == 0 && (b
        & 0x7fff_ffff_ffff_ffff) == 0))
}

/// The numbers 0 and 1 truncate to themselves.
pub proof fn truncated_unit()
    ensures
        truncated(ZERO) == 0,
        truncated(ONE) == 1,
{
    assert(((0u64 >> 52) & 0x7ff) == 0) by (bit_vector);
    assert((0x3ff0_0000_0000_0000u64 >> 52) & 0x7ff == 1023) by (bit_vector);
    assert(0x3ff0_0000_0000_0000u64 & 0x000f_ffff_ffff_ffff == 0) by (bit_vector);
    assert(0x3ff0_0000_0000_0000u64 >> 63 == 0) by (bit_vector);
    assert((0u64 | 0x0010_0000_0000_0000) >> 52 == 1) by (bit_vector);
}

} // verus!
