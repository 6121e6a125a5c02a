//! Order of IEEE 754 numbers, read off their bit patterns.
//!
//! Amplitudes and scores reach this library as the bit patterns of binary
//! floating-point numbers: 32 bits for an amplitude, 64 bits for a score.
//! The library never computes with them; it only compares them. A number's
//! `rank` is a signed integer that grows with the number: the magnitude bits,
//! negated where the sign bit is set. Both zeros have rank zero. A pattern
//! whose magnitude lies above that of infinity is not a number and compares
//! with nothing.

use vstd::prelude::*;

verus! {

/// The sign bit of a 32-bit pattern.
pub const SIGN_32: u32 = 0x8000_0000;

/// The magnitude bits of 32-bit infinity.
pub const INFINITY_32: u32 = 0x7f80_0000;

/// The pattern of the largest finite 32-bit number.
pub const MAX_32: u32 = 0x7f7f_ffff;

/// The pattern of the smallest finite 32-bit number, the negative of `MAX_32`.
pub const MIN_32: u32 = 0xff7f_ffff;

/// The sign bit of a 64-bit pattern.
pub const SIGN_64: u64 = 0x8000_0000_0000_0000;

/// The magnitude bits of 64-bit infinity.
pub const INFINITY_64: u64 = 0x7ff0_0000_0000_0000;

/// The 64-bit pattern of negative infinity.
pub const NEG_INFINITY_64: u64 = 0xfff0_0000_0000_0000;

/// The 64-bit pattern of zero.
pub const ZERO_64: u64 = 0;

/// The 64-bit pattern of one hundred.
pub const HUNDRED_64: u64 = 0x4059_0000_0000_0000;

/// The magnitude bits of a 32-bit pattern.
pub open spec fn magnitude32(bits: u32) -> int {
    if bits >= SIGN_32 {
        bits - SIGN_32
    } else {
        bits as int
    }
}

/// Whether a 32-bit pattern is not a number.
pub open spec fn is_nan32(bits: u32) -> bool {
    magnitude32(bits) > INFINITY_32
}

/// The rank of a 32-bit pattern.
pub open spec fn rank32(bits: u32) -> int {
    if bits >= SIGN_32 {
        -magnitude32(bits)
    } else {
        magnitude32(bits)
    }
}

/// Whether `a` is a smaller number than `b`. False where either is not a
/// number.
pub open spec fn lt32(a: u32, b: u32) -> bool {
    !is_nan32(a) && !is_nan32(b) && rank32(a) < rank32(b)
}

/// Whether `a` is a number no larger than `b`. False where either is not a
/// number.
pub open spec fn le32(a: u32, b: u32) -> bool {
    !is_nan32(a) && !is_nan32(b) && rank32(a) <= rank32(b)
}

/// The magnitude bits of a 64-bit pattern.
pub open spec fn magnitude64(bits: u64) -> int {
    if bits >= SIGN_64 {
        bits - SIGN_64
    } else {
        bits as int
    }
}

/// Whether a 64-bit pattern is not a number.
pub open spec fn is_nan64(bits: u64) -> bool {
    magnitude64(bits) > INFINITY_64
}

/// The rank of a 64-bit pattern.
pub open spec fn rank64(bits: u64) -> int {
    if bits >= SIGN_64 {
        -magnitude64(bits)
    } else {
        magnitude64(bits)
    }
}

/// Whether `a` is a smaller number than `b`. False where either is not a
/// number.
pub open spec fn lt64(a: u64, b: u64) -> bool {
    !is_nan64(a) && !is_nan64(b) && rank64(a) < rank64(b)
}

/// Whether `a` is a number no larger than `b`. False where either is not a
/// number.
pub open spec fn le64(a: u64, b: u64) -> bool {
    !is_nan64(a) && !is_nan64(b) && rank64(a) <= rank64(b)
}

/// Whether a 32-bit pattern is not a number.
pub fn not_a_number32(bits: u32) -> (nan: bool)
    ensures
        nan == is_nan32(bits),
{
    let magnitude: u32 = if bits >= SIGN_32 {
        bits - SIGN_32
    } else {
        bits
    };
    magnitude > INFINITY_32
}

/// Computes the rank of a 32-bit pattern.
pub fn rank_of32(bits: u32) -> (rank: i64)
    ensures
        rank == rank32(bits),
{
    if bits >= SIGN_32 {
        0i64 - ((bits - SIGN_32) as i64)
    } else {
        bits as i64
    }
}

/// Compares two 32-bit patterns as numbers: whether `a` is smaller than `b`.
pub fn less32(a: u32, b: u32) -> (smaller: bool)
    ensures
        smaller == lt32(a, b),
{
    !not_a_number32(a) && !not_a_number32(b) && rank_of32(a) < rank_of32(b)
}

/// Whether a 64-bit pattern is not a number.
pub fn not_a_number64(bits: u64) -> (nan: bool)
    ensures
        nan == is_nan64(bits),
{
    let magnitude: u64 = if bits >= SIGN_64 {
        bits - SIGN_64
    } else {
        bits
    };
    magnitude > INFINITY_64
}

/// Computes the rank of a 64-bit pattern.
pub fn rank_of64(bits: u64) -> (rank: i64)
    ensures
        rank == rank64(bits),
{
    if bits >= SIGN_64 {
        0i64 - ((bits - SIGN_64) as i64)
    } else {
        bits as i64
    }
}

/// Compares two 64-bit patterns as numbers: whether `a` is smaller than `b`.
pub fn less64(a: u64, b: u64) -> (smaller: bool)
    ensures
        smaller == lt64(a, b),
{
    !not_a_number64(a) && !not_a_number64(b) && rank_of64(a) < rank_of64(b)
}

/// The larger of a score and zero, as the maximum of two numbers: where the
/// score is not a number, zero.
pub open spec fn at_least_zero(bits: u64) -> u64 {
    if is_nan64(bits) || lt64(bits, ZERO_64) {
        ZERO_64
    } else {
        bits
    }
}

/// The smaller of a score and one hundred, as the minimum of two numbers:
/// where the score is not a number, one hundred.
pub open spec fn at_most_hundred(bits: u64) -> u64 {
    if is_nan64(bits) || lt64(HUNDRED_64, bits) {
        HUNDRED_64
    } else {
        bits
    }
}

/// Caps a score at one hundred.
pub fn cap_at_hundred(bits: u64) -> (capped: u64)
    ensures
        capped == at_most_hundred(bits),
        le64(capped, HUNDRED_64),
        le64(ZERO_64, bits) ==> le64(ZERO_64, capped),
{
    if not_a_number64(bits) || less64(HUNDRED_64, bits) {
        HUNDRED_64
    } else {
        bits
    }
}

/// Holds a score to the range from zero to one hundred.
pub fn clamp_percent(bits: u64) -> (held: u64)
    ensures
        held == at_most_hundred(at_least_zero(bits)),
        le64(ZERO_64, held),
        le64(held, HUNDRED_64),
{
    let raised: u64 = if not_a_number64(bits) || less64(bits, ZERO_64) {
        ZERO_64
    } else {
        bits
    };
    cap_at_hundred(raised)
}

} // verus!
