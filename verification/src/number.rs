//! Numbers of the language, held as the bit pattern of a 64-bit IEEE-754 value.
//!
//! Comparing and negating such a number is exact on the bits and is done here.
//! Sums, differences, products and quotients round; the machine hands them to
//! its host (see `event::Request::Arithmetic`).

use vstd::prelude::*;

verus! {

/// The sign bit: a pattern is negative when it is at least this large.
pub const SIGN_BIT: u64 = 0x8000_0000_0000_0000;

/// The magnitude of infinity. Larger magnitudes are not numbers.
pub const INFINITY: u64 = 0x7ff0_0000_0000_0000;

/// The pattern without its sign.
pub open spec fn magnitude(bits: u64) -> int {
    if bits >= SIGN_BIT {
        bits - SIGN_BIT
    } else {
        bits as int
    }
}

/// Whether the pattern stands for "not a number".
pub open spec fn is_nan(bits: u64) -> bool {
    magnitude(bits) > INFINITY
}

/// The place of a pattern in numeric order. Both zeros share a place.
pub open spec fn rank(bits: u64) -> int {
    if bits >= SIGN_BIT {
        -magnitude(bits)
    } else {
        magnitude(bits)
    }
}

/// Numeric equality: never true of "not a number".
pub open spec fn same_number(a: u64, b: u64) -> bool {
    !is_nan(a) && !is_nan(b) && rank(a) == rank(b)
}

/// Numeric order: never true of "not a number".
pub open spec fn below(a: u64, b: u64) -> bool {
    !is_nan(a) && !is_nan(b) && rank(a) < rank(b)
}

/// The pattern with the other sign.
pub open spec fn negated(bits: u64) -> u64 {
    if bits >= SIGN_BIT {
        (bits - SIGN_BIT) as u64
    } else {
        (bits + SIGN_BIT) as u64
    }
}

fn strip_sign(bits: u64) -> (m: u64)
    ensures
        m == magnitude(bits),
{
    if bits >= SIGN_BIT {
        bits - SIGN_BIT
    } else {
        bits
    }
}

fn signed_rank(bits: u64) -> (r: i64)
    ensures
        r == rank(bits),
{
    let m: u64 = strip_sign(bits);
    if bits >= SIGN_BIT {
        -(m as i64)
    } else {
        m as i64
    }
}

/// Whether two numbers are equal.
pub fn number_eq(a: u64, b: u64) -> (r: bool)
    ensures
        r == same_number(a, b),
{
    strip_sign(a) <= INFINITY && strip_sign(b) <= INFINITY && signed_rank(a) == signed_rank(b)
}

/// Whether the first number is less than the second.
pub fn number_lt(a: u64, b: u64) -> (r: bool)
    ensures
        r == below(a, b),
{
    strip_sign(a) <= INFINITY && strip_sign(b) <= INFINITY && signed_rank(a) < signed_rank(b)
}

/// The number with its sign changed.
pub fn number_neg(bits: u64) -> (r: u64)
    ensures
        r == negated(bits),
{
    if bits >= SIGN_BIT {
        bits - SIGN_BIT
    } else {
        bits + SIGN_BIT
    }
}

/// Changing the sign twice gives the number back.
pub proof fn negate_twice(bits: u64)
    ensures
        negated(negated(bits)) == bits,
{
}

/// Two numbers are equal, or one is below the other, or one of them is "not a
/// number"; no two of these hold at once.
pub proof fn numbers_compare_one_way(a: u64, b: u64)
    ensures
        is_nan(a) || is_nan(b) <==> !same_number(a, b) && !below(a, b) && !below(b, a),
        !(same_number(a, b) && below(a, b)),
        !(below(a, b) && below(b, a)),
{
}

} // verus!
