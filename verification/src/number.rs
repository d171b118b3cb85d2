//! Integer arithmetic of the language: 64 bits, wrapping around.

use vstd::prelude::*;
use vstd::wrapping::i64_specs::signed_crop;

verus! {

/// The quotient of two integers, rounded towards zero.
pub open spec fn quotient(a: int, b: int) -> int
    recommends
        b != 0,
{
    if a >= 0 && b > 0 {
        a / b
    } else if a < 0 && b > 0 {
        -((-a) / b)
    } else if a >= 0 && b < 0 {
        -(a / (-b))
    } else {
        (-a) / (-b)
    }
}

/// The quotient of two 64-bit integers, rounded towards zero and wrapped
/// around: the least integer divided by -1 is itself.
pub open spec fn wrapping_quotient(a: i64, b: i64) -> i64
    recommends
        b != 0,
{
    signed_crop(quotient(a as int, b as int))
}

/// The quotient of two 64-bit integers stays within 64 bits, but for the
/// least integer divided by -1.
pub proof fn quotient_in_range(a: i64, b: i64)
    requires
        b != 0,
    ensures
        -0x8000_0000_0000_0000 <= quotient(a as int, b as int) <= 0x8000_0000_0000_0000,
        quotient(a as int, b as int) == 0x8000_0000_0000_0000 <==> a == i64::MIN && b == -1,
        wrapping_quotient(a, b) == if a == i64::MIN && b == -1 {
            a as int
        } else {
            quotient(a as int, b as int)
        },
{
    let x: int = if a >= 0 {
        a as int
    } else {
        -a
    };
    let d: int = if b > 0 {
        b as int
    } else {
        -b
    };
    vstd::arithmetic::div_mod::lemma_div_pos_is_pos(x, d);
    vstd::arithmetic::div_mod::lemma_div_nonincreasing(x, d);
    if x > 0 && d > 1 {
        vstd::arithmetic::div_mod::lemma_div_decreases(x, d);
    }
    if d == 1 {
        assert(x / 1 == x);
    }
}

/// Divides, rounding towards zero and wrapping around.
pub fn divide(a: i64, b: i64) -> (r: i64)
    requires
        b != 0,
    ensures
        r == wrapping_quotient(a, b),
{
    proof {
        quotient_in_range(a, b);
    }
    if b == i64::MIN {
        if a == i64::MIN {
            1
        } else {
            0
        }
    } else if b < 0 {
        if a == i64::MIN && b == -1 {
            a
        } else {
            let q: i64 = a / (-b);
            -q
        }
    } else {
        a / b
    }
}

} // verus!
