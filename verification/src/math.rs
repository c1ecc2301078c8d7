//! Safe fixed-point arithmetic over 128-bit signed integers.
//!
//! Every operation reports [`Error::Overflow`] instead of wrapping or
//! truncating when the native operation would overflow or divide by zero.
//! All money movements of the contract go through these operations.

use vstd::prelude::*;
use vstd::arithmetic::div_mod::{lemma_div_nonincreasing, lemma_div_pos_is_pos};

use crate::types::Error;
use crate::PERCENTAGE_FACTOR;

verus! {

/// `x` fits into a 128-bit signed integer.
pub open spec fn in_i128(x: int) -> bool {
    i128::MIN <= x <= i128::MAX
}

/// Division truncating toward zero, as the native `/` computes it.
pub open spec fn trunc_div(x: int, d: int) -> int
    recommends
        d != 0,
{
    if x >= 0 && d > 0 {
        x / d
    } else if x < 0 && d < 0 {
        (-x) / (-d)
    } else if x < 0 {
        -((-x) / d)
    } else {
        -(x / (-d))
    }
}

/// Truncating division never grows the magnitude of the dividend, and the
/// result's sign follows the operands' signs.
pub proof fn lemma_trunc_div_bounds(x: int, d: int)
    requires
        d != 0,
    ensures
        x >= 0 && d > 0 ==> 0 <= trunc_div(x, d) <= x,
        x >= 0 && d < 0 ==> -x <= trunc_div(x, d) <= 0,
        x < 0 && d > 0 ==> x <= trunc_div(x, d) <= 0,
        x < 0 && d < 0 ==> 0 <= trunc_div(x, d) <= -x,
{
    if x >= 0 {
        if d > 0 {
            lemma_div_pos_is_pos(x, d);
            lemma_div_nonincreasing(x, d);
        } else {
            lemma_div_pos_is_pos(x, -d);
            lemma_div_nonincreasing(x, -d);
        }
    } else {
        if d < 0 {
            lemma_div_pos_is_pos(-x, -d);
            lemma_div_nonincreasing(-x, -d);
        } else {
            lemma_div_pos_is_pos(-x, d);
            lemma_div_nonincreasing(-x, d);
        }
    }
}

/// Addition with overflow check.
pub fn sum(a: i128, b: i128) -> (r: Result<i128, Error>)
    ensures
        in_i128(a + b) ==> r == Ok::<i128, Error>((a + b) as i128),
        !in_i128(a + b) ==> r == Err::<i128, Error>(Error::Overflow),
{
    match a.checked_add(b) {
        Some(v) => Ok(v),
        None => Err(Error::Overflow),
    }
}

/// Multiplication with overflow check.
pub fn mul(a: i128, b: i128) -> (r: Result<i128, Error>)
    ensures
        in_i128(a * b) ==> r == Ok::<i128, Error>((a * b) as i128),
        !in_i128(a * b) ==> r == Err::<i128, Error>(Error::Overflow),
{
    match a.checked_mul(b) {
        Some(v) => Ok(v),
        None => Err(Error::Overflow),
    }
}

/// Division with overflow and division-by-zero check.
pub fn div(a: i128, b: i128) -> (r: Result<i128, Error>)
    ensures
        b != 0 && !(a == i128::MIN && b == -1) ==> r == Ok::<i128, Error>(
            trunc_div(a as int, b as int) as i128,
        ),
        b == 0 || (a == i128::MIN && b == -1) ==> r == Err::<i128, Error>(Error::Overflow),
{
    proof {
        if b != 0 {
            lemma_trunc_div_bounds(a as int, b as int);
            let q = trunc_div(a as int, b as int);
            if a == i128::MIN {
                if b == -1 {
                    assert((-(a as int)) / (-(b as int)) == -(a as int)) by {
                        vstd::arithmetic::div_mod::lemma_div_basics(-(a as int));
                    }
                    assert(q == i128::MAX as int + 1);
                } else if b < -1 {
                    assert(q == (-(a as int)) / (-(b as int)));
                    assert((-(a as int)) / (-(b as int)) <= (-(a as int)) / 2) by {
                        vstd::arithmetic::div_mod::lemma_div_is_ordered_by_denominator(
                            -(a as int),
                            2,
                            -(b as int),
                        );
                    }
                    assert((-(a as int)) / 2 <= i128::MAX as int) by {
                        vstd::arithmetic::div_mod::lemma_div_by_multiple(
                            0x40000000000000000000000000000000,
                            2,
                        );
                    }
                }
            }
        }
    }
    match a.checked_div(b) {
        Some(v) => Ok(v),
        None => Err(Error::Overflow),
    }
}

/// Floor percentage of `value`, in units of 1/10000 (10000 is 100%).
///
/// Used for the weekly distribution shares. Rounding is truncation toward
/// zero.
pub fn calc_share(value: i128, percentage: i128) -> (r: Result<i128, Error>)
    ensures
        in_i128(value * percentage) ==> r == Ok::<i128, Error>(
            trunc_div(value * percentage, PERCENTAGE_FACTOR as int) as i128,
        ),
        !in_i128(value * percentage) ==> r == Err::<i128, Error>(Error::Overflow),
{
    let m = match crate::math::mul(value, percentage) {
        Ok(v) => v,
        Err(e) => {
            return Err(e);
        },
    };
    crate::math::div(m, PERCENTAGE_FACTOR)
}

/// Floor percentage of `value`, in units of 1/100 (100 is 100%).
///
/// Used for deposit burn and refund fractions. Rounding is truncation
/// toward zero.
pub fn get_value_percentage(value: i128, percentage: i128) -> (r: Result<i128, Error>)
    ensures
        in_i128(value * percentage) ==> r == Ok::<i128, Error>(
            trunc_div(value * percentage, 100) as i128,
        ),
        !in_i128(value * percentage) ==> r == Err::<i128, Error>(Error::Overflow),
{
    let m = match crate::math::mul(value, percentage) {
        Ok(v) => v,
        Err(e) => {
            return Err(e);
        },
    };
    crate::math::div(m, 100)
}

} // verus!
