//! The checked arithmetic layer.
//!
//! All pool quantities are `u128`. Every addition, subtraction,
//! multiplication and division is checked: nothing wraps, nothing truncates
//! silently, and each failure is a distinct [`AmmError`] variant. Division
//! floors toward zero; the ceiling variant is provided explicitly so that the
//! rounding direction of every engine formula is a deliberate choice.

use vstd::arithmetic::div_mod::{lemma_fundamental_div_mod, lemma_remainder_lower};
use vstd::prelude::*;

use crate::error::AmmError;

verus! {

/// The mathematical ceiling of `x / d` (for `d > 0`), the rounding used when
/// the pool charges the caller rather than paying out.
pub open spec fn div_ceil(x: int, d: int) -> int {
    if x % d == 0 {
        x / d
    } else {
        x / d + 1
    }
}

/// `q * d <= x < (q + 1) * d` for the flooring quotient `q = x / d`.
pub proof fn lemma_div_mul_bounds(x: int, d: int)
    requires
        0 <= x,
        0 < d,
    ensures
        0 <= x / d,
        (x / d) * d <= x,
        x < (x / d) * d + d,
        x / d <= x,
{
    lemma_fundamental_div_mod(x, d);
    lemma_remainder_lower(x, d);
    assert((x / d) * d == d * (x / d)) by (nonlinear_arith);
    assert(x / d <= x) by (nonlinear_arith)
        requires
            0 <= x,
            0 < d,
    ;
}

/// Flooring division never exceeds the true quotient: `a <= b * d` implies
/// `a / d <= b`.
pub proof fn lemma_div_le_multiple(a: int, b: int, d: int)
    requires
        0 <= a,
        0 <= b,
        0 < d,
        a <= b * d,
    ensures
        a / d <= b,
{
    lemma_div_mul_bounds(a, d);
    if a / d > b {
        assert(false) by (nonlinear_arith)
            requires
                b + 1 <= a / d,
                (a / d) * d <= a,
                a <= b * d,
                0 < d,
        ;
    }
}

/// Flooring division stays strictly below any strict multiple bound:
/// `x < c * d` implies `x / d < c`.
pub proof fn lemma_div_lt_multiple(x: int, c: int, d: int)
    requires
        0 <= x,
        0 <= c,
        0 < d,
        x < c * d,
    ensures
        x / d < c,
{
    lemma_div_mul_bounds(x, d);
    if x / d >= c {
        assert(false) by (nonlinear_arith)
            requires
                c <= x / d,
                (x / d) * d <= x,
                x < c * d,
                0 < d,
        ;
    }
}

/// The ceiling quotient covers the dividend: `div_ceil(x, d) * d >= x`, and
/// the quotient itself never exceeds the dividend.
pub proof fn lemma_div_ceil_bounds(x: int, d: int)
    requires
        0 <= x,
        0 < d,
    ensures
        0 <= div_ceil(x, d),
        div_ceil(x, d) * d >= x,
        div_ceil(x, d) <= x,
{
    lemma_div_mul_bounds(x, d);
    lemma_fundamental_div_mod(x, d);
    let q = x / d;
    if x % d == 0 {
        assert(d * q == q * d) by (nonlinear_arith);
    } else {
        assert(d != 1) by {
            if d == 1 {
                assert(x % 1 == 0) by (nonlinear_arith);
            }
        }
        assert(x != 0) by {
            if x == 0 {
                assert(0int % d == 0) by (nonlinear_arith)
                    requires
                        0 < d,
                ;
            }
        }
        assert((q + 1) * d >= x && q + 1 <= x) by (nonlinear_arith)
            requires
                q * d <= x,
                x < q * d + d,
                0 <= q,
                2 <= d,
                1 <= x,
        ;
    }
}

/// Checked addition: exact, or `ArithmeticOverflow` when the true sum does
/// not fit in a `u128`.
pub fn checked_add(a: u128, b: u128) -> (r: Result<u128, AmmError>)
    ensures
        a + b <= u128::MAX ==> r == Ok::<u128, AmmError>((a + b) as u128),
        a + b > u128::MAX ==> r == Err::<u128, AmmError>(AmmError::ArithmeticOverflow),
{
    if a <= u128::MAX - b {
        Ok(a + b)
    } else {
        Err(AmmError::ArithmeticOverflow)
    }
}

/// Checked subtraction: exact, or `ArithmeticUnderflow` when the minuend is
/// smaller than the subtrahend.
pub fn checked_sub(a: u128, b: u128) -> (r: Result<u128, AmmError>)
    ensures
        b <= a ==> r == Ok::<u128, AmmError>((a - b) as u128),
        b > a ==> r == Err::<u128, AmmError>(AmmError::ArithmeticUnderflow),
{
    if b <= a {
        Ok(a - b)
    } else {
        Err(AmmError::ArithmeticUnderflow)
    }
}

/// Checked multiplication: exact, or `ArithmeticOverflow` when the true
/// product does not fit in a `u128`.
pub fn checked_mul(a: u128, b: u128) -> (r: Result<u128, AmmError>)
    ensures
        a * b <= u128::MAX ==> r == Ok::<u128, AmmError>((a * b) as u128),
        a * b > u128::MAX ==> r == Err::<u128, AmmError>(AmmError::ArithmeticOverflow),
{
    if b == 0 {
        Ok(0)
    } else if a <= u128::MAX / b {
        proof {
            lemma_div_mul_bounds(u128::MAX as int, b as int);
            let q = u128::MAX as int / b as int;
            assert(a * b <= u128::MAX) by (nonlinear_arith)
                requires
                    a as int <= q,
                    q * b <= u128::MAX as int,
                    0 <= b,
            ;
        }
        Ok(a * b)
    } else {
        proof {
            lemma_div_mul_bounds(u128::MAX as int, b as int);
            let q = u128::MAX as int / b as int;
            assert(a * b > u128::MAX) by (nonlinear_arith)
                requires
                    u128::MAX < q * b + b,
                    q + 1 <= a as int,
                    1 <= b,
                    0 <= q,
            ;
        }
        Err(AmmError::ArithmeticOverflow)
    }
}

/// Checked division, flooring toward zero: exact, or `DivisionByZero`.
pub fn checked_div(a: u128, b: u128) -> (r: Result<u128, AmmError>)
    ensures
        b > 0 ==> r == Ok::<u128, AmmError>((a as int / b as int) as u128),
        b == 0 ==> r == Err::<u128, AmmError>(AmmError::DivisionByZero),
{
    if b == 0 {
        Err(AmmError::DivisionByZero)
    } else {
        proof {
            lemma_div_mul_bounds(a as int, b as int);
        }
        Ok(a / b)
    }
}

/// `floor(a * b / d)` with the intermediate product checked: the workhorse of
/// proportional pricing. Fails with `DivisionByZero` when `d == 0` and with
/// `ArithmeticOverflow` when `a * b` does not fit in a `u128`; the quotient
/// itself always fits.
pub fn mul_div_floor(a: u128, b: u128, d: u128) -> (r: Result<u128, AmmError>)
    ensures
        d == 0 ==> r == Err::<u128, AmmError>(AmmError::DivisionByZero),
        d > 0 && a * b > u128::MAX ==> r == Err::<u128, AmmError>(
            AmmError::ArithmeticOverflow,
        ),
        d > 0 && a * b <= u128::MAX ==> r == Ok::<u128, AmmError>(
            ((a * b) / d as int) as u128,
        ),
{
    if d == 0 {
        return Err(AmmError::DivisionByZero);
    }
    let p = match checked_mul(a, b) {
        Ok(p) => p,
        Err(e) => {
            return Err(e);
        },
    };
    proof {
        lemma_div_mul_bounds(p as int, d as int);
    }
    Ok(p / d)
}

/// `ceil(a * b / d)` with the intermediate product checked: used where the
/// pool must charge at least the exact pro-rata amount. Same failure cases as
/// [`mul_div_floor`]; the quotient itself always fits.
pub fn mul_div_ceil(a: u128, b: u128, d: u128) -> (r: Result<u128, AmmError>)
    ensures
        d == 0 ==> r == Err::<u128, AmmError>(AmmError::DivisionByZero),
        d > 0 && a * b > u128::MAX ==> r == Err::<u128, AmmError>(
            AmmError::ArithmeticOverflow,
        ),
        d > 0 && a * b <= u128::MAX ==> r == Ok::<u128, AmmError>(
            div_ceil(a * b, d as int) as u128,
        ),
{
    if d == 0 {
        return Err(AmmError::DivisionByZero);
    }
    let p = match checked_mul(a, b) {
        Ok(p) => p,
        Err(e) => {
            return Err(e);
        },
    };
    proof {
        lemma_div_ceil_bounds(p as int, d as int);
    }
    let q = p / d;
    if p % d == 0 {
        Ok(q)
    } else {
        Ok(q + 1)
    }
}

} // verus!
