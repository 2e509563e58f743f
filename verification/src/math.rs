//! Integer arithmetic with the rounding and saturation of the ledger's
//! 128-bit amounts.
use vstd::prelude::*;

verus! {

/// `x / d` rounded toward zero (the quotient of Rust's integer division).
pub open spec fn trunc_div(x: int, d: int) -> int {
    if x == 0 {
        0
    } else if x > 0 && d > 0 {
        x / d
    } else if x < 0 && d < 0 {
        (x * -1) / (d * -1)
    } else if x < 0 {
        ((x * -1) / d) * -1
    } else {
        (x / (d * -1)) * -1
    }
}

/// `v` clamped to the range of `i128`.
pub open spec fn clamp_i128(v: int) -> i128 {
    if v > i128::MAX {
        i128::MAX
    } else if v < i128::MIN {
        i128::MIN
    } else {
        v as i128
    }
}

/// Ten to the power `n`.
pub open spec fn pow10(n: nat) -> int
    decreases n,
{
    if n == 0 {
        1
    } else {
        10 * pow10((n - 1) as nat)
    }
}

/// Powers of ten are positive and grow with the exponent.
pub proof fn lemma_pow10_positive(n: nat)
    ensures
        pow10(n) >= 1,
    decreases n,
{
    if n > 0 {
        lemma_pow10_positive((n - 1) as nat);
    }
}

/// Division of 128-bit integers, rounded toward zero.
pub fn div_trunc(a: i128, b: i128) -> (q: i128)
    requires
        b != 0,
        !(a == i128::MIN && b == -1),
    ensures
        q == trunc_div(a as int, b as int),
{
    proof {
        let x = a as int;
        let d = b as int;
        if x > 0 && d > 0 {
            assert(0 <= x / d <= x) by (nonlinear_arith)
                requires
                    x > 0,
                    d > 0,
            ;
        } else if x < 0 && d < 0 {
            assert(0 <= (x * -1) / (d * -1) <= x * -1) by (nonlinear_arith)
                requires
                    x < 0,
                    d < 0,
            ;
            if d == -1 {
                assert((x * -1) / (d * -1) == x * -1);
            } else {
                assert((x * -1) / (d * -1) <= (x * -1) / 2) by (nonlinear_arith)
                    requires
                        x < 0,
                        d < -1,
                ;
            }
        } else if x < 0 && d > 0 {
            assert(0 <= (x * -1) / d <= x * -1) by (nonlinear_arith)
                requires
                    x < 0,
                    d > 0,
            ;
        } else if x > 0 && d < 0 {
            assert(0 <= x / (d * -1) <= x) by (nonlinear_arith)
                requires
                    x > 0,
                    d < 0,
            ;
        }
    }
    a.checked_div(b).unwrap()
}

/// Multiplication of 128-bit integers, saturating at the bounds.
pub fn sat_mul(a: i128, b: i128) -> (p: i128)
    ensures
        p == clamp_i128(a * b),
{
    match a.checked_mul(b) {
        Some(p) => p,
        None => {
            if (a < 0) == (b < 0) {
                assert(a * b >= 0) by (nonlinear_arith)
                    requires
                        (a < 0) == (b < 0),
                ;
                i128::MAX
            } else {
                assert(a * b <= 0) by (nonlinear_arith)
                    requires
                        (a < 0) != (b < 0),
                ;
                i128::MIN
            }
        },
    }
}

/// Subtraction of 128-bit integers, saturating at the bounds.
pub fn sat_sub(a: i128, b: i128) -> (d: i128)
    ensures
        d == clamp_i128(a - b),
{
    match a.checked_sub(b) {
        Some(d) => d,
        None => {
            if b < 0 {
                i128::MAX
            } else {
                i128::MIN
            }
        },
    }
}

/// Addition of 128-bit integers, saturating at the bounds.
pub fn sat_add(a: i128, b: i128) -> (s: i128)
    ensures
        s == clamp_i128(a + b),
{
    match a.checked_add(b) {
        Some(s) => s,
        None => {
            if b > 0 {
                i128::MAX
            } else {
                i128::MIN
            }
        },
    }
}

} // verus!
