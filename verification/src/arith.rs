//! Overflow-checked arithmetic on `i128` and an exact integer square root.

use vstd::prelude::*;

verus! {

/// Why a checked operation has no representable result.
#[derive(Clone, Copy, Debug, PartialEq, Eq, Structural)]
pub enum ArithmeticError {
    /// The sum, product or quotient lies outside the range of `i128`.
    Overflow,
    /// The difference lies outside the range of `i128`.
    Underflow,
    /// The divisor is zero.
    DivByZero,
}

/// Whether `v` is the value of some `i128`.
pub open spec fn fits_i128(v: int) -> bool {
    i128::MIN <= v <= i128::MAX
}

/// The quotient of `a` by `b` rounded toward zero, for `b != 0`.
pub open spec fn div_toward_zero(a: int, b: int) -> int
    recommends
        b != 0,
{
    let q = (if a >= 0 { a } else { -a }) / (if b >= 0 { b } else { -b });
    if (a >= 0) == (b > 0) {
        q
    } else {
        -q
    }
}

/// Whether `r` is the floor of the square root of `x`.
pub open spec fn is_floor_sqrt(x: int, r: int) -> bool {
    0 <= r && r * r <= x < (r + 1) * (r + 1)
}

/// The floor of the square root of `x`; zero for every `x <= 0`.
pub open spec fn floor_sqrt(x: int) -> int {
    if x <= 0 {
        0
    } else {
        choose|r: int| is_floor_sqrt(x, r)
    }
}

/// `a + b`, or `Overflow` when the sum does not fit.
pub fn checked_add(a: i128, b: i128) -> (result: Result<i128, ArithmeticError>)
    ensures
        fits_i128(a + b) ==> result == Ok::<i128, ArithmeticError>((a + b) as i128),
        !fits_i128(a + b) ==> result == Err::<i128, ArithmeticError>(ArithmeticError::Overflow),
{
    match a.checked_add(b) {
        Some(v) => Ok(v),
        None => Err(ArithmeticError::Overflow),
    }
}

/// `a - b`, or `Underflow` when the difference does not fit.
pub fn checked_sub(a: i128, b: i128) -> (result: Result<i128, ArithmeticError>)
    ensures
        fits_i128(a - b) ==> result == Ok::<i128, ArithmeticError>((a - b) as i128),
        !fits_i128(a - b) ==> result == Err::<i128, ArithmeticError>(ArithmeticError::Underflow),
{
    match a.checked_sub(b) {
        Some(v) => Ok(v),
        None => Err(ArithmeticError::Underflow),
    }
}

/// `a * b`, or `Overflow` when the product does not fit.
pub fn checked_mul(a: i128, b: i128) -> (result: Result<i128, ArithmeticError>)
    ensures
        fits_i128(a * b) ==> result == Ok::<i128, ArithmeticError>((a * b) as i128),
        !fits_i128(a * b) ==> result == Err::<i128, ArithmeticError>(ArithmeticError::Overflow),
{
    match a.checked_mul(b) {
        Some(v) => Ok(v),
        None => Err(ArithmeticError::Overflow),
    }
}

/// `a / b` rounded toward zero; `DivByZero` when `b` is zero, `Overflow`
/// when the quotient does not fit (`i128::MIN / -1`).
pub fn checked_div(a: i128, b: i128) -> (result: Result<i128, ArithmeticError>)
    ensures
        b == 0 ==> result == Err::<i128, ArithmeticError>(ArithmeticError::DivByZero),
        b != 0 && fits_i128(div_toward_zero(a as int, b as int)) ==> result == Ok::<
            i128,
            ArithmeticError,
        >(div_toward_zero(a as int, b as int) as i128),
        b != 0 && !fits_i128(div_toward_zero(a as int, b as int)) ==> result == Err::<
            i128,
            ArithmeticError,
        >(ArithmeticError::Overflow),
{
    if b == 0 {
        return Err(ArithmeticError::DivByZero);
    }
    match a.checked_div(b) {
        Some(v) => Ok(v),
        None => Err(ArithmeticError::Overflow),
    }
}

/// The floor of the square root of `x`; zero for every `x <= 0`.
///
/// The root is found by bisection on `[1, x]`: it is the largest `r` with
/// `r <= x / r`.
pub fn sqrt(x: i128) -> (r: i128)
    ensures
        r == floor_sqrt(x as int),
        x <= 0 ==> r == 0,
        x > 0 ==> is_floor_sqrt(x as int, r as int),
{
    if x <= 0 {
        return 0;
    }
    if x == 1 {
        proof {
            lemma_floor_sqrt_unique(1, 1, floor_sqrt(1));
        }
        return 1;
    }
    let mut left: i128 = 1;
    let mut right: i128 = x;
    let mut result: i128 = 0;
    assert((x + 1) * (x + 1) > x) by (nonlinear_arith)
        requires
            x > 0,
    ;
    while left <= right
        invariant
            x >= 2,
            1 <= left <= x,
            left - 1 <= right <= x,
            result == left - 1,
            result * result <= x,
            (right + 1) * (right + 1) > x,
        decreases right - left + 1,
    {
        let mid: i128 = left + (right - left) / 2;
        let quotient: i128 = x / mid;
        proof {
            lemma_square_against_quotient(x as int, mid as int);
        }
        if mid <= quotient {
            assert(mid < x) by (nonlinear_arith)
                requires
                    mid >= 1,
                    x >= 2,
                    mid * mid <= x,
            ;
            result = mid;
            left = mid + 1;
        } else {
            right = mid - 1;
        }
    }
    proof {
        assert(is_floor_sqrt(x as int, result as int));
        lemma_floor_sqrt_unique(x as int, result as int, floor_sqrt(x as int));
    }
    result
}

/// For positive `m`, `m <= x / m` says the same as `m * m <= x`.
proof fn lemma_square_against_quotient(x: int, m: int)
    requires
        x >= 0,
        m > 0,
    ensures
        (m <= x / m) <==> (m * m <= x),
{
    vstd::arithmetic::div_mod::lemma_fundamental_div_mod(x, m);
    vstd::arithmetic::div_mod::lemma_mod_bound(x, m);
    let q = x / m;
    if m <= q {
        assert(m * m <= m * q) by (nonlinear_arith)
            requires
                0 < m <= q,
        ;
    } else {
        assert(m * (q + 1) <= m * m) by (nonlinear_arith)
            requires
                0 < m,
                q + 1 <= m,
        ;
        assert(m * (q + 1) == m * q + m) by (nonlinear_arith);
    }
}

/// At most one number is the floor of the square root of `x`.
pub proof fn lemma_floor_sqrt_unique(x: int, r: int, s: int)
    requires
        is_floor_sqrt(x, r),
        is_floor_sqrt(x, s),
    ensures
        r == s,
{
    if r < s {
        assert((r + 1) * (r + 1) <= s * s) by (nonlinear_arith)
            requires
                0 <= r,
                r + 1 <= s,
        ;
    }
    if s < r {
        assert((s + 1) * (s + 1) <= r * r) by (nonlinear_arith)
            requires
                0 <= s,
                s + 1 <= r,
        ;
    }
}

} // verus!
