//! Fixed-point scalars: a plane coordinate is an `i64` counting raw units of
//! `1/FRAC`. All rounding is truncation toward zero, mirrored exactly by the
//! spec-level `div_tz`.

use vstd::prelude::*;

verus! {

use vstd::math::abs;

/// Raw units per 1.0 of plane coordinate.
pub const FRAC: i64 = 65536;

/// Division of `a` by positive `b`, rounding toward zero.
pub open spec fn div_tz(a: int, b: int) -> int {
    if a >= 0 {
        a / b
    } else {
        -((-a) / b)
    }
}

/// Raw value of the product of two raw values.
pub open spec fn mul_fix(a: int, b: int) -> int {
    div_tz(a * b, FRAC as int)
}

/// Raw value of the quotient of raw `a` by raw `b`.
pub open spec fn div_fix(a: int, b: int) -> int {
    div_tz(a * FRAC, b)
}

/// Magnitude of the truncated quotient equals the quotient of magnitudes.
pub proof fn lemma_div_tz_abs(a: int, b: int)
    requires
        0 < b,
    ensures
        abs(div_tz(a, b)) == abs(a) as int / b,
        a >= 0 ==> div_tz(a, b) >= 0,
        a <= 0 ==> div_tz(a, b) <= 0,
{
    if a >= 0 {
        vstd::arithmetic::div_mod::lemma_div_pos_is_pos(a, b);
    } else {
        vstd::arithmetic::div_mod::lemma_div_pos_is_pos(-a, b);
    }
}

/// Truncating division never grows the magnitude when the divisor is at least 1.
pub proof fn lemma_div_tz_bound(a: int, b: int)
    requires
        0 < b,
    ensures
        abs(div_tz(a, b)) <= abs(a),
{
    lemma_div_tz_abs(a, b);
    vstd::arithmetic::div_mod::lemma_div_nonincreasing(abs(a) as int, b);
    vstd::arithmetic::div_mod::lemma_div_pos_is_pos(abs(a) as int, b);
}

/// If `|a| <= m * b`, the truncated quotient of `a` by `b` has magnitude at
/// most `m`.
pub proof fn lemma_div_tz_quotient_bound(a: int, b: int, m: int)
    requires
        0 < b,
        0 <= m,
        abs(a) <= m * b,
    ensures
        abs(div_tz(a, b)) <= m,
{
    lemma_div_tz_abs(a, b);
    vstd::arithmetic::div_mod::lemma_div_is_ordered(abs(a) as int, m * b, b);
    vstd::arithmetic::div_mod::lemma_div_by_multiple(m, b);
}

/// If `|a * b| <= bound * FRAC`, the fixed-point product of `a` and `b` has
/// magnitude at most `bound`.
pub proof fn lemma_mul_fix_bound(a: int, b: int, bound: int)
    requires
        0 <= bound,
        abs(a * b) <= bound * FRAC,
    ensures
        abs(mul_fix(a, b)) <= bound,
{
    lemma_div_tz_quotient_bound(a * b, FRAC as int, bound);
}

/// Division of `a` by positive `b`, rounding toward zero.
pub fn div_tz_exec(a: i64, b: i64) -> (r: i64)
    requires
        0 < b,
        i64::MIN < a,
    ensures
        r == div_tz(a as int, b as int),
{
    proof {
        lemma_div_tz_bound(a as int, b as int);
    }
    if a >= 0 {
        ((a as u64) / (b as u64)) as i64
    } else {
        let m: u64 = (-a) as u64;
        -((m / (b as u64)) as i64)
    }
}

/// Fixed-point product of raw `a` and raw `b`.
pub fn mul_fix_exec(a: i64, b: i64) -> (r: i64)
    requires
        -0x4000_0000 <= a <= 0x4000_0000,
        -0x4000_0000 <= b <= 0x4000_0000,
    ensures
        r == mul_fix(a as int, b as int),
{
    proof {
        assert(-0x1000_0000_0000_0000 <= a * b <= 0x1000_0000_0000_0000) by (nonlinear_arith)
            requires
                -0x4000_0000 <= a <= 0x4000_0000,
                -0x4000_0000 <= b <= 0x4000_0000,
        ;
    }
    let p: i64 = a * b;
    div_tz_exec(p, FRAC)
}

} // verus!
