//! Fixed-point scalar arithmetic.
//!
//! A scalar holds a world quantity times `FP_ONE`; products of two raw
//! scalars (squared distances, raw dot and cross products) carry the
//! doubled scale `FP_ONE * FP_ONE`.  All operations saturate at the `i64`
//! range and division by zero yields zero, so every operation is total.

use vstd::prelude::*;

verus! {

/// Number of fractional steps in one world unit.
pub const FP_ONE: i64 = 65536;

/// Absolute value over mathematical integers.
pub open spec fn abs_i(x: int) -> int {
    if x < 0 {
        -x
    } else {
        x
    }
}

/// Saturation to the `i64` range.
pub open spec fn clip(x: int) -> int {
    if x > i64::MAX as int {
        i64::MAX as int
    } else if x < i64::MIN as int {
        i64::MIN as int
    } else {
        x
    }
}

/// Division rounded toward zero, total: a zero divisor yields zero.
pub open spec fn tdiv(a: int, b: int) -> int {
    if b == 0 {
        0
    } else if (a < 0) == (b < 0) {
        abs_i(a) / abs_i(b)
    } else {
        -(abs_i(a) / abs_i(b))
    }
}

/// Product of two fixed-point scalars, scaled back to single scale.
pub open spec fn fmul(a: int, b: int) -> int {
    clip(tdiv(a * b, FP_ONE as int))
}

/// Quotient of two fixed-point scalars.
pub open spec fn fdiv(a: int, b: int) -> int {
    clip(tdiv(a * (FP_ONE as int), b))
}

/// Saturating sum.
pub open spec fn fadd(a: int, b: int) -> int {
    clip(a + b)
}

/// Saturating difference.
pub open spec fn fsub(a: int, b: int) -> int {
    clip(a - b)
}

/// Saturating raw product: the result carries the doubled scale.
pub open spec fn rawmul(a: int, b: int) -> int {
    clip(a * b)
}

/// Integer square root, the unique `r` with `r * r <= n < (r + 1) * (r + 1)`.
pub open spec fn sqrt_s(n: nat) -> nat
    decreases n,
{
    if n == 0 {
        0
    } else {
        let r = sqrt_s((n - 1) as nat);
        if (r + 1) * (r + 1) <= n {
            r + 1
        } else {
            r
        }
    }
}

pub proof fn lemma_sqrt_s_bounds(n: nat)
    ensures
        sqrt_s(n) * sqrt_s(n) <= n,
        n < (sqrt_s(n) + 1) * (sqrt_s(n) + 1),
    decreases n,
{
    let s = sqrt_s(n);
    if n == 0 {
        assert(s == 0);
        assert(n < (s + 1) * (s + 1)) by (nonlinear_arith)
            requires n == 0 && s == 0;
    } else {
        lemma_sqrt_s_bounds((n - 1) as nat);
        let r = sqrt_s((n - 1) as nat);
        assert(r * r <= n - 1);
        assert(n - 1 < (r + 1) * (r + 1));
        if (r + 1) * (r + 1) <= n {
            assert(s == r + 1);
            assert(n < (s + 1) * (s + 1)) by (nonlinear_arith)
                requires s == r + 1 && n <= (r + 1) * (r + 1) && r >= 0;
        } else {
            assert(s == r);
            assert(n < (s + 1) * (s + 1));
        }
    }
}

pub proof fn lemma_sqrt_s_unique(n: nat, r: nat)
    requires
        r * r <= n,
        n < (r + 1) * (r + 1),
    ensures
        r == sqrt_s(n),
{
    lemma_sqrt_s_bounds(n);
    let s = sqrt_s(n);
    if r < s {
        assert((r + 1) * (r + 1) <= s * s) by (nonlinear_arith)
            requires r < s;
    }
    if s < r {
        assert((s + 1) * (s + 1) <= r * r) by (nonlinear_arith)
            requires s < r;
    }
}

/// Scaling by a factor of magnitude at most one cannot grow a scalar.
pub proof fn lemma_fmul_bounded(x: int, t: int)
    requires
        abs_i(t) <= FP_ONE as int,
    ensures
        abs_i(fmul(x, t)) <= abs_i(x),
{
    let p = x * t;
    assert(abs_i(p) <= (FP_ONE as int) * abs_i(x)) by (nonlinear_arith)
        requires abs_i(t) <= FP_ONE as int, p == x * t;
    if p != 0 {
        vstd::arithmetic::div_mod::lemma_div_is_ordered(
            abs_i(p),
            (FP_ONE as int) * abs_i(x),
            FP_ONE as int,
        );
        assert(((FP_ONE as int) * abs_i(x)) / (FP_ONE as int) == abs_i(x)) by (nonlinear_arith)
            requires abs_i(x) >= 0;
    }
}

/// Saturating conversion of a wide intermediate back to a scalar.
pub fn sat_i64(x: i128) -> (r: i64)
    ensures
        r as int == clip(x as int),
{
    if x > i64::MAX as i128 {
        i64::MAX
    } else if x < i64::MIN as i128 {
        i64::MIN
    } else {
        x as i64
    }
}

/// Division of wide intermediates rounded toward zero; a zero divisor
/// yields zero.
fn div_trunc(a: i128, b: i128) -> (r: i128)
    requires
        a > i128::MIN,
        b > i128::MIN,
    ensures
        r as int == tdiv(a as int, b as int),
{
    if b == 0 {
        return 0;
    }
    let ua: u128 = if a < 0 {
        (-a) as u128
    } else {
        a as u128
    };
    let ub: u128 = if b < 0 {
        (-b) as u128
    } else {
        b as u128
    };
    let q: u128 = ua / ub;
    proof {
        assert(ua as int == abs_i(a as int));
        assert(ub as int == abs_i(b as int));
        assert(q as int == abs_i(a as int) / abs_i(b as int));
        assert(q <= ua) by (nonlinear_arith)
            requires ub >= 1, q == ua / ub;
    }
    if (a < 0) != (b < 0) {
        -(q as i128)
    } else {
        q as i128
    }
}

/// Fixed-point product.
pub fn fp_mul(a: i64, b: i64) -> (r: i64)
    ensures
        r as int == fmul(a as int, b as int),
{
    proof {
        assert((a as int) * (b as int) < i128::MAX && (a as int) * (b as int) > i128::MIN)
            by (nonlinear_arith)
            requires
                i64::MIN <= a <= i64::MAX,
                i64::MIN <= b <= i64::MAX;
    }
    let p: i128 = (a as i128) * (b as i128);
    let q: i128 = div_trunc(p, FP_ONE as i128);
    sat_i64(q)
}

/// Fixed-point quotient.
pub fn fp_div(a: i64, b: i64) -> (r: i64)
    ensures
        r as int == fdiv(a as int, b as int),
{
    proof {
        assert((a as int) * (FP_ONE as int) < i128::MAX && (a as int) * (FP_ONE as int)
            > i128::MIN) by (nonlinear_arith)
            requires
                i64::MIN <= a <= i64::MAX,
                FP_ONE == 65536;
    }
    let p: i128 = (a as i128) * (FP_ONE as i128);
    proof {
        assert(b as i128 > i128::MIN);
    }
    let q: i128 = div_trunc(p, b as i128);
    sat_i64(q)
}

/// Saturating sum of two scalars.
pub fn fp_add(a: i64, b: i64) -> (r: i64)
    ensures
        r as int == fadd(a as int, b as int),
{
    sat_i64(a as i128 + b as i128)
}

/// Saturating difference of two scalars.
pub fn fp_sub(a: i64, b: i64) -> (r: i64)
    ensures
        r as int == fsub(a as int, b as int),
{
    sat_i64(a as i128 - b as i128)
}

/// Saturating raw product at doubled scale.
pub fn fp_rawmul(a: i64, b: i64) -> (r: i64)
    ensures
        r as int == rawmul(a as int, b as int),
{
    proof {
        assert((a as int) * (b as int) < i128::MAX && (a as int) * (b as int) > i128::MIN)
            by (nonlinear_arith)
            requires
                i64::MIN <= a <= i64::MAX,
                i64::MIN <= b <= i64::MAX;
    }
    sat_i64((a as i128) * (b as i128))
}

/// Saturating negation.
pub fn fp_neg(a: i64) -> (r: i64)
    ensures
        r as int == clip(-(a as int)),
{
    sat_i64(-(a as i128))
}

/// Saturating absolute value.
pub fn fp_abs(a: i64) -> (r: i64)
    ensures
        r as int == clip(abs_i(a as int)),
{
    if a < 0 {
        sat_i64(-(a as i128))
    } else {
        a
    }
}

/// The smaller of two scalars.
pub fn fp_min(a: i64, b: i64) -> (r: i64)
    ensures
        r as int == if a as int <= b as int { a as int } else { b as int },
{
    if a <= b {
        a
    } else {
        b
    }
}

/// The larger of two scalars.
pub fn fp_max(a: i64, b: i64) -> (r: i64)
    ensures
        r as int == if a as int >= b as int { a as int } else { b as int },
{
    if a >= b {
        a
    } else {
        b
    }
}

/// Quotient of a scalar by a plain integer divisor, saturated.
pub fn fp_idiv(a: i64, b: i64) -> (r: i64)
    ensures
        r as int == idiv_s(a as int, b as int),
{
    let q = div_trunc(a as i128, b as i128);
    sat_i64(q)
}

/// Saturated division rounded toward zero.
pub open spec fn idiv_s(a: int, b: int) -> int {
    clip(tdiv(a, b))
}

/// Euclidean remainder of a wide intermediate by a positive modulus.
pub fn fp_emod(a: i128, m: i64) -> (r: i64)
    requires
        m > 0,
        a > i128::MIN,
    ensures
        r as int == (a as int) % (m as int),
        0 <= r < m,
{
    let um = m as u128;
    if a >= 0 {
        let k: u128 = (a as u128) % um;
        k as i64
    } else {
        let n: u128 = (-a) as u128;
        let k: u128 = n % um;
        proof {
            vstd::arithmetic::div_mod::lemma_fundamental_div_mod(n as int, m as int);
        }
        if k == 0 {
            proof {
                assert(a as int == (-(n as int / m as int)) * (m as int) + 0) by (nonlinear_arith)
                    requires
                        n as int == (n as int / m as int) * (m as int) + 0,
                        a as int == -(n as int);
                vstd::arithmetic::div_mod::lemma_fundamental_div_mod_converse(
                    a as int,
                    m as int,
                    -(n as int / m as int),
                    0,
                );
            }
            0
        } else {
            proof {
                assert(a as int == (-(n as int / m as int) - 1) * (m as int) + ((m as int) - (
                k as int))) by (nonlinear_arith)
                    requires
                        n as int == (n as int / m as int) * (m as int) + (k as int),
                        a as int == -(n as int);
                vstd::arithmetic::div_mod::lemma_fundamental_div_mod_converse(
                    a as int,
                    m as int,
                    -(n as int / m as int) - 1,
                    (m as int) - (k as int),
                );
            }
            m - (k as i64)
        }
    }
}

/// One half turn, one full turn and one quarter turn in fixed-point
/// radians.
pub const FP_PI: i64 = 205887;

pub const FP_TWO_PI: i64 = 411774;

pub const FP_HALF_PI: i64 = 102943;

/// What the truncated sine polynomial falls short of one by at the
/// quarter turn; folding adds it back linearly so the sine is exact at
/// every quadrant point.
pub const FP_SIN_TRIM: i64 = 9;

/// The odd polynomial that approximates the sine on a quarter turn
/// around zero, trimmed linearly so it is exactly one at the quarter
/// turn.
pub open spec fn sin_poly_s(t: int) -> int {
    let t2 = fmul(t, t);
    let t3 = fmul(t2, t);
    let t5 = fmul(t3, t2);
    let t7 = fmul(t5, t2);
    let base = fsub(fadd(fsub(t, idiv_s(t3, 6)), idiv_s(t5, 120)), idiv_s(t7, 5040));
    fadd(base, idiv_s(rawmul(t, FP_SIN_TRIM as int), FP_HALF_PI as int))
}

/// Sine of a fixed-point angle in radians: the turn is folded onto the
/// half turn around zero, where the polynomial holds.
pub open spec fn sin_s(x: int) -> int {
    let t = x % (FP_TWO_PI as int);
    if t <= FP_HALF_PI as int {
        sin_poly_s(t)
    } else if t <= FP_PI as int + FP_HALF_PI as int {
        sin_poly_s(FP_PI as int - t)
    } else {
        sin_poly_s(t - FP_TWO_PI as int)
    }
}

/// Cosine as the sine shifted by a quarter turn.
pub open spec fn cos_s(x: int) -> int {
    sin_s(x + FP_HALF_PI as int)
}

fn sin_poly(t: i64) -> (r: i64)
    ensures
        r as int == sin_poly_s(t as int),
{
    let t2 = fp_mul(t, t);
    let t3 = fp_mul(t2, t);
    let t5 = fp_mul(t3, t2);
    let t7 = fp_mul(t5, t2);
    let base = fp_sub(fp_add(fp_sub(t, fp_idiv(t3, 6)), fp_idiv(t5, 120)), fp_idiv(t7, 5040));
    fp_add(base, fp_idiv(fp_rawmul(t, FP_SIN_TRIM), FP_HALF_PI))
}

fn sin_of_turn(t: i64) -> (r: i64)
    requires
        0 <= t < FP_TWO_PI,
    ensures
        r as int == if t as int <= FP_HALF_PI as int {
            sin_poly_s(t as int)
        } else if t as int <= FP_PI as int + FP_HALF_PI as int {
            sin_poly_s(FP_PI as int - t as int)
        } else {
            sin_poly_s(t as int - FP_TWO_PI as int)
        },
{
    if t <= FP_HALF_PI {
        sin_poly(t)
    } else if t <= FP_PI + FP_HALF_PI {
        sin_poly(FP_PI - t)
    } else {
        sin_poly(t - FP_TWO_PI)
    }
}

/// Sine of a fixed-point angle.
pub fn fp_sin(x: i64) -> (r: i64)
    ensures
        r as int == sin_s(x as int),
{
    let t = fp_emod(x as i128, FP_TWO_PI);
    sin_of_turn(t)
}

/// The folded sine is exact at the quadrant points: zero at zero and
/// at the half turn, one at the quarter turn — so the cosine of a zero
/// angle is exactly one.
pub proof fn lemma_sin_quadrants()
    ensures
        sin_s(0) == 0,
        sin_s(FP_HALF_PI as int) == FP_ONE as int,
        sin_s(FP_PI as int) == 0,
        cos_s(0) == FP_ONE as int,
{
    assert(0int % (FP_TWO_PI as int) == 0);
    assert(sin_poly_s(0) == 0);
    assert((FP_HALF_PI as int) % (FP_TWO_PI as int) == FP_HALF_PI as int);
    assert(fmul(102943, 102943) == 161701);
    assert(fmul(161701, 102943) == 253997);
    assert(fmul(253997, 161701) == 626702);
    assert(fmul(626702, 161701) == 1546300);
    assert(idiv_s(253997, 6) == 42332);
    assert(idiv_s(626702, 120) == 5222);
    assert(idiv_s(1546300, 5040) == 306);
    assert(fsub(fadd(fsub(102943, 42332), 5222), 306) == 65527);
    assert(rawmul(102943, 9) == 926487);
    assert(idiv_s(926487, 102943) == 9);
    assert(sin_poly_s(FP_HALF_PI as int) == FP_ONE as int);
    assert((FP_PI as int) % (FP_TWO_PI as int) == FP_PI as int);
    assert(sin_s(FP_PI as int) == sin_poly_s(FP_PI as int - FP_PI as int));
}

/// Multiplying by one is the identity on every scalar.
pub proof fn lemma_fmul_one(x: int)
    requires
        i64::MIN as int <= x <= i64::MAX as int,
    ensures
        fmul(x, FP_ONE as int) == x,
{
    let p = x * (FP_ONE as int);
    assert(abs_i(p) == abs_i(x) * (FP_ONE as int)) by (nonlinear_arith)
        requires p == x * 65536;
    vstd::arithmetic::div_mod::lemma_div_by_multiple(abs_i(x), FP_ONE as int);
}

/// Cosine of a fixed-point angle.
pub fn fp_cos(x: i64) -> (r: i64)
    ensures
        r as int == cos_s(x as int),
{
    let t = fp_emod(x as i128 + FP_HALF_PI as i128, FP_TWO_PI);
    sin_of_turn(t)
}

/// Square root of a fixed-point scalar: the integer root of the value
/// raised to the doubled scale; negative inputs yield zero.
pub open spec fn fsqrt_s(v: int) -> int {
    if v < 0 {
        0
    } else {
        clip(sqrt_s((v * (FP_ONE as int)) as nat) as int)
    }
}

/// The arc cosine on the non-negative half: the square root of the
/// complement times a short polynomial, exactly zero at one.
pub open spec fn acos_core_s(t: int) -> int {
    let t2 = fmul(t, t);
    let t3 = fmul(t2, t);
    let poly = fadd(fadd(fadd(102940, fmul(-13903, t)), fmul(4867, t2)), fmul(-1228, t3));
    fmul(fsqrt_s(FP_ONE as int - t), poly)
}

/// Arc cosine of a fixed-point cosine value, clamped into the unit
/// band; negative values fold through the half turn, so the ends are
/// exact: zero at one and the half turn at minus one.
pub open spec fn acos_s(x: int) -> int {
    let c = if x > FP_ONE as int {
        FP_ONE as int
    } else if x < -(FP_ONE as int) {
        -(FP_ONE as int)
    } else {
        x
    };
    if c >= 0 {
        acos_core_s(c)
    } else {
        fsub(FP_PI as int, acos_core_s(-c))
    }
}

/// Square root of a fixed-point scalar.
pub fn fp_sqrt(v: i64) -> (r: i64)
    ensures
        r as int == fsqrt_s(v as int),
{
    if v < 0 {
        return 0;
    }
    proof {
        assert((v as int) * (FP_ONE as int) >= 0 && (v as int) * (FP_ONE as int)
            <= u128::MAX as int) by (nonlinear_arith)
            requires
                0 <= v <= i64::MAX,
                FP_ONE == 65536;
    }
    let wide: u128 = (v as u128) * (FP_ONE as u128);
    let root = isqrt(wide);
    proof {
        lemma_sqrt_s_bounds(wide as nat);
        assert(root < 0x1_0000_0000_0000_0000u128) by (nonlinear_arith)
            requires
                root as int * (root as int) <= wide as int,
                wide as int <= 604462909807314587353088int;
    }
    sat_i64(root as i128)
}

fn acos_core(t: i64) -> (r: i64)
    requires
        0 <= t <= FP_ONE,
    ensures
        r as int == acos_core_s(t as int),
{
    let t2 = fp_mul(t, t);
    let t3 = fp_mul(t2, t);
    let poly = fp_add(fp_add(fp_add(102940, fp_mul(-13903, t)), fp_mul(4867, t2)), fp_mul(
        -1228,
        t3,
    ));
    fp_mul(fp_sqrt(FP_ONE - t), poly)
}

/// Arc cosine of a fixed-point cosine value.
pub fn fp_acos(x: i64) -> (r: i64)
    ensures
        r as int == acos_s(x as int),
{
    let c = if x > FP_ONE {
        FP_ONE
    } else if x < -FP_ONE {
        -FP_ONE
    } else {
        x
    };
    if c >= 0 {
        acos_core(c)
    } else {
        fp_sub(FP_PI, acos_core(-c))
    }
}

/// Integer square root of a wide non-negative intermediate.
pub fn isqrt(n: u128) -> (r: u128)
    ensures
        r as nat == sqrt_s(n as nat),
{
    let mut lo: u128 = 0;
    let mut hi: u128 = 0x1_0000_0000_0000_0000u128;
    proof {
        assert((n as int) < (hi as int) * (hi as int)) by (nonlinear_arith)
            requires n <= u128::MAX, hi as int == 0x1_0000_0000_0000_0000int;
    }
    while lo + 1 < hi
        invariant
            lo < hi,
            hi <= 0x1_0000_0000_0000_0000u128,
            (lo as int) * (lo as int) <= n as int,
            (n as int) < (hi as int) * (hi as int),
        decreases hi - lo,
    {
        let mid: u128 = lo + (hi - lo) / 2;
        proof {
            assert(lo < mid < hi);
            assert((mid as int) * (mid as int) <= u128::MAX as int) by (nonlinear_arith)
                requires mid < 0x1_0000_0000_0000_0000int;
        }
        if mid * mid <= n {
            lo = mid;
        } else {
            hi = mid;
        }
    }
    proof {
        assert((n as int) < ((lo + 1) as int) * ((lo + 1) as int));
        lemma_sqrt_s_unique(n as nat, lo as nat);
    }
    lo
}

} // verus!
