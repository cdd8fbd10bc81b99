//! Angles in fixed point: normalising a heading, and sine, cosine and
//! bearing by rational approximations that integer arithmetic computes
//! exactly.
//!
//! The sine is Bhaskara's approximation, which is exact at the quarter
//! turns and odd and symmetric as the sine is. The bearing uses a quotient
//! of two quadratic forms for the arc tangent in the first octant, and the
//! symmetries of the plane for the rest.

use vstd::prelude::*;
use crate::consts::{HALF_PI, MAX_COORD, PI, SCALE, TWO_PI};

verus! {

/// The quotient of `a` by a positive `b`, rounded toward zero.
pub open spec fn div_trunc(a: int, b: int) -> int {
    if a >= 0 {
        a / b
    } else {
        -((-a) / b)
    }
}

/// The product of two fixed-point values, as a fixed-point value.
pub open spec fn scaled_product(a: int, b: int) -> int {
    div_trunc(a * b, SCALE as int)
}

/// The angle in `(-PI, PI]` that differs from `a` by whole turns.
pub open spec fn wrap_angle(a: int) -> int {
    let e = a % (TWO_PI as int);
    if e > PI {
        e - TWO_PI
    } else {
        e
    }
}

/// The sine of an angle `x` between zero and half a turn, by the rational
/// approximation `16 x (PI - x) / (5 PI^2 - 4 x (PI - x))`.
pub open spec fn half_wave(x: int) -> int {
    (16 * (x * (PI - x)) * SCALE) / (5 * (PI * PI) - 4 * (x * (PI - x)))
}

/// The sine of any angle: the angle is wrapped, and the half wave is
/// mirrored for negative angles.
pub open spec fn sin_spec(a: int) -> int {
    let r = wrap_angle(a);
    if r >= 0 {
        half_wave(r)
    } else {
        -half_wave(-r)
    }
}

/// The cosine of any angle: the sine a quarter turn further on.
pub open spec fn cos_spec(a: int) -> int {
    sin_spec(a + HALF_PI)
}

/// The half wave lies between zero and one.
pub proof fn lemma_half_wave_bounds(x: int)
    requires
        0 <= x <= PI,
    ensures
        0 <= half_wave(x) <= SCALE,
        0 <= x * (PI - x),
        4 * (x * (PI - x)) <= PI * PI,
{
    let p = PI as int;
    let q = x * (p - x);
    assert(0 <= q) by (nonlinear_arith)
        requires
            q == x * (p - x),
            0 <= x <= p,
    ;
    assert(4 * q <= p * p) by (nonlinear_arith)
        requires
            q == x * (p - x),
    {
        assert((p - 2 * x) * (p - 2 * x) >= 0);
        assert((p - 2 * x) * (p - 2 * x) == p * p - 4 * (x * (p - x)));
    }
    let num = 16 * q * SCALE;
    let den = 5 * (p * p) - 4 * q;
    assert(p * p == 9_869_600_294_464);
    assert(den > 0);
    assert(0 <= num <= den * SCALE);
    assert(0 <= num / den <= SCALE) by (nonlinear_arith)
        requires
            0 <= num <= den * SCALE,
            den > 0,
    ;
}

/// The sine and the cosine of any angle lie between minus one and one.
pub proof fn lemma_trig_bounds(a: int)
    ensures
        -SCALE <= sin_spec(a) <= SCALE,
        -SCALE <= cos_spec(a) <= SCALE,
{
    let r = wrap_angle(a);
    lemma_half_wave_bounds(if r >= 0 { r } else { -r });
    let q = wrap_angle(a + HALF_PI);
    lemma_half_wave_bounds(if q >= 0 { q } else { -q });
}

/// The sine and the cosine are exact at the quarter turns.
pub proof fn lemma_quarter_turns()
    ensures
        sin_spec(0) == 0,
        sin_spec(HALF_PI as int) == SCALE,
        sin_spec(PI as int) == 0,
        sin_spec(-HALF_PI) == -SCALE,
        cos_spec(0) == SCALE,
        cos_spec(HALF_PI as int) == 0,
        cos_spec(PI as int) == -SCALE,
        cos_spec(-HALF_PI) == 0,
{
    let p = PI as int;
    let h = HALF_PI as int;
    let q = h * (p - h);
    assert(q == 2_467_400_073_616) by (nonlinear_arith)
        requires
            q == h * (p - h),
            h == 1_570_796,
            p == 3_141_592,
    ;
    assert(p * p == 9_869_600_294_464) by (nonlinear_arith)
        requires
            p == 3_141_592,
    ;
    let num = 16 * q * SCALE;
    let den = 5 * (p * p) - 4 * q;
    assert(num == den * SCALE);
    vstd::arithmetic::div_mod::lemma_fundamental_div_mod_converse(num, den, SCALE as int, 0);
    assert(half_wave(h) == SCALE);
    assert(0 * (p - 0) == 0) by (nonlinear_arith);
    assert(half_wave(0) == 0);
    lemma_half_wave_symmetric(0);
    assert(wrap_angle(0) == 0);
    assert(wrap_angle(h) == h);
    assert(wrap_angle(p) == p);
    assert(wrap_angle(-h) == -h);
    assert(wrap_angle(p + h) == -h);
}

/// The half wave is symmetric about a quarter turn.
pub proof fn lemma_half_wave_symmetric(x: int)
    ensures
        half_wave(PI - x) == half_wave(x),
{
    let p = PI as int;
    assert((p - x) * (p - (p - x)) == x * (p - x)) by (nonlinear_arith);
}

/// The sine and cosine of the three reflections of an angle: mirrored in the
/// horizontal axis the sine changes sign, mirrored in the vertical axis the
/// cosine does, and reversed both do.
pub proof fn lemma_reflections(a: int)
    ensures
        sin_spec(-a) == -sin_spec(a),
        cos_spec(-a) == cos_spec(a),
        sin_spec(PI - a) == sin_spec(a),
        cos_spec(PI - a) == -cos_spec(a),
        sin_spec(a + PI) == -sin_spec(a),
        cos_spec(a + PI) == -cos_spec(a),
{
    lemma_sin_reflections(a);
    lemma_sin_reflections(a + HALF_PI);
    lemma_sin_reflections(-a);
    lemma_sin_reflections(a - HALF_PI);
    assert(-a + HALF_PI == PI - (a + HALF_PI));
    assert(PI - a + HALF_PI == -(a - HALF_PI) + PI);
    assert(a - HALF_PI + PI == a + HALF_PI);
}

/// The sine of the negated, of the supplementary and of the reversed angle.
pub proof fn lemma_sin_reflections(a: int)
    ensures
        sin_spec(-a) == -sin_spec(a),
        sin_spec(PI - a) == sin_spec(a),
        sin_spec(a + PI) == -sin_spec(a),
{
    let r = wrap_angle(a);
    lemma_half_wave_symmetric(r);
    lemma_half_wave_symmetric(-r);
    assert(half_wave(0) == 0) by {
        assert(0 * (PI - 0) == 0) by (nonlinear_arith);
        assert(16 * 0 * SCALE == 0);
        assert(PI * PI == 9_869_600_294_464) by (nonlinear_arith);
    }
    assert(half_wave(PI as int) == 0) by {
        lemma_half_wave_symmetric(0);
    }
    if r == PI {
        assert(wrap_angle(-a) == PI);
        assert(wrap_angle(PI - a) == 0);
        assert(wrap_angle(a + PI) == 0);
    } else {
        assert(wrap_angle(-a) == -r);
        if r > 0 {
            assert(wrap_angle(PI - a) == PI - r);
            assert(wrap_angle(a + PI) == r - PI);
        } else {
            assert(wrap_angle(a + PI) == r + PI);
            if r == 0 {
                assert(wrap_angle(PI - a) == PI);
            } else {
                assert(wrap_angle(PI - a) == -PI - r);
                lemma_half_wave_symmetric(PI + r);
            }
        }
    }
}

/// Brings a heading into `(-PI, PI]`.
pub fn normalize_heading(a: i64) -> (r: i64)
    ensures
        r == wrap_angle(a as int),
        -PI < r <= PI,
        (a - r) % (TWO_PI as int) == 0,
{
    let m = a % TWO_PI;
    let e = if m < 0 {
        m + TWO_PI
    } else {
        m
    };
    if e > PI {
        e - TWO_PI
    } else {
        e
    }
}

/// The sine of `a`, in millionths.
pub fn sin_fixed(a: i64) -> (r: i64)
    ensures
        r == sin_spec(a as int),
        -SCALE <= r <= SCALE,
{
    let w = normalize_heading(a);
    let x: i64 = if w >= 0 {
        w
    } else {
        -w
    };
    proof {
        lemma_half_wave_bounds(x as int);
        assert(PI * PI == 9_869_600_294_464);
    }
    let q: i64 = x * (PI - x);
    let num: i128 = 16 * (q as i128) * (SCALE as i128);
    let den: i128 = 5 * ((PI as i128) * (PI as i128)) - 4 * (q as i128);
    let v: i64 = (num / den) as i64;
    if w >= 0 {
        v
    } else {
        -v
    }
}

/// Wrapping an angle before adding to it changes nothing of the wrapped
/// sum.
pub proof fn lemma_wrap_shift(a: int, b: int)
    ensures
        wrap_angle(wrap_angle(a) + b) == wrap_angle(a + b),
{
    let t = TWO_PI as int;
    let w = wrap_angle(a);
    let k = a / t;
    vstd::arithmetic::div_mod::lemma_fundamental_div_mod(a, t);
    let j = if a % t > PI { k + 1 } else { k };
    assert(a == t * j + w);
    vstd::arithmetic::div_mod::lemma_mod_multiples_vanish(j, w + b, t);
    assert(t * j + (w + b) == a + b);
}

/// The cosine of `a`, in millionths.
pub fn cos_fixed(a: i64) -> (r: i64)
    ensures
        r == cos_spec(a as int),
        -SCALE <= r <= SCALE,
{
    let w = normalize_heading(a);
    proof {
        lemma_wrap_shift(a as int, HALF_PI as int);
    }
    sin_fixed(w + HALF_PI)
}

/// `a * b / SCALE`, rounded toward zero.
pub fn scale_product(a: i64, b: i64) -> (r: i128)
    ensures
        r == scaled_product(a as int, b as int),
{
    proof {
        lemma_product_fits(a as int, b as int);
    }
    let p: i128 = (a as i128) * (b as i128);
    p / (SCALE as i128)
}

/// The product of two 64-bit values fits in 128 bits.
pub proof fn lemma_product_fits(a: int, b: int)
    requires
        -0x8000_0000_0000_0000 <= a <= 0x8000_0000_0000_0000,
        -0x8000_0000_0000_0000 <= b <= 0x8000_0000_0000_0000,
    ensures
        -0x4000_0000_0000_0000_0000_0000_0000_0000 <= a * b
            <= 0x4000_0000_0000_0000_0000_0000_0000_0000,
{
    assert(-0x4000_0000_0000_0000_0000_0000_0000_0000 <= a * b
        <= 0x4000_0000_0000_0000_0000_0000_0000_0000) by (nonlinear_arith)
        requires
            -0x8000_0000_0000_0000 <= a <= 0x8000_0000_0000_0000,
            -0x8000_0000_0000_0000 <= b <= 0x8000_0000_0000_0000,
    ;
}

/// A product with a factor of magnitude at most `SCALE`, scaled down, is no
/// larger in magnitude than the other factor.
pub proof fn lemma_scaled_product_bounds(a: int, b: int)
    requires
        -SCALE <= a <= SCALE,
    ensures
        -abs_int(b) <= scaled_product(a, b) <= abs_int(b),
{
    let s = SCALE as int;
    let m = abs_int(b);
    assert(-(m * 1_000_000) <= a * b <= m * 1_000_000) by (nonlinear_arith)
        requires
            -1_000_000 <= a <= 1_000_000,
            m == if b < 0 { -b } else { b },
    ;
}

/// The magnitude of an integer.
pub open spec fn abs_int(v: int) -> int {
    if v < 0 {
        -v
    } else {
        v
    }
}

/// The arc tangent of `n / d` for `0 <= n <= d` and `0 < d`, by the rational
/// approximation `z / (1 + 9 z^2 / 32)`.
pub open spec fn arc_ratio(n: int, d: int) -> int {
    (32 * SCALE * (n * d)) / (32 * (d * d) + 9 * (n * n))
}

/// The angle of the vector `(dx, dy)`, in `[-PI, PI]`; zero for the zero
/// vector. The first octant is computed by `arc_ratio`, the others by
/// symmetry.
pub open spec fn bearing_spec(dx: int, dy: int) -> int {
    let ax = abs_int(dx);
    let ay = abs_int(dy);
    if ax == 0 && ay == 0 {
        0
    } else {
        let base = if ay <= ax {
            arc_ratio(ay, ax)
        } else {
            HALF_PI - arc_ratio(ax, ay)
        };
        let upper = if dx >= 0 {
            base
        } else {
            PI - base
        };
        if dy >= 0 {
            upper
        } else {
            -upper
        }
    }
}

/// The arc tangent of a quotient of at most one lies between zero and one
/// radian.
pub proof fn lemma_arc_ratio_bounds(n: int, d: int)
    requires
        0 <= n <= d,
        0 < d,
    ensures
        0 <= arc_ratio(n, d) <= SCALE,
        0 <= n * d <= d * d,
        0 <= n * n <= d * d,
        0 < d * d,
{
    assert(0 <= n * d <= d * d && 0 <= n * n <= d * d && 0 < d * d) by (nonlinear_arith)
        requires
            0 <= n <= d,
            0 < d,
    ;
    let num = 32 * SCALE * (n * d);
    let den = 32 * (d * d) + 9 * (n * n);
    assert(0 <= num <= den * SCALE) by (nonlinear_arith)
        requires
            num == 32 * SCALE * (n * d),
            den == 32 * (d * d) + 9 * (n * n),
            0 <= n * d <= d * d,
            0 <= n * n,
    ;
    assert(0 <= num / den <= SCALE) by (nonlinear_arith)
        requires
            0 <= num <= den * SCALE,
            den > 0,
    ;
}

/// A bearing lies within half a turn of zero.
pub proof fn lemma_bearing_range(dx: int, dy: int)
    ensures
        -PI <= bearing_spec(dx, dy) <= PI,
{
    let ax = abs_int(dx);
    let ay = abs_int(dy);
    if ax == 0 && ay == 0 {
    } else if ay <= ax {
        lemma_arc_ratio_bounds(ay, ax);
    } else {
        lemma_arc_ratio_bounds(ax, ay);
    }
}

fn arc_ratio_fixed(n: i64, d: i64) -> (r: i64)
    requires
        0 <= n <= d,
        0 < d <= 2 * MAX_COORD,
    ensures
        r == arc_ratio(n as int, d as int),
        0 <= r <= SCALE,
{
    proof {
        lemma_arc_ratio_bounds(n as int, d as int);
        assert(d * d <= 4_000_000_000_000_000_000_000_000) by (nonlinear_arith)
            requires
                0 < d <= 2_000_000_000_000,
        ;
    }
    let nd: i128 = (n as i128) * (d as i128);
    let dd: i128 = (d as i128) * (d as i128);
    let nn: i128 = (n as i128) * (n as i128);
    let num: i128 = 32 * (SCALE as i128) * nd;
    let den: i128 = 32 * dd + 9 * nn;
    (num / den) as i64
}

/// The angle of the vector `(dx, dy)`.
pub fn bearing(dx: i64, dy: i64) -> (r: i64)
    requires
        -2 * MAX_COORD <= dx <= 2 * MAX_COORD,
        -2 * MAX_COORD <= dy <= 2 * MAX_COORD,
    ensures
        r == bearing_spec(dx as int, dy as int),
        -PI <= r <= PI,
{
    let ax: i64 = if dx < 0 {
        -dx
    } else {
        dx
    };
    let ay: i64 = if dy < 0 {
        -dy
    } else {
        dy
    };
    if ax == 0 && ay == 0 {
        return 0;
    }
    let base: i64 = if ay <= ax {
        arc_ratio_fixed(ay, ax)
    } else {
        HALF_PI - arc_ratio_fixed(ax, ay)
    };
    let upper: i64 = if dx >= 0 {
        base
    } else {
        PI - base
    };
    if dy >= 0 {
        upper
    } else {
        -upper
    }
}

} // verus!
