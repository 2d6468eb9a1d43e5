use vstd::prelude::*;

use crate::geometry::{trunc_div, abs};

verus! {

/// Angles are measured in microradians; sines and cosines in millionths.
pub const ONE: i64 = 1_000_000;

/// Pi in microradians.
pub const PI: i64 = 3_141_593;

/// Half of pi in microradians.
pub const HALF_PI: i64 = 1_570_796;

/// The angle `a` moved by a whole turn, if needed, into `[-PI, PI)`.
pub open spec fn normalize_spec(a: int) -> int {
    if a >= PI {
        a - 2 * PI
    } else if a < -PI {
        a + 2 * PI
    } else {
        a
    }
}

pub open spec fn angle_ok(a: int) -> bool {
    -PI <= a < PI
}

/// Brings an angle within three half turns of zero back into `[-PI, PI)`.
pub fn normalize_angle(a: i64) -> (r: i64)
    requires
        -3 * PI <= a < 3 * PI,
    ensures
        r == normalize_spec(a as int),
        angle_ok(r as int),
{
    if a >= PI {
        a - 2 * PI
    } else if a < -PI {
        a + 2 * PI
    } else {
        a
    }
}

/// Bhaskara's rational approximation of the sine on `[0, PI]`, in millionths.
pub open spec fn bhaskara(x: int) -> int {
    let p = x * (PI - x);
    16 * p * ONE / (5 * PI * PI - 4 * p)
}

/// The sine of an angle in `[-PI, PI)`, by Bhaskara's approximation, odd about zero.
pub open spec fn sin_spec(a: int) -> int {
    if a >= 0 { bhaskara(a) } else { -bhaskara(-a) }
}

pub open spec fn cos_spec(a: int) -> int {
    sin_spec(normalize_spec(a + HALF_PI))
}

proof fn lemma_bhaskara_range(x: int)
    requires
        0 <= x <= PI,
    ensures
        0 <= x * (PI - x),
        4 * (x * (PI - x)) <= PI * PI,
        0 <= bhaskara(x) <= ONE,
{
    let p = x * (PI - x);
    assert(0 <= p) by (nonlinear_arith)
        requires 0 <= x <= PI, p == x * (PI - x);
    assert((PI - 2 * x) * (PI - 2 * x) >= 0) by (nonlinear_arith);
    assert(4 * p <= PI * PI) by (nonlinear_arith)
        requires p == x * (PI - x), (PI - 2 * x) * (PI - 2 * x) >= 0;
    let den = 5 * PI * PI - 4 * p;
    let num = 16 * p * ONE;
    assert(den > 0);
    assert(num <= ONE * den) by (nonlinear_arith)
        requires num == 16 * p * ONE, den == 5 * PI * PI - 4 * p, 4 * p <= PI * PI;
    assert(0 <= num / den <= ONE) by (nonlinear_arith)
        requires 0 <= num <= ONE * den, den > 0;
}

fn bhaskara_exec(x: i64) -> (r: i64)
    requires
        0 <= x <= PI,
    ensures
        r == bhaskara(x as int),
        0 <= r <= ONE,
{
    proof {
        lemma_bhaskara_range(x as int);
    }
    let xw = x as i128;
    let pi = PI as i128;
    assert(0 <= xw * (pi - xw) <= PI * PI) by (nonlinear_arith)
        requires 0 <= xw <= pi, pi == PI;
    let p: i128 = xw * (pi - xw);
    let den: i128 = 5 * pi * pi - 4 * p;
    let num: i128 = 16 * p * (ONE as i128);
    (num / den) as i64
}

/// Sine of an angle in `[-PI, PI)`, in millionths.
pub fn sin_micro(a: i64) -> (r: i64)
    requires
        angle_ok(a as int),
    ensures
        r == sin_spec(a as int),
        -ONE <= r <= ONE,
{
    if a >= 0 {
        bhaskara_exec(a)
    } else {
        -bhaskara_exec(-a)
    }
}

/// Cosine of an angle in `[-PI, PI)`, in millionths, as the sine a quarter turn on.
pub fn cos_micro(a: i64) -> (r: i64)
    requires
        angle_ok(a as int),
    ensures
        r == cos_spec(a as int),
        -ONE <= r <= ONE,
{
    sin_micro(normalize_angle(a + HALF_PI))
}

/// Rational approximation of `atan(n / d)` for `|n| <= |d|`, `d != 0`, in microradians.
pub open spec fn atan_core(n: int, d: int) -> int {
    trunc_div(32 * n * d * ONE, 32 * d * d + 9 * n * n)
}

/// The angle of the vector `(x, y)`: the four-quadrant arctangent, built from `atan_core`
/// on the octant where the quotient is at most one in magnitude.
pub open spec fn atan2_spec(y: int, x: int) -> int {
    if x == 0 && y == 0 {
        0
    } else if abs(y) <= abs(x) {
        if x > 0 {
            atan_core(y, x)
        } else if y >= 0 {
            atan_core(y, x) + PI
        } else {
            atan_core(y, x) - PI
        }
    } else if y > 0 {
        HALF_PI - atan_core(x, y)
    } else {
        -HALF_PI - atan_core(x, y)
    }
}

/// Largest magnitude of a vector component handed to `atan2_micro`.
pub const ATAN_INPUT_LIMIT: i64 = 4_000_000_000;

fn atan_core_exec(n: i64, d: i64) -> (r: i64)
    requires
        d != 0,
        abs(n as int) <= abs(d as int) <= ATAN_INPUT_LIMIT,
    ensures
        r == atan_core(n as int, d as int),
        -ONE <= r <= ONE,
{
    let nw = n as i128;
    let dw = d as i128;
    let ghost an: int = abs(n as int);
    let ghost ad: int = abs(d as int);
    assert(0 <= an * ad <= ad * ad) by (nonlinear_arith)
        requires 0 <= an <= ad;
    assert(nw * dw == an * ad || nw * dw == -(an * ad)) by (nonlinear_arith)
        requires an == abs(nw as int), ad == abs(dw as int);
    assert(ad * ad <= ATAN_INPUT_LIMIT * ATAN_INPUT_LIMIT) by (nonlinear_arith)
        requires 0 <= ad <= ATAN_INPUT_LIMIT;
    assert(dw * dw == ad * ad && nw * nw == an * an) by (nonlinear_arith)
        requires an == abs(nw as int), ad == abs(dw as int);
    assert(0 <= an * an <= ad * ad) by (nonlinear_arith)
        requires 0 <= an <= ad;
    assert(dw * dw > 0) by (nonlinear_arith)
        requires dw != 0;
    let nd: i128 = nw * dw;
    let dd: i128 = dw * dw;
    let nn: i128 = nw * nw;
    let num: i128 = nd * 32 * (ONE as i128);
    let den: i128 = dd * 32 + nn * 9;
    assert(num == 32 * nw * dw * ONE) by (nonlinear_arith)
        requires nd == nw * dw, num == nd * 32 * ONE;
    assert(den == 32 * dw * dw + 9 * nw * nw) by (nonlinear_arith)
        requires dd == dw * dw, nn == nw * nw, den == dd * 32 + nn * 9;
    let q = if num >= 0 {
        num / den
    } else {
        -((-num) / den)
    };
    proof {
        let m = abs(num as int);
        assert(m <= ONE * den) by (nonlinear_arith)
            requires
                m == abs(num as int),
                num == 32 * nd * ONE,
                nd == nw * dw,
                nw * dw == an * ad || nw * dw == -(an * ad),
                0 <= an * ad <= ad * ad,
                den == 32 * dd + 9 * nn,
                dd == ad * ad,
                nn >= 0,
        ;
        assert(0 <= m / (den as int) <= ONE) by (nonlinear_arith)
            requires 0 <= m <= ONE * den, den > 0;
        assert(q == trunc_div(num as int, den as int));
    }
    q as i64
}

/// The angle of the vector `(x, y)` in microradians, within `[-PI, PI)`.
pub fn atan2_micro(y: i64, x: i64) -> (r: i64)
    requires
        abs(y as int) <= ATAN_INPUT_LIMIT,
        abs(x as int) <= ATAN_INPUT_LIMIT,
    ensures
        r == normalize_spec(atan2_spec(y as int, x as int)),
        angle_ok(r as int),
{
    let ay: i64 = if y < 0 { -y } else { y };
    let ax: i64 = if x < 0 { -x } else { x };
    let raw: i64 = if x == 0 && y == 0 {
        0
    } else if ay <= ax {
        let c = atan_core_exec(y, x);
        if x > 0 {
            c
        } else if y >= 0 {
            c + PI
        } else {
            c - PI
        }
    } else {
        let c = atan_core_exec(x, y);
        if y > 0 {
            HALF_PI - c
        } else {
            -HALF_PI - c
        }
    };
    normalize_angle(raw)
}

} // verus!
