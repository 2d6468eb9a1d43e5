use vstd::prelude::*;

use crate::components::{SpriteSize, Transform, COORD_LIMIT, EXTENT_LIMIT, PERMILLE, SCALE_LIMIT};

verus! {

pub open spec fn abs(a: int) -> int {
    if a < 0 { -a } else { a }
}

pub open spec fn sq(a: int) -> int {
    a * a
}

/// Division that rounds toward zero, as integer division does on machine integers.
pub open spec fn trunc_div(a: int, b: int) -> int {
    if a >= 0 { a / b } else { -((-a) / b) }
}

/// `s` is the smallest natural number whose square reaches `d`.
pub open spec fn is_ceil_sqrt(s: int, d: int) -> bool {
    s >= 0 && s * s >= d && (s == 0 || (s - 1) * (s - 1) < d)
}

pub open spec fn coord_ok(a: int) -> bool {
    -COORD_LIMIT <= a <= COORD_LIMIT
}

/// A transform and collision box whose arithmetic stays well inside machine integers.
pub open spec fn box_ok(t: Transform, s: SpriteSize) -> bool {
    coord_ok(t.x as int) && coord_ok(t.y as int) && 0 <= t.scale <= SCALE_LIMIT && 0 <= s.w
        <= EXTENT_LIMIT && 0 <= s.h <= EXTENT_LIMIT
}

/// Axis-aligned boxes overlap strictly on both axes. Half extents are the sprite sizes
/// scaled by each entity's scale factor (per mille), so both sides are multiplied by 1000.
pub open spec fn boxes_overlap(ta: Transform, sa: SpriteSize, tb: Transform, sb: SpriteSize) -> bool {
    &&& abs(ta.x - tb.x) * PERMILLE < sa.w * ta.scale + sb.w * tb.scale
    &&& abs(ta.y - tb.y) * PERMILLE < sa.h * ta.scale + sb.h * tb.scale
}

fn abs_diff(a: i64, b: i64) -> (r: i64)
    requires
        coord_ok(a as int),
        coord_ok(b as int),
    ensures
        r == abs(a - b),
{
    if a >= b { a - b } else { b - a }
}

/// Whether the collision boxes of two entities overlap. Boxes that only touch do not collide.
pub fn collide(ta: &Transform, sa: &SpriteSize, tb: &Transform, sb: &SpriteSize) -> (r: bool)
    requires
        box_ok(*ta, *sa),
        box_ok(*tb, *sb),
    ensures
        r == boxes_overlap(*ta, *sa, *tb, *sb),
{
    assert(0 <= sa.w * ta.scale <= EXTENT_LIMIT * SCALE_LIMIT) by (nonlinear_arith)
        requires 0 <= sa.w <= EXTENT_LIMIT, 0 <= ta.scale <= SCALE_LIMIT;
    assert(0 <= sb.w * tb.scale <= EXTENT_LIMIT * SCALE_LIMIT) by (nonlinear_arith)
        requires 0 <= sb.w <= EXTENT_LIMIT, 0 <= tb.scale <= SCALE_LIMIT;
    assert(0 <= sa.h * ta.scale <= EXTENT_LIMIT * SCALE_LIMIT) by (nonlinear_arith)
        requires 0 <= sa.h <= EXTENT_LIMIT, 0 <= ta.scale <= SCALE_LIMIT;
    assert(0 <= sb.h * tb.scale <= EXTENT_LIMIT * SCALE_LIMIT) by (nonlinear_arith)
        requires 0 <= sb.h <= EXTENT_LIMIT, 0 <= tb.scale <= SCALE_LIMIT;
    let dx = abs_diff(ta.x, tb.x);
    let dy = abs_diff(ta.y, tb.y);
    dx * PERMILLE < sa.w * ta.scale + sb.w * tb.scale && dy * PERMILLE < sa.h * ta.scale + sb.h
        * tb.scale
}

proof fn lemma_ceil_sqrt_unique(s1: int, s2: int, d: int)
    requires
        is_ceil_sqrt(s1, d),
        is_ceil_sqrt(s2, d),
    ensures
        s1 == s2,
{
    if s1 < s2 {
        assert(s1 * s1 <= (s2 - 1) * (s2 - 1)) by (nonlinear_arith)
            requires 0 <= s1 <= s2 - 1;
    } else if s2 < s1 {
        assert(s2 * s2 <= (s1 - 1) * (s1 - 1)) by (nonlinear_arith)
            requires 0 <= s2 <= s1 - 1;
    }
}

/// The smallest natural number whose square is at least `d`.
pub fn ceil_sqrt(d: u64) -> (s: u64)
    ensures
        is_ceil_sqrt(s as int, d as int),
        s <= 0x1_0000_0000,
{
    if d == 0 {
        return 0;
    }
    let mut lo: u128 = 0;
    let mut hi: u128 = 0x1_0000_0000;
    let dd: u128 = d as u128;
    assert(hi * hi == 0x1_0000_0000_0000_0000u128);
    while hi - lo > 1
        invariant
            lo < hi <= 0x1_0000_0000,
            lo * lo < dd,
            hi * hi >= dd,
            dd == d,
            d > 0,
        decreases hi - lo,
    {
        let mid: u128 = lo + (hi - lo) / 2;
        assert(mid * mid <= 0x1_0000_0000_0000_0000u128) by (nonlinear_arith)
            requires mid <= 0x1_0000_0000;
        if mid * mid >= dd {
            hi = mid;
        } else {
            lo = mid;
        }
    }
    assert(hi - 1 == lo);
    hi as u64
}

fn trunc_div_i128(a: i128, b: i128) -> (r: i128)
    requires
        b > 0,
        a > i128::MIN,
    ensures
        r == trunc_div(a as int, b as int),
{
    if a >= 0 {
        a / b
    } else {
        -((-a) / b)
    }
}

proof fn lemma_trunc_div_bound(a: int, b: int)
    requires
        b > 0,
    ensures
        abs(trunc_div(a, b)) * b <= abs(a),
        a >= 0 ==> trunc_div(a, b) >= 0,
        a <= 0 ==> trunc_div(a, b) <= 0,
{
    let n = abs(a);
    let q = n / b;
    assert(q * b <= n) by (nonlinear_arith)
        requires n >= 0, b > 0, q == n / b;
    assert(q >= 0) by (nonlinear_arith)
        requires n >= 0, b > 0, q == n / b;
    if a >= 0 {
        assert(trunc_div(a, b) == q);
    } else {
        assert(trunc_div(a, b) == -q);
    }
}

proof fn lemma_square_of_abs(a: int)
    ensures
        abs(a) * abs(a) == a * a,
        a * a >= 0,
{
    if a < 0 {
        assert((-a) * (-a) == a * a) by (nonlinear_arith);
    }
    assert(a * a >= 0) by (nonlinear_arith);
}

proof fn lemma_step_bound(dx: int, dy: int, md: int, s: int, sx: int, sy: int)
    requires
        s > 0,
        md >= 0,
        s * s >= dx * dx + dy * dy,
        abs(sx) * s <= abs(dx) * md,
        abs(sy) * s <= abs(dy) * md,
    ensures
        sx * sx + sy * sy <= md * md,
{
    let ax = abs(sx);
    let ay = abs(sy);
    let bx = abs(dx);
    let by_ = abs(dy);
    lemma_square_of_abs(sx);
    lemma_square_of_abs(sy);
    lemma_square_of_abs(dx);
    lemma_square_of_abs(dy);
    let ss = s * s;
    let mm = md * md;
    assert((ax * ax) * ss <= (bx * bx) * mm) by (nonlinear_arith)
        requires 0 <= ax * s <= bx * md, ax >= 0, s > 0, ss == s * s, mm == md * md;
    assert((ay * ay) * ss <= (by_ * by_) * mm) by (nonlinear_arith)
        requires 0 <= ay * s <= by_ * md, ay >= 0, s > 0, ss == s * s, mm == md * md;
    let a2 = ax * ax + ay * ay;
    let b2 = bx * bx + by_ * by_;
    assert(a2 * ss <= b2 * mm) by (nonlinear_arith)
        requires
            (ax * ax) * ss <= (bx * bx) * mm,
            (ay * ay) * ss <= (by_ * by_) * mm,
            a2 == ax * ax + ay * ay,
            b2 == bx * bx + by_ * by_,
    ;
    assert(mm >= 0) by (nonlinear_arith)
        requires mm == md * md;
    assert(b2 * mm <= ss * mm) by (nonlinear_arith)
        requires b2 <= ss, mm >= 0;
    assert(ss > 0) by (nonlinear_arith)
        requires ss == s * s, s > 0;
    assert(a2 <= mm) by (nonlinear_arith)
        requires a2 * ss <= ss * mm, ss > 0;
}

/// The point reached by moving from `(x0, y0)` toward `(xd, yd)` by at most `md`.
pub open spec fn clamped_step(x0: int, y0: int, xd: int, yd: int, md: int, s: int) -> (int, int) {
    let dx = x0 - xd;
    let dy = y0 - yd;
    if dx * dx + dy * dy <= md * md {
        (xd, yd)
    } else {
        (x0 - trunc_div(dx * md, s), y0 - trunc_div(dy * md, s))
    }
}

pub open spec fn between(a: int, v: int, b: int) -> bool {
    (a <= v <= b) || (b <= v <= a)
}

/// One step toward a target: the full way when it lies within `md`, else `md` scaled along
/// the straight line (the division rounds toward zero, so the step never exceeds `md`).
/// Neither coordinate passes the target's.
pub fn orbit_step(x0: i64, y0: i64, xd: i64, yd: i64, md: i64) -> (r: (i64, i64))
    requires
        coord_ok(x0 as int),
        coord_ok(y0 as int),
        coord_ok(xd as int),
        coord_ok(yd as int),
        0 <= md <= COORD_LIMIT,
    ensures
        sq(r.0 - x0) + sq(r.1 - y0) <= sq(md as int),
        between(x0 as int, r.0 as int, xd as int),
        between(y0 as int, r.1 as int, yd as int),
        exists|s: int|
            is_ceil_sqrt(s, sq(x0 - xd) + sq(y0 - yd)) && (r.0 as int, r.1 as int)
                == clamped_step(x0 as int, y0 as int, xd as int, yd as int, md as int, s),
{
    let dx: i128 = x0 as i128 - xd as i128;
    let dy: i128 = y0 as i128 - yd as i128;
    assert(dx * dx <= 4 * COORD_LIMIT * COORD_LIMIT) by (nonlinear_arith)
        requires -2 * COORD_LIMIT <= dx <= 2 * COORD_LIMIT;
    assert(dy * dy <= 4 * COORD_LIMIT * COORD_LIMIT) by (nonlinear_arith)
        requires -2 * COORD_LIMIT <= dy <= 2 * COORD_LIMIT;
    assert(dx * dx >= 0 && dy * dy >= 0) by (nonlinear_arith);
    let d: i128 = dx * dx + dy * dy;
    let mdw: i128 = md as i128;
    assert(0 <= mdw * mdw <= COORD_LIMIT * COORD_LIMIT) by (nonlinear_arith)
        requires 0 <= mdw <= COORD_LIMIT;
    let s: u64 = ceil_sqrt(d as u64);
    proof {
        assert(dx * dx == sq(x0 - xd));
        assert(dy * dy == sq(y0 - yd));
    }
    if d <= mdw * mdw {
        proof {
            assert(is_ceil_sqrt(s as int, sq(x0 - xd) + sq(y0 - yd)));
            assert((xd as int, yd as int) == clamped_step(
                x0 as int,
                y0 as int,
                xd as int,
                yd as int,
                md as int,
                s as int,
            ));
            lemma_square_of_abs(xd - x0);
            lemma_square_of_abs(yd - y0);
            assert(sq(xd - x0) == sq(x0 - xd)) by (nonlinear_arith);
            assert(sq(yd - y0) == sq(y0 - yd)) by (nonlinear_arith);
        }
        (xd, yd)
    } else {
        let si: i128 = s as i128;
        proof {
            if si <= mdw {
                assert(si * si <= mdw * mdw) by (nonlinear_arith)
                    requires 0 <= si <= mdw;
            }
            assert(si > mdw);
        }
        assert(-2 * COORD_LIMIT * COORD_LIMIT <= dx * mdw <= 2 * COORD_LIMIT * COORD_LIMIT)
            by (nonlinear_arith)
            requires -2 * COORD_LIMIT <= dx <= 2 * COORD_LIMIT, 0 <= mdw <= COORD_LIMIT;
        assert(-2 * COORD_LIMIT * COORD_LIMIT <= dy * mdw <= 2 * COORD_LIMIT * COORD_LIMIT)
            by (nonlinear_arith)
            requires -2 * COORD_LIMIT <= dy <= 2 * COORD_LIMIT, 0 <= mdw <= COORD_LIMIT;
        let sx = trunc_div_i128(dx * mdw, si);
        let sy = trunc_div_i128(dy * mdw, si);
        proof {
            lemma_trunc_div_bound(dx * mdw, si as int);
            lemma_trunc_div_bound(dy * mdw, si as int);
            let adx = abs(dx as int);
            let ady = abs(dy as int);
            let asx = abs(sx as int);
            let asy = abs(sy as int);
            assert(abs(dx * mdw) == adx * mdw) by (nonlinear_arith)
                requires mdw >= 0, adx == abs(dx as int);
            assert(abs(dy * mdw) == ady * mdw) by (nonlinear_arith)
                requires mdw >= 0, ady == abs(dy as int);
            lemma_step_bound(dx as int, dy as int, mdw as int, si as int, sx as int, sy as int);
            assert(adx * mdw <= adx * si) by (nonlinear_arith)
                requires mdw < si, adx >= 0;
            assert(asx <= adx) by (nonlinear_arith)
                requires asx * si <= adx * si, si > 0;
            assert(ady * mdw <= ady * si) by (nonlinear_arith)
                requires mdw < si, ady >= 0;
            assert(asy <= ady) by (nonlinear_arith)
                requires asy * si <= ady * si, si > 0;
            if dx >= 0 {
                assert(dx * mdw >= 0) by (nonlinear_arith) requires dx >= 0, mdw >= 0;
            } else {
                assert(dx * mdw <= 0) by (nonlinear_arith) requires dx < 0, mdw >= 0;
            }
            if dy >= 0 {
                assert(dy * mdw >= 0) by (nonlinear_arith) requires dy >= 0, mdw >= 0;
            } else {
                assert(dy * mdw <= 0) by (nonlinear_arith) requires dy < 0, mdw >= 0;
            }
            assert(sq((x0 as int - sx) - x0) == sx * sx) by (nonlinear_arith);
            assert(sq((y0 as int - sy) - y0) == sy * sy) by (nonlinear_arith);
        }
        let x = (x0 as i128 - sx) as i64;
        let y = (y0 as i128 - sy) as i64;
        proof {
            assert(x == x0 - sx);
            assert(y == y0 - sy);
            assert(is_ceil_sqrt(s as int, sq(x0 - xd) + sq(y0 - yd)));
            assert((x as int, y as int) == clamped_step(
                x0 as int,
                y0 as int,
                xd as int,
                yd as int,
                md as int,
                s as int,
            ));
        }
        (x, y)
    }
}

} // verus!
