use vstd::prelude::*;

use crate::components::{
    ExplosionTimer, Movable, ShipStats, Transform, Velocity, WinSize, BASE_SPEED, COORD_LIMIT,
    DESPAWN_MARGIN, EXPLOSION_FRAME_MS, EXPLOSION_LEN, PERMILLE, TICKS_PER_SECOND, UNIT,
    VELOCITY_LIMIT,
};
use crate::formation::Formation;
use crate::geometry::{between, clamped_step, coord_ok, is_ceil_sqrt, orbit_step, sq, trunc_div};
use crate::trig::{cos_micro, cos_spec, normalize_angle, normalize_spec, sin_micro, sin_spec, ONE, PI};

verus! {

/// A coordinate held within the world's bounds.
pub open spec fn clamp_coord(v: int) -> int {
    if v > COORD_LIMIT {
        COORD_LIMIT as int
    } else if v < -COORD_LIMIT {
        -COORD_LIMIT
    } else {
        v
    }
}

pub fn clamp_coord_exec(v: i64) -> (r: i64)
    ensures
        r == clamp_coord(v as int),
        coord_ok(r as int),
{
    if v > COORD_LIMIT {
        COORD_LIMIT
    } else if v < -COORD_LIMIT {
        -COORD_LIMIT
    } else {
        v
    }
}

/// Distance an orbiting entity may cover in one tick.
pub open spec fn max_distance(f: Formation) -> int {
    f.speed / TICKS_PER_SECOND
}

/// Entities entering from the left turn one way round the ellipse, from the right the other.
pub open spec fn orbit_dir(f: Formation) -> int {
    if f.start.0 < 0 { 1 } else { -1 }
}

/// Angular step of one tick, inversely proportional to the tighter radius:
/// `speed * dt / (min(rx, ry) * PI / 2)`, in microradians.
pub open spec fn angle_step(f: Formation) -> int {
    let r = if f.radius.0 <= f.radius.1 { f.radius.0 } else { f.radius.1 };
    (f.speed as int * 2 * ONE * ONE) / (TICKS_PER_SECOND * r * PI)
}

/// The orbit angle after one tick, brought back into `[-PI, PI)`.
pub open spec fn candidate_angle(f: Formation) -> int {
    normalize_spec(f.angle + orbit_dir(f) * angle_step(f))
}

/// The point on the ellipse at angle `a`.
pub open spec fn ellipse_point(f: Formation, a: int) -> (int, int) {
    (
        trunc_div(f.radius.0 * cos_spec(a), ONE as int) + f.pivot.0,
        trunc_div(f.radius.1 * sin_spec(a), ONE as int) + f.pivot.1,
    )
}

/// Within this distance of its target an entity counts as caught up with its orbit.
pub open spec fn catch_up_distance(f: Formation) -> int {
    max_distance(f) * f.speed / (20 * UNIT)
}

/// One tick of orbit following: `t2` is `t` moved toward the ellipse point at the next
/// angle by at most the per-tick distance, never past it on either axis, and the next
/// angle is kept exactly when the entity started within the catch-up distance.
pub open spec fn orbit_moved(t: Transform, f: Formation, t2: Transform, f2: Formation) -> bool {
    let a = candidate_angle(f);
    let d = ellipse_point(f, a);
    let md = max_distance(f);
    &&& sq(t2.x - t.x) + sq(t2.y - t.y) <= sq(md)
    &&& between(t.x as int, t2.x as int, d.0)
    &&& between(t.y as int, t2.y as int, d.1)
    &&& exists|s: int|
        is_ceil_sqrt(s, sq(t.x - d.0) + sq(t.y - d.1)) && (t2.x as int, t2.y as int)
            == clamped_step(t.x as int, t.y as int, d.0, d.1, md, s)
    &&& t2.z == t.z && t2.scale == t.scale
    &&& f2 == Formation {
        angle: if sq(t.x - d.0) + sq(t.y - d.1) < sq(catch_up_distance(f)) {
            a as i64
        } else {
            f.angle
        },
        ..f
    }
}

fn mul_div_trunc(a: i64, b: i64, d: i64) -> (r: i64)
    requires
        -10_000_000 <= a <= 10_000_000,
        -1_000_000 <= b <= 1_000_000,
        d == ONE,
    ensures
        r == trunc_div(a * b, d as int),
        -10_000_000 <= r <= 10_000_000,
{
    assert(-10_000_000_000_000 <= a * b <= 10_000_000_000_000) by (nonlinear_arith)
        requires -10_000_000 <= a <= 10_000_000, -1_000_000 <= b <= 1_000_000;
    let p = a * b;
    let q = if p >= 0 {
        p / d
    } else {
        -((-p) / d)
    };
    assert(q == trunc_div(a * b, d as int));
    q
}

/// Moves an orbiting entity one tick along its formation.
pub fn orbit_update(t: &Transform, f: &Formation) -> (r: (Transform, Formation))
    requires
        coord_ok(t.x as int),
        coord_ok(t.y as int),
        f.valid(),
    ensures
        orbit_moved(*t, *f, r.0, r.1),
        r.1.valid(),
        coord_ok(r.0.x as int),
        coord_ok(r.0.y as int),
{
    let md = f.speed / TICKS_PER_SECOND;
    let rmin: i64 = if f.radius.0 <= f.radius.1 {
        f.radius.0
    } else {
        f.radius.1
    };
    let num: i128 = f.speed as i128 * 2 * (ONE as i128) * (ONE as i128);
    assert(rmin >= 1000);
    assert(TICKS_PER_SECOND * rmin * PI >= 60 * 1000 * PI) by (nonlinear_arith)
        requires rmin >= 1000;
    assert(TICKS_PER_SECOND * rmin * PI <= 60 * 10_000_000 * PI) by (nonlinear_arith)
        requires rmin <= 10_000_000;
    let den: i128 = TICKS_PER_SECOND as i128 * rmin as i128 * PI as i128;
    let step128: i128 = num / den;
    proof {
        assert(0 <= num <= 1_000_000_000_000_000_000int) by (nonlinear_arith)
            requires num == f.speed * 2 * ONE * ONE, 0 <= f.speed <= BASE_SPEED;
        vstd::arithmetic::div_mod::lemma_div_is_ordered_by_denominator(
            num as int,
            188_495_580_000,
            den as int,
        );
        vstd::arithmetic::div_mod::lemma_div_is_ordered(
            num as int,
            1_000_000_000_000_000_000,
            188_495_580_000,
        );
        assert(1_000_000_000_000_000_000int / 188_495_580_000int == 5_305_164);
        vstd::arithmetic::div_mod::lemma_div_pos_is_pos(num as int, den as int);
    }
    let step = step128 as i64;
    assert(-PI <= f.angle < PI);
    let dir: i64 = if f.start.0 < 0 {
        1
    } else {
        -1
    };
    let a = normalize_angle(f.angle + dir * step);
    let xd = mul_div_trunc(f.radius.0, cos_micro(a), ONE) + f.pivot.0;
    let yd = mul_div_trunc(f.radius.1, sin_micro(a), ONE) + f.pivot.1;
    let p = orbit_step(t.x, t.y, xd, yd, md);
    let dx: i128 = t.x as i128 - xd as i128;
    let dy: i128 = t.y as i128 - yd as i128;
    assert(dx * dx <= 4 * COORD_LIMIT * COORD_LIMIT) by (nonlinear_arith)
        requires -2 * COORD_LIMIT <= dx <= 2 * COORD_LIMIT;
    assert(dy * dy <= 4 * COORD_LIMIT * COORD_LIMIT) by (nonlinear_arith)
        requires -2 * COORD_LIMIT <= dy <= 2 * COORD_LIMIT;
    assert(dx * dx >= 0 && dy * dy >= 0) by (nonlinear_arith);
    assert(0 <= md <= BASE_SPEED);
    assert(0 <= md * f.speed <= BASE_SPEED * BASE_SPEED) by (nonlinear_arith)
        requires 0 <= md <= BASE_SPEED, 0 <= f.speed <= BASE_SPEED;
    let catch_up: i128 = md as i128 * f.speed as i128 / (20 * UNIT as i128);
    assert(0 <= catch_up * catch_up <= BASE_SPEED * BASE_SPEED * BASE_SPEED * BASE_SPEED) by (nonlinear_arith)
        requires 0 <= catch_up <= BASE_SPEED * BASE_SPEED;
    let mut f2 = *f;
    if dx * dx + dy * dy < catch_up * catch_up {
        f2.angle = a;
    }
    let t2 = Transform { x: p.0, y: p.1, z: t.z, scale: t.scale };
    proof {
        assert(sq(t.x - xd) == dx * dx);
        assert(sq(t.y - yd) == dy * dy);
    }
    (t2, f2)
}

/// Displacement of one tick at velocity `v` (per mille of the base speed).
pub open spec fn displacement(v: int) -> int {
    trunc_div(v * BASE_SPEED, PERMILLE * TICKS_PER_SECOND)
}

/// Whether a point lies beyond the viewport extended by the despawn margin on some side.
pub open spec fn outside_view(x: int, y: int, win: WinSize) -> bool {
    ||| y > win.h / 2 + DESPAWN_MARGIN
    ||| y < -(win.h / 2) - DESPAWN_MARGIN
    ||| x > win.w / 2 + DESPAWN_MARGIN
    ||| x < -(win.w / 2) - DESPAWN_MARGIN
}

fn displacement_exec(v: i64) -> (r: i64)
    requires
        -VELOCITY_LIMIT <= v <= VELOCITY_LIMIT,
    ensures
        r == displacement(v as int),
        -VELOCITY_LIMIT * BASE_SPEED <= r <= VELOCITY_LIMIT * BASE_SPEED,
{
    assert(-VELOCITY_LIMIT * BASE_SPEED <= v * BASE_SPEED <= VELOCITY_LIMIT * BASE_SPEED) by (nonlinear_arith)
        requires -VELOCITY_LIMIT <= v <= VELOCITY_LIMIT;
    let p = v * BASE_SPEED;
    let d = PERMILLE * TICKS_PER_SECOND;
    if p >= 0 {
        p / d
    } else {
        -((-p) / d)
    }
}

/// The transform after one tick of linear motion, held within the world's bounds.
pub open spec fn moved_transform(t: Transform, v: Velocity) -> Transform {
    Transform {
        x: clamp_coord(t.x + displacement(v.x as int)) as i64,
        y: clamp_coord(t.y + displacement(v.y as int)) as i64,
        ..t
    }
}

/// One tick of linear motion: the new transform, and whether the entity is to be removed
/// for having left the viewport (only when it despawns automatically).
pub fn linear_move(t: &Transform, v: &Velocity, m: &Movable, win: &WinSize) -> (r: (Transform, bool))
    requires
        coord_ok(t.x as int),
        coord_ok(t.y as int),
        -VELOCITY_LIMIT <= v.x <= VELOCITY_LIMIT,
        -VELOCITY_LIMIT <= v.y <= VELOCITY_LIMIT,
        win.valid(),
    ensures
        r.0 == moved_transform(*t, *v),
        r.1 == (m.auto_despawn && outside_view(r.0.x as int, r.0.y as int, *win)),
{
    let x = clamp_coord_exec(t.x + displacement_exec(v.x));
    let y = clamp_coord_exec(t.y + displacement_exec(v.y));
    let nt = Transform { x, y, ..*t };
    let out = y > win.h / 2 + DESPAWN_MARGIN || y < -(win.h / 2) - DESPAWN_MARGIN || x > win.w / 2
        + DESPAWN_MARGIN || x < -(win.w / 2) - DESPAWN_MARGIN;
    (nt, m.auto_despawn && out)
}

/// One velocity component after one tick of steering: accelerate toward the held key
/// (`neg` takes precedence), else decay by `1 / decel_speed`, then clamp to the top speed.
pub open spec fn steer_spec(v: int, neg: bool, pos: bool, s: ShipStats) -> int {
    let nv = v + if neg {
        -s.accel_speed
    } else if pos {
        s.accel_speed as int
    } else {
        -trunc_div(v, s.decel_speed as int)
    };
    if nv > s.max_speed {
        s.max_speed as int
    } else if nv < -s.max_speed {
        -s.max_speed
    } else {
        nv
    }
}

pub fn steer(v: i64, neg: bool, pos: bool, s: &ShipStats) -> (r: i64)
    requires
        -VELOCITY_LIMIT <= v <= VELOCITY_LIMIT,
        0 <= s.max_speed <= VELOCITY_LIMIT,
        0 <= s.accel_speed <= VELOCITY_LIMIT,
        1 <= s.decel_speed,
    ensures
        r == steer_spec(v as int, neg, pos, *s),
        -VELOCITY_LIMIT <= r <= VELOCITY_LIMIT,
{
    let decay = if v >= 0 {
        v / s.decel_speed
    } else {
        -((-v) / s.decel_speed)
    };
    assert(decay == trunc_div(v as int, s.decel_speed as int));
    assert(-VELOCITY_LIMIT <= decay <= VELOCITY_LIMIT) by (nonlinear_arith)
        requires
            decay == trunc_div(v as int, s.decel_speed as int),
            -VELOCITY_LIMIT <= v <= VELOCITY_LIMIT,
            1 <= s.decel_speed,
    ;
    let nv = v + if neg {
        -s.accel_speed
    } else if pos {
        s.accel_speed
    } else {
        -decay
    };
    if nv > s.max_speed {
        s.max_speed
    } else if nv < -s.max_speed {
        -s.max_speed
    } else {
        nv
    }
}

/// The explosion timer after `delta_ms`: each completed frame period advances the frame,
/// which stops at the sheet's frame count.
pub open spec fn timer_tick_spec(t: ExplosionTimer, delta_ms: u64) -> ExplosionTimer {
    let total = t.elapsed_ms + delta_ms;
    let frame = t.frame + total / (EXPLOSION_FRAME_MS as int);
    ExplosionTimer {
        elapsed_ms: (total % (EXPLOSION_FRAME_MS as int)) as u64,
        frame: if frame >= EXPLOSION_LEN { EXPLOSION_LEN } else { frame as u64 },
    }
}

pub fn timer_tick(t: &ExplosionTimer, delta_ms: u64) -> (r: ExplosionTimer)
    requires
        t.elapsed_ms < EXPLOSION_FRAME_MS,
        t.frame <= EXPLOSION_LEN,
    ensures
        r == timer_tick_spec(*t, delta_ms),
        r.elapsed_ms < EXPLOSION_FRAME_MS,
        r.frame <= EXPLOSION_LEN,
{
    let part = t.elapsed_ms + delta_ms % EXPLOSION_FRAME_MS;
    let cycles = delta_ms / EXPLOSION_FRAME_MS + part / EXPLOSION_FRAME_MS;
    let elapsed = part % EXPLOSION_FRAME_MS;
    proof {
        let f = EXPLOSION_FRAME_MS as int;
        let e = t.elapsed_ms as int;
        let d = delta_ms as int;
        let part = e + d % f;
        let c = part / f;
        let r = part % f;
        vstd::arithmetic::div_mod::lemma_fundamental_div_mod(part, f);
        vstd::arithmetic::div_mod::lemma_fundamental_div_mod(d, f);
        vstd::arithmetic::div_mod::lemma_mod_bound(part, f);
        assert(e + d == f * (d / f + c) + r) by (nonlinear_arith)
            requires
                part == f * c + r,
                d == f * (d / f) + d % f,
                part == e + d % f,
        ;
        vstd::arithmetic::div_mod::lemma_div_multiples_vanish_fancy(d / f + c, r, f);
        vstd::arithmetic::div_mod::lemma_mod_multiples_vanish(d / f + c, r, f);
        vstd::arithmetic::div_mod::lemma_small_mod(r as nat, f as nat);
    }
    let frame = if cycles >= EXPLOSION_LEN - t.frame {
        EXPLOSION_LEN
    } else {
        t.frame + cycles
    };
    ExplosionTimer { elapsed_ms: elapsed, frame }
}

} // verus!
