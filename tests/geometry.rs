use invaders::components::{SpriteSize, Transform};
use invaders::geometry::{ceil_sqrt, collide, orbit_step};
use invaders::trig::{atan2_micro, cos_micro, normalize_angle, sin_micro, HALF_PI, PI};

fn at(x: i64, y: i64) -> Transform {
    Transform { x, y, z: 0, scale: 1000 }
}

#[test]
fn boxes_that_overlap_collide() {
    let s = SpriteSize { w: 10_000, h: 10_000 };
    assert!(collide(&at(0, 0), &s, &at(19_999, 0), &s));
    assert!(collide(&at(0, 0), &s, &at(-5_000, 19_999), &s));
}

#[test]
fn touching_boxes_do_not_collide() {
    let s = SpriteSize { w: 10_000, h: 10_000 };
    assert!(!collide(&at(0, 0), &s, &at(20_000, 0), &s));
    assert!(!collide(&at(0, 0), &s, &at(0, -20_000), &s));
    assert!(!collide(&at(0, 0), &s, &at(30_000, 30_000), &s));
}

#[test]
fn overlap_on_one_axis_only_is_no_collision() {
    let s = SpriteSize { w: 10_000, h: 10_000 };
    assert!(!collide(&at(0, 0), &s, &at(5_000, 25_000), &s));
}

#[test]
fn collision_boxes_scale_with_the_entity() {
    let s = SpriteSize { w: 10_000, h: 10_000 };
    let half = Transform { x: 15_000, y: 0, z: 0, scale: 500 };
    // half extents 10 px and 5 px: 15 px apart is exactly touching
    assert!(!collide(&at(0, 0), &s, &half, &s));
    let closer = Transform { x: 14_999, y: 0, z: 0, scale: 500 };
    assert!(collide(&at(0, 0), &s, &closer, &s));
}

#[test]
fn ceil_sqrt_values() {
    assert_eq!(ceil_sqrt(0), 0);
    assert_eq!(ceil_sqrt(1), 1);
    assert_eq!(ceil_sqrt(10), 4);
    assert_eq!(ceil_sqrt(16), 4);
    assert_eq!(ceil_sqrt(17), 5);
    assert_eq!(ceil_sqrt(u64::MAX), 4_294_967_296);
}

#[test]
fn orbit_step_reaches_a_near_target() {
    assert_eq!(orbit_step(0, 0, 3_000, 4_000, 8_333), (3_000, 4_000));
    assert_eq!(orbit_step(5, 5, 5, 5, 8_333), (5, 5));
}

#[test]
fn orbit_step_is_clamped_to_the_maximum_distance() {
    assert_eq!(orbit_step(0, 0, 10_000, 0, 8_333), (8_333, 0));
    assert_eq!(orbit_step(0, 0, -10_000, 0, 8_333), (-8_333, 0));
    let (x, y) = orbit_step(0, 0, 30_000, 40_000, 8_333);
    assert_eq!((x, y), (4_999, 6_666));
    assert!(x * x + y * y <= 8_333 * 8_333);
}

#[test]
fn orbit_step_never_exceeds_the_maximum_distance() {
    let starts = [(0i64, 0i64), (123_456, -98_765), (-1_000_000, 777)];
    let targets = [(1i64, 1i64), (50_000, 50_000), (-300_000, 12_345), (7, -9_999_999)];
    for &(x0, y0) in starts.iter() {
        for &(xd, yd) in targets.iter() {
            for &md in [0i64, 1, 8_333, 100_000].iter() {
                let (x, y) = orbit_step(x0, y0, xd, yd, md);
                let (dx, dy) = ((x - x0) as i128, (y - y0) as i128);
                assert!(dx * dx + dy * dy <= (md as i128) * (md as i128));
                assert!((x0 <= x && x <= xd) || (xd <= x && x <= x0));
                assert!((y0 <= y && y <= yd) || (yd <= y && y <= y0));
            }
        }
    }
}

#[test]
fn sine_and_cosine_values() {
    assert_eq!(sin_micro(0), 0);
    assert_eq!(sin_micro(HALF_PI), 999_999);
    assert_eq!(sin_micro(-HALF_PI), -999_999);
    assert_eq!(sin_micro(523_598), 499_999);
    assert_eq!(cos_micro(0), 999_999);
    assert_eq!(cos_micro(HALF_PI), 1);
}

#[test]
fn angles_wrap_into_one_turn() {
    assert_eq!(normalize_angle(PI), -PI);
    assert_eq!(normalize_angle(-PI - 1), PI - 1);
    assert_eq!(normalize_angle(12), 12);
}

#[test]
fn atan2_values() {
    assert_eq!(atan2_micro(0, 0), 0);
    assert_eq!(atan2_micro(0, 5), 0);
    assert_eq!(atan2_micro(1, 1), 780_487);
    assert_eq!(atan2_micro(5, 0), HALF_PI);
    assert_eq!(atan2_micro(-5, 0), -HALF_PI);
    assert_eq!(atan2_micro(0, -5), -PI);
    assert_eq!(atan2_micro(-1, -1), 780_487 - PI);
}
