use invaders::components::{ExplosionTimer, SpriteSize, WinSize, BASE_SPEED, PLAYER_RESPAWN_DELAY_MS};
use invaders::formation::FormationMaker;
use invaders::motion::{steer, timer_tick};
use invaders::components::ShipStats;
use invaders::player_state::PlayerState;
use invaders::trig::atan2_micro;

#[test]
fn three_hits_end_the_life_and_clear_the_score() {
    let mut s = PlayerState::new();
    s.spawned();
    s.add_point();
    s.shot(100);
    assert_eq!(s.health, 2);
    assert!(s.on);
    assert_eq!(s.score, 1);
    s.add_point();
    s.add_point();
    s.shot(200);
    assert_eq!(s.health, 1);
    assert_eq!(s.score, 3);
    s.add_point();
    s.shot(300);
    assert_eq!(s.health, 0);
    assert!(!s.on);
    assert_eq!(s.score, 0);
    assert_eq!(s.last_shot, Some(300));
}

#[test]
fn health_never_drops_below_zero() {
    let mut s = PlayerState::new();
    s.health = 0;
    s.shot(5);
    assert_eq!(s.health, 0);
    assert!(!s.on);
}

#[test]
fn respawn_waits_for_the_delay() {
    let mut s = PlayerState::new();
    assert!(s.can_spawn(0));
    s.spawned();
    assert!(!s.can_spawn(0));
    s.shot(1_000);
    s.shot(2_000);
    s.shot(5_000);
    assert!(!s.on);
    assert!(!s.can_spawn(5_000 + PLAYER_RESPAWN_DELAY_MS - 1));
    assert!(!s.can_spawn(5_000 + PLAYER_RESPAWN_DELAY_MS));
    assert!(s.can_spawn(5_000 + PLAYER_RESPAWN_DELAY_MS + 1));
    s.spawned();
    assert_eq!(s, PlayerState { on: true, health: 3, last_shot: None, score: 0 });
}

#[test]
fn a_batch_shares_one_formation() {
    let win = WinSize { w: 600_000, h: 700_000 };
    let mut m = FormationMaker::new();
    let a = m.make(&win);
    let b = m.make(&win);
    assert_eq!(a.start, b.start);
    assert_eq!(a.pivot, b.pivot);
    assert_eq!(a.radius, b.radius);
    assert_eq!(a.angle, b.angle);
    assert_eq!(a.speed, BASE_SPEED);
    let c = m.make(&win);
    let d = m.make(&win);
    assert_eq!(c.pivot, d.pivot);
    assert_eq!(c.angle, d.angle);
}

#[test]
fn drawn_formations_lie_in_their_bands() {
    let win = WinSize { w: 600_000, h: 700_000 };
    let mut m = FormationMaker::default();
    for _ in 0..50 {
        let f = m.make(&win);
        assert!(f.start.0 == 400_000 || f.start.0 == -400_000);
        assert!(-450_000 <= f.start.1 && f.start.1 < 450_000);
        assert!(-150_000 <= f.pivot.0 && f.pivot.0 < 150_000);
        assert!(0 <= f.pivot.1 && f.pivot.1 < 283_333);
        assert!(80_000 <= f.radius.0 && f.radius.0 < 150_000);
        assert_eq!(f.radius.1, 100_000);
        assert_eq!(f.angle, atan2_micro(f.start.1 - f.pivot.1, f.start.0 - f.pivot.0));
    }
}

#[test]
fn steering_values() {
    let st = ShipStats { max_speed: 700, accel_speed: 300, decel_speed: 10, laser_speed: 1000 };
    assert_eq!(steer(0, true, false, &st), -300);
    assert_eq!(steer(0, false, true, &st), 300);
    assert_eq!(steer(0, true, true, &st), -300);
    assert_eq!(steer(600, false, true, &st), 700);
    assert_eq!(steer(-600, true, false, &st), -700);
    assert_eq!(steer(95, false, false, &st), 86);
    assert_eq!(steer(-95, false, false, &st), -86);
}

#[test]
fn explosion_timer_counts_completed_frames() {
    let t = ExplosionTimer { elapsed_ms: 30, frame: 2 };
    assert_eq!(timer_tick(&t, 45), ExplosionTimer { elapsed_ms: 25, frame: 3 });
    assert_eq!(timer_tick(&t, 10), ExplosionTimer { elapsed_ms: 40, frame: 2 });
    assert_eq!(timer_tick(&t, u64::MAX), ExplosionTimer { elapsed_ms: (30 + u64::MAX % 50) % 50, frame: 16 });
    assert_eq!(ExplosionTimer::default(), ExplosionTimer { elapsed_ms: 0, frame: 0 });
}

#[test]
fn sprite_size_from_a_pair() {
    assert_eq!(SpriteSize::from((144_000, 75_000)), SpriteSize { w: 144_000, h: 75_000 });
}
