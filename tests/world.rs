use invaders::components::{
    Enemy, Explosion, ExplosionTimer, ExplosionToSpawn, FromEnemy, FromPlayer, Laser, Movable,
    Player, ShipStats, SpriteSize, Transform, Velocity, WinSize, BASE_SPEED,
    EXPLOSION_LEN, ENEMY_MAX, LASER_OFFSET_Y, PLAYER_LASER_OFFSET_X,
};
use invaders::entity::{EntityRecord, Origin, Role};
use invaders::formation::Formation;
use invaders::world::{Input, TickInput, World};

fn win() -> WinSize {
    WinSize { w: 600_000, h: 700_000 }
}

fn formation_at(x: i64, y: i64) -> Formation {
    Formation {
        start: (x, y),
        radius: (100_000, 100_000),
        pivot: (0, 0),
        speed: BASE_SPEED,
        angle: 0,
    }
}

fn enemy(x: i64, y: i64, w: i64, h: i64) -> EntityRecord {
    EntityRecord {
        id: 0,
        role: Role::Enemy(Enemy, formation_at(x, y)),
        transform: Transform { x, y, z: 10, scale: 1000 },
        size: SpriteSize { w, h },
        velocity: Velocity { x: 0, y: 0 },
        movable: None,
        removed: false,
    }
}

fn laser(x: i64, y: i64, w: i64, h: i64, origin: Origin, vy: i64) -> EntityRecord {
    EntityRecord {
        id: 0,
        role: Role::Laser(Laser, origin),
        transform: Transform { x, y, z: 0, scale: 1000 },
        size: SpriteSize { w, h },
        velocity: Velocity { x: 0, y: vy },
        movable: Some(Movable { auto_despawn: true }),
        removed: false,
    }
}

fn player_laser(x: i64, y: i64, w: i64, h: i64) -> EntityRecord {
    laser(x, y, w, h, Origin::Player(FromPlayer), 1000)
}

fn enemy_laser(x: i64, y: i64) -> EntityRecord {
    laser(x, y, 8_000, 8_000, Origin::Enemy(FromEnemy), -1000)
}

fn player(x: i64, y: i64) -> EntityRecord {
    EntityRecord {
        id: 0,
        role: Role::Player(
            Player,
            ShipStats { max_speed: 700, accel_speed: 300, decel_speed: 10, laser_speed: 1000 },
        ),
        transform: Transform { x, y, z: 10, scale: 1000 },
        size: SpriteSize { w: 40_000, h: 40_000 },
        velocity: Velocity { x: 0, y: 0 },
        movable: Some(Movable { auto_despawn: false }),
        removed: false,
    }
}

fn no_keys() -> Input {
    Input { left: false, right: false, up: false, down: false, fire_just_pressed: false }
}

fn is_enemy(r: &EntityRecord) -> bool {
    matches!(r.role, Role::Enemy(..))
}

#[test]
fn player_laser_on_enemy_resolves_one_hit() {
    let mut w = World::new(win());
    w.spawn(enemy(100_000, 100_000, 40_000, 40_000));
    w.spawn(player_laser(100_000, 100_000, 8_000, 8_000));
    assert_eq!(w.enemy_count, 1);
    w.player_laser_hit_enemy();
    assert!(w.entities[0].removed);
    assert!(w.entities[1].removed);
    assert_eq!(w.player_state.score, 1);
    assert_eq!(w.enemy_count, 0);
    assert_eq!(w.explosions_to_spawn.len(), 1);
    assert_eq!(w.explosions_to_spawn[0], ExplosionToSpawn { x: 100_000, y: 100_000, z: 10 });
}

#[test]
fn enemy_hit_by_two_lasers_is_counted_once() {
    let mut w = World::new(win());
    w.spawn(enemy(0, 0, 40_000, 40_000));
    w.spawn(player_laser(0, 0, 8_000, 8_000));
    w.spawn(player_laser(1_000, 0, 8_000, 8_000));
    w.player_laser_hit_enemy();
    assert_eq!(w.enemy_count, 0);
    assert_eq!(w.player_state.score, 1);
    assert_eq!(w.explosions_to_spawn.len(), 1);
    assert!(w.entities[0].removed);
    assert!(w.entities[1].removed);
    assert!(!w.entities[2].removed);
}

#[test]
fn one_tick_resolves_several_independent_hits() {
    let mut w = World::new(win());
    w.spawn(enemy(0, 0, 40_000, 40_000));
    w.spawn(enemy(200_000, 0, 40_000, 40_000));
    w.spawn(player_laser(200_000, 0, 8_000, 8_000));
    w.spawn(player_laser(0, 0, 8_000, 8_000));
    w.spawn(player_laser(-150_000, 0, 8_000, 8_000));
    w.player_laser_hit_enemy();
    assert_eq!(w.enemy_count, 0);
    assert_eq!(w.player_state.score, 2);
    assert_eq!(w.explosions_to_spawn.len(), 2);
    assert!(!w.entities[4].removed);
    w.commit_removals();
    assert_eq!(w.entities.len(), 1);
}

#[test]
fn enemy_lasers_do_not_hit_enemies() {
    let mut w = World::new(win());
    w.spawn(enemy(0, 0, 40_000, 40_000));
    w.spawn(enemy_laser(0, 0));
    w.player_laser_hit_enemy();
    assert_eq!(w.enemy_count, 1);
    assert!(!w.entities[0].removed);
    assert!(!w.entities[1].removed);
}

#[test]
fn every_live_enemy_fires_once() {
    let mut w = World::new(win());
    w.spawn(enemy(100_000, 200_000, 40_000, 40_000));
    w.spawn(enemy(-50_000, 120_000, 40_000, 40_000));
    w.enemy_fire();
    assert_eq!(w.entities.len(), 4);
    let mut positions = Vec::new();
    for r in w.entities[2..].iter() {
        assert!(matches!(r.role, Role::Laser(_, Origin::Enemy(_))));
        assert_eq!(r.velocity, Velocity { x: 0, y: -1000 });
        assert_eq!(r.movable, Some(Movable { auto_despawn: true }));
        positions.push((r.transform.x, r.transform.y));
    }
    assert_eq!(positions, vec![(100_000, 200_000 - LASER_OFFSET_Y), (-50_000, 120_000 - LASER_OFFSET_Y)]);
    assert_ne!(w.entities[2].id, w.entities[3].id);
}

#[test]
fn removed_enemies_do_not_fire() {
    let mut w = World::new(win());
    w.spawn(enemy(0, 0, 40_000, 40_000));
    let mut dead = enemy(10_000, 0, 40_000, 40_000);
    dead.removed = true;
    w.spawn(dead);
    w.enemy_fire();
    assert_eq!(w.entities.len(), 3);
}

#[test]
fn enemy_laser_hits_player_once_per_tick() {
    let mut w = World::new(win());
    w.player_spawn(0);
    let p = w.entities.len() - 1;
    let pos = w.entities[p].transform;
    w.spawn(enemy_laser(pos.x, pos.y));
    w.spawn(enemy_laser(pos.x + 1_000, pos.y));
    let hit = w.enemy_laser_hit_player(500);
    assert_eq!(hit, Some((1, 0)));
    assert_eq!(w.player_state.health, 2);
    assert_eq!(w.player_state.last_shot, Some(500));
    assert!(w.player_state.on);
    assert!(w.entities[1].removed);
    assert!(!w.entities[2].removed);
    assert!(!w.entities[0].removed);
}

#[test]
fn last_hit_removes_the_player() {
    let mut w = World::new(win());
    w.spawn(player(0, 0));
    w.player_state.on = true;
    w.player_state.health = 1;
    w.player_state.score = 9;
    w.spawn(enemy_laser(0, 0));
    let hit = w.enemy_laser_hit_player(1_000);
    assert_eq!(hit, Some((1, 0)));
    assert!(!w.player_state.on);
    assert_eq!(w.player_state.health, 0);
    assert_eq!(w.player_state.score, 0);
    assert!(w.entities[0].removed);
    assert!(w.entities[1].removed);
}

#[test]
fn no_player_means_no_hit() {
    let mut w = World::new(win());
    w.spawn(enemy_laser(0, 0));
    assert_eq!(w.enemy_laser_hit_player(10), None);
    w.spawn(player(0, 0));
    w.spawn(player(0, 0));
    assert_eq!(w.enemy_laser_hit_player(10), None);
    assert_eq!(w.player_state.health, 3);
}

#[test]
fn player_spawns_near_the_bottom() {
    let mut w = World::new(win());
    w.player_spawn(0);
    assert_eq!(w.entities.len(), 1);
    let r = w.entities[0];
    assert!(matches!(r.role, Role::Player(..)));
    assert_eq!((r.transform.x, r.transform.y), (0, -350_000 + 42_500));
    assert!(w.player_state.on);
    assert_eq!(w.player_state.health, 3);
    w.player_spawn(10);
    assert_eq!(w.entities.len(), 1);
}

#[test]
fn player_fires_two_lasers_on_a_press() {
    let mut w = World::new(win());
    w.spawn(player(10_000, -300_000));
    w.player_fire(false);
    assert_eq!(w.entities.len(), 1);
    w.player_fire(true);
    assert_eq!(w.entities.len(), 3);
    let a = w.entities[1];
    let b = w.entities[2];
    assert!(matches!(a.role, Role::Laser(_, Origin::Player(_))));
    assert!(matches!(b.role, Role::Laser(_, Origin::Player(_))));
    assert_eq!((a.transform.x, a.transform.y), (10_000 + PLAYER_LASER_OFFSET_X, -300_000 + LASER_OFFSET_Y));
    assert_eq!((b.transform.x, b.transform.y), (10_000 - PLAYER_LASER_OFFSET_X, -300_000 + LASER_OFFSET_Y));
    assert_eq!(a.velocity, Velocity { x: 0, y: 1000 });
}

#[test]
fn keyboard_accelerates_clamps_and_decays() {
    let mut w = World::new(win());
    w.spawn(player(0, 0));
    let left = Input { left: true, ..no_keys() };
    w.player_keyboard(&left);
    assert_eq!(w.entities[0].velocity.x, -300);
    w.player_keyboard(&left);
    assert_eq!(w.entities[0].velocity.x, -600);
    w.player_keyboard(&left);
    assert_eq!(w.entities[0].velocity.x, -700);
    w.player_keyboard(&no_keys());
    assert_eq!(w.entities[0].velocity.x, -630);
    let up = Input { up: true, ..no_keys() };
    w.player_keyboard(&up);
    assert_eq!(w.entities[0].velocity.y, 300);
}

#[test]
fn lasers_move_and_leave_the_view() {
    let mut w = World::new(win());
    w.spawn(player_laser(0, 0, 8_000, 8_000));
    w.spawn(player_laser(0, 545_000, 8_000, 8_000));
    w.spawn(player(0, 0));
    w.movable();
    assert_eq!(w.entities[0].transform.y, 8_333);
    assert!(!w.entities[0].removed);
    assert_eq!(w.entities[1].transform.y, 553_333);
    assert!(w.entities[1].removed);
    assert_eq!(w.entities[2].transform.y, 0);
    w.commit_removals();
    assert_eq!(w.entities.len(), 2);
}

#[test]
fn enemy_spawns_stop_at_the_maximum() {
    let mut w = World::new(win());
    for _ in 0..6 {
        w.enemy_spawn();
    }
    assert_eq!(w.enemy_count, ENEMY_MAX);
    assert_eq!(w.entities.len(), ENEMY_MAX as usize);
    let f = |r: &EntityRecord| match r.role {
        Role::Enemy(_, f) => f,
        _ => panic!("not an enemy"),
    };
    let (a, b) = (f(&w.entities[0]), f(&w.entities[1]));
    assert_eq!(a.pivot, b.pivot);
    assert_eq!(a.radius, b.radius);
    assert_eq!(a.angle, b.angle);
    assert_eq!((w.entities[0].transform.x, w.entities[0].transform.y), a.start);
}

#[test]
fn orbiting_enemies_move_at_most_one_step() {
    let mut w = World::new(win());
    w.spawn(enemy(400_000, 300_000, 40_000, 40_000));
    w.spawn(enemy(100_000, 0, 40_000, 40_000));
    let before: Vec<Transform> = w.entities.iter().map(|r| r.transform).collect();
    for _ in 0..3 {
        let prev: Vec<Transform> = w.entities.iter().map(|r| r.transform).collect();
        w.enemy_movement();
        for (r, p) in w.entities.iter().zip(prev.iter()) {
            let (dx, dy) = ((r.transform.x - p.x) as i128, (r.transform.y - p.y) as i128);
            assert!(dx * dx + dy * dy <= 8_333 * 8_333);
        }
    }
    assert_ne!(w.entities[0].transform, before[0]);
}

#[test]
fn explosions_play_their_frames_and_vanish() {
    let mut w = World::new(win());
    w.explosions_to_spawn.push(ExplosionToSpawn { x: 5_000, y: -5_000, z: 10 });
    w.explosion_to_spawn();
    assert_eq!(w.explosions_to_spawn.len(), 0);
    assert_eq!(w.entities.len(), 1);
    assert!(matches!(w.entities[0].role, Role::Explosion(Explosion, ExplosionTimer { elapsed_ms: 0, frame: 0 })));
    assert_eq!((w.entities[0].transform.x, w.entities[0].transform.y), (5_000, -5_000));
    assert_eq!(w.entities[0].transform.z, 10);
    w.explosion_animation(70);
    assert!(matches!(w.entities[0].role, Role::Explosion(_, ExplosionTimer { elapsed_ms: 20, frame: 1 })));
    w.explosion_animation(700);
    assert!(matches!(w.entities[0].role, Role::Explosion(_, ExplosionTimer { elapsed_ms: 20, frame: 15 })));
    assert!(!w.entities[0].removed);
    w.explosion_animation(40);
    assert!(matches!(w.entities[0].role, Role::Explosion(_, ExplosionTimer { frame: EXPLOSION_LEN, .. })));
    assert!(w.entities[0].removed);
    w.commit_removals();
    assert!(w.entities.is_empty());
}

#[test]
fn a_tick_spawns_and_reconciles() {
    let mut w = World::new(win());
    w.tick(&TickInput { now_ms: 0, delta_ms: 16, input: no_keys() });
    assert!(w.player_state.on);
    assert_eq!(w.enemy_count, 1);
    assert_eq!(w.last_enemy_spawn_ms, Some(0));
    w.tick(&TickInput { now_ms: 500, delta_ms: 16, input: no_keys() });
    assert_eq!(w.enemy_count, 1);
    w.tick(&TickInput { now_ms: 1_000, delta_ms: 16, input: no_keys() });
    assert_eq!(w.enemy_count, 2);
    assert_eq!(w.entities.iter().filter(|r| is_enemy(r)).count(), 2);
    assert!(w.entities.iter().all(|r| !r.removed));
}

#[test]
fn one_laser_takes_at_most_one_enemy() {
    let mut w = World::new(win());
    w.spawn(enemy(100_000, 100_000, 40_000, 40_000));
    w.spawn(enemy(105_000, 100_000, 40_000, 40_000));
    w.spawn(player_laser(100_000, 100_000, 8_000, 8_000));
    w.player_laser_hit_enemy();
    assert!(w.entities[0].removed);
    assert!(!w.entities[1].removed);
    assert!(w.entities[2].removed);
    assert_eq!(w.enemy_count, 1);
    assert_eq!(w.player_state.score, 1);
    assert_eq!(w.explosions_to_spawn.len(), 1);
}

#[test]
fn no_overlap_means_no_hit() {
    let mut w = World::new(win());
    w.spawn(enemy(0, 0, 40_000, 40_000));
    w.spawn(player_laser(48_000, 0, 8_000, 8_000));
    w.player_laser_hit_enemy();
    assert!(!w.entities[0].removed);
    assert!(!w.entities[1].removed);
    assert_eq!(w.enemy_count, 1);
    assert_eq!(w.player_state.score, 0);
    assert!(w.explosions_to_spawn.is_empty());
}

#[test]
fn explosion_keeps_the_enemy_depth() {
    let mut w = World::new(win());
    w.spawn(enemy(100_000, 100_000, 40_000, 40_000));
    w.spawn(player_laser(100_000, 100_000, 8_000, 8_000));
    w.player_laser_hit_enemy();
    w.explosion_to_spawn();
    let e = w.entities[2];
    assert!(matches!(e.role, Role::Explosion(..)));
    assert_eq!((e.transform.x, e.transform.y, e.transform.z), (100_000, 100_000, 10));
}
