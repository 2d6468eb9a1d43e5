use vstd::prelude::*;

use crate::components::{
    Enemy, Explosion, ExplosionTimer, ExplosionToSpawn, FromEnemy, FromPlayer, Laser, Movable,
    Player, ShipStats, SpriteSize, Transform, Velocity, WinSize, ENEMY_LASER_SIZE_H,
    ENEMY_LASER_SIZE_W, ENEMY_MAX, ENEMY_FIRE_ODDS, ENEMY_SPAWN_INTERVAL_MS, EXPLOSION_LEN, ENEMY_SIZE_H, ENEMY_SIZE_W, LASER_OFFSET_Y, PERMILLE,
    PLAYER_ACCEL_SPEED, PLAYER_DECEL_SPEED, PLAYER_HEALTH, PLAYER_LASER_OFFSET_X,
    PLAYER_LASER_SIZE_H, PLAYER_LASER_SIZE_W, PLAYER_LASER_SPEED, PLAYER_MAX_SPEED,
    PLAYER_SIZE_H, PLAYER_SIZE_W, PLAYER_SPAWN_OFFSET_Y, SHIP_Z, SPRITE_SCALE,
};
use crate::entity::{
    same_but_id, Origin, is_enemy_laser, is_live_enemy, is_live_player, is_player_laser, kept, lemma_count_push,
    lemma_count_take_step, lemma_count_update, live_enemies, live_players, record_ok, EntityRecord,
    Role,
};
use crate::formation::{make_step, Formation, FormationMaker};
use crate::motion::{
    clamp_coord, clamp_coord_exec, linear_move, moved_transform, orbit_moved, orbit_update,
    outside_view, steer, steer_spec, timer_tick, timer_tick_spec,
};
use crate::player_state::shot_spec;
use crate::random::random_ratio;
use crate::player_state::{can_spawn_spec, spawned_spec};
use crate::geometry::{boxes_overlap, collide, coord_ok};
use crate::player_state::PlayerState;

verus! {

/// The shared store of one game: its entities, the pending explosion requests, and the
/// counters and state that the phases of a tick keep.
pub struct World {
    pub entities: Vec<EntityRecord>,
    pub explosions_to_spawn: Vec<ExplosionToSpawn>,
    pub enemy_count: u32,
    pub player_state: PlayerState,
    pub formation_maker: FormationMaker,
    pub win_size: WinSize,
    pub next_id: u64,
    pub last_enemy_spawn_ms: Option<u64>,
}

pub open spec fn request_ok(e: ExplosionToSpawn) -> bool {
    coord_ok(e.x as int) && coord_ok(e.y as int)
}

/// `new` is `old` followed by the records of `added`, each under an identifier of its own.
pub open spec fn appended(old: Seq<EntityRecord>, new: Seq<EntityRecord>, added: Seq<EntityRecord>) -> bool {
    &&& new.len() == old.len() + added.len()
    &&& new.subrange(0, old.len() as int) == old
    &&& forall|k: int| 0 <= k < added.len() ==> same_but_id(#[trigger] new[old.len() + k], added[k])
}

proof fn lemma_appended_push(
    old: Seq<EntityRecord>,
    new: Seq<EntityRecord>,
    added: Seq<EntityRecord>,
    r: EntityRecord,
    id: u64,
)
    requires
        appended(old, new, added),
    ensures
        appended(old, new.push(EntityRecord { id, ..r }), added.push(r)),
{
    let n2 = new.push(EntityRecord { id, ..r });
    let a2 = added.push(r);
    assert(n2.subrange(0, old.len() as int) =~= new.subrange(0, old.len() as int));
    assert forall|k: int| 0 <= k < a2.len() implies same_but_id(#[trigger] n2[old.len() + k], a2[k]) by {
        if k < added.len() {
            assert(n2[old.len() + k] == new[old.len() + k]);
        }
    }
}

proof fn lemma_appended_prefix(old: Seq<EntityRecord>, new: Seq<EntityRecord>, added: Seq<EntityRecord>, i: int)
    requires
        appended(old, new, added),
        0 <= i < old.len(),
    ensures
        new[i] == old[i],
{
    assert(new.subrange(0, old.len() as int)[i] == new[i]);
}

/// The fields other than the entities and the identifier counter agree.
pub open spec fn same_but_entities(a: World, b: World) -> bool {
    &&& a.explosions_to_spawn == b.explosions_to_spawn
    &&& a.enemy_count == b.enemy_count
    &&& a.player_state == b.player_state
    &&& a.formation_maker == b.formation_maker
    &&& a.win_size == b.win_size
    &&& a.last_enemy_spawn_ms == b.last_enemy_spawn_ms
}

/// A laser fired by an enemy standing at `t`: just below it, moving down.
pub open spec fn enemy_laser_spec(t: Transform) -> EntityRecord {
    EntityRecord {
        id: 0,
        role: Role::Laser(Laser, Origin::Enemy(FromEnemy)),
        transform: Transform {
            x: t.x,
            y: clamp_coord(t.y - LASER_OFFSET_Y) as i64,
            z: 0,
            scale: SPRITE_SCALE,
        },
        size: SpriteSize { w: ENEMY_LASER_SIZE_W, h: ENEMY_LASER_SIZE_H },
        velocity: Velocity { x: 0, y: (-PERMILLE) as i64 },
        movable: Some(Movable { auto_despawn: true }),
        removed: false,
    }
}

/// A laser fired by the player standing at `t`, `dx` to the side of its centre, moving up.
pub open spec fn player_laser_spec(t: Transform, dx: int) -> EntityRecord {
    EntityRecord {
        id: 0,
        role: Role::Laser(Laser, Origin::Player(FromPlayer)),
        transform: Transform {
            x: clamp_coord(t.x + dx) as i64,
            y: clamp_coord(t.y + LASER_OFFSET_Y) as i64,
            z: 0,
            scale: SPRITE_SCALE,
        },
        size: SpriteSize { w: PLAYER_LASER_SIZE_W, h: PLAYER_LASER_SIZE_H },
        velocity: Velocity { x: 0, y: PERMILLE },
        movable: Some(Movable { auto_despawn: true }),
        removed: false,
    }
}

/// The player's ship, centred horizontally near the bottom of the viewport.
pub open spec fn player_spec(win: WinSize) -> EntityRecord {
    EntityRecord {
        id: 0,
        role: Role::Player(
            Player,
            ShipStats {
                max_speed: PLAYER_MAX_SPEED,
                accel_speed: PLAYER_ACCEL_SPEED,
                decel_speed: PLAYER_DECEL_SPEED,
                laser_speed: PLAYER_LASER_SPEED,
            },
        ),
        transform: Transform {
            x: 0,
            y: (-(win.h / 2) + PLAYER_SPAWN_OFFSET_Y) as i64,
            z: SHIP_Z,
            scale: SPRITE_SCALE,
        },
        size: SpriteSize { w: PLAYER_SIZE_W, h: PLAYER_SIZE_H },
        velocity: Velocity { x: 0, y: 0 },
        movable: Some(Movable { auto_despawn: false }),
        removed: false,
    }
}

/// An enemy at the entry point of its formation.
pub open spec fn enemy_spec(f: Formation) -> EntityRecord {
    EntityRecord {
        id: 0,
        role: Role::Enemy(Enemy, f),
        transform: Transform { x: f.start.0, y: f.start.1, z: SHIP_Z, scale: SPRITE_SCALE },
        size: SpriteSize { w: ENEMY_SIZE_W, h: ENEMY_SIZE_H },
        velocity: Velocity { x: 0, y: 0 },
        movable: None,
        removed: false,
    }
}

/// An explosion starting its animation where it was requested, at the requested depth.
pub open spec fn explosion_spec(e: ExplosionToSpawn) -> EntityRecord {
    EntityRecord {
        id: 0,
        role: Role::Explosion(Explosion, ExplosionTimer { elapsed_ms: 0, frame: 0 }),
        transform: Transform { x: e.x, y: e.y, z: e.z, scale: PERMILLE },
        size: SpriteSize { w: 0, h: 0 },
        velocity: Velocity { x: 0, y: 0 },
        movable: None,
        removed: false,
    }
}

/// One laser for each live enemy of `s`, in order.
pub open spec fn enemy_lasers(s: Seq<EntityRecord>) -> Seq<EntityRecord>
    decreases s.len(),
{
    if s.len() == 0 {
        Seq::empty()
    } else {
        let pre = enemy_lasers(s.drop_last());
        if is_live_enemy(s.last()) {
            pre.push(enemy_laser_spec(s.last().transform))
        } else {
            pre
        }
    }
}

pub proof fn lemma_enemy_lasers_len(s: Seq<EntityRecord>)
    ensures
        enemy_lasers(s).len() == live_enemies(s),
    decreases s.len(),
{
    if s.len() > 0 {
        lemma_enemy_lasers_len(s.drop_last());
    }
}

/// Held direction keys and the fresh press of fire, as the input collaborator reports them.
#[derive(Clone, Copy, Debug, PartialEq, Eq, Structural)]
pub struct Input {
    pub left: bool,
    pub right: bool,
    pub up: bool,
    pub down: bool,
    pub fire_just_pressed: bool,
}

/// What the tick source hands to one tick: the time since start and since the last tick,
/// in milliseconds, and the input.
#[derive(Clone, Copy, Debug, PartialEq, Eq, Structural)]
pub struct TickInput {
    pub now_ms: u64,
    pub delta_ms: u64,
    pub input: Input,
}

/// A live enemy moved one tick along its orbit; any other record unchanged.
pub open spec fn orbit_record(old: EntityRecord, new: EntityRecord) -> bool {
    match old.role {
        Role::Enemy(e, f) => if old.removed {
            new == old
        } else {
            match new.role {
                Role::Enemy(e2, f2) => {
                    &&& new == EntityRecord { transform: new.transform, role: new.role, ..old }
                    &&& orbit_moved(old.transform, f, new.transform, f2)
                },
                _ => false,
            }
        },
        _ => new == old,
    }
}

/// A pending record with linear motion after one tick: moved, and marked for removal when
/// it despawns automatically and has left the viewport; any other record unchanged.
pub open spec fn linear_record(r: EntityRecord, win: WinSize) -> EntityRecord {
    match r.movable {
        Some(m) => if r.removed {
            r
        } else {
            let t = moved_transform(r.transform, r.velocity);
            EntityRecord {
                transform: t,
                removed: m.auto_despawn && outside_view(t.x as int, t.y as int, win),
                ..r
            }
        },
        None => r,
    }
}

/// A live explosion after `delta_ms`: its timer advanced, and marked for removal once its
/// last frame has passed; any other record unchanged.
pub open spec fn animated_record(r: EntityRecord, delta_ms: u64) -> EntityRecord {
    match r.role {
        Role::Explosion(x, t) => if r.removed {
            r
        } else {
            let t2 = timer_tick_spec(t, delta_ms);
            EntityRecord { role: Role::Explosion(x, t2), removed: t2.frame >= EXPLOSION_LEN, ..r }
        },
        _ => r,
    }
}

/// The player's record after one tick of steering with `input`.
pub open spec fn steered_record(r: EntityRecord, input: Input) -> EntityRecord {
    match r.role {
        Role::Player(_, st) => EntityRecord {
            velocity: Velocity {
                x: steer_spec(r.velocity.x as int, input.left, input.right, st) as i64,
                y: steer_spec(r.velocity.y as int, input.down, input.up, st) as i64,
            },
            ..r
        },
        _ => r,
    }
}

/// The pending enemy laser `i` of `s` overlaps the record `p`.
pub open spec fn laser_hits(s: Seq<EntityRecord>, i: int, p: int) -> bool {
    &&& is_enemy_laser(s[i])
    &&& !s[i].removed
    &&& boxes_overlap(s[i].transform, s[i].size, s[p].transform, s[p].size)
}

pub open spec fn enemy_spawn_due(last: Option<u64>, now_ms: u64) -> bool {
    match last {
        None => true,
        Some(t) => now_ms >= t + ENEMY_SPAWN_INTERVAL_MS,
    }
}

/// The explosion request for an enemy standing at `t`.
pub open spec fn request_at(t: Transform) -> ExplosionToSpawn {
    ExplosionToSpawn { x: t.x, y: t.y, z: t.z }
}

/// The entities, the explosion requests and the number of hits, as the collision scan
/// of player lasers against enemies carries them along.
pub type HitScan = (Seq<EntityRecord>, Seq<ExplosionToSpawn>, nat);

/// Laser `i` against enemy `j`: when `i` is a pending player laser and `j` a live enemy
/// whose boxes overlap, both are marked for removal, an explosion is requested at the
/// enemy's position and one hit is counted; otherwise nothing changes.
pub open spec fn scan_step(st: HitScan, i: int, j: int) -> HitScan {
    let s = st.0;
    if 0 <= i < s.len() && 0 <= j < s.len() && is_player_laser(s[i]) && !s[i].removed
        && is_live_enemy(s[j]) && boxes_overlap(s[i].transform, s[i].size, s[j].transform, s[j].size) {
        (
            s.update(j, EntityRecord { removed: true, ..s[j] }).update(
                i,
                EntityRecord { removed: true, ..s[i] },
            ),
            st.1.push(request_at(s[j].transform)),
            st.2 + 1,
        )
    } else {
        st
    }
}

/// Laser `i` against the enemies `0..j`, in order.
pub open spec fn scan_row(st: HitScan, i: int, j: int) -> HitScan
    decreases j,
{
    if j <= 0 {
        st
    } else {
        scan_step(scan_row(st, i, j - 1), i, j - 1)
    }
}

/// Lasers `0..i`, each against all `n` enemies, laser by laser.
pub open spec fn scan_rows(st: HitScan, n: int, i: int) -> HitScan
    decreases i,
{
    if i <= 0 {
        st
    } else {
        scan_row(scan_rows(st, n, i - 1), i - 1, n)
    }
}

/// The full laser-major scan over entities `s`, starting from the requests `e`.
pub open spec fn hit_scan(s: Seq<EntityRecord>, e: Seq<ExplosionToSpawn>) -> HitScan {
    scan_rows((s, e, 0nat), s.len() as int, s.len() as int)
}

/// `score` after `hits` points, stopping at the largest value.
pub open spec fn score_after(score: u64, hits: nat) -> int {
    if score + hits <= u64::MAX { score + hits } else { u64::MAX as int }
}

proof fn lemma_two_players(s: Seq<EntityRecord>, p: int, q: int)
    requires
        0 <= p < s.len(),
        0 <= q < s.len(),
        p != q,
        is_live_player(s[p]),
        is_live_player(s[q]),
    ensures
        live_players(s) >= 2,
    decreases s.len(),
{
    let last = s.len() - 1;
    if p != last && q != last {
        lemma_two_players(s.drop_last(), p, q);
    } else {
        let other = if p == last { q } else { p };
        lemma_one_player(s.drop_last(), other);
    }
}

proof fn lemma_one_player(s: Seq<EntityRecord>, p: int)
    requires
        0 <= p < s.len(),
        is_live_player(s[p]),
    ensures
        live_players(s) >= 1,
    decreases s.len(),
{
    if p != s.len() - 1 {
        lemma_one_player(s.drop_last(), p);
    }
}

proof fn lemma_kept_none_removed(s: Seq<EntityRecord>)
    ensures
        forall|k: int| 0 <= k < kept(s).len() ==> !(#[trigger] kept(s)[k]).removed,
    decreases s.len(),
{
    if s.len() > 0 {
        lemma_kept_none_removed(s.drop_last());
        let pre = kept(s.drop_last());
        if !s.last().removed {
            assert forall|k: int| 0 <= k < pre.push(s.last()).len() implies !(#[trigger] pre.push(s.last())[k]).removed by {
                if k < pre.len() {
                    assert(pre.push(s.last())[k] == pre[k]);
                }
            }
        }
    }
}

/// What `World::player_spawn` does to a world `a`, leaving `b`.
pub open spec fn player_spawn_rel(a: World, b: World, now_ms: u64) -> bool {
    &&& can_spawn_spec(a.player_state, now_ms) ==> appended(
        a.entities@,
        b.entities@,
        seq![player_spec(a.win_size)],
        ) && b.player_state == spawned_spec()
    &&& !can_spawn_spec(a.player_state, now_ms) ==> b.entities@
        == a.entities@ && b.player_state == a.player_state
    &&& b.explosions_to_spawn == a.explosions_to_spawn
    &&& b.enemy_count == a.enemy_count
    &&& b.formation_maker == a.formation_maker
    &&& b.win_size == a.win_size
    &&& b.last_enemy_spawn_ms == a.last_enemy_spawn_ms
}

/// What `World::player_keyboard` does to a world `a`, leaving `b`.
pub open spec fn player_keyboard_rel(a: World, b: World, input: Input) -> bool {
    &&& live_players(a.entities@) != 1 ==> b.entities@ == a.entities@
    &&& live_players(a.entities@) == 1 ==> exists|p: int|
        0 <= p < a.entities@.len() && is_live_player(#[trigger] a.entities@[p])
            && b.entities@ == a.entities@.update(
            p,
            steered_record(a.entities@[p], input),
        )
    &&& same_but_entities(a, b)
    &&& b.next_id == a.next_id
}

/// What `World::player_fire` does to a world `a`, leaving `b`.
pub open spec fn player_fire_rel(a: World, b: World, fire_just_pressed: bool) -> bool {
    &&& (fire_just_pressed && live_players(a.entities@) == 1) ==> exists|p: int|
        0 <= p < a.entities@.len() && is_live_player(a.entities@[p])
            && appended(
            a.entities@,
            b.entities@,
            seq![
                player_laser_spec(a.entities@[p].transform, PLAYER_LASER_OFFSET_X as int),
                player_laser_spec(a.entities@[p].transform, -PLAYER_LASER_OFFSET_X),
            ],
        )
    &&& !(fire_just_pressed && live_players(a.entities@) == 1) ==> b.entities@
        == a.entities@
    &&& same_but_entities(a, b)
}

/// What `World::enemy_spawn` does to a world `a`, leaving `b`.
pub open spec fn enemy_spawn_rel(a: World, b: World) -> bool {
    &&& a.enemy_count < ENEMY_MAX ==> exists|f: Formation|
        make_step(a.formation_maker, b.formation_maker, a.win_size, f)
            && appended(a.entities@, b.entities@, seq![enemy_spec(f)])
    &&& a.enemy_count < ENEMY_MAX ==> b.enemy_count == a.enemy_count + 1
    &&& a.enemy_count >= ENEMY_MAX ==> b.entities@ == a.entities@
        && b.enemy_count == a.enemy_count && b.formation_maker
        == a.formation_maker
    &&& b.explosions_to_spawn == a.explosions_to_spawn
    &&& b.player_state == a.player_state
    &&& b.win_size == a.win_size
    &&& b.last_enemy_spawn_ms == a.last_enemy_spawn_ms
}

/// What `World::enemy_fire` does to a world `a`, leaving `b`.
pub open spec fn enemy_fire_rel(a: World, b: World) -> bool {
    &&& appended(a.entities@, b.entities@, enemy_lasers(a.entities@))
    &&& b.entities@.len() == a.entities@.len() + live_enemies(a.entities@)
    &&& same_but_entities(a, b)
}

/// What `World::enemy_movement` does to a world `a`, leaving `b`.
pub open spec fn enemy_movement_rel(a: World, b: World) -> bool {
    &&& b.entities@.len() == a.entities@.len()
    &&& forall|k: int|
        0 <= k < a.entities@.len() ==> orbit_record(
            a.entities@[k],
            #[trigger] b.entities@[k],
        )
    &&& same_but_entities(a, b)
    &&& b.next_id == a.next_id
}

/// What `World::movable` does to a world `a`, leaving `b`.
pub open spec fn movable_rel(a: World, b: World) -> bool {
    &&& b.entities@.len() == a.entities@.len()
    &&& forall|k: int|
        0 <= k < a.entities@.len() ==> #[trigger] b.entities@[k]
            == linear_record(a.entities@[k], a.win_size)
    &&& same_but_entities(a, b)
    &&& b.next_id == a.next_id
}

/// What `World::player_laser_hit_enemy` does to a world `a`, leaving `b`.
pub open spec fn player_laser_hit_enemy_rel(a: World, b: World) -> bool {
    &&& b.entities@ == hit_scan(a.entities@, a.explosions_to_spawn@).0
    &&& b.explosions_to_spawn@ == hit_scan(
        a.entities@,
        a.explosions_to_spawn@,
    ).1
    &&& b.enemy_count == a.enemy_count - hit_scan(
        a.entities@,
        a.explosions_to_spawn@,
    ).2
    &&& b.player_state.score == score_after(
        a.player_state.score,
        hit_scan(a.entities@, a.explosions_to_spawn@).2,
    )
    &&& b.player_state.on == a.player_state.on
    &&& b.player_state.health == a.player_state.health
    &&& b.player_state.last_shot == a.player_state.last_shot
    &&& b.formation_maker == a.formation_maker
    &&& b.win_size == a.win_size
    &&& b.next_id == a.next_id
    &&& b.last_enemy_spawn_ms == a.last_enemy_spawn_ms
}

/// What `World::enemy_laser_hit_player` does to a world `a`, leaving `b`.
pub open spec fn enemy_laser_hit_player_rel(a: World, b: World, now_ms: u64, r: Option<(usize, usize)>) -> bool {
    &&& r is None ==> b.entities@ == a.entities@ && b.player_state
        == a.player_state
    &&& r is None && live_players(a.entities@) == 1 ==> forall|p: int, i: int|
        0 <= p < a.entities@.len() && 0 <= i < a.entities@.len()
            && is_live_player(a.entities@[p]) ==> !#[trigger] laser_hits(
            a.entities@,
            i,
            p,
        )
    &&& r matches Some((i, p)) ==> {
        let s = a.entities@;
        let ps = shot_spec(a.player_state, now_ms);
        &&& i < s.len() && p < s.len()
        &&& live_players(s) == 1 && is_live_player(s[p as int])
        &&& laser_hits(s, i as int, p as int)
        &&& forall|j: int| 0 <= j < i ==> !laser_hits(s, j, p as int)
        &&& b.player_state == ps
        &&& b.entities@ == if ps.on {
            s.update(i as int, EntityRecord { removed: true, ..s[i as int] })
        } else {
            s.update(i as int, EntityRecord { removed: true, ..s[i as int] }).update(
                p as int,
                EntityRecord { removed: true, ..s[p as int] },
            )
        }
        }
    &&& b.explosions_to_spawn == a.explosions_to_spawn
    &&& b.enemy_count == a.enemy_count
    &&& b.formation_maker == a.formation_maker
    &&& b.win_size == a.win_size
    &&& b.last_enemy_spawn_ms == a.last_enemy_spawn_ms
    &&& b.next_id == a.next_id
}

/// What `World::explosion_to_spawn` does to a world `a`, leaving `b`.
pub open spec fn explosion_to_spawn_rel(a: World, b: World) -> bool {
    &&& appended(
        a.entities@,
        b.entities@,
        a.explosions_to_spawn@.map_values(|e: ExplosionToSpawn| explosion_spec(e)),
        )
    &&& b.explosions_to_spawn@.len() == 0
    &&& b.enemy_count == a.enemy_count
    &&& b.player_state == a.player_state
    &&& b.formation_maker == a.formation_maker
    &&& b.win_size == a.win_size
    &&& b.last_enemy_spawn_ms == a.last_enemy_spawn_ms
}

/// What `World::explosion_animation` does to a world `a`, leaving `b`.
pub open spec fn explosion_animation_rel(a: World, b: World, delta_ms: u64) -> bool {
    &&& b.entities@.len() == a.entities@.len()
    &&& forall|k: int|
        0 <= k < a.entities@.len() ==> #[trigger] b.entities@[k]
            == animated_record(a.entities@[k], delta_ms)
    &&& same_but_entities(a, b)
    &&& b.next_id == a.next_id
}

/// What `World::commit_removals` does to a world `a`, leaving `b`.
pub open spec fn commit_removals_rel(a: World, b: World) -> bool {
    &&& b.entities@ == kept(a.entities@)
    &&& b.enemy_count == a.enemy_count
    &&& b.explosions_to_spawn == a.explosions_to_spawn
    &&& b.player_state == a.player_state
    &&& b.formation_maker == a.formation_maker
    &&& b.win_size == a.win_size
    &&& b.next_id == a.next_id
    &&& b.last_enemy_spawn_ms == a.last_enemy_spawn_ms
}

/// `w` with the time of the last enemy spawn attempt set to `t`.
pub open spec fn stamped(w: World, t: Option<u64>) -> World {
    World { last_enemy_spawn_ms: t, ..w }
}

/// The player's phases from `a` through `w1` and `w2` to `b`: spawn, steering, fire.
pub open spec fn player_phases(a: World, w1: World, w2: World, b: World, now_ms: u64, input: Input) -> bool {
    &&& player_spawn_rel(a, w1, now_ms)
    &&& player_keyboard_rel(w1, w2, input)
    &&& player_fire_rel(w2, b, input.fire_just_pressed)
}

pub open spec fn player_plugin_rel(a: World, b: World, now_ms: u64, input: Input) -> bool {
    exists|w1: World, w2: World| #[trigger] player_phases(a, w1, w2, b, now_ms, input)
}

/// The enemies' phases from `a` through `w1` and `w2` to `b`, where `fired` is what the
/// fire draw returned: a spawn attempt (stamped with `now_ms`) when the spawn interval
/// has passed, the enemies firing on a true draw, and orbit movement.
pub open spec fn enemy_phases(a: World, w1: World, w2: World, b: World, fired: bool, now_ms: u64) -> bool {
    &&& if enemy_spawn_due(a.last_enemy_spawn_ms, now_ms) {
        enemy_spawn_rel(stamped(a, Some(now_ms)), w1)
    } else {
        w1 == a
    }
    &&& if fired {
        enemy_fire_rel(w1, w2)
    } else {
        w2 == w1
    }
    &&& enemy_movement_rel(w2, b)
}

pub open spec fn enemy_plugin_rel(a: World, b: World, now_ms: u64) -> bool {
    exists|fired: bool, w1: World, w2: World| #[trigger] enemy_phases(a, w1, w2, b, fired, now_ms)
}

/// The phases of one tick in order, through the intermediate worlds `w[0..7]`, where `r`
/// is what the enemy-laser pass returned.
pub open spec fn tick_phases(
    a: World,
    w: Seq<World>,
    r: Option<(usize, usize)>,
    b: World,
    input: TickInput,
) -> bool {
    &&& w.len() == 7
    &&& player_plugin_rel(a, w[0], input.now_ms, input.input)
    &&& enemy_plugin_rel(w[0], w[1], input.now_ms)
    &&& movable_rel(w[1], w[2])
    &&& player_laser_hit_enemy_rel(w[2], w[3])
    &&& enemy_laser_hit_player_rel(w[3], w[4], input.now_ms, r)
    &&& explosion_to_spawn_rel(w[4], w[5])
    &&& explosion_animation_rel(w[5], w[6], input.delta_ms)
    &&& commit_removals_rel(w[6], b)
}

pub open spec fn tick_rel(a: World, b: World, input: TickInput) -> bool {
    exists|w: Seq<World>, r: Option<(usize, usize)>| #[trigger] tick_phases(a, w, r, b, input)
}

proof fn lemma_enemy_lasers_index(s: Seq<EntityRecord>, i: int)
    requires
        0 <= i < s.len(),
        is_live_enemy(s[i]),
    ensures
        live_enemies(s.take(i)) < enemy_lasers(s).len(),
        enemy_lasers(s)[live_enemies(s.take(i)) as int] == enemy_laser_spec(s[i].transform),
    decreases s.len(),
{
    let pre = enemy_lasers(s.drop_last());
    lemma_enemy_lasers_len(s.drop_last());
    if i == s.len() - 1 {
        assert(s.take(i) =~= s.drop_last());
    } else {
        assert(s.drop_last().take(i) =~= s.take(i));
        lemma_enemy_lasers_index(s.drop_last(), i);
    }
}

proof fn lemma_live_before_grows(s: Seq<EntityRecord>, i: int, j: int)
    requires
        0 <= i < j <= s.len(),
        is_live_enemy(s[i]),
    ensures
        live_enemies(s.take(i)) < live_enemies(s.take(j)),
    decreases j - i,
{
    lemma_count_take_step(s, j - 1, |r: EntityRecord| is_live_enemy(r));
    if i < j - 1 {
        lemma_live_before_grows(s, i, j - 1);
    }
}

/// When the enemies fire, each live enemy gets a laser of its own: the laser just below
/// it, moving down. The lasers follow the entities already present, one per live enemy,
/// in the enemies' order, so two enemies never share one.
pub proof fn lemma_enemy_fire_one_laser_each(a: World, b: World, i: int, j: int)
    requires
        enemy_fire_rel(a, b),
        0 <= i < j < a.entities@.len(),
        is_live_enemy(a.entities@[i]),
        is_live_enemy(a.entities@[j]),
    ensures
        b.entities@.len() == a.entities@.len() + live_enemies(a.entities@),
        same_but_id(
            b.entities@[(a.entities@.len() + live_enemies(a.entities@.take(i))) as int],
            enemy_laser_spec(a.entities@[i].transform),
        ),
        same_but_id(
            b.entities@[(a.entities@.len() + live_enemies(a.entities@.take(j))) as int],
            enemy_laser_spec(a.entities@[j].transform),
        ),
        live_enemies(a.entities@.take(i)) < live_enemies(a.entities@.take(j)),
{
    let s = a.entities@;
    lemma_enemy_lasers_index(s, i);
    lemma_enemy_lasers_index(s, j);
    lemma_live_before_grows(s, i, j);
}

impl World {
    /// The enemy count equals the number of live enemies, and every record and request
    /// stays within its bounds.
    pub open spec fn wf(&self) -> bool {
        &&& self.win_size.valid()
        &&& self.player_state.wf()
        &&& self.formation_maker.wf()
        &&& self.enemy_count == live_enemies(self.entities@)
        &&& forall|i: int| 0 <= i < self.entities@.len() ==> record_ok(#[trigger] self.entities@[i])
        &&& forall|i: int|
            0 <= i < self.explosions_to_spawn@.len() ==> request_ok(
                #[trigger] self.explosions_to_spawn@[i],
            )
    }

    /// An empty world for a viewport.
    pub fn new(win_size: WinSize) -> (r: World)
        requires
            win_size.valid(),
        ensures
            r.wf(),
            r.entities@.len() == 0,
            r.explosions_to_spawn@.len() == 0,
            r.enemy_count == 0,
            r.player_state == (PlayerState { on: false, health: PLAYER_HEALTH, last_shot: None, score: 0 }),
            r.win_size == win_size,
            r.formation_maker.template() is None,
            r.formation_maker.members() == 0,
            r.last_enemy_spawn_ms is None,
    {
        World {
            entities: Vec::new(),
            explosions_to_spawn: Vec::new(),
            enemy_count: 0,
            player_state: PlayerState::new(),
            formation_maker: FormationMaker::new(),
            win_size,
            next_id: 0,
            last_enemy_spawn_ms: None,
        }
    }

    /// Adds an entity under the next identifier, which it returns; a live enemy is counted.
    pub fn spawn(&mut self, rec: EntityRecord) -> (id: u64)
        requires
            old(self).wf(),
            record_ok(rec),
            is_live_enemy(rec) ==> old(self).enemy_count < u32::MAX,
        ensures
            final(self).wf(),
            id == old(self).next_id,
            final(self).entities@ == old(self).entities@.push(EntityRecord { id, ..rec }),
            final(self).enemy_count == old(self).enemy_count + if is_live_enemy(rec) {
                1int
            } else {
                0int
            },
            final(self).next_id == if old(self).next_id < u64::MAX {
                old(self).next_id + 1
            } else {
                0
            },
            final(self).explosions_to_spawn == old(self).explosions_to_spawn,
            final(self).player_state == old(self).player_state,
            final(self).formation_maker == old(self).formation_maker,
            final(self).win_size == old(self).win_size,
            final(self).last_enemy_spawn_ms == old(self).last_enemy_spawn_ms,
    {
        let id = self.next_id;
        let r = EntityRecord { id, ..rec };
        proof {
            lemma_count_push(self.entities@, r, |r: EntityRecord| is_live_enemy(r));
        }
        self.entities.push(r);
        if r.role.is_enemy() && !r.removed {
            self.enemy_count = self.enemy_count + 1;
        }
        self.next_id = if self.next_id < u64::MAX {
            self.next_id + 1
        } else {
            0
        };
        id
    }

    /// Drops every record whose removal is pending, keeping the others in order.
    pub fn commit_removals(&mut self)
        requires
            old(self).wf(),
        ensures
            final(self).wf(),
            commit_removals_rel(*old(self), *final(self)),

    {
        let ghost s = self.entities@;
        let n = self.entities.len();
        let mut out: Vec<EntityRecord> = Vec::new();
        let mut i: usize = 0;
        while i < n
            invariant
                n == s.len(),
                0 <= i <= n,
                s == self.entities@,
                out@ == kept(s.take(i as int)),
                live_enemies(out@) == live_enemies(s.take(i as int)),
                forall|k: int| 0 <= k < out@.len() ==> record_ok(#[trigger] out@[k]),
                forall|k: int| 0 <= k < s.len() ==> record_ok(#[trigger] s[k]),
            decreases n - i,
        {
            let r = self.entities[i];
            proof {
                lemma_count_take_step(s, i as int, |r: EntityRecord| is_live_enemy(r));
                assert(s.take(i + 1).drop_last() =~= s.take(i as int));
                assert(s.take(i + 1).last() == r);
            }
            if !r.removed {
                proof {
                    lemma_count_push(out@, r, |r: EntityRecord| is_live_enemy(r));
                }
                out.push(r);
            }
            i = i + 1;
        }
        proof {
            assert(s.take(n as int) =~= s);
        }
        self.entities = out;
    }

    /// The index of the player when exactly one live player exists; otherwise none, and
    /// the phases that need the player skip their work.
    pub fn single_player(&self) -> (r: Option<usize>)
        ensures
            r matches Some(i) ==> i < self.entities@.len() && is_live_player(self.entities@[i as int])
                && live_players(self.entities@) == 1,
            r is None ==> live_players(self.entities@) != 1,
    {
        let ghost s = self.entities@;
        let n = self.entities.len();
        let mut found: Option<usize> = None;
        let mut count: u64 = 0;
        let mut i: usize = 0;
        while i < n
            invariant
                n == s.len(),
                s == self.entities@,
                0 <= i <= n,
                count == if live_players(s.take(i as int)) >= 2 {
                    2
                } else {
                    live_players(s.take(i as int))
                },
                count == 0 <==> found is None,
                found matches Some(f) ==> f < i && is_live_player(s[f as int]),
            decreases n - i,
        {
            proof {
                lemma_count_take_step(s, i as int, |r: EntityRecord| is_live_player(r));
            }
            let r = &self.entities[i];
            if r.role.is_player() && !r.removed {
                if count == 0 {
                    found = Some(i);
                }
                if count < 2 {
                    count = count + 1;
                }
            }
            i = i + 1;
        }
        proof {
            assert(s.take(n as int) =~= s);
        }
        if count == 1 {
            found
        } else {
            None
        }
    }

    /// Player lasers against enemies, laser by laser and, for each laser, enemy by enemy.
    /// Each pending player laser and live enemy whose boxes overlap, neither resolved
    /// earlier in the scan, are both marked for removal; the hit scores a point, takes the
    /// enemy off the count and requests an explosion at the enemy's position. A laser thus
    /// takes at most one enemy and an enemy is counted at most once.
    pub fn player_laser_hit_enemy(&mut self)
        requires
            old(self).wf(),
        ensures
            final(self).wf(),
            player_laser_hit_enemy_rel(*old(self), *final(self)),

    {
        let ghost s0 = self.entities@;
        let ghost init: HitScan = (s0, self.explosions_to_spawn@, 0nat);
        let ghost ps0 = self.player_state;
        let ghost mut hits: nat = 0;
        let n = self.entities.len();
        let mut i: usize = 0;
        while i < n
            invariant
                self.wf(),
                n == s0.len() == self.entities@.len(),
                s0 == old(self).entities@,
                init == (s0, old(self).explosions_to_spawn@, 0nat),
                0 <= i <= n,
                (self.entities@, self.explosions_to_spawn@, hits) == scan_rows(init, n as int, i as int),
                self.enemy_count + hits == old(self).enemy_count,
                self.player_state.score == score_after(ps0.score, hits),
                self.player_state.on == ps0.on,
                self.player_state.health == ps0.health,
                self.player_state.last_shot == ps0.last_shot,
                ps0 == old(self).player_state,
                self.formation_maker == old(self).formation_maker,
                self.win_size == old(self).win_size,
                self.next_id == old(self).next_id,
                self.last_enemy_spawn_ms == old(self).last_enemy_spawn_ms,
            decreases n - i,
        {
            let ghost row_start = scan_rows(init, n as int, i as int);
            let mut j: usize = 0;
            while j < n
                invariant
                    self.wf(),
                    n == s0.len() == self.entities@.len(),
                    0 <= i < n,
                    0 <= j <= n,
                    row_start == scan_rows(init, n as int, i as int),
                    (self.entities@, self.explosions_to_spawn@, hits) == scan_row(
                        row_start,
                        i as int,
                        j as int,
                    ),
                    self.enemy_count + hits == old(self).enemy_count,
                    self.player_state.score == score_after(ps0.score, hits),
                    self.player_state.on == ps0.on,
                    self.player_state.health == ps0.health,
                    self.player_state.last_shot == ps0.last_shot,
                    ps0 == old(self).player_state,
                    self.formation_maker == old(self).formation_maker,
                    self.win_size == old(self).win_size,
                    self.next_id == old(self).next_id,
                    self.last_enemy_spawn_ms == old(self).last_enemy_spawn_ms,
                decreases n - j,
            {
                let laser = self.entities[i];
                let enemy = self.entities[j];
                proof {
                    assert(record_ok(self.entities@[i as int]));
                    assert(record_ok(self.entities@[j as int]));
                }
                if laser.role.is_player_laser() && !laser.removed && enemy.role.is_enemy()
                    && !enemy.removed && collide(
                    &laser.transform,
                    &laser.size,
                    &enemy.transform,
                    &enemy.size,
                ) {
                    self.resolve_hit(i, j);
                    proof {
                        hits = hits + 1;
                    }
                }
                j = j + 1;
            }
            i = i + 1;
        }
    }

    /// Marks a player laser and a live enemy for removal, scores the point, uncounts the
    /// enemy and requests its explosion.
    fn resolve_hit(&mut self, i: usize, j: usize)
        requires
            old(self).wf(),
            i < old(self).entities@.len(),
            j < old(self).entities@.len(),
            is_player_laser(old(self).entities@[i as int]),
            !old(self).entities@[i as int].removed,
            is_live_enemy(old(self).entities@[j as int]),
        ensures
            final(self).wf(),
            final(self).entities@ == old(self).entities@.update(
                j as int,
                EntityRecord { removed: true, ..old(self).entities@[j as int] },
            ).update(i as int, EntityRecord { removed: true, ..old(self).entities@[i as int] }),
            live_enemies(final(self).entities@) + 1 == live_enemies(old(self).entities@),
            final(self).explosions_to_spawn@ == old(self).explosions_to_spawn@.push(
                request_at(old(self).entities@[j as int].transform),
            ),
            final(self).player_state.score == if old(self).player_state.score < u64::MAX {
                old(self).player_state.score + 1
            } else {
                old(self).player_state.score as int
            },
            final(self).player_state.on == old(self).player_state.on,
            final(self).player_state.health == old(self).player_state.health,
            final(self).player_state.last_shot == old(self).player_state.last_shot,
            final(self).formation_maker == old(self).formation_maker,
            final(self).win_size == old(self).win_size,
            final(self).next_id == old(self).next_id,
            final(self).last_enemy_spawn_ms == old(self).last_enemy_spawn_ms,
    {
        let ghost s = self.entities@;
        let laser = self.entities[i];
        let enemy = self.entities[j];
        let dead_enemy = EntityRecord { removed: true, ..enemy };
        let spent_laser = EntityRecord { removed: true, ..laser };
        proof {
            lemma_count_update(s, j as int, dead_enemy, |r: EntityRecord| is_live_enemy(r));
            lemma_count_update(s.update(j as int, dead_enemy), i as int, spent_laser, |r: EntityRecord| is_live_enemy(r));
            assert(record_ok(s[j as int]));
        }
        self.entities[j] = dead_enemy;
        self.entities[i] = spent_laser;
        self.enemy_count = self.enemy_count - 1;
        self.player_state.add_point();
        self.explosions_to_spawn.push(
            ExplosionToSpawn { x: enemy.transform.x, y: enemy.transform.y, z: enemy.transform.z },
        );
        proof {
            assert forall|k: int| 0 <= k < self.entities@.len() implies record_ok(#[trigger] self.entities@[k]) by {
                assert(record_ok(s[k]));
            }
            let es = self.explosions_to_spawn@;
            assert forall|q: int| 0 <= q < es.len() implies request_ok(#[trigger] es[q]) by {
                if q < es.len() - 1 {
                    assert(es[q] == old(self).explosions_to_spawn@[q]);
                }
            }
        }
    }

    fn enemy_laser(t: &Transform) -> (r: EntityRecord)
        requires
            coord_ok(t.x as int),
            coord_ok(t.y as int),
        ensures
            r == enemy_laser_spec(*t),
            record_ok(r),
    {
        EntityRecord {
            id: 0,
            role: Role::Laser(Laser, Origin::Enemy(FromEnemy)),
            transform: Transform {
                x: t.x,
                y: clamp_coord_exec(t.y - LASER_OFFSET_Y),
                z: 0,
                scale: SPRITE_SCALE,
            },
            size: SpriteSize { w: ENEMY_LASER_SIZE_W, h: ENEMY_LASER_SIZE_H },
            velocity: Velocity { x: 0, y: -PERMILLE },
            movable: Some(Movable { auto_despawn: true }),
            removed: false,
        }
    }

    fn player_laser(t: &Transform, dx: i64) -> (r: EntityRecord)
        requires
            coord_ok(t.x as int),
            coord_ok(t.y as int),
            -PLAYER_LASER_OFFSET_X <= dx <= PLAYER_LASER_OFFSET_X,
        ensures
            r == player_laser_spec(*t, dx as int),
            record_ok(r),
    {
        EntityRecord {
            id: 0,
            role: Role::Laser(Laser, Origin::Player(FromPlayer)),
            transform: Transform {
                x: clamp_coord_exec(t.x + dx),
                y: clamp_coord_exec(t.y + LASER_OFFSET_Y),
                z: 0,
                scale: SPRITE_SCALE,
            },
            size: SpriteSize { w: PLAYER_LASER_SIZE_W, h: PLAYER_LASER_SIZE_H },
            velocity: Velocity { x: 0, y: PERMILLE },
            movable: Some(Movable { auto_despawn: true }),
            removed: false,
        }
    }

    /// Every live enemy fires one laser, which starts just below it and moves down.
    pub fn enemy_fire(&mut self)
        requires
            old(self).wf(),
        ensures
            final(self).wf(),
            enemy_fire_rel(*old(self), *final(self)),

    {
        let ghost s0 = self.entities@;
        let n = self.entities.len();
        let mut i: usize = 0;
        proof {
            assert(s0.take(0) =~= Seq::<EntityRecord>::empty());
            assert(self.entities@.subrange(0, n as int) =~= s0);
        }
        while i < n
            invariant
                self.wf(),
                n == s0.len(),
                0 <= i <= n,
                appended(s0, self.entities@, enemy_lasers(s0.take(i as int))),
                same_but_entities(*old(self), *self),
                s0 == old(self).entities@,
            decreases n - i,
        {
            proof {
                lemma_appended_prefix(s0, self.entities@, enemy_lasers(s0.take(i as int)), i as int);
                assert(s0.take(i + 1).drop_last() =~= s0.take(i as int));
                assert(record_ok(self.entities@[i as int]));
            }
            let r = self.entities[i];
            if r.role.is_enemy() && !r.removed {
                let laser = World::enemy_laser(&r.transform);
                let ghost before = self.entities@;
                let id = self.spawn(laser);
                proof {
                    lemma_appended_push(s0, before, enemy_lasers(s0.take(i as int)), laser, id);
                }
            }
            i = i + 1;
        }
        proof {
            assert(s0.take(n as int) =~= s0);
            lemma_enemy_lasers_len(s0);
        }
    }

    /// A new enemy at the entry point of a formation from the formation maker, while fewer
    /// than `ENEMY_MAX` enemies live.
    pub fn enemy_spawn(&mut self)
        requires
            old(self).wf(),
        ensures
            final(self).wf(),
            enemy_spawn_rel(*old(self), *final(self)),

    {
        if self.enemy_count < ENEMY_MAX {
            let win = self.win_size;
            let f = self.formation_maker.make(&win);
            let rec = EntityRecord {
                id: 0,
                role: Role::Enemy(Enemy, f),
                transform: Transform { x: f.start.0, y: f.start.1, z: SHIP_Z, scale: SPRITE_SCALE },
                size: SpriteSize { w: ENEMY_SIZE_W, h: ENEMY_SIZE_H },
                velocity: Velocity { x: 0, y: 0 },
                movable: None,
                removed: false,
            };
            let ghost before = self.entities@;
            let id = self.spawn(rec);
            proof {
                assert(before.subrange(0, before.len() as int) =~= before);
                lemma_appended_push(before, before, Seq::empty(), rec, id);
                assert(Seq::<EntityRecord>::empty().push(rec) =~= seq![enemy_spec(f)]);
            }
        }
    }

    /// The player appears near the bottom of the viewport when the state machine allows it.
    pub fn player_spawn(&mut self, now_ms: u64)
        requires
            old(self).wf(),
        ensures
            final(self).wf(),
            player_spawn_rel(*old(self), *final(self), now_ms),

    {
        if self.player_state.can_spawn(now_ms) {
            let rec = EntityRecord {
                id: 0,
                role: Role::Player(
                    Player,
                    ShipStats {
                        max_speed: PLAYER_MAX_SPEED,
                        accel_speed: PLAYER_ACCEL_SPEED,
                        decel_speed: PLAYER_DECEL_SPEED,
                        laser_speed: PLAYER_LASER_SPEED,
                    },
                ),
                transform: Transform {
                    x: 0,
                    y: -(self.win_size.h / 2) + PLAYER_SPAWN_OFFSET_Y,
                    z: SHIP_Z,
                    scale: SPRITE_SCALE,
                },
                size: SpriteSize { w: PLAYER_SIZE_W, h: PLAYER_SIZE_H },
                velocity: Velocity { x: 0, y: 0 },
                movable: Some(Movable { auto_despawn: false }),
                removed: false,
            };
            let ghost before = self.entities@;
            let id = self.spawn(rec);
            self.player_state.spawned();
            proof {
                assert(before.subrange(0, before.len() as int) =~= before);
                lemma_appended_push(before, before, Seq::empty(), rec, id);
                assert(Seq::<EntityRecord>::empty().push(rec) =~= seq![player_spec(self.win_size)]);
            }
        }
    }

    /// On a fresh press of fire, the single live player shoots two lasers, one on each side
    /// of its centre.
    pub fn player_fire(&mut self, fire_just_pressed: bool)
        requires
            old(self).wf(),
        ensures
            final(self).wf(),
            player_fire_rel(*old(self), *final(self), fire_just_pressed),

    {
        if !fire_just_pressed {
            return;
        }
        match self.single_player() {
            None => {},
            Some(p) => {
                let t = self.entities[p].transform;
                proof {
                    assert(record_ok(self.entities@[p as int]));
                }
                let right = World::player_laser(&t, PLAYER_LASER_OFFSET_X);
                let left = World::player_laser(&t, -PLAYER_LASER_OFFSET_X);
                let ghost s0 = self.entities@;
                let id1 = self.spawn(right);
                let ghost s1 = self.entities@;
                let id2 = self.spawn(left);
                proof {
                    assert(s0.subrange(0, s0.len() as int) =~= s0);
                    lemma_appended_push(s0, s0, Seq::empty(), right, id1);
                    lemma_appended_push(s0, s1, Seq::empty().push(right), left, id2);
                    assert(Seq::<EntityRecord>::empty().push(right).push(left) =~= seq![
                        player_laser_spec(s0[p as int].transform, PLAYER_LASER_OFFSET_X as int),
                        player_laser_spec(s0[p as int].transform, -PLAYER_LASER_OFFSET_X),
                    ]);
                }
            },
        }
    }

    /// Every live enemy follows its orbit for one tick.
    pub fn enemy_movement(&mut self)
        requires
            old(self).wf(),
        ensures
            final(self).wf(),
            enemy_movement_rel(*old(self), *final(self)),

    {
        let ghost s0 = self.entities@;
        let n = self.entities.len();
        let mut i: usize = 0;
        while i < n
            invariant
                self.wf(),
                n == s0.len() == self.entities@.len(),
                0 <= i <= n,
                forall|k: int| 0 <= k < i ==> orbit_record(s0[k], #[trigger] self.entities@[k]),
                forall|k: int| i <= k < n ==> #[trigger] self.entities@[k] == s0[k],
                same_but_entities(*old(self), *self),
                self.next_id == old(self).next_id,
                s0 == old(self).entities@,
            decreases n - i,
        {
            let r = self.entities[i];
            proof {
                assert(record_ok(self.entities@[i as int]));
            }
            match r.role {
                Role::Enemy(e, f) => {
                    if !r.removed {
                        let (t2, f2) = orbit_update(&r.transform, &f);
                        let nr = EntityRecord { transform: t2, role: Role::Enemy(e, f2), ..r };
                        proof {
                            lemma_count_update(self.entities@, i as int, nr, |r: EntityRecord| is_live_enemy(r));
                            assert(record_ok(nr));
                        }
                        let ghost before = self.entities@;
                        self.entities[i] = nr;
                        proof {
                            assert forall|k: int| 0 <= k < n implies record_ok(#[trigger] self.entities@[k]) by {
                                if k != i {
                                    assert(self.entities@[k] == before[k]);
                                }
                            }
                        }
                    }
                },
                _ => {},
            }
            i = i + 1;
        }
    }

    /// Entities with linear motion move one tick; those that despawn automatically and
    /// have left the viewport are marked for removal.
    pub fn movable(&mut self)
        requires
            old(self).wf(),
        ensures
            final(self).wf(),
            movable_rel(*old(self), *final(self)),

    {
        let ghost s0 = self.entities@;
        let n = self.entities.len();
        let win = self.win_size;
        let mut i: usize = 0;
        while i < n
            invariant
                self.wf(),
                win == self.win_size,
                n == s0.len() == self.entities@.len(),
                0 <= i <= n,
                forall|k: int| 0 <= k < i ==> #[trigger] self.entities@[k] == linear_record(s0[k], win),
                forall|k: int| i <= k < n ==> #[trigger] self.entities@[k] == s0[k],
                same_but_entities(*old(self), *self),
                self.next_id == old(self).next_id,
                s0 == old(self).entities@,
            decreases n - i,
        {
            let r = self.entities[i];
            proof {
                assert(record_ok(self.entities@[i as int]));
            }
            match r.movable {
                Some(m) => {
                    if !r.removed {
                        let (t, gone) = linear_move(&r.transform, &r.velocity, &m, &win);
                        let nr = EntityRecord { transform: t, removed: gone, ..r };
                        proof {
                            lemma_count_update(self.entities@, i as int, nr, |r: EntityRecord| is_live_enemy(r));
                            assert(record_ok(nr));
                        }
                        let ghost before = self.entities@;
                        self.entities[i] = nr;
                        proof {
                            assert forall|k: int| 0 <= k < n implies record_ok(#[trigger] self.entities@[k]) by {
                                if k != i {
                                    assert(self.entities@[k] == before[k]);
                                }
                            }
                        }
                    }
                },
                None => {},
            }
            i = i + 1;
        }
    }

    /// Each live explosion advances its frame timer by `delta_ms`; one past its last frame
    /// is marked for removal.
    pub fn explosion_animation(&mut self, delta_ms: u64)
        requires
            old(self).wf(),
        ensures
            final(self).wf(),
            explosion_animation_rel(*old(self), *final(self), delta_ms),

    {
        let ghost s0 = self.entities@;
        let n = self.entities.len();
        let mut i: usize = 0;
        while i < n
            invariant
                self.wf(),
                n == s0.len() == self.entities@.len(),
                0 <= i <= n,
                forall|k: int| 0 <= k < i ==> #[trigger] self.entities@[k] == animated_record(s0[k], delta_ms),
                forall|k: int| i <= k < n ==> #[trigger] self.entities@[k] == s0[k],
                same_but_entities(*old(self), *self),
                self.next_id == old(self).next_id,
                s0 == old(self).entities@,
            decreases n - i,
        {
            let r = self.entities[i];
            proof {
                assert(record_ok(self.entities@[i as int]));
            }
            match r.role {
                Role::Explosion(x, t) => {
                    if !r.removed {
                        let t2 = timer_tick(&t, delta_ms);
                        let nr = EntityRecord {
                            role: Role::Explosion(x, t2),
                            removed: t2.frame >= EXPLOSION_LEN,
                            ..r
                        };
                        proof {
                            lemma_count_update(self.entities@, i as int, nr, |r: EntityRecord| is_live_enemy(r));
                            assert(record_ok(nr));
                        }
                        let ghost before = self.entities@;
                        self.entities[i] = nr;
                        proof {
                            assert forall|k: int| 0 <= k < n implies record_ok(#[trigger] self.entities@[k]) by {
                                if k != i {
                                    assert(self.entities@[k] == before[k]);
                                }
                            }
                        }
                    }
                },
                _ => {},
            }
            i = i + 1;
        }
    }

    /// The single live player accelerates toward the held direction keys, or slows down
    /// when none is held; its speed stays within its top speed.
    pub fn player_keyboard(&mut self, input: &Input)
        requires
            old(self).wf(),
        ensures
            final(self).wf(),
            player_keyboard_rel(*old(self), *final(self), *input),

    {
        match self.single_player() {
            None => {},
            Some(p) => {
                let r = self.entities[p];
                proof {
                    assert(record_ok(self.entities@[p as int]));
                }
                match r.role {
                    Role::Player(_, st) => {
                        let vx = steer(r.velocity.x, input.left, input.right, &st);
                        let vy = steer(r.velocity.y, input.down, input.up, &st);
                        let nr = EntityRecord { velocity: Velocity { x: vx, y: vy }, ..r };
                        proof {
                            lemma_count_update(self.entities@, p as int, nr, |r: EntityRecord| is_live_enemy(r));
                            assert(record_ok(nr));
                        }
                        let ghost before = self.entities@;
                        self.entities[p] = nr;
                        proof {
                            assert forall|k: int| 0 <= k < self.entities@.len() implies record_ok(#[trigger] self.entities@[k]) by {
                                if k != p {
                                    assert(self.entities@[k] == before[k]);
                                }
                            }
                            assert(self.entities@ == before.update(p as int, steered_record(before[p as int], *input)));
                        }
                    },
                    _ => {},
                }
            },
        }
    }

    /// Enemy lasers against the single live player. The first pending enemy laser that
    /// overlaps the player hits it: the laser is marked for removal, the state machine takes
    /// the hit at `now_ms`, and the player is marked for removal when that ends its life.
    /// At most one hit per tick. Returns the laser's and the player's indices.
    pub fn enemy_laser_hit_player(&mut self, now_ms: u64) -> (r: Option<(usize, usize)>)
        requires
            old(self).wf(),
        ensures
            final(self).wf(),
            enemy_laser_hit_player_rel(*old(self), *final(self), now_ms, r),

    {
        let ghost s = self.entities@;
        match self.single_player() {
            None => None,
            Some(p) => {
                let player = self.entities[p];
                proof {
                    assert(record_ok(s[p as int]));
                }
                let n = self.entities.len();
                let mut i: usize = 0;
                while i < n
                    invariant
                        self.wf(),
                        s == self.entities@,
                        s == old(self).entities@,
                        self.player_state == old(self).player_state,
                        self.explosions_to_spawn == old(self).explosions_to_spawn,
                        self.enemy_count == old(self).enemy_count,
                        self.formation_maker == old(self).formation_maker,
                        self.win_size == old(self).win_size,
                        self.last_enemy_spawn_ms == old(self).last_enemy_spawn_ms,
                        self.next_id == old(self).next_id,
                        n == s.len(),
                        p < n,
                        player == s[p as int],
                        is_live_player(s[p as int]),
                        live_players(s) == 1,
                        record_ok(player),
                        0 <= i <= n,
                        forall|j: int| 0 <= j < i ==> !laser_hits(s, j, p as int),
                    decreases n - i,
                {
                    let l = self.entities[i];
                    proof {
                        assert(record_ok(s[i as int]));
                    }
                    if l.role.is_enemy_laser() && !l.removed && collide(
                        &l.transform,
                        &l.size,
                        &player.transform,
                        &player.size,
                    ) {
                        self.player_state.shot(now_ms);
                        let spent = EntityRecord { removed: true, ..l };
                        proof {
                            lemma_count_update(s, i as int, spent, |r: EntityRecord| is_live_enemy(r));
                        }
                        self.entities[i] = spent;
                        if !self.player_state.on {
                            let dead = EntityRecord { removed: true, ..player };
                            proof {
                                lemma_count_update(self.entities@, p as int, dead, |r: EntityRecord| is_live_enemy(r));
                            }
                            self.entities[p] = dead;
                        }
                        proof {
                            assert forall|k: int| 0 <= k < self.entities@.len() implies record_ok(#[trigger] self.entities@[k]) by {
                                assert(record_ok(s[k]));
                            }
                        }
                        return Some((i, p));
                    }
                    i = i + 1;
                }
                proof {
                    assert forall|q: int, j: int|
                        0 <= q < s.len() && 0 <= j < s.len() && is_live_player(s[q])
                            implies !#[trigger] laser_hits(s, j, q) by {
                        if q != p {
                            lemma_two_players(s, p as int, q);
                        }
                    }
                }
                None
            },
        }
    }

    /// Each pending explosion request becomes an explosion entity; the requests are cleared.
    pub fn explosion_to_spawn(&mut self)
        requires
            old(self).wf(),
        ensures
            final(self).wf(),
            explosion_to_spawn_rel(*old(self), *final(self)),

    {
        let ghost s0 = self.entities@;
        let ghost q0 = self.explosions_to_spawn@;
        let n = self.explosions_to_spawn.len();
        let mut i: usize = 0;
        proof {
            assert(q0.take(0).map_values(|e: ExplosionToSpawn| explosion_spec(e)) =~= Seq::<EntityRecord>::empty());
            assert(s0.subrange(0, s0.len() as int) =~= s0);
        }
        while i < n
            invariant
                self.wf(),
                q0 == self.explosions_to_spawn@,
                q0 == old(self).explosions_to_spawn@,
                n == q0.len(),
                0 <= i <= n,
                s0 == old(self).entities@,
                appended(s0, self.entities@, q0.take(i as int).map_values(|e: ExplosionToSpawn| explosion_spec(e))),
                self.enemy_count == old(self).enemy_count,
                self.player_state == old(self).player_state,
                self.formation_maker == old(self).formation_maker,
                self.win_size == old(self).win_size,
                self.last_enemy_spawn_ms == old(self).last_enemy_spawn_ms,
            decreases n - i,
        {
            let e = self.explosions_to_spawn[i];
            proof {
                assert(request_ok(q0[i as int]));
            }
            let rec = EntityRecord {
                id: 0,
                role: Role::Explosion(Explosion, ExplosionTimer::new()),
                transform: Transform { x: e.x, y: e.y, z: e.z, scale: PERMILLE },
                size: SpriteSize { w: 0, h: 0 },
                velocity: Velocity { x: 0, y: 0 },
                movable: None,
                removed: false,
            };
            let ghost before = self.entities@;
            let id = self.spawn(rec);
            proof {
                lemma_appended_push(s0, before, q0.take(i as int).map_values(|e: ExplosionToSpawn| explosion_spec(e)), rec, id);
                assert(q0.take(i + 1).map_values(|e: ExplosionToSpawn| explosion_spec(e)) =~= q0.take(i as int).map_values(|e: ExplosionToSpawn| explosion_spec(e)).push(rec));
            }
            i = i + 1;
        }
        proof {
            assert(q0.take(n as int) =~= q0);
        }
        self.explosions_to_spawn = Vec::new();
    }

    /// One tick: the player spawns, steers and fires; enemies spawn (at most once per
    /// spawn interval), fire (with a chance of one in `ENEMY_FIRE_ODDS`) and move; linear
    /// motion follows; then the two collision passes, the explosions, and finally the
    /// removals are committed. Afterwards the enemy count again equals the number of enemies.
    pub fn tick(&mut self, input: &TickInput)
        requires
            old(self).wf(),
        ensures
            final(self).wf(),
            forall|k: int| 0 <= k < final(self).entities@.len() ==> !(#[trigger] final(self).entities@[k]).removed,
            final(self).enemy_count == live_enemies(final(self).entities@),
            final(self).last_enemy_spawn_ms == if enemy_spawn_due(
                old(self).last_enemy_spawn_ms,
                input.now_ms,
            ) {
                Some(input.now_ms)
            } else {
                old(self).last_enemy_spawn_ms
            },
            final(self).win_size == old(self).win_size,
            tick_rel(*old(self), *final(self), *input),
    {
        let now = input.now_ms;
        let ghost a = *self;
        PlayerPlugin.run(self, now, &input.input);
        let ghost w0 = *self;
        EnemyPlugin.run(self, now);
        let ghost w1 = *self;
        self.movable();
        let ghost w2 = *self;
        self.player_laser_hit_enemy();
        let ghost w3 = *self;
        let r = self.enemy_laser_hit_player(now);
        let ghost w4 = *self;
        self.explosion_to_spawn();
        let ghost w5 = *self;
        self.explosion_animation(input.delta_ms);
        let ghost w6 = *self;
        self.commit_removals();
        proof {
            lemma_kept_none_removed(w6.entities@);
            let w = seq![w0, w1, w2, w3, w4, w5, w6];
            assert(tick_phases(a, w, r, *self, *input));
        }
    }
}

/// Whether the enemies fire this tick: a chance of one in `ENEMY_FIRE_ODDS`.
pub fn enemy_fire_criteria() -> (r: bool) {
    random_ratio(1, ENEMY_FIRE_ODDS)
}

/// The player's phases of a tick.
pub struct PlayerPlugin;

impl PlayerPlugin {
    /// In order: the player spawns when the state machine allows it, steers, and fires.
    pub fn run(&self, world: &mut World, now_ms: u64, input: &Input)
        requires
            old(world).wf(),
        ensures
            final(world).wf(),
            final(world).win_size == old(world).win_size,
            final(world).last_enemy_spawn_ms == old(world).last_enemy_spawn_ms,
            final(world).player_state == if can_spawn_spec(old(world).player_state, now_ms) {
                spawned_spec()
            } else {
                old(world).player_state
            },
            final(world).enemy_count == old(world).enemy_count,
            player_plugin_rel(*old(world), *final(world), now_ms, *input),
    {
        let ghost a = *world;
        world.player_spawn(now_ms);
        let ghost w1 = *world;
        world.player_keyboard(input);
        let ghost w2 = *world;
        world.player_fire(input.fire_just_pressed);
        proof {
            assert(player_phases(a, w1, w2, *world, now_ms, *input));
        }
    }
}

/// The enemies' phases of a tick.
pub struct EnemyPlugin;

impl EnemyPlugin {
    /// In order: an enemy spawns when the spawn interval has passed since the last attempt,
    /// the enemies fire when `enemy_fire_criteria` says so, and they follow their orbits.
    pub fn run(&self, world: &mut World, now_ms: u64)
        requires
            old(world).wf(),
        ensures
            final(world).wf(),
            final(world).win_size == old(world).win_size,
            final(world).last_enemy_spawn_ms == if enemy_spawn_due(
                old(world).last_enemy_spawn_ms,
                now_ms,
            ) {
                Some(now_ms)
            } else {
                old(world).last_enemy_spawn_ms
            },
            enemy_plugin_rel(*old(world), *final(world), now_ms),
    {
        let ghost a = *world;
        let due = match world.last_enemy_spawn_ms {
            None => true,
            Some(t) => now_ms >= t && now_ms - t >= ENEMY_SPAWN_INTERVAL_MS,
        };
        if due {
            world.last_enemy_spawn_ms = Some(now_ms);
            proof {
                assert(*world == stamped(a, Some(now_ms)));
            }
            world.enemy_spawn();
        }
        let ghost w1 = *world;
        let fired = enemy_fire_criteria();
        if fired {
            world.enemy_fire();
        }
        let ghost w2 = *world;
        world.enemy_movement();
        proof {
            assert(enemy_phases(a, w1, w2, *world, fired, now_ms));
        }
    }
}

} // verus!
