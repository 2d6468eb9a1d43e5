use vstd::prelude::*;

use crate::components::{
    Enemy, Explosion, ExplosionTimer, FromEnemy, FromPlayer, Laser, Movable, Player, ShipStats,
    SpriteSize, Transform, Velocity, EXPLOSION_FRAME_MS, EXPLOSION_LEN, VELOCITY_LIMIT,
};
use crate::formation::Formation;
use crate::geometry::box_ok;

verus! {

/// Where a laser came from: every laser carries exactly one origin.
#[derive(Clone, Copy, Debug)]
pub enum Origin {
    Player(FromPlayer),
    Enemy(FromEnemy),
}

/// The kind of an entity, with the data that only that kind carries.
#[derive(Clone, Copy, Debug)]
pub enum Role {
    Player(Player, ShipStats),
    Enemy(Enemy, Formation),
    Laser(Laser, Origin),
    Explosion(Explosion, ExplosionTimer),
}

impl Role {
    pub fn is_player(&self) -> (r: bool)
        ensures
            r == self is Player,
    {
        matches!(self, Role::Player(..))
    }

    pub fn is_enemy(&self) -> (r: bool)
        ensures
            r == self is Enemy,
    {
        matches!(self, Role::Enemy(..))
    }

    pub fn is_player_laser(&self) -> (r: bool)
        ensures
            r == self matches Role::Laser(_, Origin::Player(_)),
    {
        matches!(self, Role::Laser(_, Origin::Player(_)))
    }

    pub fn is_enemy_laser(&self) -> (r: bool)
        ensures
            r == self matches Role::Laser(_, Origin::Enemy(_)),
    {
        matches!(self, Role::Laser(_, Origin::Enemy(_)))
    }
}

/// One entity of the store. `removed` marks an entity whose removal is pending until the
/// end of the tick.
#[derive(Clone, Copy, Debug)]
pub struct EntityRecord {
    pub id: u64,
    pub role: Role,
    pub transform: Transform,
    pub size: SpriteSize,
    pub velocity: Velocity,
    pub movable: Option<Movable>,
    pub removed: bool,
}

pub open spec fn velocity_ok(v: Velocity) -> bool {
    -VELOCITY_LIMIT <= v.x <= VELOCITY_LIMIT && -VELOCITY_LIMIT <= v.y <= VELOCITY_LIMIT
}

pub open spec fn stats_ok(s: ShipStats) -> bool {
    &&& 0 <= s.max_speed <= VELOCITY_LIMIT
    &&& 0 <= s.accel_speed <= VELOCITY_LIMIT
    &&& 1 <= s.decel_speed
    &&& 0 <= s.laser_speed <= VELOCITY_LIMIT
}

/// Bounds every record keeps, so that motion and collision arithmetic cannot overflow.
/// Enemies follow their orbit and never move linearly.
pub open spec fn record_ok(r: EntityRecord) -> bool {
    &&& box_ok(r.transform, r.size)
    &&& velocity_ok(r.velocity)
    &&& match r.role {
        Role::Player(_, s) => stats_ok(s),
        Role::Enemy(_, f) => f.valid() && r.movable is None,
        Role::Laser(_, _) => true,
        Role::Explosion(_, t) => t.elapsed_ms < EXPLOSION_FRAME_MS && t.frame <= EXPLOSION_LEN,
    }
}

pub open spec fn is_live_enemy(r: EntityRecord) -> bool {
    r.role is Enemy && !r.removed
}

pub open spec fn is_live_player(r: EntityRecord) -> bool {
    r.role is Player && !r.removed
}

pub open spec fn is_player_laser(r: EntityRecord) -> bool {
    r.role matches Role::Laser(_, Origin::Player(_))
}

pub open spec fn is_enemy_laser(r: EntityRecord) -> bool {
    r.role matches Role::Laser(_, Origin::Enemy(_))
}

/// How many records of `s` satisfy `p`.
pub open spec fn count_where(s: Seq<EntityRecord>, p: spec_fn(EntityRecord) -> bool) -> nat
    decreases s.len(),
{
    if s.len() == 0 {
        0
    } else {
        count_where(s.drop_last(), p) + if p(s.last()) {
            1nat
        } else {
            0nat
        }
    }
}

pub open spec fn live_enemies(s: Seq<EntityRecord>) -> nat {
    count_where(s, |r: EntityRecord| is_live_enemy(r))
}

pub open spec fn live_players(s: Seq<EntityRecord>) -> nat {
    count_where(s, |r: EntityRecord| is_live_player(r))
}

/// The records of `s` whose removal is not pending, in order.
pub open spec fn kept(s: Seq<EntityRecord>) -> Seq<EntityRecord>
    decreases s.len(),
{
    if s.len() == 0 {
        s
    } else if s.last().removed {
        kept(s.drop_last())
    } else {
        kept(s.drop_last()).push(s.last())
    }
}

/// `a` is `b` under another identifier.
pub open spec fn same_but_id(a: EntityRecord, b: EntityRecord) -> bool {
    a == EntityRecord { id: a.id, ..b }
}

pub proof fn lemma_count_push(s: Seq<EntityRecord>, r: EntityRecord, p: spec_fn(EntityRecord) -> bool)
    ensures
        count_where(s.push(r), p) == count_where(s, p) + if p(r) {
            1nat
        } else {
            0nat
        },
{
    assert(s.push(r).drop_last() =~= s);
}

pub proof fn lemma_count_update(
    s: Seq<EntityRecord>,
    i: int,
    r: EntityRecord,
    p: spec_fn(EntityRecord) -> bool,
)
    requires
        0 <= i < s.len(),
    ensures
        count_where(s.update(i, r), p) + (if p(s[i]) {
            1nat
        } else {
            0nat
        }) == count_where(s, p) + if p(r) {
            1nat
        } else {
            0nat
        },
    decreases s.len(),
{
    let u = s.update(i, r);
    if i == s.len() - 1 {
        assert(u.drop_last() =~= s.drop_last());
    } else {
        assert(u.drop_last() =~= s.drop_last().update(i, r));
        lemma_count_update(s.drop_last(), i, r, p);
    }
}

pub proof fn lemma_count_take_step(s: Seq<EntityRecord>, i: int, p: spec_fn(EntityRecord) -> bool)
    requires
        0 <= i < s.len(),
    ensures
        count_where(s.take(i + 1), p) == count_where(s.take(i), p) + if p(s[i]) {
            1nat
        } else {
            0nat
        },
{
    assert(s.take(i + 1).drop_last() =~= s.take(i));
}

} // verus!
