use vstd::prelude::*;

verus! {

/// Sub-units per pixel: every length and coordinate is measured in thousandths of a pixel.
pub const UNIT: i64 = 1000;

/// Scale factors and velocities are written in thousandths (1000 stands for 1.0).
pub const PERMILLE: i64 = 1000;

/// Simulation ticks per second (the fixed timestep is one sixtieth of a second).
pub const TICKS_PER_SECOND: i64 = 60;

/// Base speed, in sub-units per second.
pub const BASE_SPEED: i64 = 500_000;

/// Scale applied to every ship and laser, per mille.
pub const SPRITE_SCALE: i64 = 500;

/// Largest magnitude of any coordinate in the world.
pub const COORD_LIMIT: i64 = 1_000_000_000;

/// Largest magnitude of a sprite extent or of a viewport dimension.
pub const EXTENT_LIMIT: i64 = 10_000_000;

/// Largest magnitude of a velocity component, per mille of the base speed.
pub const VELOCITY_LIMIT: i64 = 10_000;

/// Largest scale factor, per mille.
pub const SCALE_LIMIT: i64 = 10_000;

/// Margin beyond the viewport after which auto-despawning entities are removed.
pub const DESPAWN_MARGIN: i64 = 200_000;

pub const PLAYER_SIZE_W: i64 = 144_000;
pub const PLAYER_SIZE_H: i64 = 75_000;
pub const PLAYER_LASER_SIZE_W: i64 = 9_000;
pub const PLAYER_LASER_SIZE_H: i64 = 54_000;
pub const ENEMY_SIZE_W: i64 = 144_000;
pub const ENEMY_SIZE_H: i64 = 75_000;
pub const ENEMY_LASER_SIZE_W: i64 = 17_000;
pub const ENEMY_LASER_SIZE_H: i64 = 55_000;

/// Vertical offset of a freshly fired laser from its shooter.
pub const LASER_OFFSET_Y: i64 = 15_000;

/// Horizontal offset of each of the player's two lasers from the ship's centre.
pub const PLAYER_LASER_OFFSET_X: i64 = 31_000;

/// Height of a freshly spawned player above the bottom of the viewport.
pub const PLAYER_SPAWN_OFFSET_Y: i64 = 42_500;

/// Depth at which ships are drawn.
pub const SHIP_Z: i64 = 10;

/// Real time between two enemy spawn attempts, in milliseconds.
pub const ENEMY_SPAWN_INTERVAL_MS: u64 = 1000;

/// Each tick the enemies fire with a chance of one in this many.
pub const ENEMY_FIRE_ODDS: u32 = 60;

pub const PLAYER_MAX_SPEED: i64 = 700;
pub const PLAYER_ACCEL_SPEED: i64 = 300;
pub const PLAYER_DECEL_SPEED: i64 = 10;
pub const PLAYER_LASER_SPEED: i64 = 1000;

/// Number of frames in the explosion sprite sheet.
pub const EXPLOSION_LEN: u64 = 16;

/// Duration of one explosion frame, in milliseconds.
pub const EXPLOSION_FRAME_MS: u64 = 50;

/// Most enemies alive at once.
pub const ENEMY_MAX: u32 = 4;

/// Most enemies that share one formation template.
pub const FORMATION_MEMBERS_MAX: u32 = 2;

/// Time after the last hit before the player may respawn, in milliseconds.
pub const PLAYER_RESPAWN_DELAY_MS: u64 = 2000;

/// Health of a freshly spawned player.
pub const PLAYER_HEALTH: i64 = 3;

/// Velocity per mille of the base speed.
#[derive(Clone, Copy, Debug, PartialEq, Eq, Structural)]
pub struct Velocity {
    pub x: i64,
    pub y: i64,
}

#[derive(Clone, Copy, Debug, PartialEq, Eq, Structural)]
pub struct Movable {
    pub auto_despawn: bool,
}

/// Per-ship tunables, per mille of the base speed.
#[derive(Clone, Copy, Debug, PartialEq, Eq, Structural)]
pub struct ShipStats {
    pub max_speed: i64,
    pub accel_speed: i64,
    /// The velocity decays by `1 / decel_speed` of itself per tick when no key is held.
    pub decel_speed: i64,
    pub laser_speed: i64,
}

#[derive(Clone, Copy, Debug, PartialEq, Eq, Structural)]
pub struct Explosion;

/// A request to materialize an explosion at a position (x, y and depth z).
#[derive(Clone, Copy, Debug, PartialEq, Eq, Structural)]
pub struct ExplosionToSpawn {
    pub x: i64,
    pub y: i64,
    pub z: i64,
}

/// Repeating frame timer of an explosion: time into the current frame and the frame shown.
#[derive(Clone, Copy, Debug, PartialEq, Eq, Structural)]
pub struct ExplosionTimer {
    pub elapsed_ms: u64,
    pub frame: u64,
}

impl ExplosionTimer {
    pub fn new() -> (r: ExplosionTimer)
        ensures
            r.elapsed_ms == 0,
            r.frame == 0,
    {
        ExplosionTimer { elapsed_ms: 0, frame: 0 }
    }
}

impl Default for ExplosionTimer {
    fn default() -> (r: ExplosionTimer)
        ensures
            r.elapsed_ms == 0,
            r.frame == 0,
    {
        ExplosionTimer::new()
    }
}

#[derive(Clone, Copy, Debug, PartialEq, Eq, Structural)]
pub struct Player;

#[derive(Clone, Copy, Debug, PartialEq, Eq, Structural)]
pub struct FromPlayer;

#[derive(Clone, Copy, Debug, PartialEq, Eq, Structural)]
pub struct Enemy;

#[derive(Clone, Copy, Debug, PartialEq, Eq, Structural)]
pub struct FromEnemy;

#[derive(Clone, Copy, Debug, PartialEq, Eq, Structural)]
pub struct Laser;

/// Half extents of an entity's collision box, in sub-units, before scaling.
#[derive(Clone, Copy, Debug, PartialEq, Eq, Structural)]
pub struct SpriteSize {
    pub w: i64,
    pub h: i64,
}

impl SpriteSize {
    pub fn from(val: (i64, i64)) -> (r: SpriteSize)
        ensures
            r.w == val.0,
            r.h == val.1,
    {
        SpriteSize { w: val.0, h: val.1 }
    }
}

/// Position (x, y, depth z) and uniform scale per mille.
#[derive(Clone, Copy, Debug, PartialEq, Eq, Structural)]
pub struct Transform {
    pub x: i64,
    pub y: i64,
    pub z: i64,
    pub scale: i64,
}

/// Viewport size in sub-units; a usable viewport is at least one pixel each way.
#[derive(Clone, Copy, Debug, PartialEq, Eq, Structural)]
pub struct WinSize {
    pub w: i64,
    pub h: i64,
}

impl WinSize {
    pub open spec fn valid(self) -> bool {
        UNIT <= self.w <= EXTENT_LIMIT && UNIT <= self.h <= EXTENT_LIMIT
    }
}

} // verus!
