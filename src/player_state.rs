use vstd::prelude::*;

use crate::components::{PLAYER_HEALTH, PLAYER_RESPAWN_DELAY_MS};

verus! {

/// Life, health, time of the last hit (milliseconds, `None` for never) and score of the player.
#[derive(Clone, Copy, Debug, PartialEq, Eq, Structural)]
pub struct PlayerState {
    pub on: bool,
    pub health: i64,
    pub last_shot: Option<u64>,
    pub score: u64,
}

/// The state after a hit at `time`: one health point less (never below zero), the hit time
/// recorded, and at zero health the player is off and the score is cleared.
pub open spec fn shot_spec(s: PlayerState, time: u64) -> PlayerState {
    let health: i64 = if s.health > 0 { (s.health - 1) as i64 } else { 0 };
    PlayerState {
        on: if health <= 0 { false } else { s.on },
        health,
        last_shot: Some(time),
        score: if health <= 0 { 0 } else { s.score },
    }
}

/// The state right after the player appears.
pub open spec fn spawned_spec() -> PlayerState {
    PlayerState { on: true, health: PLAYER_HEALTH, last_shot: None, score: 0 }
}

/// The player may appear when it is off and either was never hit or the respawn delay has
/// passed since the last hit.
pub open spec fn can_spawn_spec(s: PlayerState, now: u64) -> bool {
    !s.on && match s.last_shot {
        None => true,
        Some(t) => now > t + PLAYER_RESPAWN_DELAY_MS,
    }
}

impl PlayerState {
    pub open spec fn wf(self) -> bool {
        0 <= self.health <= PLAYER_HEALTH
    }

    pub fn new() -> (r: PlayerState)
        ensures
            r == (PlayerState { on: false, health: PLAYER_HEALTH, last_shot: None, score: 0 }),
            r.wf(),
    {
        PlayerState { on: false, health: PLAYER_HEALTH, last_shot: None, score: 0 }
    }

    /// A hit at `time`.
    pub fn shot(&mut self, time: u64)
        requires
            old(self).wf(),
        ensures
            *final(self) == shot_spec(*old(self), time),
            final(self).wf(),
    {
        if self.health > 0 {
            self.health = self.health - 1;
        }
        self.last_shot = Some(time);
        if self.health <= 0 {
            self.on = false;
            self.score = 0;
        }
    }

    /// The player appears: full health, no hit recorded, score cleared.
    pub fn spawned(&mut self)
        ensures
            *final(self) == spawned_spec(),
            final(self).wf(),
    {
        self.on = true;
        self.last_shot = None;
        self.health = PLAYER_HEALTH;
        self.score = 0;
    }

    /// Whether the player may appear at time `now`.
    pub fn can_spawn(&self, now: u64) -> (r: bool)
        ensures
            r == can_spawn_spec(*self, now),
    {
        if self.on {
            return false;
        }
        match self.last_shot {
            None => true,
            Some(t) => now > t && now - t > PLAYER_RESPAWN_DELAY_MS,
        }
    }

    /// One point more; the score stays at its largest value once there.
    pub fn add_point(&mut self)
        ensures
            final(self).score == if old(self).score < u64::MAX {
                old(self).score + 1
            } else {
                old(self).score as int
            },
            final(self).on == old(self).on,
            final(self).health == old(self).health,
            final(self).last_shot == old(self).last_shot,
    {
        if self.score < u64::MAX {
            self.score = self.score + 1;
        }
    }
}

impl Default for PlayerState {
    fn default() -> (r: PlayerState)
        ensures
            r == (PlayerState { on: false, health: PLAYER_HEALTH, last_shot: None, score: 0 }),
    {
        PlayerState::new()
    }
}

/// Three hits from full health leave the player off, at zero health and with no score,
/// whatever the score became between the hits.
pub proof fn lemma_three_hits_end_life(
    s: PlayerState,
    t1: u64,
    t2: u64,
    t3: u64,
    score1: u64,
    score2: u64,
)
    requires
        s.health == PLAYER_HEALTH,
    ensures
        ({
            let s1 = shot_spec(s, t1);
            let s2 = shot_spec(PlayerState { score: score1, ..s1 }, t2);
            let s3 = shot_spec(PlayerState { score: score2, ..s2 }, t3);
            &&& s3.health == 0
            &&& !s3.on
            &&& s3.score == 0
            &&& s1.health == 2 && s2.health == 1
        }),
{
}

/// After a hit at `t` that turns the player off, a spawn attempt is refused until the
/// respawn delay has passed and granted as soon as it has: refused at `t + delay - eps`,
/// granted at `t + delay + eps`, for any positive `eps`.
pub proof fn lemma_respawn_after_delay(s: PlayerState, t: u64, eps: u64)
    requires
        s.wf(),
        !shot_spec(s, t).on,
        0 < eps <= PLAYER_RESPAWN_DELAY_MS,
        t + PLAYER_RESPAWN_DELAY_MS + eps <= u64::MAX,
    ensures
        !can_spawn_spec(shot_spec(s, t), (t + PLAYER_RESPAWN_DELAY_MS - eps) as u64),
        can_spawn_spec(shot_spec(s, t), (t + PLAYER_RESPAWN_DELAY_MS + eps) as u64),
{
}

} // verus!
