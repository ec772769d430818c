//! The minion: its attributes, its attack cooldown, and how it chases and
//! strikes the player.
use crate::behavior::{Enemy, EnemyBehavior, Locomotion};
use crate::geometry::{direction_to, flat, toward, vec2_vec3, Point2, UNIT};
use vstd::prelude::*;

verus! {

/// A minion floats this far above the ground.
pub const MINION_HEIGHT: u32 = 1000;

/// A minion's hit points.
pub const MINION_HEALTH: u32 = 5;

/// A minion's speed, in thousandths of a unit per second.
pub const MINION_SPEED: u32 = 3000;

/// Milliseconds between two strikes of a minion.
pub const MINION_ATTACK_COOLDOWN: u32 = 2000;

/// A repeating timer: it finishes each time `duration_ms` has run out and
/// starts over with what is left.
#[derive(Clone, Copy, Debug, PartialEq, Eq, Structural)]
pub struct AttackCooldown {
    pub duration_ms: u32,
    pub elapsed_ms: u32,
}

impl AttackCooldown {
    /// A positive duration, with less than that elapsed.
    pub open spec fn wf(self) -> bool {
        0 < self.duration_ms && self.elapsed_ms < self.duration_ms
    }

    /// A timer of `duration_ms`, none of it elapsed.
    pub fn new(duration_ms: u32) -> (r: AttackCooldown)
        requires
            duration_ms > 0,
        ensures
            r.duration_ms == duration_ms,
            r.elapsed_ms == 0,
            r.wf(),
    {
        AttackCooldown { duration_ms, elapsed_ms: 0 }
    }

    /// Lets `delta_ms` pass; true when the timer finished during it.
    pub fn tick(&mut self, delta_ms: u32) -> (just_finished: bool)
        requires
            old(self).wf(),
        ensures
            just_finished == (old(self).elapsed_ms + delta_ms >= old(self).duration_ms),
            final(self).elapsed_ms == (old(self).elapsed_ms + delta_ms) % (old(self).duration_ms as int),
            final(self).duration_ms == old(self).duration_ms,
            final(self).wf(),
    {
        let total: u64 = self.elapsed_ms as u64 + delta_ms as u64;
        let rest: u64 = total % (self.duration_ms as u64);
        self.elapsed_ms = rest as u32;
        total >= self.duration_ms as u64
    }
}

/// What is particular to a minion: the cooldown between its strikes.
#[derive(Clone, Copy, Debug, PartialEq, Eq, Structural)]
pub struct Minion {
    pub attack_cooldown: AttackCooldown,
}

impl Minion {
    pub open spec fn wf(self) -> bool {
        self.attack_cooldown.wf()
    }
}

impl Default for Minion {
    fn default() -> (r: Minion)
        ensures
            r.attack_cooldown == (AttackCooldown { duration_ms: MINION_ATTACK_COOLDOWN, elapsed_ms: 0 }),
            r.wf(),
    {
        Minion { attack_cooldown: AttackCooldown::new(MINION_ATTACK_COOLDOWN) }
    }
}

/// The movement attributes of a minion.
pub open spec fn minion_enemy() -> Enemy {
    Enemy { height_from_ground: MINION_HEIGHT, speed: MINION_SPEED }
}

/// One tick of a minion chasing the player: what it asks of the controller
/// and whether it strikes.
#[derive(Clone, Copy, Debug, PartialEq, Eq, Structural)]
pub struct AttackStep {
    pub command: Locomotion,
    pub strike: bool,
}

/// Running at the player at minion speed, facing them.
pub open spec fn chase_command(position: Point2, player: Point2) -> Locomotion {
    let facing = toward(position, player, UNIT as int);
    Locomotion {
        desired_velocity: flat(toward(position, player, MINION_SPEED as int)),
        float_height: MINION_HEIGHT,
        desired_forward: if facing.is_zero() {
            None
        } else {
            Some(flat(facing))
        },
    }
}

/// A minion chasing the player runs at them; it goes idle once the player
/// has left agro range; its cooldown runs, and it strikes when the cooldown
/// finishes with the player in attack range. Minions doing anything else
/// are left alone.
pub fn minion_attack_player(
    behavior: &mut EnemyBehavior,
    minion: &mut Minion,
    position: Point2,
    player: Point2,
    in_agro: bool,
    in_attack_range: bool,
    delta_ms: u32,
) -> (r: Option<AttackStep>)
    requires
        old(minion).wf(),
    ensures
        final(minion).wf(),
        !(*old(behavior) is AttackPlayer) ==> r is None && *final(behavior) == *old(behavior)
            && *final(minion) == *old(minion),
        *old(behavior) is AttackPlayer ==> {
            let c = old(minion).attack_cooldown;
            let total = c.elapsed_ms + delta_ms;
            &&& r == Some(
                AttackStep {
                    command: chase_command(position, player),
                    strike: in_attack_range && total >= c.duration_ms,
                },
            )
            &&& final(minion).attack_cooldown == (AttackCooldown {
                duration_ms: c.duration_ms,
                elapsed_ms: (total % (c.duration_ms as int)) as u32,
            })
            &&& if in_agro {
                *final(behavior) is AttackPlayer
            } else {
                *final(behavior) is Idle
            }
        },
{
    if !behavior.is_attack_player() {
        return None;
    }
    let facing = direction_to(position, player, UNIT);
    let velocity = direction_to(position, player, MINION_SPEED);
    let desired_forward = if facing.x == 0 && facing.y == 0 {
        None
    } else {
        Some(vec2_vec3(facing))
    };
    let command = Locomotion {
        desired_velocity: vec2_vec3(velocity),
        float_height: MINION_HEIGHT,
        desired_forward,
    };
    if !in_agro {
        *behavior = EnemyBehavior::Idle;
    }
    let finished = minion.attack_cooldown.tick(delta_ms);
    Some(AttackStep { command, strike: in_attack_range && finished })
}

} // verus!
