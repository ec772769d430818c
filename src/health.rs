//! Hit points of an entity.
use vstd::prelude::*;

verus! {

/// Hit points: `current_health` never drops below zero and a heal never
/// lifts it above `max_health`.
#[derive(Clone, Copy, Debug, PartialEq, Eq, Structural)]
pub struct Health {
    pub max_health: u32,
    pub current_health: u32,
}

/// What is left of `current` after `damage`: never below zero.
pub open spec fn after_damage(current: int, damage: int) -> int {
    if current > damage {
        current - damage
    } else {
        0
    }
}

/// What `current` becomes after a heal of `amount`: never above `max`.
pub open spec fn after_heal(current: int, amount: int, max: int) -> int {
    if current + amount < max {
        current + amount
    } else {
        max
    }
}

impl Health {
    /// Health stays within its maximum.
    pub open spec fn wf(self) -> bool {
        self.current_health <= self.max_health
    }

    /// Full health at `max_health`.
    pub fn new(max_health: u32) -> (r: Health)
        ensures
            r.max_health == max_health,
            r.current_health == max_health,
            r.wf(),
    {
        Health { max_health, current_health: max_health }
    }

    /// Loses `damage` points, stopping at zero.
    pub fn take_damage(&mut self, damage: u32)
        ensures
            final(self).current_health == after_damage(old(self).current_health as int, damage as int),
            final(self).max_health == old(self).max_health,
            old(self).wf() ==> final(self).wf(),
    {
        self.current_health = self.current_health.saturating_sub(damage);
    }

    /// Gains `amount` points, stopping at `max_health`.
    pub fn heal(&mut self, amount: u32)
        ensures
            final(self).current_health == after_heal(
                old(self).current_health as int,
                amount as int,
                old(self).max_health as int,
            ),
            final(self).max_health == old(self).max_health,
            final(self).wf(),
    {
        let sum: u64 = self.current_health as u64 + amount as u64;
        if sum < self.max_health as u64 {
            self.current_health = sum as u32;
        } else {
            self.current_health = self.max_health;
        }
    }

    /// The entity has no health left.
    pub fn is_dead(&self) -> (r: bool)
        ensures
            r == (self.current_health == 0),
    {
        self.current_health == 0
    }
}

} // verus!
