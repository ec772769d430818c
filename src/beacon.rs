//! The defended objective and the questions an enemy asks about it.
use crate::geometry::{
    direction_to, dist_sq, flat, offset, offset_point, toward, vec2_vec3, Point2, Vec3, UNIT,
};
use crate::health::{after_damage, Health};
use vstd::prelude::*;

verus! {

/// The beacon that the enemies attack: where it stands and its health.
#[derive(Clone, Copy, Debug, PartialEq, Eq, Structural)]
pub struct BeaconQuery {
    pub position: Point2,
    pub health: Health,
}

/// `other` lies within `range` of `beacon`, the boundary included.
pub open spec fn in_range(beacon: Point2, other: Point2, range: int) -> bool {
    dist_sq(beacon, other) <= range * range
}

/// The point at distance `range` from `beacon` in the direction of
/// `other`: the nearest point of the attack perimeter. It is the beacon
/// itself where `other` stands on it.
pub open spec fn perimeter_point(beacon: Point2, other: Point2, range: int) -> Point2 {
    offset(beacon, toward(beacon, other, range))
}

impl BeaconQuery {
    /// The nearest point to `other` on the circle of radius `range` round
    /// the beacon.
    pub fn closest_point(&self, other: Point2, range: u32) -> (r: Point2)
        ensures
            r == perimeter_point(self.position, other, range as int),
    {
        offset_point(self.position, direction_to(self.position, other, range))
    }

    /// The unit direction from the beacon to `other` (zero where they meet).
    pub fn towards_beacon(&self, other: Point2) -> (r: Vec3)
        ensures
            r == flat(toward(self.position, other, UNIT as int)),
    {
        vec2_vec3(direction_to(self.position, other, UNIT))
    }

    /// The beacon loses `damage` points of health, stopping at zero.
    pub fn take_damage(&mut self, damage: u32)
        ensures
            final(self).position == old(self).position,
            final(self).health.max_health == old(self).health.max_health,
            final(self).health.current_health == after_damage(
                old(self).health.current_health as int,
                damage as int,
            ),
    {
        self.health.take_damage(damage);
    }

    /// `other` lies within `range` of the beacon.
    pub fn within_range(&self, other: Point2, range: u32) -> (r: bool)
        ensures
            r == in_range(self.position, other, range as int),
    {
        let d = crate::geometry::distance_squared(self.position, other);
        assert(range * range <= 0xffff_ffff * 0xffff_ffff) by (nonlinear_arith)
            requires
                range <= 0xffff_ffff,
        ;
        d <= range as u128 * range as u128
    }
}

} // verus!
