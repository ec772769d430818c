//! What each enemy is doing, and the rules that move it from one behaviour
//! to the next.
use crate::beacon::{in_range, perimeter_point, BeaconQuery};
use crate::geometry::{Point2, Vec3};
use vstd::prelude::*;

verus! {

/// How far the player can be for a minion to notice and chase them.
pub const MINION_AGRO_RANGE: u32 = 5000;

/// How close the player must be for a minion to strike.
pub const MINION_ATTACK_RANGE: u32 = 1500;

/// How close a minion must be to the beacon to attack it.
pub const MINION_BEACON_ATTACK_RANGE: u32 = 2500;

/// Movement attributes of an enemy: its height above the ground and its
/// speed, both in thousandths of a unit (per second for the speed).
#[derive(Clone, Copy, Debug, PartialEq, Eq, Structural)]
pub struct Enemy {
    pub height_from_ground: u32,
    pub speed: u32,
}

/// The one behaviour an enemy has at any time.
///
/// `Goto(destination, path, index)` travels toward `destination` along
/// `path`, which stays `None` until a path has been found, and aims at
/// `path[index]`.
#[derive(Debug)]
pub enum EnemyBehavior {
    Idle,
    Spawning,
    Guard,
    Goto(Point2, Option<Vec<Point2>>, usize),
    AttackBeacon,
    AttackPlayer,
}

/// What an enemy asks of the character controller this tick.
#[derive(Clone, Copy, Debug, PartialEq, Eq, Structural)]
pub struct Locomotion {
    pub desired_velocity: Vec3,
    pub float_height: u32,
    /// The direction to face; `None` keeps the current facing.
    pub desired_forward: Option<Vec3>,
}

/// Standing still at the enemy's height, facing unchanged.
pub open spec fn hold_spec(enemy: Enemy) -> Locomotion {
    Locomotion {
        desired_velocity: Vec3 { x: 0, y: 0, z: 0 },
        float_height: enemy.height_from_ground,
        desired_forward: None,
    }
}

/// Standing still at the enemy's height, facing unchanged.
pub fn hold(enemy: &Enemy) -> (r: Locomotion)
    ensures
        r == hold_spec(*enemy),
{
    Locomotion {
        desired_velocity: Vec3 { x: 0, y: 0, z: 0 },
        float_height: enemy.height_from_ground,
        desired_forward: None,
    }
}

/// A travel episode is over once a path is known and its index has run
/// past the last waypoint.
pub open spec fn episode_complete(path: Option<Vec<Point2>>, index: usize) -> bool {
    match path {
        Some(p) => index >= p@.len(),
        None => false,
    }
}

/// A fresh travel episode toward `destination`.
pub open spec fn goto_spec(destination: Point2) -> EnemyBehavior {
    EnemyBehavior::Goto(destination, None, 0)
}

/// The decision of an idle enemy: chase the player in agro range, attack
/// the beacon within its range, else head for the beacon's perimeter.
pub open spec fn idle_decision(in_agro: bool, position: Point2, beacon: Point2) -> EnemyBehavior {
    if in_agro {
        EnemyBehavior::AttackPlayer
    } else if in_range(beacon, position, MINION_BEACON_ATTACK_RANGE as int) {
        EnemyBehavior::AttackBeacon
    } else {
        goto_spec(perimeter_point(beacon, position, MINION_BEACON_ATTACK_RANGE as int))
    }
}

/// One evaluation of the transition rules for an enemy at `position`, with
/// `in_agro` telling whether the player's agro query found it.
pub open spec fn next_behavior(
    b: EnemyBehavior,
    in_agro: bool,
    position: Point2,
    beacon: Point2,
) -> EnemyBehavior {
    match b {
        EnemyBehavior::Idle => idle_decision(in_agro, position, beacon),
        EnemyBehavior::Goto(_, path, index) => {
            if in_agro {
                EnemyBehavior::AttackPlayer
            } else if episode_complete(path, index) {
                EnemyBehavior::Idle
            } else {
                b
            }
        },
        EnemyBehavior::AttackPlayer => {
            if in_agro {
                EnemyBehavior::AttackPlayer
            } else {
                EnemyBehavior::Idle
            }
        },
        _ => b,
    }
}

impl Default for EnemyBehavior {
    fn default() -> (r: EnemyBehavior)
        ensures
            r is Idle,
    {
        EnemyBehavior::Idle
    }
}

impl EnemyBehavior {
    /// A fresh travel episode toward `position`, with no path yet.
    pub fn goto(position: Point2) -> (r: EnemyBehavior)
        ensures
            r == goto_spec(position),
    {
        EnemyBehavior::Goto(position, None, 0)
    }

    pub fn is_goto(&self) -> (r: bool)
        ensures
            r == (*self is Goto),
    {
        matches!(self, EnemyBehavior::Goto(..))
    }

    pub fn is_attack_player(&self) -> (r: bool)
        ensures
            r == (*self is AttackPlayer),
    {
        matches!(self, EnemyBehavior::AttackPlayer)
    }

    /// The behaviour is a travel episode that has no path yet.
    pub fn needs_path(&self) -> (r: bool)
        ensures
            r == (*self is Goto && self->Goto_1 is None),
    {
        match self {
            EnemyBehavior::Goto(_, None, _) => true,
            _ => false,
        }
    }
}

/// The spawn presentation has finished: a spawning enemy becomes idle.
pub fn spawn_animation_complete(behavior: &mut EnemyBehavior)
    ensures
        *old(behavior) is Spawning ==> *final(behavior) is Idle,
        !(*old(behavior) is Spawning) ==> *final(behavior) == *old(behavior),
{
    if let EnemyBehavior::Spawning = behavior {
        *behavior = EnemyBehavior::Idle;
    }
}

/// A travelling enemy that the player's agro query found starts chasing
/// the player, dropping its path.
pub fn minion_goto(behavior: &mut EnemyBehavior, in_agro: bool)
    ensures
        *old(behavior) is Goto && in_agro ==> *final(behavior) is AttackPlayer,
        !(*old(behavior) is Goto && in_agro) ==> *final(behavior) == *old(behavior),
{
    if in_agro && behavior.is_goto() {
        *behavior = EnemyBehavior::AttackPlayer;
    }
}

/// A travelling enemy whose path has run out becomes idle.
pub fn finish_goto(behavior: &mut EnemyBehavior)
    ensures
        *old(behavior) is Goto && episode_complete((*old(behavior))->Goto_1, (*old(behavior))->Goto_2)
            ==> *final(behavior) is Idle,
        !(*old(behavior) is Goto && episode_complete((*old(behavior))->Goto_1, (*old(behavior))->Goto_2))
            ==> *final(behavior) == *old(behavior),
{
    let done = match behavior {
        EnemyBehavior::Goto(_, Some(path), index) => *index >= path.len(),
        _ => false,
    };
    if done {
        *behavior = EnemyBehavior::Idle;
    }
}

/// An enemy chasing the player gives up once the player has left agro range.
pub fn leave_attack_player(behavior: &mut EnemyBehavior, in_agro: bool)
    ensures
        *old(behavior) is AttackPlayer && !in_agro ==> *final(behavior) is Idle,
        !(*old(behavior) is AttackPlayer && !in_agro) ==> *final(behavior) == *old(behavior),
{
    if !in_agro && behavior.is_attack_player() {
        *behavior = EnemyBehavior::Idle;
    }
}

/// An idle enemy holds its place and picks what to do next: chase the
/// player, attack the beacon, or travel to the beacon's perimeter. Returns
/// the hold command for an idle enemy and `None` for any other.
pub fn minion_idle(
    behavior: &mut EnemyBehavior,
    enemy: &Enemy,
    in_agro: bool,
    position: Point2,
    beacon: &BeaconQuery,
) -> (r: Option<Locomotion>)
    ensures
        *old(behavior) is Idle ==> *final(behavior) == idle_decision(in_agro, position, beacon.position)
            && r == Some(hold_spec(*enemy)),
        !(*old(behavior) is Idle) ==> *final(behavior) == *old(behavior) && r is None,
{
    if let EnemyBehavior::Idle = behavior {
        let command = hold(enemy);
        if in_agro {
            *behavior = EnemyBehavior::AttackPlayer;
        } else if beacon.within_range(position, MINION_BEACON_ATTACK_RANGE) {
            *behavior = EnemyBehavior::AttackBeacon;
        } else {
            *behavior = EnemyBehavior::goto(beacon.closest_point(position, MINION_BEACON_ATTACK_RANGE));
        }
        Some(command)
    } else {
        None
    }
}

/// The behaviours in which an enemy holds its place: idle, spawning,
/// guarding, and attacking the beacon.
pub open spec fn holds_place(b: EnemyBehavior) -> bool {
    b is Idle || b is Spawning || b is Guard || b is AttackBeacon
}

/// Idle, spawning and guarding enemies, and those attacking the beacon,
/// stand still; travelling and chasing enemies get their command from
/// steering and from the attack step.
pub fn enemy_idle_and_spawning(behavior: &EnemyBehavior, enemy: &Enemy) -> (r: Option<Locomotion>)
    ensures
        holds_place(*behavior) ==> r == Some(hold_spec(*enemy)),
        !holds_place(*behavior) ==> r is None,
{
    match behavior {
        EnemyBehavior::Idle | EnemyBehavior::Spawning | EnemyBehavior::Guard
        | EnemyBehavior::AttackBeacon => Some(hold(enemy)),
        _ => None,
    }
}

/// One evaluation of the transition rules (see `next_behavior`).
pub fn transition(behavior: &mut EnemyBehavior, in_agro: bool, position: Point2, beacon: &BeaconQuery)
    ensures
        *final(behavior) == next_behavior(*old(behavior), in_agro, position, beacon.position),
{
    match behavior {
        EnemyBehavior::Idle => {
            if in_agro {
                *behavior = EnemyBehavior::AttackPlayer;
            } else if beacon.within_range(position, MINION_BEACON_ATTACK_RANGE) {
                *behavior = EnemyBehavior::AttackBeacon;
            } else {
                *behavior = EnemyBehavior::goto(
                    beacon.closest_point(position, MINION_BEACON_ATTACK_RANGE),
                );
            }
        },
        EnemyBehavior::Goto(..) => {
            if in_agro {
                *behavior = EnemyBehavior::AttackPlayer;
            } else {
                finish_goto(behavior);
            }
        },
        EnemyBehavior::AttackPlayer => {
            leave_attack_player(behavior, in_agro);
        },
        _ => {},
    }
}

} // verus!
