//! Steering of a travelling enemy: a push away from crowding neighbours,
//! a pull toward the current waypoint, and the advance along the path.
use crate::beacon::BeaconQuery;
use crate::behavior::{hold, hold_spec, next_behavior, transition, Enemy, EnemyBehavior, Locomotion};
use crate::geometry::{
    closer_than, direction_to, dist_sq, distance_squared, is_closer_than, div_toward_zero, flat, scale_to_length,
    scaled, toward, vec2_vec3, Point2, Vec2, Vec3, UNIT,
};
use vstd::arithmetic::div_mod::{lemma_div_by_multiple, lemma_div_is_ordered};
use vstd::arithmetic::mul::lemma_mul_inequality;
use vstd::prelude::*;

verus! {

/// Neighbours strictly closer than this push an enemy away.
pub const ENEMY_CROWDING_SPACE: u32 = 5000;

/// The push is scaled by `SEPARATION_NUMERATOR / SEPARATION_DENOMINATOR`.
pub const SEPARATION_NUMERATOR: i128 = 9;

pub const SEPARATION_DENOMINATOR: i128 = 10;

/// An enemy closer than this to its waypoint moves on to the next one.
pub const ENEMY_CORNER_CUTTING: u32 = 500;

/// The push of one neighbour along one axis: the offset `a` away from it
/// divided by the squared distance `d2`, that is the unit direction divided
/// by the distance, in thousandths of a unit per second.
pub open spec fn push_term(a: int, d2: int) -> int {
    if d2 == 0 {
        0
    } else {
        div_toward_zero(1_000_000 * a, d2)
    }
}

/// `n` is close enough to `me` to push it.
pub open spec fn crowds(me: Point2, n: Point2) -> bool {
    closer_than(me, n, ENEMY_CROWDING_SPACE as int)
}

/// The number of neighbours in `s` that crowd `me`.
pub open spec fn crowd_count(me: Point2, s: Seq<Point2>) -> nat
    decreases s.len(),
{
    if s.len() == 0 {
        0
    } else {
        crowd_count(me, s.drop_last()) + if crowds(me, s.last()) {
            1nat
        } else {
            0nat
        }
    }
}

/// The sum of the pushes along `x` of the neighbours in `s` that crowd `me`.
pub open spec fn push_sum_x(me: Point2, s: Seq<Point2>) -> int
    decreases s.len(),
{
    if s.len() == 0 {
        0
    } else {
        push_sum_x(me, s.drop_last()) + if crowds(me, s.last()) {
            push_term(me.x - s.last().x, dist_sq(me, s.last()))
        } else {
            0
        }
    }
}

/// The sum of the pushes along `y` of the neighbours in `s` that crowd `me`.
pub open spec fn push_sum_y(me: Point2, s: Seq<Point2>) -> int
    decreases s.len(),
{
    if s.len() == 0 {
        0
    } else {
        push_sum_y(me, s.drop_last()) + if crowds(me, s.last()) {
            push_term(me.y - s.last().y, dist_sq(me, s.last()))
        } else {
            0
        }
    }
}

/// The separation force on `me` from `neighbors`: the mean push of the
/// crowding ones, scaled by the separation factor; zero when none crowds.
pub open spec fn separation(me: Point2, neighbors: Seq<Point2>) -> Vec2 {
    let k = crowd_count(me, neighbors);
    if k == 0 {
        Vec2 { x: 0, y: 0 }
    } else {
        Vec2 {
            x: div_toward_zero(
                SEPARATION_NUMERATOR * push_sum_x(me, neighbors),
                SEPARATION_DENOMINATOR * k,
            ) as i64,
            y: div_toward_zero(
                SEPARATION_NUMERATOR * push_sum_y(me, neighbors),
                SEPARATION_DENOMINATOR * k,
            ) as i64,
        }
    }
}

/// The waypoint aimed at: `path[index]`, or the destination once the index
/// has run past the path.
pub open spec fn target_of(destination: Point2, path: Seq<Point2>, index: int) -> Point2 {
    if 0 <= index < path.len() {
        path[index]
    } else {
        destination
    }
}

/// The pull toward `target` at `speed` plus the separation force.
pub open spec fn blended_velocity(position: Point2, target: Point2, speed: int, push: Vec2) -> Vec2 {
    let pull = toward(position, target, speed);
    Vec2 { x: (push.x + pull.x) as i64, y: (push.y + pull.y) as i64 }
}

/// The facing for a velocity: its unit direction, or none for a standstill.
pub open spec fn facing(v: Vec2) -> Option<Vec3> {
    if v.is_zero() {
        None
    } else {
        Some(flat(scaled(v.x as int, v.y as int, UNIT as int)))
    }
}

/// The command of a travelling enemy at `position` aiming at `target`.
pub open spec fn goto_command(position: Point2, target: Point2, enemy: Enemy, push: Vec2) -> Locomotion {
    let v = blended_velocity(position, target, enemy.speed as int, push);
    Locomotion {
        desired_velocity: flat(v),
        float_height: enemy.height_from_ground,
        desired_forward: facing(v),
    }
}

/// The waypoint index after a tick: one further when the enemy has come
/// within the corner-cutting distance of its target.
pub open spec fn advanced(index: usize, position: Point2, target: Point2) -> usize {
    if closer_than(position, target, ENEMY_CORNER_CUTTING as int) && index < usize::MAX {
        (index + 1) as usize
    } else {
        index
    }
}

/// A separation force small enough to add to any speed.
pub open spec fn bounded_push(v: Vec2) -> bool {
    -0x80_0000_0000 <= v.x <= 0x80_0000_0000 && -0x80_0000_0000 <= v.y <= 0x80_0000_0000
}

/// One tick of a travelling enemy: the behaviour it ends with and the
/// command it sends. A missing path is taken from `found`; with none the
/// enemy holds its place and waits.
pub open spec fn steer_spec(
    b: EnemyBehavior,
    position: Point2,
    enemy: Enemy,
    found: Option<Vec<Point2>>,
    push: Vec2,
) -> (EnemyBehavior, Locomotion) {
    match b {
        EnemyBehavior::Goto(destination, cached, index) => {
            let path = if cached is None {
                found
            } else {
                cached
            };
            match path {
                None => (b, hold_spec(enemy)),
                Some(p) => {
                    let target = target_of(destination, p@, index as int);
                    (
                        EnemyBehavior::Goto(destination, Some(p), advanced(index, position, target)),
                        goto_command(position, target, enemy, push),
                    )
                },
            }
        },
        _ => (b, hold_spec(enemy)),
    }
}

/// The push of one neighbour along one axis (see `push_term`).
fn push_component(a: i64, d2: u128) -> (r: i128)
    requires
        a * a <= d2,
        -0x1_0000_0000 <= a <= 0x1_0000_0000,
    ensures
        r == push_term(a as int, d2 as int),
        -1_000_000 <= r <= 1_000_000,
{
    if d2 == 0 {
        return 0;
    }
    let mag: u128 = if a >= 0 { a as u128 } else { (-(a as i128)) as u128 };
    assert(mag <= d2) by (nonlinear_arith)
        requires
            mag == a || mag == -a,
            mag >= 0,
            a * a <= d2,
    ;
    let q: u128 = 1_000_000 * mag / d2;
    assert(q <= 1_000_000) by {
        lemma_mul_inequality(mag as int, d2 as int, 1_000_000);
        lemma_div_is_ordered(1_000_000 * mag, 1_000_000 * d2, d2 as int);
        lemma_div_by_multiple(1_000_000, d2 as int);
    }
    if a >= 0 {
        q as i128
    } else {
        assert(1_000_000 * a < 0 && -(1_000_000 * a) == 1_000_000 * mag);
        -(q as i128)
    }
}

/// The mean of `k` pushes summing to `sum`, scaled by the separation factor.
fn scaled_mean(sum: i128, k: u64) -> (r: i64)
    requires
        k > 0,
        -1_000_000 * k <= sum <= 1_000_000 * k,
    ensures
        r == div_toward_zero(SEPARATION_NUMERATOR * sum, SEPARATION_DENOMINATOR * k),
        -1_000_000 <= r <= 1_000_000,
{
    let den: u128 = 10 * k as u128;
    let mag: u128 = if sum >= 0 { sum as u128 } else { (-sum) as u128 };
    let q: u128 = 9 * mag / den;
    assert(q <= 1_000_000) by {
        assert(9 * mag <= 1_000_000 * den) by (nonlinear_arith)
            requires
                mag <= 1_000_000 * k,
                den == 10 * k,
        ;
        lemma_div_is_ordered(9 * mag, 1_000_000 * den, den as int);
        lemma_div_by_multiple(1_000_000, den as int);
    }
    if sum >= 0 {
        q as i64
    } else {
        -(q as i64)
    }
}

/// The separation force on `me` from the positions of its neighbours.
pub fn separation_force(me: Point2, neighbors: &Vec<Point2>) -> (r: Vec2)
    ensures
        r == separation(me, neighbors@),
        -1_000_000 <= r.x <= 1_000_000,
        -1_000_000 <= r.y <= 1_000_000,
{
    let mut sx: i128 = 0;
    let mut sy: i128 = 0;
    let mut k: u64 = 0;
    let mut i: usize = 0;
    while i < neighbors.len()
        invariant
            i <= neighbors@.len(),
            k == crowd_count(me, neighbors@.take(i as int)),
            k <= i,
            sx == push_sum_x(me, neighbors@.take(i as int)),
            sy == push_sum_y(me, neighbors@.take(i as int)),
            -1_000_000 * k <= sx <= 1_000_000 * k,
            -1_000_000 * k <= sy <= 1_000_000 * k,
        decreases neighbors@.len() - i,
    {
        let n = neighbors[i];
        let d2 = distance_squared(me, n);
        assert(neighbors@.take(i + 1).drop_last() =~= neighbors@.take(i as int));
        assert(neighbors@.take(i + 1).last() == n);
        if is_closer_than(me, n, ENEMY_CROWDING_SPACE) {
            let dx: i64 = me.x as i64 - n.x as i64;
            let dy: i64 = me.y as i64 - n.y as i64;
            assert(dx * dx <= d2 && dy * dy <= d2) by (nonlinear_arith)
                requires
                    d2 == dx * dx + dy * dy,
            ;
            sx = sx + push_component(dx, d2);
            sy = sy + push_component(dy, d2);
            k = k + 1;
        }
        i = i + 1;
    }
    assert(neighbors@.take(neighbors@.len() as int) =~= neighbors@);
    if k == 0 {
        Vec2::zero()
    } else {
        Vec2 { x: scaled_mean(sx, k), y: scaled_mean(sy, k) }
    }
}

/// The command of a travelling enemy (see `goto_command`).
pub fn goto_locomotion(position: Point2, target: Point2, enemy: &Enemy, push: Vec2) -> (r: Locomotion)
    requires
        bounded_push(push),
    ensures
        r == goto_command(position, target, *enemy, push),
{
    let pull = direction_to(position, target, enemy.speed);
    let v = Vec2 { x: push.x + pull.x, y: push.y + pull.y };
    let desired_forward = if v.x == 0 && v.y == 0 {
        None
    } else {
        Some(vec2_vec3(scale_to_length(v.x, v.y, UNIT)))
    };
    Locomotion {
        desired_velocity: vec2_vec3(v),
        float_height: enemy.height_from_ground,
        desired_forward,
    }
}

/// One tick of a travelling enemy (see `steer_spec`): takes the path that
/// the navigation mesh `found` when it has none yet, aims at its current
/// waypoint with the separation force `push` added, and moves on to the
/// next waypoint once close to this one. Without a path it holds its place.
pub fn steer_goto(
    behavior: &mut EnemyBehavior,
    position: Point2,
    enemy: &Enemy,
    found: Option<Vec<Point2>>,
    push: Vec2,
) -> (r: Locomotion)
    requires
        bounded_push(push),
    ensures
        (*final(behavior), r) == steer_spec(*old(behavior), position, *enemy, found, push),
{
    match behavior {
        EnemyBehavior::Goto(destination, cached, index) => {
            if cached.is_none() {
                *cached = found;
            }
            match cached {
                None => hold(enemy),
                Some(path) => {
                    let target = if *index < path.len() {
                        path[*index]
                    } else {
                        *destination
                    };
                    let command = goto_locomotion(position, target, enemy, push);
                    if is_closer_than(position, target, ENEMY_CORNER_CUTTING) && *index < usize::MAX {
                        *index = *index + 1;
                    }
                    command
                },
            }
        },
        _ => hold(enemy),
    }
}

/// One tick of an enemy's behaviour: the transition rules, then, for a
/// travelling enemy, the steering step with the path `found` this tick.
pub open spec fn enemy_tick(
    b: EnemyBehavior,
    in_agro: bool,
    position: Point2,
    beacon: Point2,
    enemy: Enemy,
    found: Option<Vec<Point2>>,
    push: Vec2,
) -> EnemyBehavior {
    let after = next_behavior(b, in_agro, position, beacon);
    if after is Goto {
        steer_spec(after, position, enemy, found, push).0
    } else {
        after
    }
}

/// One tick of an enemy (see `enemy_tick`): the transition rules, then the
/// steering step if it is travelling. Returns the steering command of a
/// travelling enemy, `None` for any other.
pub fn tick_enemy(
    behavior: &mut EnemyBehavior,
    in_agro: bool,
    position: Point2,
    beacon: &BeaconQuery,
    enemy: &Enemy,
    found: Option<Vec<Point2>>,
    push: Vec2,
) -> (r: Option<Locomotion>)
    requires
        bounded_push(push),
    ensures
        *final(behavior) == enemy_tick(*old(behavior), in_agro, position, beacon.position, *enemy, found, push),
        ({
            let after = next_behavior(*old(behavior), in_agro, position, beacon.position);
            &&& after is Goto ==> r == Some(steer_spec(after, position, *enemy, found, push).1)
            &&& !(after is Goto) ==> r is None
        }),
{
    transition(behavior, in_agro, position, beacon);
    if behavior.is_goto() {
        Some(steer_goto(behavior, position, enemy, found, push))
    } else {
        None
    }
}

} // verus!
