//! Properties that relate several steps or several enemies, proved over the
//! specifications of the functions involved.
use crate::beacon::{in_range, perimeter_point};
use crate::behavior::{goto_spec, next_behavior, Enemy, EnemyBehavior};
use crate::geometry::{closer_than, dist_sq, div_toward_zero, Point2, Vec2};
use crate::population::{alive, dead_ids, living, with_behavior, EnemyRecord};
use crate::steering::{
    crowd_count, crowds, enemy_tick, push_sum_x, push_sum_y, push_term, separation, steer_spec,
    ENEMY_CROWDING_SPACE,
};
use vstd::arithmetic::div_mod::{lemma_div_by_multiple, lemma_div_is_ordered};
use vstd::prelude::*;

verus! {

/// Successive ticks at `positions`, the player never in agro range and the
/// navigation mesh finding no path.
pub open spec fn quiet_ticks(
    b: EnemyBehavior,
    positions: Seq<Point2>,
    beacon: Point2,
    enemy: Enemy,
    push: Vec2,
) -> EnemyBehavior
    decreases positions.len(),
{
    if positions.len() == 0 {
        b
    } else {
        enemy_tick(
            quiet_ticks(b, positions.drop_last(), beacon, enemy, push),
            false,
            positions.last(),
            beacon,
            enemy,
            None,
            push,
        )
    }
}

/// An enemy that follows a known path, standing within the corner-cutting
/// distance of waypoint `k` at tick `k`, reaches the end of the path after
/// as many ticks as the path has waypoints, and turns idle on the next tick.
pub proof fn law_goto_completion(
    destination: Point2,
    path: Vec<Point2>,
    positions: Seq<Point2>,
    last: Point2,
    beacon: Point2,
    enemy: Enemy,
    push: Vec2,
)
    requires
        positions.len() == path@.len(),
        path@.len() <= usize::MAX,
        forall|k: int|
            0 <= k < positions.len() ==> closer_than(
                #[trigger] positions[k],
                path@[k],
                crate::steering::ENEMY_CORNER_CUTTING as int,
            ),
    ensures
        quiet_ticks(EnemyBehavior::Goto(destination, Some(path), 0), positions, beacon, enemy, push)
            == EnemyBehavior::Goto(destination, Some(path), path@.len() as usize),
        quiet_ticks(
            EnemyBehavior::Goto(destination, Some(path), 0),
            positions.push(last),
            beacon,
            enemy,
            push,
        ) is Idle,
{
    lemma_goto_progress(destination, path, positions, beacon, enemy, push, positions.len() as int);
    assert(positions.take(positions.len() as int) =~= positions);
    assert(positions.push(last).drop_last() =~= positions);
}

/// After `n` of the ticks of `law_goto_completion`, the index is `n`.
proof fn lemma_goto_progress(
    destination: Point2,
    path: Vec<Point2>,
    positions: Seq<Point2>,
    beacon: Point2,
    enemy: Enemy,
    push: Vec2,
    n: int,
)
    requires
        0 <= n <= positions.len(),
        positions.len() == path@.len(),
        path@.len() <= usize::MAX,
        forall|k: int|
            0 <= k < positions.len() ==> closer_than(
                #[trigger] positions[k],
                path@[k],
                crate::steering::ENEMY_CORNER_CUTTING as int,
            ),
    ensures
        quiet_ticks(
            EnemyBehavior::Goto(destination, Some(path), 0),
            positions.take(n),
            beacon,
            enemy,
            push,
        ) == EnemyBehavior::Goto(destination, Some(path), n as usize),
    decreases n,
{
    if n > 0 {
        lemma_goto_progress(destination, path, positions, beacon, enemy, push, n - 1);
        assert(positions.take(n).drop_last() =~= positions.take(n - 1));
        assert(positions.take(n).last() == positions[n - 1]);
    } else {
        assert(positions.take(0) =~= Seq::<Point2>::empty());
    }
}

/// The transition pass (`update_behaviors`) followed by the steering pass
/// (`enemy_goto`) takes each record through one `enemy_tick`, so what is
/// proved of successive ticks (`law_goto_completion`, `law_wait_for_path`)
/// holds of successive runs of the two passes.
pub proof fn law_passes_make_a_tick(
    rec: EnemyRecord,
    in_agro: bool,
    beacon: Point2,
    found: Option<Vec<Point2>>,
    push: Vec2,
)
    ensures
        ({
            let after = with_behavior(rec, next_behavior(rec.behavior, in_agro, rec.position, beacon));
            let ticked = enemy_tick(rec.behavior, in_agro, rec.position, beacon, rec.enemy, found, push);
            &&& after.behavior is Goto ==> with_behavior(
                after,
                steer_spec(after.behavior, after.position, after.enemy, found, push).0,
            ) == with_behavior(rec, ticked)
            &&& !(after.behavior is Goto) ==> after == with_behavior(rec, ticked)
        }),
{
}

/// An enemy whose travel index has reached the end of its path in the tick
/// just finished, and which the player's agro query does not name, is
/// idle after the next transition pass (`update_behaviors` gives each
/// record this behaviour), and the steering pass then leaves it alone.
pub proof fn law_finished_goto_idles(
    rec: EnemyRecord,
    destination: Point2,
    path: Vec<Point2>,
    index: usize,
    agro: Seq<u64>,
    beacon: Point2,
)
    requires
        rec.behavior == EnemyBehavior::Goto(destination, Some(path), index),
        index >= path@.len(),
        !agro.contains(rec.id),
    ensures
        next_behavior(rec.behavior, agro.contains(rec.id), rec.position, beacon) is Idle,
        !(with_behavior(rec, next_behavior(rec.behavior, agro.contains(rec.id), rec.position, beacon)).behavior is Goto),
{
}

/// An idle enemy with the player out of agro range and the beacon out of
/// its attack range heads for the nearest point of the beacon's attack
/// perimeter, on a fresh path.
pub proof fn law_idle_goes_to_beacon(position: Point2, beacon: Point2)
    requires
        !in_range(beacon, position, crate::behavior::MINION_BEACON_ATTACK_RANGE as int),
    ensures
        next_behavior(EnemyBehavior::Idle, false, position, beacon) == goto_spec(
            perimeter_point(beacon, position, crate::behavior::MINION_BEACON_ATTACK_RANGE as int),
        ),
{
}

/// A travelling enemy that the player's agro query finds starts chasing at
/// once, whatever its path; once it gives up and travels again, it starts
/// a fresh path lookup from the first waypoint.
pub proof fn law_agro_precedence(
    destination: Point2,
    path: Option<Vec<Point2>>,
    index: usize,
    position: Point2,
    later: Point2,
    beacon: Point2,
)
    ensures
        next_behavior(EnemyBehavior::Goto(destination, path, index), true, position, beacon) is AttackPlayer,
        ({
            let idle = next_behavior(EnemyBehavior::AttackPlayer, false, position, beacon);
            let again = next_behavior(idle, false, later, beacon);
            &&& idle is Idle
            &&& again is Goto ==> again->Goto_1 is None && again->Goto_2 == 0
        }),
{
}

/// With the navigation mesh finding no path, a travelling enemy that has
/// none and never sees the player keeps its behaviour, index included,
/// tick after tick.
pub proof fn law_wait_for_path(
    destination: Point2,
    index: usize,
    positions: Seq<Point2>,
    beacon: Point2,
    enemy: Enemy,
    push: Vec2,
)
    ensures
        quiet_ticks(EnemyBehavior::Goto(destination, None, index), positions, beacon, enemy, push)
            == EnemyBehavior::Goto(destination, None, index),
    decreases positions.len(),
{
    if positions.len() > 0 {
        law_wait_for_path(destination, index, positions.drop_last(), beacon, enemy, push);
    }
}

/// Sweeping the dead a second time, with no new deaths, changes nothing:
/// no record is dead any more, so nothing is removed or uncounted.
pub proof fn law_sweep_idempotent(s: Seq<EnemyRecord>)
    ensures
        living(living(s)) == living(s),
        dead_ids(living(s)).len() == 0,
{
    lemma_living_all_alive(s);
    lemma_sweep_of_living(living(s));
}

/// Every record that survives a sweep is alive.
proof fn lemma_living_all_alive(s: Seq<EnemyRecord>)
    ensures
        forall|i: int| 0 <= i < living(s).len() ==> alive(#[trigger] living(s)[i]),
    decreases s.len(),
{
    if s.len() > 0 {
        lemma_living_all_alive(s.drop_last());
        let front = living(s.drop_last());
        assert forall|i: int| 0 <= i < living(s).len() implies alive(#[trigger] living(s)[i]) by {
            if i < front.len() {
                assert(living(s)[i] == front[i]);
            } else {
                assert(living(s)[i] == s.last());
            }
        }
    }
}

/// A sweep of records that are all alive keeps them all and removes none.
proof fn lemma_sweep_of_living(s: Seq<EnemyRecord>)
    requires
        forall|i: int| 0 <= i < s.len() ==> alive(#[trigger] s[i]),
    ensures
        living(s) == s,
        dead_ids(s).len() == 0,
    decreases s.len(),
{
    if s.len() > 0 {
        lemma_sweep_of_living(s.drop_last());
        assert(alive(s[s.len() - 1]));
        assert(s.drop_last().push(s.last()) =~= s);
        assert(living(s.drop_last()) + seq![s.last()] =~= s);
    } else {
        assert(s =~= seq![]);
    }
}

/// Division toward zero is odd in its dividend.
proof fn lemma_div_toward_zero_odd(x: int, y: int)
    requires
        y > 0,
    ensures
        div_toward_zero(-x, y) == -div_toward_zero(x, y),
{
    if x == 0 {
        assert(0int / y == 0);
    }
}

/// Division toward zero keeps the sign of the dividend.
proof fn lemma_div_toward_zero_sign(x: int, y: int)
    requires
        y > 0,
    ensures
        x >= 0 ==> div_toward_zero(x, y) >= 0,
        x <= 0 ==> div_toward_zero(x, y) <= 0,
{
    if x >= 0 {
        vstd::arithmetic::div_mod::lemma_div_pos_is_pos(x, y);
    } else {
        vstd::arithmetic::div_mod::lemma_div_pos_is_pos(-x, y);
    }
}

/// The separation force of one neighbour alone, component by component.
proof fn lemma_single_neighbor(me: Point2, n: Point2)
    ensures
        crowd_count(me, seq![n]) == (if crowds(me, n) { 1nat } else { 0nat }),
        push_sum_x(me, seq![n]) == (if crowds(me, n) { push_term(me.x - n.x, dist_sq(me, n)) } else { 0 }),
        push_sum_y(me, seq![n]) == (if crowds(me, n) { push_term(me.y - n.y, dist_sq(me, n)) } else { 0 }),
{
    assert(seq![n].drop_last() =~= Seq::<Point2>::empty());
    assert(seq![n].last() == n);
    assert(crowd_count(me, Seq::<Point2>::empty()) == 0);
    assert(push_sum_x(me, Seq::<Point2>::empty()) == 0);
    assert(push_sum_y(me, Seq::<Point2>::empty()) == 0);
}

/// The component of the separation along one axis, for a neighbour offset
/// by `a` along it at squared distance `d2`: it has the sign of `a`, and is
/// at least one in size where `a` is the larger offset.
proof fn lemma_push_component(a: int, b: int, d2: int)
    requires
        d2 == a * a + b * b,
        0 < d2 < ENEMY_CROWDING_SPACE * ENEMY_CROWDING_SPACE,
    ensures
        ({
            let s = div_toward_zero(9 * push_term(a, d2), 10);
            &&& s * a >= 0
            &&& (a * a >= b * b ==> s * a > 0)
            &&& -1_000_000 <= s <= 1_000_000
        }),
{
    let t = push_term(a, d2);
    assert(t == div_toward_zero(1_000_000 * a, d2));
    let m0 = if a >= 0 { a } else { -a };
    assert(m0 <= d2 && m0 >= 0) by (nonlinear_arith)
        requires
            m0 == a || m0 == -a,
            m0 >= 0,
            d2 == a * a + b * b,
    ;
    assert(-1_000_000 <= t <= 1_000_000) by {
        lemma_div_is_ordered(1_000_000 * m0, 1_000_000 * d2, d2);
        lemma_div_by_multiple(1_000_000, d2);
        if a < 0 {
            assert(-(1_000_000 * a) == 1_000_000 * m0);
        }
    }
    let m1 = if t >= 0 { 9 * t } else { -(9 * t) };
    assert(-1_000_000 <= div_toward_zero(9 * t, 10) <= 1_000_000) by {
        lemma_div_is_ordered(m1, 10_000_000, 10);
    }
    lemma_div_toward_zero_sign(1_000_000 * a, d2);
    lemma_div_toward_zero_sign(9 * t, 10);
    let s = div_toward_zero(9 * t, 10);
    assert(s * a >= 0) by (nonlinear_arith)
        requires
            a >= 0 ==> s >= 0,
            a <= 0 ==> s <= 0,
    ;
    if a * a >= b * b {
        let m = if a >= 0 { a } else { -a };
        assert(m * m == a * a) by (nonlinear_arith)
            requires
                m == a || m == -a,
        ;
        assert(m >= 1) by (nonlinear_arith)
            requires
                m * m == a * a,
                m >= 0,
                a * a >= b * b,
                a * a + b * b > 0,
        ;
        assert(2 * d2 <= 1_000_000 * m) by (nonlinear_arith)
            requires
                d2 == a * a + b * b,
                a * a >= b * b,
                m * m == a * a,
                m >= 1,
                d2 < 25_000_000,
        ;
        lemma_div_is_ordered(2 * d2, 1_000_000 * m, d2);
        lemma_div_by_multiple(2, d2);
        assert((1_000_000 * m) / d2 >= 2);
        if a > 0 {
            assert(t >= 2);
            assert(s >= 1);
            assert(s * a > 0) by (nonlinear_arith)
                requires
                    s >= 1,
                    a > 0,
            ;
        } else {
            assert(-(1_000_000 * a) == 1_000_000 * m);
            assert(t <= -2);
            assert(s <= -1);
            assert(s * a > 0) by (nonlinear_arith)
                requires
                    s <= -1,
                    a < 0,
            ;
        }
    }
}

/// Two enemies closer than the crowding distance push each other apart
/// with opposite forces, each pointing away from the other; at exactly the
/// crowding distance they do not push at all.
pub proof fn law_separation_symmetry(a: Point2, b: Point2)
    ensures
        0 < dist_sq(a, b) < ENEMY_CROWDING_SPACE * ENEMY_CROWDING_SPACE ==> {
            let fa = separation(a, seq![b]);
            let fb = separation(b, seq![a]);
            &&& fa.x == -fb.x && fa.y == -fb.y
            &&& !fa.is_zero()
            &&& fa.x * (a.x - b.x) + fa.y * (a.y - b.y) > 0
        },
        dist_sq(a, b) == ENEMY_CROWDING_SPACE * ENEMY_CROWDING_SPACE ==> separation(a, seq![b]).is_zero(),
{
    lemma_single_neighbor(a, b);
    lemma_single_neighbor(b, a);
    let dx = a.x - b.x;
    let dy = a.y - b.y;
    let d2 = dist_sq(a, b);
    assert(dist_sq(b, a) == d2) by (nonlinear_arith)
        requires
            d2 == (a.x - b.x) * (a.x - b.x) + (a.y - b.y) * (a.y - b.y),
            dist_sq(b, a) == (b.x - a.x) * (b.x - a.x) + (b.y - a.y) * (b.y - a.y),
    ;
    if 0 < d2 < ENEMY_CROWDING_SPACE * ENEMY_CROWDING_SPACE {
        assert(crowds(a, b) && crowds(b, a));
        let fa = separation(a, seq![b]);
        let fb = separation(b, seq![a]);
        assert(1_000_000 * (b.x - a.x) == -(1_000_000 * dx));
        assert(1_000_000 * (b.y - a.y) == -(1_000_000 * dy));
        lemma_div_toward_zero_odd(1_000_000 * dx, d2);
        lemma_div_toward_zero_odd(1_000_000 * dy, d2);
        let tx = push_term(dx, d2);
        let ty = push_term(dy, d2);
        assert(push_term(b.x - a.x, d2) == -tx);
        assert(push_term(b.y - a.y, d2) == -ty);
        lemma_div_toward_zero_odd(9 * tx, 10);
        lemma_div_toward_zero_odd(9 * ty, 10);
        assert(9 * -tx == -(9 * tx));
        assert(9 * -ty == -(9 * ty));
        lemma_push_component(dx, dy, d2);
        lemma_push_component(dy, dx, d2);
        assert(fa.x == div_toward_zero(9 * tx, 10));
        assert(fa.y == div_toward_zero(9 * ty, 10));
        assert(dx * dx >= dy * dy || dy * dy >= dx * dx);
        assert(fb.x == div_toward_zero(9 * -tx, 10));
        assert(fb.y == div_toward_zero(9 * -ty, 10));
        assert(fa.x == -fb.x && fa.y == -fb.y);
        assert(fa.x * dx + fa.y * dy > 0);
        if fa.is_zero() {
            assert(fa.x * dx + fa.y * dy == 0) by (nonlinear_arith)
                requires
                    fa.x == 0,
                    fa.y == 0,
            ;
        }
    }
}

} // verus!
