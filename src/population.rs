//! The enemies alive in the arena, their count against the ceiling, their
//! creation from spawn requests and their removal once dead.
use crate::beacon::BeaconQuery;
use crate::behavior::{
    next_behavior, spawn_animation_complete, transition, Enemy, EnemyBehavior, Locomotion,
};
use crate::steering::{separation, steer_spec};
use crate::geometry::Point2;
use crate::health::Health;
use crate::minion::{
    chase_command, minion_attack_player, minion_enemy, AttackCooldown, AttackStep, Minion, MINION_ATTACK_COOLDOWN, MINION_HEALTH, MINION_HEIGHT,
    MINION_SPEED,
};
use crate::spawn::{
    spawn_enemies, spawn_room, EnemyCount, EnemyType, SpawnEnemiesEvent, SpawnEnemy, MAX_ENEMIES,
};
use vstd::prelude::*;

verus! {

/// One enemy in the arena.
#[derive(Debug)]
pub struct EnemyRecord {
    pub id: u64,
    pub kind: EnemyType,
    pub position: Point2,
    pub enemy: Enemy,
    pub health: Health,
    pub behavior: EnemyBehavior,
    pub minion: Minion,
}

/// A freshly spawned minion.
pub open spec fn minion_record(id: u64, position: Point2) -> EnemyRecord {
    EnemyRecord {
        id,
        kind: EnemyType::Minion,
        position,
        enemy: minion_enemy(),
        health: Health { max_health: MINION_HEALTH, current_health: MINION_HEALTH },
        behavior: EnemyBehavior::Spawning,
        minion: Minion {
            attack_cooldown: AttackCooldown { duration_ms: MINION_ATTACK_COOLDOWN, elapsed_ms: 0 },
        },
    }
}

/// Creates the minion that a spawn event asks for, spawning; only minions
/// have a spawner, so other types give `None`.
pub fn spawn_minion_enemy(event: SpawnEnemy, id: u64) -> (r: Option<EnemyRecord>)
    ensures
        event.1 is Minion ==> r == Some(minion_record(id, event.0)),
        !(event.1 is Minion) ==> r is None,
{
    if event.1 != EnemyType::Minion {
        return None;
    }
    Some(
        EnemyRecord {
            id,
            kind: EnemyType::Minion,
            position: event.0,
            enemy: Enemy { height_from_ground: MINION_HEIGHT, speed: MINION_SPEED },
            health: Health::new(MINION_HEALTH),
            behavior: EnemyBehavior::Spawning,
            minion: Minion::default(),
        },
    )
}

/// A freshly spawned enemy of type `kind`. The minion's is the only
/// profile the game defines, so every type spawns with its attributes.
pub open spec fn enemy_record(kind: EnemyType, id: u64, position: Point2) -> EnemyRecord {
    EnemyRecord { kind, ..minion_record(id, position) }
}

/// Creates the enemy that a spawn event asks for, spawning.
pub fn spawn_enemy(event: SpawnEnemy, id: u64) -> (r: EnemyRecord)
    ensures
        r == enemy_record(event.1, id, event.0),
{
    EnemyRecord {
        id,
        kind: event.1,
        position: event.0,
        enemy: Enemy { height_from_ground: MINION_HEIGHT, speed: MINION_SPEED },
        health: Health::new(MINION_HEALTH),
        behavior: EnemyBehavior::Spawning,
        minion: Minion::default(),
    }
}

/// The records created for the spawn events `s`, numbered from `first_id`.
pub open spec fn spawned_records(s: Seq<SpawnEnemy>, first_id: int) -> Seq<EnemyRecord> {
    Seq::new(s.len(), |k: int| enemy_record(s[k].1, (first_id + k) as u64, s[k].0))
}

/// A record still alive.
pub open spec fn alive(r: EnemyRecord) -> bool {
    r.health.current_health != 0
}

/// The records of `s` that are alive, in order.
pub open spec fn living(s: Seq<EnemyRecord>) -> Seq<EnemyRecord>
    decreases s.len(),
{
    if s.len() == 0 {
        seq![]
    } else {
        living(s.drop_last()) + if alive(s.last()) {
            seq![s.last()]
        } else {
            seq![]
        }
    }
}

/// The ids of the records of `s` that are dead, in order.
pub open spec fn dead_ids(s: Seq<EnemyRecord>) -> Seq<u64>
    decreases s.len(),
{
    if s.len() == 0 {
        seq![]
    } else {
        dead_ids(s.drop_last()) + if alive(s.last()) {
            seq![]
        } else {
            seq![s.last().id]
        }
    }
}

/// The ids of `s` increase strictly, and all lie below `bound`.
pub open spec fn ids_ordered(s: Seq<EnemyRecord>, bound: int) -> bool {
    &&& forall|i: int, j: int| 0 <= i < j < s.len() ==> s[i].id < s[j].id
    &&& forall|i: int| 0 <= i < s.len() ==> s[i].id < bound
}

/// The enemies in the arena and their count, which is the number of
/// records: an enemy counts from its creation until the sweep removes it.
pub struct Population {
    pub enemies: Vec<EnemyRecord>,
    pub count: EnemyCount,
    pub next_id: u64,
}

impl Population {
    pub open spec fn wf(&self) -> bool {
        &&& self.enemies@.len() == self.count.0 <= MAX_ENEMIES
        &&& ids_ordered(self.enemies@, self.next_id as int)
        &&& forall|i: int| 0 <= i < self.enemies@.len() ==> (#[trigger] self.enemies@[i]).minion.wf()
    }

    /// No enemies yet.
    pub fn new() -> (r: Population)
        ensures
            r.wf(),
            r.enemies@.len() == 0,
            r.count.0 == 0,
            r.next_id == 0,
    {
        Population { enemies: Vec::new(), count: EnemyCount(0), next_id: 0 }
    }

    /// Handles a spawn request: enemies are placed while the count stays
    /// under the ceiling, each gets a record, spawning, and is counted.
    /// Returns every placement.
    pub fn spawn(&mut self, event: &SpawnEnemiesEvent) -> (r: Vec<SpawnEnemy>)
        requires
            old(self).wf(),
            old(self).next_id <= u64::MAX - MAX_ENEMIES,
        ensures
            final(self).wf(),
            r@.len() == spawn_room(old(self).count.0 as int, event.count_spec() as int),
            final(self).count.0 == old(self).count.0 + r@.len(),
            final(self).enemies@ == old(self).enemies@ + spawned_records(r@, old(self).next_id as int),
            final(self).next_id == old(self).next_id + r@.len(),
    {
        let ghost first = self.next_id as int;
        let ghost before = self.enemies@;
        let spawned = spawn_enemies(&mut self.count, event);
        let mut i: usize = 0;
        assert(spawned_records(spawned@.take(0), first) =~= Seq::<EnemyRecord>::empty());
        assert(self.enemies@ =~= before + spawned_records(spawned@.take(0), first));
        while i < spawned.len()
            invariant
                i <= spawned@.len(),
                before.len() + spawned@.len() == self.count.0 <= MAX_ENEMIES,
                first <= u64::MAX - MAX_ENEMIES,
                self.next_id == first + i,
                self.enemies@ == before + spawned_records(spawned@.take(i as int), first),
                ids_ordered(before, first),
                forall|k: int| 0 <= k < before.len() ==> (#[trigger] before[k]).minion.wf(),
            decreases spawned@.len() - i,
        {
            let record = spawn_enemy(spawned[i], self.next_id);
            self.enemies.push(record);
            self.next_id = self.next_id + 1;
            i = i + 1;
            assert(self.enemies@ =~= before + spawned_records(spawned@.take(i as int), first));
        }
        assert(spawned@.take(spawned@.len() as int) =~= spawned@);
        proof {
            let s = self.enemies@;
            assert forall|a: int, b: int| 0 <= a < b < s.len() implies s[a].id < s[b].id by {
                if b >= before.len() {
                    assert(s[b].id == first + (b - before.len()));
                    if a >= before.len() {
                        assert(s[a].id == first + (a - before.len()));
                    }
                }
            }
            assert forall|a: int| 0 <= a < s.len() implies s[a].id < self.next_id
                && (#[trigger] s[a]).minion.wf() by {
                if a >= before.len() {
                    assert(s[a].id == first + (a - before.len()));
                }
            }
        }
        spawned
    }
}

/// Removes every enemy whose health has reached zero, in order, and takes
/// each off the count. Returns the ids removed.
pub fn check_for_dead_enemies(population: &mut Population) -> (r: Vec<u64>)
    requires
        old(population).wf(),
    ensures
        final(population).wf(),
        final(population).enemies@ == living(old(population).enemies@),
        r@ == dead_ids(old(population).enemies@),
        final(population).count.0 == old(population).count.0 - r@.len(),
        final(population).next_id == old(population).next_id,
{
    let ghost before = population.enemies@;
    let ghost start = *population;
    let mut removed: Vec<u64> = Vec::new();
    let mut i: usize = 0;
    let ghost mut j: int = 0;
    while i < population.enemies.len()
        invariant
            0 <= j <= before.len(),
            population.enemies@ == living(before.take(j)) + before.skip(j),
            i == living(before.take(j)).len(),
            removed@ == dead_ids(before.take(j)),
            i + removed@.len() == j,
            population.enemies@.len() == i + before.len() - j,
            before.len() == population.count.0 <= MAX_ENEMIES,
            population.count == start.count,
            population.next_id == start.next_id,
            ids_ordered(population.enemies@, population.next_id as int),
            forall|k: int|
                0 <= k < population.enemies@.len() ==> (#[trigger] population.enemies@[k]).minion.wf(),
        decreases population.enemies@.len() - i,
    {
        proof {
            assert(before.take(j + 1).drop_last() =~= before.take(j));
            assert(before.take(j + 1).last() == before[j]);
            assert(population.enemies@[i as int] == before[j]);
        }
        if population.enemies[i].health.current_health == 0 {
            let ghost old_enemies = population.enemies@;
            let record = population.enemies.remove(i);
            removed.push(record.id);
            proof {
                assert(before.skip(j + 1) =~= before.skip(j).drop_first());
                assert(population.enemies@ =~= living(before.take(j + 1)) + before.skip(j + 1));
                assert forall|a: int, b: int|
                    0 <= a < b < population.enemies@.len() implies population.enemies@[a].id
                    < population.enemies@[b].id by {
                    let oa = if a < i { a } else { a + 1 };
                    let ob = if b < i { b } else { b + 1 };
                    assert(population.enemies@[a] == old_enemies[oa]);
                    assert(population.enemies@[b] == old_enemies[ob]);
                }
                assert forall|a: int| 0 <= a < population.enemies@.len() implies population.enemies@[a].id
                    < population.next_id && (#[trigger] population.enemies@[a]).minion.wf() by {
                    let oa = if a < i { a } else { a + 1 };
                    assert(population.enemies@[a] == old_enemies[oa]);
                }
            }
        } else {
            i = i + 1;
            proof {
                assert(before.skip(j + 1) =~= before.skip(j).drop_first());
                assert(population.enemies@ =~= living(before.take(j + 1)) + before.skip(j + 1));
            }
        }
        proof {
            j = j + 1;
        }
    }
    proof {
        assert(before.take(j) =~= before) by {
            assert(before.skip(j).len() == 0);
        }
        assert(population.enemies@ =~= living(before));
    }
    population.count = EnemyCount(population.count.0 - removed.len() as u32);
    removed
}

/// What the steering pass reads of a record: its id and its position.
pub open spec fn roster_entry(r: EnemyRecord) -> (u64, Point2) {
    (r.id, r.position)
}

/// The roster of the records `s`.
pub open spec fn roster_of(s: Seq<EnemyRecord>) -> Seq<(u64, Point2)> {
    Seq::new(s.len(), |i: int| roster_entry(s[i]))
}

/// The roster entry with id `id`, if any.
pub open spec fn lookup(roster: Seq<(u64, Point2)>, id: u64) -> Option<(u64, Point2)> {
    if exists|j: int| 0 <= j < roster.len() && (#[trigger] roster[j]).0 == id {
        Some(roster[choose|j: int| 0 <= j < roster.len() && (#[trigger] roster[j]).0 == id])
    } else {
        None
    }
}

/// The positions of the enemies that the spatial query found near `me`,
/// whatever they are doing, `me` itself left out, in the order of the query's answer. Ids that
/// name no enemy are skipped.
pub open spec fn neighbor_positions(roster: Seq<(u64, Point2)>, me: u64, ids: Seq<u64>) -> Seq<Point2>
    decreases ids.len(),
{
    if ids.len() == 0 {
        seq![]
    } else {
        let rest = neighbor_positions(roster, me, ids.drop_last());
        let id = ids.last();
        match lookup(roster, id) {
            Some(e) => if id != me {
                rest.push(e.1)
            } else {
                rest
            },
            None => rest,
        }
    }
}

/// The record `r` after the steering pass, which changes its behaviour
/// only.
pub open spec fn with_behavior(r: EnemyRecord, b: EnemyBehavior) -> EnemyRecord {
    EnemyRecord { behavior: b, ..r }
}

/// The ids of a roster increase strictly.
pub open spec fn roster_ordered(roster: Seq<(u64, Point2)>) -> bool {
    forall|i: int, j: int| 0 <= i < j < roster.len() ==> roster[i].0 < roster[j].0
}

/// The roster entry with id `id`.
fn find_entry(roster: &Vec<(u64, Point2)>, id: u64) -> (r: Option<(u64, Point2)>)
    requires
        roster_ordered(roster@),
    ensures
        r == lookup(roster@, id),
{
    let mut k: usize = 0;
    while k < roster.len()
        invariant
            k <= roster@.len(),
            roster_ordered(roster@),
            forall|j: int| 0 <= j < k ==> (#[trigger] roster@[j]).0 != id,
        decreases roster@.len() - k,
    {
        if roster[k].0 == id {
            proof {
                let kk = k as int;
                assert(0 <= kk < roster@.len() && (#[trigger] roster@[kk]).0 == id);
                assert(exists|j: int| 0 <= j < roster@.len() && (#[trigger] roster@[j]).0 == id);
                let c = choose|j: int| 0 <= j < roster@.len() && (#[trigger] roster@[j]).0 == id;
                if c < kk {
                    assert(roster@[c].0 != id);
                } else if c > kk {
                    assert(roster@[kk].0 < roster@[c].0);
                }
                assert(c == kk);
            }
            return Some(roster[k]);
        }
        k = k + 1;
    }
    None
}

/// The positions of the neighbours of `me` among `ids` (see
/// `neighbor_positions`).
fn gather_neighbors(roster: &Vec<(u64, Point2)>, me: u64, ids: &Vec<u64>) -> (r: Vec<Point2>)
    requires
        roster_ordered(roster@),
    ensures
        r@ == neighbor_positions(roster@, me, ids@),
{
    let mut out: Vec<Point2> = Vec::new();
    let mut k: usize = 0;
    while k < ids.len()
        invariant
            k <= ids@.len(),
            roster_ordered(roster@),
            out@ == neighbor_positions(roster@, me, ids@.take(k as int)),
        decreases ids@.len() - k,
    {
        let id = ids[k];
        assert(ids@.take(k + 1).drop_last() =~= ids@.take(k as int));
        assert(ids@.take(k + 1).last() == id);
        match find_entry(roster, id) {
            Some(e) => {
                if id != me {
                    out.push(e.1);
                }
            },
            None => {},
        }
        k = k + 1;
    }
    assert(ids@.take(ids@.len() as int) =~= ids@);
    out
}

/// The steering pass over every travelling enemy, all at once: each takes
/// the separation force of every other enemy that `nearby[i]` (the spatial
/// query round enemy `i`) names, whatever that enemy is doing, and the path `found[i]` that the
/// navigation mesh gave it if it had none, and takes its steering step
/// (see `steer_spec`). Returns the command of each travelling enemy, and
/// `None` for the others, which are left as they were.
pub fn enemy_goto(
    population: &mut Population,
    nearby: &Vec<Vec<u64>>,
    found: Vec<Option<Vec<Point2>>>,
) -> (r: Vec<Option<Locomotion>>)
    requires
        old(population).wf(),
        nearby@.len() == old(population).enemies@.len(),
        found@.len() == old(population).enemies@.len(),
    ensures
        final(population).wf(),
        final(population).count == old(population).count,
        final(population).next_id == old(population).next_id,
        final(population).enemies@.len() == old(population).enemies@.len(),
        r@.len() == old(population).enemies@.len(),
        forall|i: int|
            #![trigger final(population).enemies@[i]]
            0 <= i < old(population).enemies@.len() ==> {
                let rec = old(population).enemies@[i];
                if rec.behavior is Goto {
                    let push = separation(
                        rec.position,
                        neighbor_positions(roster_of(old(population).enemies@), rec.id, nearby@[i]@),
                    );
                    let (b, command) = steer_spec(rec.behavior, rec.position, rec.enemy, found@[i], push);
                    final(population).enemies@[i] == with_behavior(rec, b) && r@[i] == Some(command)
                } else {
                    final(population).enemies@[i] == rec && r@[i] is None
                }
            },
{
    let ghost before = population.enemies@;
    let mut roster: Vec<(u64, Point2)> = Vec::new();
    let mut i: usize = 0;
    while i < population.enemies.len()
        invariant
            population.enemies@ == before,
            i <= before.len(),
            roster@ == roster_of(before).take(i as int),
        decreases before.len() - i,
    {
        let rec = &population.enemies[i];
        roster.push((rec.id, rec.position));
        assert(roster@ =~= roster_of(before).take(i + 1));
        i = i + 1;
    }
    assert(roster@ =~= roster_of(before));
    assert(roster_ordered(roster@));
    let mut found = found;
    let ghost found0 = found@;
    let mut commands: Vec<Option<Locomotion>> = Vec::new();
    let mut i: usize = 0;
    while i < population.enemies.len()
        invariant
            population.enemies@.len() == before.len(),
            nearby@.len() == before.len(),
            found@.len() == before.len(),
            found0.len() == before.len(),
            i <= before.len(),
            commands@.len() == i,
            roster@ == roster_of(before),
            roster_ordered(roster@),
            population.count == old(population).count,
            population.next_id == old(population).next_id,
            old(population).wf(),
            before == old(population).enemies@,
            forall|j: int| i <= j < before.len() ==> population.enemies@[j] == before[j],
            forall|j: int| i <= j < before.len() ==> found@[j] == found0[j],
            forall|j: int|
                #![trigger population.enemies@[j]]
                0 <= j < i ==> {
                    let rec = before[j];
                    if rec.behavior is Goto {
                        let push = separation(
                            rec.position,
                            neighbor_positions(roster_of(before), rec.id, nearby@[j]@),
                        );
                        let (b, command) = steer_spec(rec.behavior, rec.position, rec.enemy, found0[j], push);
                        population.enemies@[j] == with_behavior(rec, b) && commands@[j] == Some(command)
                    } else {
                        population.enemies@[j] == rec && commands@[j] is None
                    }
                },
        decreases before.len() - i,
    {
        if population.enemies[i].behavior.is_goto() {
            let position = population.enemies[i].position;
            let me = population.enemies[i].id;
            let neighbors = gather_neighbors(&roster, me, &nearby[i]);
            let push = crate::steering::separation_force(position, &neighbors);
            let mut path: Option<Vec<Point2>> = None;
            std::mem::swap(&mut path, &mut found[i]);
            let record = &mut population.enemies[i];
            let enemy = record.enemy;
            let command = crate::steering::steer_goto(&mut record.behavior, position, &enemy, path, push);
            commands.push(Some(command));
        } else {
            commands.push(None);
        }
        i = i + 1;
    }
    proof {
        assert forall|a: int, b: int|
            0 <= a < b < population.enemies@.len() implies population.enemies@[a].id
            < population.enemies@[b].id by {
            assert(population.enemies@[a].id == before[a].id);
            assert(population.enemies@[b].id == before[b].id);
        }
        assert forall|a: int| 0 <= a < population.enemies@.len() implies population.enemies@[a].id
            < population.next_id && (#[trigger] population.enemies@[a]).minion.wf() by {
            assert(population.enemies@[a].id == before[a].id);
            assert(population.enemies@[a].minion == before[a].minion);
        }
    }
    commands
}

/// `id` is among `ids`.
pub fn contains_id(ids: &Vec<u64>, id: u64) -> (r: bool)
    ensures
        r == ids@.contains(id),
{
    let mut k: usize = 0;
    while k < ids.len()
        invariant
            k <= ids@.len(),
            forall|j: int| 0 <= j < k ==> ids@[j] != id,
        decreases ids@.len() - k,
    {
        if ids[k] == id {
            assert(ids@[k as int] == id);
            return true;
        }
        k = k + 1;
    }
    false
}

/// The transition rules over every enemy, all at once: an enemy is in agro
/// range when the player's agro query `agro` names it (see
/// `next_behavior`).
pub fn update_behaviors(population: &mut Population, agro: &Vec<u64>, beacon: &BeaconQuery)
    requires
        old(population).wf(),
    ensures
        final(population).wf(),
        final(population).count == old(population).count,
        final(population).next_id == old(population).next_id,
        final(population).enemies@.len() == old(population).enemies@.len(),
        forall|i: int|
            #![trigger final(population).enemies@[i]]
            0 <= i < old(population).enemies@.len() ==> {
                let rec = old(population).enemies@[i];
                final(population).enemies@[i] == with_behavior(
                    rec,
                    next_behavior(rec.behavior, agro@.contains(rec.id), rec.position, beacon.position),
                )
            },
{
    let ghost before = population.enemies@;
    let mut i: usize = 0;
    while i < population.enemies.len()
        invariant
            population.enemies@.len() == before.len(),
            i <= before.len(),
            population.count == old(population).count,
            population.next_id == old(population).next_id,
            old(population).wf(),
            before == old(population).enemies@,
            forall|j: int| i <= j < before.len() ==> population.enemies@[j] == before[j],
            forall|j: int|
                #![trigger population.enemies@[j]]
                0 <= j < i ==> population.enemies@[j] == with_behavior(
                    before[j],
                    next_behavior(before[j].behavior, agro@.contains(before[j].id), before[j].position, beacon.position),
                ),
        decreases before.len() - i,
    {
        let in_agro = contains_id(agro, population.enemies[i].id);
        let position = population.enemies[i].position;
        let record = &mut population.enemies[i];
        transition(&mut record.behavior, in_agro, position, beacon);
        i = i + 1;
    }
    proof {
        assert forall|a: int, b: int|
            0 <= a < b < population.enemies@.len() implies population.enemies@[a].id
            < population.enemies@[b].id by {
            assert(population.enemies@[a].id == before[a].id);
            assert(population.enemies@[b].id == before[b].id);
        }
        assert forall|a: int| 0 <= a < population.enemies@.len() implies population.enemies@[a].id
            < population.next_id && (#[trigger] population.enemies@[a]).minion.wf() by {
            assert(population.enemies@[a].id == before[a].id);
            assert(population.enemies@[a].minion == before[a].minion);
        }
    }
}

/// The record `r` after the attack pass, which changes its behaviour and
/// its minion's cooldown only.
pub open spec fn with_attack(r: EnemyRecord, b: EnemyBehavior, m: Minion) -> EnemyRecord {
    EnemyRecord { behavior: b, minion: m, ..r }
}

/// The attack pass over every enemy chasing the player, all at once (see
/// `minion_attack_player`): the player's agro query `agro` and attack query
/// `attack` say which enemies are in range. Returns each chaser's step and
/// `None` for the others, which are left as they were.
pub fn attack_pass(
    population: &mut Population,
    player: Point2,
    agro: &Vec<u64>,
    attack: &Vec<u64>,
    delta_ms: u32,
) -> (r: Vec<Option<AttackStep>>)
    requires
        old(population).wf(),
    ensures
        final(population).wf(),
        final(population).count == old(population).count,
        final(population).next_id == old(population).next_id,
        final(population).enemies@.len() == old(population).enemies@.len(),
        r@.len() == old(population).enemies@.len(),
        forall|i: int|
            #![trigger final(population).enemies@[i]]
            0 <= i < old(population).enemies@.len() ==> {
                let rec = old(population).enemies@[i];
                let now = final(population).enemies@[i];
                if rec.behavior is AttackPlayer {
                    let c = rec.minion.attack_cooldown;
                    let total = c.elapsed_ms + delta_ms;
                    &&& now == with_attack(rec, now.behavior, now.minion)
                    &&& r@[i] == Some(
                        AttackStep {
                            command: chase_command(rec.position, player),
                            strike: attack@.contains(rec.id) && total >= c.duration_ms,
                        },
                    )
                    &&& now.minion.attack_cooldown == (AttackCooldown {
                        duration_ms: c.duration_ms,
                        elapsed_ms: (total % (c.duration_ms as int)) as u32,
                    })
                    &&& if agro@.contains(rec.id) {
                        now.behavior is AttackPlayer
                    } else {
                        now.behavior is Idle
                    }
                } else {
                    now == rec && r@[i] is None
                }
            },
{
    let ghost before = population.enemies@;
    let mut steps: Vec<Option<AttackStep>> = Vec::new();
    let mut i: usize = 0;
    while i < population.enemies.len()
        invariant
            population.enemies@.len() == before.len(),
            i <= before.len(),
            steps@.len() == i,
            population.count == old(population).count,
            population.next_id == old(population).next_id,
            old(population).wf(),
            before == old(population).enemies@,
            forall|j: int| i <= j < before.len() ==> population.enemies@[j] == before[j],
            forall|j: int|
                #![trigger population.enemies@[j]]
                0 <= j < i ==> {
                    let rec = before[j];
                    let now = population.enemies@[j];
                    &&& now.minion.wf()
                    &&& if rec.behavior is AttackPlayer {
                        let c = rec.minion.attack_cooldown;
                        let total = c.elapsed_ms + delta_ms;
                        &&& now == with_attack(rec, now.behavior, now.minion)
                        &&& steps@[j] == Some(
                            AttackStep {
                                command: chase_command(rec.position, player),
                                strike: attack@.contains(rec.id) && total >= c.duration_ms,
                            },
                        )
                        &&& now.minion.attack_cooldown == (AttackCooldown {
                            duration_ms: c.duration_ms,
                            elapsed_ms: (total % (c.duration_ms as int)) as u32,
                        })
                        &&& if agro@.contains(rec.id) {
                            now.behavior is AttackPlayer
                        } else {
                            now.behavior is Idle
                        }
                    } else {
                        now == rec && steps@[j] is None
                    }
                },
        decreases before.len() - i,
    {
        let id = population.enemies[i].id;
        let in_agro = contains_id(agro, id);
        let in_attack_range = contains_id(attack, id);
        let position = population.enemies[i].position;
        assert(population.enemies@[i as int].minion.wf());
        let record = &mut population.enemies[i];
        let step = minion_attack_player(
            &mut record.behavior,
            &mut record.minion,
            position,
            player,
            in_agro,
            in_attack_range,
            delta_ms,
        );
        steps.push(step);
        i = i + 1;
    }
    proof {
        assert forall|a: int, b: int|
            0 <= a < b < population.enemies@.len() implies population.enemies@[a].id
            < population.enemies@[b].id by {
            assert(population.enemies@[a].id == before[a].id);
            assert(population.enemies@[b].id == before[b].id);
        }
        assert forall|a: int| 0 <= a < population.enemies@.len() implies population.enemies@[a].id
            < population.next_id && (#[trigger] population.enemies@[a]).minion.wf() by {
            assert(population.enemies@[a].id == before[a].id);
        }
    }
    steps
}

/// The spawn presentation of enemy `id` has finished: if it is spawning
/// it becomes idle. Every other enemy is left as it was, and so is an
/// unknown id.
pub fn spawn_complete(population: &mut Population, id: u64)
    requires
        old(population).wf(),
    ensures
        final(population).wf(),
        final(population).count == old(population).count,
        final(population).next_id == old(population).next_id,
        final(population).enemies@.len() == old(population).enemies@.len(),
        forall|i: int|
            #![trigger final(population).enemies@[i]]
            0 <= i < old(population).enemies@.len() ==> {
                let rec = old(population).enemies@[i];
                if rec.id == id && rec.behavior is Spawning {
                    final(population).enemies@[i] == with_behavior(rec, EnemyBehavior::Idle)
                } else {
                    final(population).enemies@[i] == rec
                }
            },
{
    let ghost before = population.enemies@;
    let mut i: usize = 0;
    while i < population.enemies.len()
        invariant
            population.enemies@.len() == before.len(),
            i <= before.len(),
            population.count == old(population).count,
            population.next_id == old(population).next_id,
            old(population).wf(),
            before == old(population).enemies@,
            forall|j: int| i <= j < before.len() ==> population.enemies@[j] == before[j],
            forall|j: int|
                #![trigger population.enemies@[j]]
                0 <= j < i ==> if before[j].id == id && before[j].behavior is Spawning {
                    population.enemies@[j] == with_behavior(before[j], EnemyBehavior::Idle)
                } else {
                    population.enemies@[j] == before[j]
                },
        decreases before.len() - i,
    {
        if population.enemies[i].id == id {
            let record = &mut population.enemies[i];
            spawn_animation_complete(&mut record.behavior);
        }
        i = i + 1;
    }
    proof {
        assert forall|a: int, b: int|
            0 <= a < b < population.enemies@.len() implies population.enemies@[a].id
            < population.enemies@[b].id by {
            assert(population.enemies@[a].id == before[a].id);
            assert(population.enemies@[b].id == before[b].id);
        }
        assert forall|a: int| 0 <= a < population.enemies@.len() implies population.enemies@[a].id
            < population.next_id && (#[trigger] population.enemies@[a]).minion.wf() by {
            assert(population.enemies@[a].id == before[a].id);
            assert(population.enemies@[a].minion == before[a].minion);
        }
    }
}

} // verus!
