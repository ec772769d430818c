//! Spawn requests: how many enemies of which types, drawn at random from a
//! weighted table, placed round a point, against the population ceiling.
use crate::geometry::{offset, offset_point, Point2, Vec2, UNIT};
use vstd::arithmetic::div_mod::lemma_mod_multiples_basic;
use vstd::prelude::*;

verus! {

/// The population ceiling.
pub const MAX_ENEMIES: u32 = 1000;

/// Spawned enemies land up to this many whole units from the requested
/// point along each axis.
pub const SPAWN_RADIUS: i32 = 7;

/// The number of enemy types.
pub const ENEMY_TYPE_COUNT: usize = 2;

#[derive(Clone, Copy, Debug, PartialEq, Eq, Structural, Hash)]
pub enum EnemyType {
    Minion,
    Mage,
}

impl EnemyType {
    /// The position of the type in the weight table.
    pub open spec fn index_spec(self) -> int {
        match self {
            EnemyType::Minion => 0,
            EnemyType::Mage => 1,
        }
    }

    /// The type at position `i` of the weight table.
    pub fn from_repr(i: usize) -> (r: Option<EnemyType>)
        ensures
            i == 0 ==> r == Some(EnemyType::Minion),
            i == 1 ==> r == Some(EnemyType::Mage),
            i >= ENEMY_TYPE_COUNT ==> r is None,
            r is Some ==> r->0.index_spec() == i,
    {
        match i {
            0 => Some(EnemyType::Minion),
            1 => Some(EnemyType::Mage),
            _ => None,
        }
    }

    /// The position of the type in the weight table.
    pub fn index(self) -> (r: usize)
        ensures
            r == self.index_spec(),
            r < ENEMY_TYPE_COUNT,
    {
        match self {
            EnemyType::Minion => 0,
            EnemyType::Mage => 1,
        }
    }
}

/// The number of enemies alive or on their way, against the ceiling.
#[derive(Clone, Copy, Debug, PartialEq, Eq, Structural)]
pub struct EnemyCount(pub u32);

impl Default for EnemyCount {
    fn default() -> (r: EnemyCount)
        ensures
            r.0 == 0,
    {
        EnemyCount(0)
    }
}

#[verifier::external_type_specification]
#[verifier::external_body]
pub struct ExWalkerTable(weighted_rand::table::WalkerTable);

/// The number of indices of a walker table.
pub uninterp spec fn walker_len(t: weighted_rand::table::WalkerTable) -> nat;

/// Index `i` of a walker table can be drawn.
pub uninterp spec fn walker_draws(t: weighted_rand::table::WalkerTable, i: int) -> bool;

/// Some weight of `w` is positive.
pub open spec fn some_positive(w: Seq<u32>) -> bool {
    exists|i: int| 0 <= i < w.len() && w[i] > 0
}

/// The table has one index per weight of `weights`, and none of weight
/// zero can be drawn.
pub open spec fn table_fits(t: weighted_rand::table::WalkerTable, weights: Seq<u32>) -> bool {
    &&& walker_len(t) == weights.len()
    &&& forall|i: int| 0 <= i < weights.len() && weights[i] == 0 ==> !#[trigger] walker_draws(t, i)
}

/// Relies on `WalkerTableBuilder::new` and `WalkerTableBuilder::build` of
/// weighted_rand: a table with one index per weight, which draws each index
/// with a chance in proportion to its weight, so that where some weight is
/// positive an index of weight zero is never drawn. The builder multiplies
/// each weight by the table length and sums the results in `u32`, hence the
/// bound.
#[verifier::external_body]
fn walker_table(weights: &[u32; ENEMY_TYPE_COUNT]) -> (r: weighted_rand::table::WalkerTable)
    requires
        some_positive(weights@),
        2 * (weights[0] + weights[1]) <= u32::MAX,
    ensures
        walker_len(r) == ENEMY_TYPE_COUNT,
        forall|i: int| 0 <= i < ENEMY_TYPE_COUNT && weights@[i] == 0 ==> !#[trigger] walker_draws(r, i),
{
    let builder = <weighted_rand::builder::WalkerTableBuilder as weighted_rand::builder::NewBuilder<
        u32,
    >>::new(&weights[..]);
    builder.build()
}

/// Relies on `WalkerTable::next` of weighted_rand: a random index of the
/// table, among those it can draw. The draw panics on an empty table.
#[verifier::external_body]
fn draw_index(t: &weighted_rand::table::WalkerTable) -> (r: usize)
    requires
        walker_len(*t) > 0,
    ensures
        r < walker_len(*t),
        walker_draws(*t, r as int),
{
    t.next()
}

/// Relies on rand's `Rng::random_range` on the thread generator: a value
/// drawn from `lo..=hi`, which panics when the range is empty.
#[verifier::external_body]
fn random_between(lo: i32, hi: i32) -> (r: i32)
    requires
        lo <= hi,
    ensures
        lo <= r <= hi,
{
    rand::Rng::random_range(&mut rand::rng(), lo..=hi)
}

/// The weights of a spawn request admit a table: not all zero, and small
/// enough for the table builder.
pub open spec fn weights_ok(w: Seq<u32>) -> bool {
    w.len() == ENEMY_TYPE_COUNT && some_positive(w) && 2 * (w[0] + w[1]) <= u32::MAX
}

/// A request to spawn `number_of_enemies` enemies round `position`, their
/// types drawn from `table`, which was built from `weights`.
pub struct SpawnEnemiesEvent {
    position: Point2,
    number_of_enemies: u32,
    weights: [u32; ENEMY_TYPE_COUNT],
    table: weighted_rand::table::WalkerTable,
}

impl SpawnEnemiesEvent {
    #[verifier::type_invariant]
    pub closed spec fn inv(self) -> bool {
        weights_ok(self.weights@) && table_fits(self.table, self.weights@)
    }

    pub closed spec fn position_spec(self) -> Point2 {
        self.position
    }

    pub closed spec fn count_spec(self) -> u32 {
        self.number_of_enemies
    }

    pub closed spec fn weights_spec(self) -> Seq<u32> {
        self.weights@
    }

    pub fn position(&self) -> (r: Point2)
        ensures
            r == self.position_spec(),
    {
        self.position
    }

    pub fn number_of_enemies(&self) -> (r: u32)
        ensures
            r == self.count_spec(),
    {
        self.number_of_enemies
    }

    /// The weight of each type; they are admissible (see `weights_ok`).
    pub fn weights(&self) -> (r: [u32; ENEMY_TYPE_COUNT])
        ensures
            r@ == self.weights_spec(),
            weights_ok(r@),
    {
        proof {
            use_type_invariant(self);
        }
        self.weights
    }

    /// Draws the type of each requested enemy. Every type drawn has a
    /// positive weight.
    pub fn collect(&self) -> (r: Vec<EnemyType>)
        ensures
            r@.len() == self.count_spec(),
            forall|i: int| 0 <= i < r@.len() ==> self.weights_spec()[#[trigger] r@[i].index_spec()] > 0,
    {
        proof {
            use_type_invariant(self);
        }
        let mut types: Vec<EnemyType> = Vec::new();
        let mut i: u32 = 0;
        while i < self.number_of_enemies
            invariant
                i <= self.count_spec(),
                types@.len() == i,
                weights_ok(self.weights_spec()),
                table_fits(self.table, self.weights_spec()),
                forall|j: int| 0 <= j < types@.len() ==> self.weights_spec()[#[trigger] types@[j].index_spec()] > 0,
            decreases self.count_spec() - i,
        {
            let index = draw_index(&self.table);
            let kind = EnemyType::from_repr(index);
            if let Some(kind) = kind {
                types.push(kind);
            }
            i = i + 1;
        }
        types
    }
}

/// Gathers the parts of a spawn request.
pub struct SpawnEnemiesEventBuilder {
    pub position: Point2,
    pub number_of_enemies: u32,
    pub weights: [u32; ENEMY_TYPE_COUNT],
}

/// What is wrong with a spawn request.
#[derive(Clone, Copy, Debug, PartialEq, Eq, Structural)]
pub enum SpawnConfigError {
    /// Every weight is zero: no type can be drawn.
    AllWeightsZero,
    /// The weights are too large for the table builder.
    WeightsTooLarge,
}

impl SpawnEnemiesEventBuilder {
    /// A request for one enemy at `position`, every weight zero.
    pub fn new(position: Point2) -> (r: SpawnEnemiesEventBuilder)
        ensures
            r.position == position,
            r.number_of_enemies == 1,
            r.weights@ == seq![0u32, 0u32],
    {
        let r = SpawnEnemiesEventBuilder { position, number_of_enemies: 1, weights: [0, 0] };
        assert(r.weights@ =~= seq![0u32, 0u32]);
        r
    }

    pub fn with_number_of_enemies(self, number_of_enemies: u32) -> (r: SpawnEnemiesEventBuilder)
        ensures
            r.position == self.position,
            r.number_of_enemies == number_of_enemies,
            r.weights@ == self.weights@,
    {
        SpawnEnemiesEventBuilder { number_of_enemies, ..self }
    }

    /// Sets the weight of one type.
    pub fn with_weight(self, enemy_type: EnemyType, weight: u32) -> (r: SpawnEnemiesEventBuilder)
        ensures
            r.position == self.position,
            r.number_of_enemies == self.number_of_enemies,
            r.weights@ == self.weights@.update(enemy_type.index_spec(), weight),
    {
        let weights = match enemy_type {
            EnemyType::Minion => [weight, self.weights[1]],
            EnemyType::Mage => [self.weights[0], weight],
        };
        let r = SpawnEnemiesEventBuilder { weights, ..self };
        assert(r.weights@ =~= self.weights@.update(enemy_type.index_spec(), weight));
        r
    }

    /// The request, with its weighted table. All-zero weights are a
    /// configuration error, as are weights too large for the table.
    pub fn build(self) -> (r: Result<SpawnEnemiesEvent, SpawnConfigError>)
        ensures
            !some_positive(self.weights@) ==> r == Err::<SpawnEnemiesEvent, _>(
                SpawnConfigError::AllWeightsZero,
            ),
            some_positive(self.weights@) && 2 * (self.weights[0] + self.weights[1]) > u32::MAX
                ==> r == Err::<SpawnEnemiesEvent, _>(SpawnConfigError::WeightsTooLarge),
            weights_ok(self.weights@) ==> r is Ok && r->Ok_0.position_spec() == self.position
                && r->Ok_0.count_spec() == self.number_of_enemies && r->Ok_0.weights_spec()
                == self.weights@,
    {
        if self.weights[0] == 0 && self.weights[1] == 0 {
            assert(!some_positive(self.weights@));
            return Err(SpawnConfigError::AllWeightsZero);
        }
        assert(some_positive(self.weights@)) by {
            if self.weights[0] > 0 {
                assert(self.weights@[0] > 0);
            } else {
                assert(self.weights@[1] > 0);
            }
        }
        if self.weights[0] as u64 + self.weights[1] as u64 > 0x7fff_ffff {
            return Err(SpawnConfigError::WeightsTooLarge);
        }
        let table = walker_table(&self.weights);
        Ok(
            SpawnEnemiesEvent {
                position: self.position,
                number_of_enemies: self.number_of_enemies,
                weights: self.weights,
                table,
            },
        )
    }
}

/// An enemy to create: where, and of which type.
#[derive(Clone, Copy, Debug, PartialEq, Eq, Structural)]
pub struct SpawnEnemy(pub Point2, pub EnemyType);

/// How many of `requested` spawns fit under the ceiling from `count`.
pub open spec fn spawn_room(count: int, requested: int) -> int {
    let room = if count < MAX_ENEMIES { MAX_ENEMIES - count } else { 0 };
    if requested < room {
        requested
    } else {
        room
    }
}

/// A spawn offset of whole units, each within the spawn radius.
pub open spec fn jitter_ok(j: Vec2) -> bool {
    &&& (j.x as int) % (UNIT as int) == 0
    &&& (j.y as int) % (UNIT as int) == 0
    &&& -SPAWN_RADIUS * UNIT <= j.x <= SPAWN_RADIUS * UNIT
    &&& -SPAWN_RADIUS * UNIT <= j.y <= SPAWN_RADIUS * UNIT
}

/// Places the drawn `types` round `origin`, each moved by its jitter,
/// while the count stays under the ceiling; the rest of the batch is
/// dropped.
pub fn place_spawns(
    count: &mut EnemyCount,
    origin: Point2,
    types: &Vec<EnemyType>,
    jitters: &Vec<Vec2>,
) -> (r: Vec<SpawnEnemy>)
    requires
        types@.len() == jitters@.len(),
    ensures
        r@.len() == spawn_room(old(count).0 as int, types@.len() as int),
        final(count).0 == old(count).0 + r@.len(),
        forall|i: int|
            0 <= i < r@.len() ==> #[trigger] r@[i] == SpawnEnemy(
                offset(origin, jitters@[i]),
                types@[i],
            ),
{
    let mut spawned: Vec<SpawnEnemy> = Vec::new();
    let start = count.0;
    let mut i: usize = 0;
    while i < types.len()
        invariant
            types@.len() == jitters@.len(),
            i <= types@.len(),
            spawned@.len() == i,
            count.0 == start + i,
            i <= spawn_room(start as int, types@.len() as int),
            forall|j: int|
                0 <= j < spawned@.len() ==> #[trigger] spawned@[j] == SpawnEnemy(
                    offset(origin, jitters@[j]),
                    types@[j],
                ),
        ensures
            i == types@.len() || count.0 >= MAX_ENEMIES,
        decreases types@.len() - i,
    {
        if count.0 >= MAX_ENEMIES {
            break;
        }
        spawned.push(SpawnEnemy(offset_point(origin, jitters[i]), types[i]));
        count.0 = count.0 + 1;
        i = i + 1;
    }
    spawned
}

/// Handles a spawn request: draws the types, gives each a random offset
/// within the spawn radius and places them while the ceiling allows.
pub fn spawn_enemies(count: &mut EnemyCount, event: &SpawnEnemiesEvent) -> (r: Vec<SpawnEnemy>)
    ensures
        r@.len() == spawn_room(old(count).0 as int, event.count_spec() as int),
        final(count).0 == old(count).0 + r@.len(),
        forall|i: int|
            0 <= i < r@.len() ==> event.weights_spec()[#[trigger] r@[i].1.index_spec()] > 0
                && exists|j: Vec2| #[trigger] jitter_ok(j) && r@[i].0 == offset(event.position_spec(), j),
{
    let types = event.collect();
    let mut jitters: Vec<Vec2> = Vec::new();
    let mut i: usize = 0;
    while i < types.len()
        invariant
            i <= types@.len(),
            jitters@.len() == i,
            forall|j: int| 0 <= j < jitters@.len() ==> jitter_ok(#[trigger] jitters@[j]),
        decreases types@.len() - i,
    {
        let a = random_between(-SPAWN_RADIUS, SPAWN_RADIUS);
        let b = random_between(-SPAWN_RADIUS, SPAWN_RADIUS);
        assert(-SPAWN_RADIUS * UNIT <= a * UNIT <= SPAWN_RADIUS * UNIT) by (nonlinear_arith)
            requires
                -SPAWN_RADIUS <= a <= SPAWN_RADIUS,
                UNIT == 1000,
                SPAWN_RADIUS == 7,
        ;
        assert(-SPAWN_RADIUS * UNIT <= b * UNIT <= SPAWN_RADIUS * UNIT) by (nonlinear_arith)
            requires
                -SPAWN_RADIUS <= b <= SPAWN_RADIUS,
                UNIT == 1000,
                SPAWN_RADIUS == 7,
        ;
        let j = Vec2 { x: a as i64 * UNIT as i64, y: b as i64 * UNIT as i64 };
        proof {
            lemma_mod_multiples_basic(a as int, UNIT as int);
            lemma_mod_multiples_basic(b as int, UNIT as int);
        }
        jitters.push(j);
        i = i + 1;
    }
    let r = place_spawns(count, event.position(), &types, &jitters);
    assert forall|i: int| 0 <= i < r@.len() implies event.weights_spec()[#[trigger] r@[i].1.index_spec()] > 0
        && exists|j: Vec2| #[trigger] jitter_ok(j) && r@[i].0 == offset(event.position_spec(), j) by {
        assert(r@[i] == SpawnEnemy(offset(event.position_spec(), jitters@[i]), types@[i]));
        assert(jitter_ok(jitters@[i]));
    }
    r
}

} // verus!
