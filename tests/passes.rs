use arena_enemies::beacon::BeaconQuery;
use arena_enemies::behavior::{Enemy, EnemyBehavior};
use arena_enemies::geometry::{Point2, Vec2, Vec3};
use arena_enemies::health::Health;
use arena_enemies::navigation::{debug_goto, NavMeshStatus, NavmeshQuery};
use arena_enemies::population::{attack_pass, contains_id, update_behaviors, Population};
use arena_enemies::spawn::{EnemyType, SpawnEnemiesEventBuilder};
use arena_enemies::steering::tick_enemy;

fn p(x: i32, y: i32) -> Point2 {
    Point2 { x, y }
}

fn three_minions() -> Population {
    let event = SpawnEnemiesEventBuilder::new(p(0, 0))
        .with_number_of_enemies(3)
        .with_weight(EnemyType::Minion, 1)
        .build()
        .unwrap();
    let mut pop = Population::new();
    pop.spawn(&event);
    pop
}

#[test]
fn contains_id_finds_members() {
    assert!(contains_id(&vec![4, 9, 2], 2));
    assert!(!contains_id(&vec![4, 9, 2], 3));
    assert!(!contains_id(&vec![], 0));
}

#[test]
fn transition_pass_uses_agro_ids() {
    let mut pop = three_minions();
    pop.enemies[0].behavior = EnemyBehavior::Idle;
    pop.enemies[1].behavior = EnemyBehavior::Idle;
    pop.enemies[2].behavior = EnemyBehavior::goto(p(100, 100));
    pop.enemies[0].position = p(20000, 0);
    let beacon = BeaconQuery { position: p(0, 0), health: Health::new(1000) };
    update_behaviors(&mut pop, &vec![1, 2], &beacon);
    assert!(pop.enemies[0].behavior.is_goto());
    assert!(pop.enemies[1].behavior.is_attack_player());
    assert!(pop.enemies[2].behavior.is_attack_player());
    assert_eq!(pop.count.0, 3);
}

#[test]
fn attack_pass_steps_chasers_only() {
    let mut pop = three_minions();
    pop.enemies[0].behavior = EnemyBehavior::AttackPlayer;
    pop.enemies[1].behavior = EnemyBehavior::AttackPlayer;
    pop.enemies[0].position = p(0, 0);
    pop.enemies[1].position = p(0, 0);
    let steps = attack_pass(&mut pop, p(0, 2000), &vec![0], &vec![0, 1], 2500);
    let s0 = steps[0].unwrap();
    assert!(s0.strike);
    assert_eq!(s0.command.desired_velocity, Vec3 { x: 0, y: 0, z: 3000 });
    assert!(pop.enemies[0].behavior.is_attack_player());
    assert_eq!(pop.enemies[0].minion.attack_cooldown.elapsed_ms, 500);
    let s1 = steps[1].unwrap();
    assert!(s1.strike);
    assert!(matches!(pop.enemies[1].behavior, EnemyBehavior::Idle));
    assert!(steps[2].is_none());
    assert!(matches!(pop.enemies[2].behavior, EnemyBehavior::Spawning));
}

#[test]
fn navmesh_gate() {
    let path = Some(vec![p(1, 2)]);
    assert_eq!(NavmeshQuery::new(NavMeshStatus::Built).path_from_tranform(path.clone()), path);
    assert_eq!(NavmeshQuery::new(NavMeshStatus::Building).path_from_tranform(path.clone()), None);
    assert_eq!(NavmeshQuery::new(NavMeshStatus::Failed).path_from_tranform(path), None);
    assert!(!NavmeshQuery::new(NavMeshStatus::Failed).permits_queries());
}

#[test]
fn debug_line_and_marker() {
    let b = EnemyBehavior::Goto(p(9, 9), Some(vec![p(1, 0), p(2, 0), p(3, 0), p(4, 0)]), 1);
    let sketch = debug_goto(&b, p(0, 0)).unwrap();
    assert_eq!(sketch.points, vec![p(0, 0), p(2, 0), p(3, 0), p(4, 0)]);
    assert_eq!(sketch.marker, p(3, 0));
    let late = EnemyBehavior::Goto(p(9, 9), Some(vec![p(1, 0)]), 3);
    let sketch = debug_goto(&late, p(0, 0)).unwrap();
    assert_eq!(sketch.points, vec![p(0, 0)]);
    assert_eq!(sketch.marker, p(9, 9));
    assert!(debug_goto(&EnemyBehavior::goto(p(1, 1)), p(0, 0)).is_none());
}

#[test]
fn tick_runs_rules_then_steering() {
    let beacon = BeaconQuery { position: p(0, 0), health: Health::new(1000) };
    let enemy = Enemy { height_from_ground: 1000, speed: 3000 };
    let mut b = EnemyBehavior::Idle;
    let c = tick_enemy(&mut b, false, p(10000, 0), &beacon, &enemy, Some(vec![p(2500, 0)]), Vec2 { x: 0, y: 0 });
    assert_eq!(c.unwrap().desired_velocity, Vec3 { x: -3000, y: 0, z: 0 });
    assert!(!b.needs_path());
    let c = tick_enemy(&mut b, true, p(10000, 0), &beacon, &enemy, None, Vec2 { x: 0, y: 0 });
    assert!(c.is_none());
    assert!(b.is_attack_player());
}

#[test]
fn spawn_complete_wakes_one_spawner() {
    let mut pop = three_minions();
    arena_enemies::population::spawn_complete(&mut pop, 1);
    assert!(matches!(pop.enemies[0].behavior, EnemyBehavior::Spawning));
    assert!(matches!(pop.enemies[1].behavior, EnemyBehavior::Idle));
    assert!(matches!(pop.enemies[2].behavior, EnemyBehavior::Spawning));
    arena_enemies::population::spawn_complete(&mut pop, 77);
    assert!(matches!(pop.enemies[0].behavior, EnemyBehavior::Spawning));
}
