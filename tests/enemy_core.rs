use arena_enemies::beacon::BeaconQuery;
use arena_enemies::behavior::{
    enemy_idle_and_spawning, minion_goto, minion_idle, spawn_animation_complete, transition,
    Enemy, EnemyBehavior, Locomotion,
};
use arena_enemies::geometry::{
    direction_to, distance_squared, floor_sqrt_u128, is_closer_than, scale_to_length, Point2,
    Vec2, Vec3,
};
use arena_enemies::health::Health;
use arena_enemies::minion::{minion_attack_player, AttackCooldown, Minion};
use arena_enemies::population::{
    check_for_dead_enemies, enemy_goto, spawn_minion_enemy, Population,
};
use arena_enemies::spawn::{
    place_spawns, spawn_enemies, EnemyCount, EnemyType, SpawnConfigError, SpawnEnemiesEventBuilder,
    SpawnEnemy, MAX_ENEMIES,
};
use arena_enemies::steering::{separation_force, steer_goto};

fn p(x: i32, y: i32) -> Point2 {
    Point2 { x, y }
}

fn minion() -> Enemy {
    Enemy { height_from_ground: 1000, speed: 3000 }
}

fn beacon_at(x: i32, y: i32) -> BeaconQuery {
    BeaconQuery { position: p(x, y), health: Health::new(1000) }
}

fn goto_index(b: &EnemyBehavior) -> usize {
    match b {
        EnemyBehavior::Goto(_, _, i) => *i,
        _ => panic!("not travelling: {:?}", b),
    }
}

#[test]
fn damage_saturates_at_zero() {
    let mut h = Health::new(5);
    h.take_damage(3);
    assert_eq!(h.current_health, 2);
    h.take_damage(7);
    assert_eq!(h.current_health, 0);
    assert!(h.is_dead());
    assert_eq!(h.max_health, 5);
}

#[test]
fn heal_stops_at_max() {
    let mut h = Health::new(10);
    h.take_damage(6);
    h.heal(2);
    assert_eq!(h.current_health, 6);
    h.heal(u32::MAX);
    assert_eq!(h.current_health, 10);
}

#[test]
fn floor_sqrt_rounds_down() {
    assert_eq!(floor_sqrt_u128(0), 0);
    assert_eq!(floor_sqrt_u128(24), 4);
    assert_eq!(floor_sqrt_u128(25), 5);
    assert_eq!(floor_sqrt_u128(1 << 64), 1 << 32);
}

#[test]
fn scale_brings_vector_to_length() {
    assert_eq!(scale_to_length(3000, 4000, 1000), Vec2 { x: 600, y: 800 });
    assert_eq!(scale_to_length(-3, -4, 10), Vec2 { x: -6, y: -8 });
    assert_eq!(scale_to_length(0, 0, 1000), Vec2 { x: 0, y: 0 });
    assert_eq!(direction_to(p(0, 0), p(0, -7), 3000), Vec2 { x: 0, y: -3000 });
}

#[test]
fn squared_distance_is_exact() {
    assert_eq!(distance_squared(p(i32::MIN, i32::MIN), p(i32::MAX, i32::MAX)), 2 * (u32::MAX as u128) * (u32::MAX as u128));
    assert!(is_closer_than(p(0, 0), p(3, 4), 6));
    assert!(!is_closer_than(p(0, 0), p(3, 4), 5));
}

#[test]
fn separation_one_unit_apart_pushes_both_away() {
    let a = p(0, 0);
    let b = p(1000, 0);
    let fa = separation_force(a, &vec![b]);
    let fb = separation_force(b, &vec![a]);
    assert_eq!(fa, Vec2 { x: -900, y: 0 });
    assert_eq!(fb, Vec2 { x: 900, y: 0 });
}

#[test]
fn separation_at_crowding_boundary_is_zero() {
    let a = p(0, 0);
    let b = p(5000, 0);
    assert_eq!(separation_force(a, &vec![b]), Vec2 { x: 0, y: 0 });
    let c = p(4999, 0);
    assert_ne!(separation_force(a, &vec![c]), Vec2 { x: 0, y: 0 });
}

#[test]
fn separation_averages_crowding_neighbours() {
    // Two neighbours at one and two units on either side along x, one far away.
    let me = p(0, 0);
    let f = separation_force(me, &vec![p(1000, 0), p(-2000, 0), p(0, 9000)]);
    // pushes: -1000 and +500; mean -250; scaled by 0.9
    assert_eq!(f, Vec2 { x: -225, y: 0 });
}

#[test]
fn separation_with_no_neighbours_is_zero() {
    assert_eq!(separation_force(p(5, 5), &vec![]), Vec2 { x: 0, y: 0 });
}

#[test]
fn goto_completes_in_three_ticks_then_idles() {
    let path = vec![p(0, 0), p(1000, 0), p(2000, 0)];
    let mut b = EnemyBehavior::Goto(p(2000, 0), Some(path), 0);
    let beacon = beacon_at(50000, 0);
    let positions = [p(100, 0), p(1100, 0), p(2100, 0)];
    for (tick, pos) in positions.iter().enumerate() {
        transition(&mut b, false, *pos, &beacon);
        assert!(b.is_goto());
        let _ = steer_goto(&mut b, *pos, &minion(), None, Vec2 { x: 0, y: 0 });
        assert_eq!(goto_index(&b), tick + 1);
    }
    assert_eq!(goto_index(&b), 3);
    transition(&mut b, false, p(2100, 0), &beacon);
    assert!(matches!(b, EnemyBehavior::Idle));
}

#[test]
fn goto_velocity_heads_for_waypoint() {
    let path = vec![p(10000, 0)];
    let mut b = EnemyBehavior::Goto(p(10000, 0), Some(path), 0);
    let c = steer_goto(&mut b, p(0, 0), &minion(), None, Vec2 { x: 0, y: 900 });
    assert_eq!(c.desired_velocity, Vec3 { x: 3000, y: 0, z: 900 });
    assert_eq!(c.float_height, 1000);
    // 3000/sqrt(3000^2 + 900^2) rounds down to 957 thousandths, 900/3132 to 287
    assert_eq!(c.desired_forward, Some(Vec3 { x: 957, y: 0, z: 287 }));
    assert_eq!(goto_index(&b), 0);
}

#[test]
fn goto_past_end_aims_at_destination() {
    let mut b = EnemyBehavior::Goto(p(0, 5000), Some(vec![p(1000, 0)]), 1);
    let c = steer_goto(&mut b, p(0, 0), &minion(), None, Vec2 { x: 0, y: 0 });
    assert_eq!(c.desired_velocity, Vec3 { x: 0, y: 0, z: 3000 });
}

#[test]
fn waiting_for_path_keeps_index_and_holds() {
    let beacon = beacon_at(50000, 0);
    let mut b = EnemyBehavior::goto(p(7000, 7000));
    for _ in 0..5 {
        transition(&mut b, false, p(0, 0), &beacon);
        let c = steer_goto(&mut b, p(0, 0), &minion(), None, Vec2 { x: 100, y: 0 });
        assert_eq!(c, Locomotion { desired_velocity: Vec3 { x: 0, y: 0, z: 0 }, float_height: 1000, desired_forward: None });
        assert!(b.needs_path());
        assert_eq!(goto_index(&b), 0);
    }
    // The mesh answers: the path is kept and followed.
    let c = steer_goto(&mut b, p(0, 0), &minion(), Some(vec![p(0, 3000)]), Vec2 { x: 0, y: 0 });
    assert_eq!(c.desired_velocity, Vec3 { x: 0, y: 0, z: 3000 });
    assert!(!b.needs_path());
}

#[test]
fn idle_without_player_or_beacon_heads_for_perimeter() {
    let beacon = beacon_at(0, 0);
    let mut b = EnemyBehavior::Idle;
    transition(&mut b, false, p(10000, 0), &beacon);
    match b {
        EnemyBehavior::Goto(d, path, i) => {
            assert_eq!(d, p(2500, 0));
            assert!(path.is_none());
            assert_eq!(i, 0);
        }
        other => panic!("expected a travel episode, got {:?}", other),
    }
}

#[test]
fn idle_near_beacon_attacks_it() {
    let beacon = beacon_at(0, 0);
    let mut b = EnemyBehavior::Idle;
    let hold = minion_idle(&mut b, &minion(), false, p(2500, 0), &beacon);
    assert!(matches!(b, EnemyBehavior::AttackBeacon));
    assert_eq!(hold.unwrap().desired_velocity, Vec3 { x: 0, y: 0, z: 0 });
}

#[test]
fn idle_in_agro_chases_player() {
    let beacon = beacon_at(0, 0);
    let mut b = EnemyBehavior::Idle;
    minion_idle(&mut b, &minion(), true, p(2000, 0), &beacon);
    assert!(b.is_attack_player());
}

#[test]
fn agro_interrupts_goto_and_drops_path() {
    let beacon = beacon_at(0, 0);
    let mut b = EnemyBehavior::Goto(p(2500, 0), Some(vec![p(1, 1), p(2, 2)]), 1);
    transition(&mut b, true, p(9000, 0), &beacon);
    assert!(b.is_attack_player());
    transition(&mut b, false, p(9000, 0), &beacon);
    assert!(matches!(b, EnemyBehavior::Idle));
    transition(&mut b, false, p(9000, 0), &beacon);
    assert!(b.needs_path());
    assert_eq!(goto_index(&b), 0);
}

#[test]
fn minion_goto_only_touches_travellers() {
    let mut b = EnemyBehavior::Goto(p(0, 0), None, 0);
    minion_goto(&mut b, false);
    assert!(b.is_goto());
    minion_goto(&mut b, true);
    assert!(b.is_attack_player());
    let mut s = EnemyBehavior::Spawning;
    minion_goto(&mut s, true);
    assert!(matches!(s, EnemyBehavior::Spawning));
}

#[test]
fn spawning_becomes_idle_on_signal() {
    let mut b = EnemyBehavior::Spawning;
    assert!(enemy_idle_and_spawning(&b, &minion()).is_some());
    spawn_animation_complete(&mut b);
    assert!(matches!(b, EnemyBehavior::Idle));
    let mut g = EnemyBehavior::Guard;
    spawn_animation_complete(&mut g);
    assert!(matches!(g, EnemyBehavior::Guard));
    assert_eq!(enemy_idle_and_spawning(&g, &minion()).unwrap().desired_velocity, Vec3 { x: 0, y: 0, z: 0 });
    let hold = enemy_idle_and_spawning(&EnemyBehavior::AttackBeacon, &minion()).unwrap();
    assert_eq!(hold.desired_velocity, Vec3 { x: 0, y: 0, z: 0 });
    assert_eq!(hold.float_height, 1000);
    assert!(enemy_idle_and_spawning(&EnemyBehavior::AttackPlayer, &minion()).is_none());
}

#[test]
fn cooldown_repeats() {
    let mut c = AttackCooldown::new(2000);
    assert!(!c.tick(1500));
    assert!(c.tick(600));
    assert_eq!(c.elapsed_ms, 100);
    assert!(c.tick(4000));
    assert_eq!(c.elapsed_ms, 100);
}

#[test]
fn attacking_minion_chases_and_strikes() {
    let mut b = EnemyBehavior::AttackPlayer;
    let mut m = Minion::default();
    let step = minion_attack_player(&mut b, &mut m, p(0, 0), p(1000, 0), true, true, 1000).unwrap();
    assert_eq!(step.command.desired_velocity, Vec3 { x: 3000, y: 0, z: 0 });
    assert_eq!(step.command.desired_forward, Some(Vec3 { x: 1000, y: 0, z: 0 }));
    assert!(!step.strike);
    let step = minion_attack_player(&mut b, &mut m, p(0, 0), p(1000, 0), true, true, 1000).unwrap();
    assert!(step.strike);
    let step = minion_attack_player(&mut b, &mut m, p(0, 0), p(9000, 0), false, false, 2000).unwrap();
    assert!(!step.strike);
    assert!(matches!(b, EnemyBehavior::Idle));
    assert!(minion_attack_player(&mut b, &mut m, p(0, 0), p(0, 0), true, true, 10).is_none());
}

#[test]
fn beacon_queries() {
    let mut beacon = beacon_at(1000, 1000);
    assert!(beacon.within_range(p(1000, 3500), 2500));
    assert!(!beacon.within_range(p(1000, 3501), 2500));
    assert_eq!(beacon.closest_point(p(1000, 11000), 2500), p(1000, 3500));
    assert_eq!(beacon.closest_point(p(1000, 1000), 2500), p(1000, 1000));
    assert_eq!(beacon.towards_beacon(p(-2000, 1000)), Vec3 { x: -1000, y: 0, z: 0 });
    beacon.take_damage(1500);
    assert_eq!(beacon.health.current_health, 0);
}

#[test]
fn all_zero_weights_are_rejected() {
    let r = SpawnEnemiesEventBuilder::new(p(0, 0)).with_number_of_enemies(3).build();
    assert_eq!(r.err(), Some(SpawnConfigError::AllWeightsZero));
}

#[test]
fn huge_weights_are_rejected() {
    let r = SpawnEnemiesEventBuilder::new(p(0, 0))
        .with_weight(EnemyType::Minion, u32::MAX)
        .with_weight(EnemyType::Mage, 1)
        .build();
    assert_eq!(r.err(), Some(SpawnConfigError::WeightsTooLarge));
}

#[test]
fn draws_follow_weights() {
    let only_mages = SpawnEnemiesEventBuilder::new(p(0, 0))
        .with_number_of_enemies(50)
        .with_weight(EnemyType::Mage, 3)
        .build()
        .unwrap();
    let types = only_mages.collect();
    assert_eq!(types.len(), 50);
    assert!(types.iter().all(|t| *t == EnemyType::Mage));
    let only_minions = SpawnEnemiesEventBuilder::new(p(0, 0))
        .with_number_of_enemies(50)
        .with_weight(EnemyType::Minion, 1)
        .build()
        .unwrap();
    assert!(only_minions.collect().iter().all(|t| *t == EnemyType::Minion));
}

#[test]
fn spawn_at_ceiling_minus_one_creates_one() {
    let event = SpawnEnemiesEventBuilder::new(p(0, 0))
        .with_number_of_enemies(5)
        .with_weight(EnemyType::Minion, 1)
        .with_weight(EnemyType::Mage, 1)
        .build()
        .unwrap();
    let mut count = EnemyCount(MAX_ENEMIES - 1);
    let spawned = spawn_enemies(&mut count, &event);
    assert_eq!(spawned.len(), 1);
    assert_eq!(count.0, MAX_ENEMIES);
    let again = spawn_enemies(&mut count, &event);
    assert!(again.is_empty());
    assert_eq!(count.0, MAX_ENEMIES);
}

#[test]
fn spawns_land_within_jitter() {
    let event = SpawnEnemiesEventBuilder::new(p(10000, -10000))
        .with_number_of_enemies(40)
        .with_weight(EnemyType::Minion, 1)
        .build()
        .unwrap();
    let mut count = EnemyCount::default();
    let spawned = spawn_enemies(&mut count, &event);
    assert_eq!(spawned.len(), 40);
    assert_eq!(count.0, 40);
    for SpawnEnemy(pos, kind) in spawned {
        assert_eq!(kind, EnemyType::Minion);
        let dx = pos.x - 10000;
        let dy = pos.y + 10000;
        assert!((-7000..=7000).contains(&dx) && (-7000..=7000).contains(&dy));
        assert_eq!(dx % 1000, 0);
        assert_eq!(dy % 1000, 0);
    }
}

#[test]
fn place_spawns_drops_the_rest_of_the_batch() {
    let types = vec![EnemyType::Minion, EnemyType::Mage, EnemyType::Minion];
    let jitters = vec![Vec2 { x: 1000, y: 0 }, Vec2 { x: 0, y: -2000 }, Vec2 { x: 0, y: 0 }];
    let mut count = EnemyCount(MAX_ENEMIES - 2);
    let out = place_spawns(&mut count, p(i32::MAX, 0), &types, &jitters);
    assert_eq!(out, vec![SpawnEnemy(p(i32::MAX, 0), EnemyType::Minion), SpawnEnemy(p(i32::MAX, -2000), EnemyType::Mage)]);
    assert_eq!(count.0, MAX_ENEMIES);
}

#[test]
fn only_minions_have_a_spawner() {
    let r = spawn_minion_enemy(SpawnEnemy(p(3, 4), EnemyType::Minion), 7).unwrap();
    assert_eq!(r.id, 7);
    assert_eq!(r.position, p(3, 4));
    assert_eq!(r.health, Health::new(5));
    assert_eq!(r.enemy, minion());
    assert!(matches!(r.behavior, EnemyBehavior::Spawning));
    assert!(spawn_minion_enemy(SpawnEnemy(p(3, 4), EnemyType::Mage), 7).is_none());
}

#[test]
fn sweep_twice_changes_count_once() {
    let event = SpawnEnemiesEventBuilder::new(p(0, 0))
        .with_number_of_enemies(4)
        .with_weight(EnemyType::Minion, 1)
        .build()
        .unwrap();
    let mut pop = Population::new();
    pop.spawn(&event);
    assert_eq!(pop.enemies.len(), 4);
    assert_eq!(pop.count.0, 4);
    pop.enemies[1].health.take_damage(5);
    pop.enemies[3].health.take_damage(9);
    let removed = check_for_dead_enemies(&mut pop);
    assert_eq!(removed, vec![1, 3]);
    assert_eq!(pop.count.0, 2);
    let removed = check_for_dead_enemies(&mut pop);
    assert!(removed.is_empty());
    assert_eq!(pop.count.0, 2);
    assert_eq!(pop.enemies.iter().map(|e| e.id).collect::<Vec<_>>(), vec![0, 2]);
}

#[test]
fn population_steering_pass() {
    let event = SpawnEnemiesEventBuilder::new(p(0, 0))
        .with_number_of_enemies(3)
        .with_weight(EnemyType::Minion, 1)
        .build()
        .unwrap();
    let mut pop = Population::new();
    pop.spawn(&event);
    pop.enemies[0].position = p(0, 0);
    pop.enemies[1].position = p(1000, 0);
    pop.enemies[2].position = p(0, 1000);
    pop.enemies[0].behavior = EnemyBehavior::goto(p(0, -9000));
    pop.enemies[1].behavior = EnemyBehavior::goto(p(9000, 0));
    // The third is still spawning: it does not move here, but it pushes.
    let nearby = vec![vec![0, 1, 2, 42], vec![0, 1], vec![0, 1, 2]];
    let found = vec![Some(vec![p(0, -9000)]), None, Some(vec![p(5, 5)])];
    let commands = enemy_goto(&mut pop, &nearby, found);
    assert_eq!(commands.len(), 3);
    let c0 = commands[0].unwrap();
    // pull (0, -3000) plus the mean push of the enemies one unit along x and
    // along y, scaled by 0.9: (-450, -450)
    assert_eq!(c0.desired_velocity, Vec3 { x: -450, y: 0, z: -3450 });
    // the second found no path: it holds
    assert_eq!(commands[1].unwrap().desired_velocity, Vec3 { x: 0, y: 0, z: 0 });
    assert!(pop.enemies[1].behavior.needs_path());
    assert!(commands[2].is_none());
    assert!(matches!(pop.enemies[2].behavior, EnemyBehavior::Spawning));
    assert!(!pop.enemies[0].behavior.needs_path());
}

#[test]
fn population_creates_every_placed_type() {
    let mages = SpawnEnemiesEventBuilder::new(p(0, 0))
        .with_number_of_enemies(3)
        .with_weight(EnemyType::Mage, 1)
        .build()
        .unwrap();
    let mut pop = Population::new();
    let placed = pop.spawn(&mages);
    assert_eq!(placed.len(), 3);
    assert_eq!(pop.enemies.len(), 3);
    assert_eq!(pop.count.0, 3);
    assert!(pop.enemies.iter().all(|e| e.kind == EnemyType::Mage && matches!(e.behavior, EnemyBehavior::Spawning)));
    assert_eq!(pop.enemies.iter().map(|e| e.id).collect::<Vec<_>>(), vec![0, 1, 2]);
    for e in pop.enemies.iter_mut() {
        e.health.take_damage(5);
    }
    check_for_dead_enemies(&mut pop);
    assert_eq!(pop.count.0, 0);
    assert!(pop.enemies.is_empty());
}

#[test]
fn population_at_ceiling_minus_one_creates_one() {
    let mut pop = Population::new();
    let fill = SpawnEnemiesEventBuilder::new(p(0, 0))
        .with_number_of_enemies(MAX_ENEMIES - 1)
        .with_weight(EnemyType::Minion, 1)
        .build()
        .unwrap();
    pop.spawn(&fill);
    assert_eq!(pop.count.0, MAX_ENEMIES - 1);
    let mages = SpawnEnemiesEventBuilder::new(p(0, 0))
        .with_number_of_enemies(5)
        .with_weight(EnemyType::Mage, 1)
        .build()
        .unwrap();
    let placed = pop.spawn(&mages);
    assert_eq!(placed.len(), 1);
    assert_eq!(pop.count.0, MAX_ENEMIES);
    assert_eq!(pop.enemies.len() as u32, MAX_ENEMIES);
    assert_eq!(pop.enemies.last().unwrap().kind, EnemyType::Mage);
}
