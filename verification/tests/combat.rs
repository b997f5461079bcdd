//! Enemy pathing, collision-to-damage resolution, arrivals and the
//! health sweep, on concrete runs of the simulation.

use cpu_defense::enemy::Enemy;
use cpu_defense::enemy::move_enemy_step;
use cpu_defense::gun::GunShootEvent;
use cpu_defense::health::Health;
use cpu_defense::vec3::Vec3i;
use cpu_defense::vec3::dist2_e;
use cpu_defense::world::CollisionStart;
use cpu_defense::world::World;

fn v(x: i64, y: i64, z: i64) -> Vec3i {
    Vec3i { x, y, z }
}

fn authored_path() -> Vec<Vec3i> {
    vec![v(-1_000, 500, -2_000), v(1_500, 500, -5_000), v(-2_000, 500, -9_000)]
}

/// Walks an enemy along the first authored path: once it closes on the
/// far waypoint (-2, .5, -9), that waypoint is popped, and the enemy
/// then heads for (1.5, .5, -5).
#[test]
fn enemy_consumes_far_waypoint_then_heads_for_the_next() {
    let mut e = Enemy { id: 0, pos: v(0, 500, -14_000), waypoints: authored_path(), health: Health(100) };
    let mut ticks: u32 = 0;
    while e.waypoints.len() == 3 {
        assert!(!move_enemy_step(&mut e, 50));
        ticks += 1;
        assert!(ticks < 10_000);
    }
    assert_eq!(e.waypoints, vec![v(-1_000, 500, -2_000), v(1_500, 500, -5_000)]);
    // the next tick closes on the new last element
    let next = v(1_500, 500, -5_000);
    let before = dist2_e(e.pos, next);
    assert!(!move_enemy_step(&mut e, 50));
    assert!(dist2_e(e.pos, next) < before);
}

/// The waypoint sequence never grows over an enemy's whole walk, and
/// once it is empty the enemy keeps closing on the structure.
#[test]
fn waypoint_count_never_grows() {
    let mut e = Enemy { id: 0, pos: v(0, 500, -14_000), waypoints: authored_path(), health: Health(100) };
    let mut len = e.waypoints.len();
    let cpu = v(0, 500, 0);
    for _ in 0..8_000 {
        let empty_before = e.waypoints.is_empty();
        let d_before = dist2_e(e.pos, cpu);
        let arrived = move_enemy_step(&mut e, 40);
        assert!(e.waypoints.len() <= len);
        len = e.waypoints.len();
        if empty_before && !arrived {
            assert!(dist2_e(e.pos, cpu) < d_before);
        }
        if arrived {
            return;
        }
    }
    panic!("the enemy never reached the structure");
}

fn world_with_one_enemy_and_damage_level_2() -> World {
    let mut w = World::new();
    w.player.damage_level = 2;
    // one completion of the 3-second spawner emits the enemy (id 0)
    w.handle_enemy_spawn(3_000);
    assert_eq!(w.enemies.len(), 1);
    assert_eq!(w.enemies[0].pos, v(0, 500, -14_000));
    assert_eq!(w.enemies[0].health, Health(100));
    w
}

fn shoot_and_hit(w: &mut World, enemy_id: u64) -> bool {
    let bullet_id = w.next_id;
    let spawned = w.handle_shoot(&Some(GunShootEvent {
        source: v(0, 500, 0),
        target: v(0, 500, -20_000),
    }));
    assert!(spawned);
    let events = vec![CollisionStart { collider1: bullet_id, collider2: enemy_id }];
    w.handle_enemy_hit(&events) == 1
}

/// One hit at damage level 2 deals 10 + 2*5 = 20: the enemy drops to
/// 80, survives the sweep, and no coins flow.
#[test]
fn one_hit_at_damage_level_two_leaves_eighty() {
    let mut w = world_with_one_enemy_and_damage_level_2();
    assert!(!shoot_and_hit(&mut w, 0));
    assert_eq!(w.enemies[0].health, Health(80));
    assert_eq!(w.bullets.len(), 0, "the projectile is consumed");
    assert_eq!(w.player.coins, 0);
    w.kill_when_no_more_health();
    assert_eq!(w.enemies.len(), 1);
}

/// Five hits of 20 drain the enemy: health 80, 60, 40, 20, 0; on the
/// fifth the defeat is credited (+5 coins) and the next sweep removes
/// the enemy — exactly once.
#[test]
fn five_hits_defeat_the_enemy_and_credit_five_coins() {
    let mut w = world_with_one_enemy_and_damage_level_2();
    for expected in [80i64, 60, 40, 20] {
        assert!(!shoot_and_hit(&mut w, 0));
        assert_eq!(w.enemies[0].health, Health(expected));
        w.kill_when_no_more_health();
        assert_eq!(w.enemies.len(), 1);
        assert_eq!(w.player.coins, 0);
    }
    assert!(shoot_and_hit(&mut w, 0));
    assert_eq!(w.enemies[0].health, Health(0));
    assert_eq!(w.player.coins, 5);
    w.kill_when_no_more_health();
    assert_eq!(w.enemies.len(), 0);
}

/// The resolver is idempotent over a consumed projectile: the same
/// event reported twice in one tick deals damage once, credits once,
/// and raises no error.
#[test]
fn duplicate_collision_event_is_a_no_op() {
    let mut w = world_with_one_enemy_and_damage_level_2();
    let bullet_id = w.next_id;
    assert!(w.handle_shoot(&Some(GunShootEvent {
        source: v(0, 500, 0),
        target: v(0, 500, -20_000),
    })));
    let ev = CollisionStart { collider1: bullet_id, collider2: 0 };
    let events = vec![ev, ev];
    assert_eq!(w.handle_enemy_hit(&events), 0);
    assert_eq!(w.enemies[0].health, Health(80), "damage landed exactly once");
}

/// An event naming no live projectile — enemy against enemy, or stale
/// ids — changes nothing.
#[test]
fn collision_without_a_projectile_is_ignored() {
    let mut w = world_with_one_enemy_and_damage_level_2();
    let events = vec![
        CollisionStart { collider1: 0, collider2: 0 },
        CollisionStart { collider1: 555, collider2: 777 },
    ];
    assert_eq!(w.handle_enemy_hit(&events), 0);
    assert_eq!(w.enemies[0].health, Health(100));
    assert_eq!(w.player.coins, 0);
}

/// A projectile is consumed on its first qualifying contact even when
/// the other side is no enemy.
#[test]
fn projectile_dies_on_any_contact() {
    let mut w = World::new();
    let bullet_id = w.next_id;
    assert!(w.handle_shoot(&Some(GunShootEvent {
        source: v(0, 500, 0),
        target: v(0, 500, -20_000),
    })));
    let events = vec![CollisionStart { collider1: 9_999, collider2: bullet_id }];
    assert_eq!(w.handle_enemy_hit(&events), 0);
    assert_eq!(w.bullets.len(), 0);
}

/// Three arrivals subtract 10 each: the health-bar percentage reads
/// 90, 80, 70 after them, and the run does not end.
#[test]
fn three_arrivals_leave_seventy_percent() {
    let mut w = World::new();
    w.next_id = 100;
    for (k, expected) in [(0u64, 90i64), (1, 80), (2, 70)] {
        w.enemies.push(Enemy {
            id: k,
            pos: v(0, 500, 250),
            waypoints: Vec::new(),
            health: Health(100),
        });
        // 50 ms at 2 units/s advances 0.1 units: to 0.15, within the
        // 0.2-unit arrival radius
        let arrivals = w.move_enemy(50);
        assert_eq!(arrivals, 1);
        assert_eq!(w.enemies.len(), 0);
        assert_eq!(w.cpu_health_percent(), expected);
        assert!(!w.is_game_over());
    }
}

/// The tenth arrival drains the structure: the run ends, exactly once,
/// and later ticks freeze the world.
#[test]
fn game_over_triggers_once_and_freezes_the_world() {
    let mut w = World::new();
    w.next_id = 100;
    for k in 0..10u64 {
        w.enemies.push(Enemy {
            id: k,
            pos: v(0, 500, 250),
            waypoints: Vec::new(),
            health: Health(100),
        });
        w.move_enemy(50);
    }
    assert_eq!(w.cpu_health_percent(), 0);
    assert!(w.is_game_over());
    let coins_before = w.player.coins;
    let inp = cpu_defense::player::InputFrame {
        move_x: 1000,
        move_y: 0,
        aim_x: 0,
        aim_y: 0,
        fire: true,
        upgrade_fire_rate: true,
        upgrade_damage: false,
        upgrade_heal: false,
        upgrade_speed: false,
    };
    let out = w.tick(&inp, &Vec::new(), 100);
    assert_eq!(out.arrivals, 0);
    assert_eq!(out.shots, 0);
    assert_eq!(out.upgrades, 0);
    assert_eq!(w.player.coins, coins_before);
    assert!(w.is_game_over());
}

/// A whole tick runs the passes in order: the 3-second spawner fires,
/// its enemy walks, and the counters come back zero when nothing else
/// happens.
#[test]
fn whole_tick_spawns_and_moves() {
    let mut w = World::new();
    let idle = cpu_defense::player::InputFrame {
        move_x: 0,
        move_y: 0,
        aim_x: 0,
        aim_y: 0,
        fire: false,
        upgrade_fire_rate: false,
        upgrade_damage: false,
        upgrade_heal: false,
        upgrade_speed: false,
    };
    let out = w.tick(&idle, &Vec::new(), 3_000);
    assert_eq!(out.arrivals, 0);
    assert_eq!(out.defeats, 0);
    assert_eq!(w.enemies.len(), 1, "the 3 s spawner completed");
    let spawned_at = v(0, 500, -14_000);
    assert_ne!(w.enemies[0].pos, spawned_at, "the new enemy walked this very tick");
}
