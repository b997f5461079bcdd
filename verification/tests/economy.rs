//! The upgrade economy, the cooldown curve, and player control.

use cpu_defense::health::Health;
use cpu_defense::player::InputFrame;
use cpu_defense::player::cooldown_for_level;
use cpu_defense::player::handle_player_move;
use cpu_defense::player::handle_upgrades;
use cpu_defense::player::spawn_player;
use cpu_defense::timer::CountdownTimer;
use cpu_defense::timer::RepeatTimer;
use cpu_defense::vec3::Vec3i;

fn idle() -> InputFrame {
    InputFrame {
        move_x: 0,
        move_y: 0,
        aim_x: 0,
        aim_y: 0,
        fire: false,
        upgrade_fire_rate: false,
        upgrade_damage: false,
        upgrade_heal: false,
        upgrade_speed: false,
    }
}

/// Nine coins cannot buy a ten-coin upgrade: the press is a no-op.
#[test]
fn upgrade_press_with_nine_coins_changes_nothing() {
    let (mut p, mut cd) = spawn_player();
    let mut cpu = Health(100);
    p.coins = 9;
    let inp = InputFrame { upgrade_damage: true, ..idle() };
    let n = handle_upgrades(&mut p, &mut cd, &mut cpu, &inp);
    assert_eq!(n, 0);
    assert_eq!(p.coins, 9);
    assert_eq!(p.damage_level, 0);
}

/// The cooldown curve: 0.5 s at level zero, 80 ms less per level,
/// never below 50 ms — six raises land on the clamp.
#[test]
fn cooldown_curve_clamps_at_fifty_ms() {
    assert_eq!(cooldown_for_level(0), 500);
    assert_eq!(cooldown_for_level(1), 420);
    assert_eq!(cooldown_for_level(5), 100);
    assert_eq!(cooldown_for_level(6), 50);
    assert_eq!(cooldown_for_level(60), 50);
}

/// Six bought fire-rate raises leave the live cooldown at 50 ms.
#[test]
fn six_fire_rate_upgrades_reach_the_clamp() {
    let (mut p, mut cd) = spawn_player();
    let mut cpu = Health(100);
    p.coins = 60;
    let inp = InputFrame { upgrade_fire_rate: true, ..idle() };
    for _ in 0..6 {
        handle_upgrades(&mut p, &mut cd, &mut cpu, &inp);
    }
    assert_eq!(p.fire_rate_level, 6);
    assert_eq!(p.coins, 0);
    assert_eq!(cd.0.duration_ms, 50);
    assert_eq!(cd.0.elapsed_ms, 0, "a raise restarts the countdown in full");
}

/// The economy law on concrete values: pressing all four upgrades with
/// 25 coins buys exactly two (in the fixed order: fire rate, then
/// damage), and the balance drops by exactly ten per success.
#[test]
fn four_presses_with_twenty_five_coins_buy_two() {
    let (mut p, mut cd) = spawn_player();
    let mut cpu = Health(50);
    p.coins = 25;
    let inp = InputFrame {
        upgrade_fire_rate: true,
        upgrade_damage: true,
        upgrade_heal: true,
        upgrade_speed: true,
        ..idle()
    };
    let n = handle_upgrades(&mut p, &mut cd, &mut cpu, &inp);
    assert_eq!(n, 2);
    assert_eq!(p.coins, 5);
    assert_eq!(p.fire_rate_level, 1);
    assert_eq!(p.damage_level, 1);
    assert_eq!(p.speed_level, 0);
    assert_eq!(cpu, Health(50), "the heal press found an empty purse");
}

/// Across any run of presses the balance drops by ten per success:
/// here 45 coins over two frames of four presses buy four upgrades.
#[test]
fn balance_drops_ten_per_successful_press() {
    let (mut p, mut cd) = spawn_player();
    let mut cpu = Health(100);
    p.coins = 45;
    let inp = InputFrame {
        upgrade_fire_rate: true,
        upgrade_damage: true,
        upgrade_heal: true,
        upgrade_speed: true,
        ..idle()
    };
    let mut successes: u32 = 0;
    successes += handle_upgrades(&mut p, &mut cd, &mut cpu, &inp);
    successes += handle_upgrades(&mut p, &mut cd, &mut cpu, &inp);
    assert_eq!(successes, 4);
    assert_eq!(p.coins, 45 - 10 * successes);
}

/// A heal adds ten structure health and caps at the full hundred.
#[test]
fn heal_caps_at_one_hundred() {
    let (mut p, mut cd) = spawn_player();
    let mut cpu = Health(95);
    p.coins = 20;
    let inp = InputFrame { upgrade_heal: true, ..idle() };
    handle_upgrades(&mut p, &mut cd, &mut cpu, &inp);
    assert_eq!(cpu, Health(100));
    handle_upgrades(&mut p, &mut cd, &mut cpu, &inp);
    assert_eq!(cpu, Health(100));
    assert_eq!(p.coins, 0, "a capped heal still costs its ten coins");
}

/// Movement: full deflection at speed level zero covers 2 units per
/// second, mapped stick-x to world -z and stick-y to world -x.
#[test]
fn movement_covers_two_units_per_second() {
    let (mut p, mut cd) = spawn_player();
    let inp = InputFrame { move_x: 1000, move_y: -500, ..idle() };
    let shot = handle_player_move(&mut p, &mut cd, &inp, 1_000);
    assert!(shot.is_none());
    assert_eq!(p.pos, Vec3i { x: 1_000, y: 500, z: -2_000 });
}

/// A deflection inside the dead-zone moves nothing.
#[test]
fn dead_zone_suppresses_noise() {
    let (mut p, mut cd) = spawn_player();
    let start = p.pos;
    let inp = InputFrame { move_x: 10, move_y: -9, ..idle() };
    handle_player_move(&mut p, &mut cd, &inp, 1_000);
    assert_eq!(p.pos, start);
}

/// Firing waits out the cooldown, aims 20 units ahead along the stick
/// direction, and a press while still cooling is silently dropped.
#[test]
fn fire_is_gated_by_the_cooldown_and_aims_ahead() {
    let (mut p, mut cd) = spawn_player();
    // 100 ms in: the initial 500 ms cooldown still runs
    let press = InputFrame { aim_x: -1000, aim_y: 0, fire: true, ..idle() };
    assert!(handle_player_move(&mut p, &mut cd, &press, 100).is_none());
    // 400 ms more: elapsed, so this press fires
    let shot = handle_player_move(&mut p, &mut cd, &press, 400).expect("cooldown elapsed");
    // stick (-1, 0) maps to world (0, 0, +1): the target sits 20 units
    // down positive z from the player
    assert_eq!(shot.source, p.pos);
    assert_eq!(shot.target, Vec3i { x: p.pos.x, y: p.pos.y, z: p.pos.z + 20_000 });
    assert_eq!(cd.0.elapsed_ms, 0, "firing restarts the countdown");
    // and the very next press is silently ignored
    assert!(handle_player_move(&mut p, &mut cd, &press, 10).is_none());
}

/// The repeating spawn timer fires on completion and drops overshoot.
#[test]
fn repeat_timer_drops_overshoot() {
    let mut t = RepeatTimer::new(3_000);
    assert!(!t.tick(2_999));
    assert_eq!(t.elapsed_ms, 2_999);
    assert!(t.tick(500));
    assert_eq!(t.elapsed_ms, 0, "the 499 ms of overshoot are discarded");
    assert!(t.tick(3_000));
}

/// The one-shot cooldown saturates at its duration and stays finished.
#[test]
fn countdown_timer_saturates() {
    let mut t = CountdownTimer::new(500);
    assert!(!t.is_finished());
    t.tick(499);
    assert!(!t.is_finished());
    t.tick(5_000);
    assert_eq!(t.elapsed_ms, 500);
    assert!(t.is_finished());
    t.reset();
    assert!(!t.is_finished());
}
