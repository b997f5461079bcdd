//! Straight-line kinematics on the fixed-point world model.

use cpu_defense::gun::Bullet;
use cpu_defense::gun::bullet_step;
use cpu_defense::vec3::Vec3i;
use cpu_defense::vec3::dist2_e;
use cpu_defense::vec3::isqrt;
use cpu_defense::vec3::move_toward;

fn v(x: i64, y: i64, z: i64) -> Vec3i {
    Vec3i { x, y, z }
}

#[test]
fn isqrt_exact_values() {
    assert_eq!(isqrt(0), 0);
    assert_eq!(isqrt(1), 1);
    assert_eq!(isqrt(3), 1);
    assert_eq!(isqrt(4), 2);
    assert_eq!(isqrt(99), 9);
    assert_eq!(isqrt(100), 10);
    assert_eq!(isqrt(25_000_000), 5_000);
    assert_eq!(isqrt(480_000_000_000_000_000), 692_820_323);
}

#[test]
fn dist2_exact() {
    assert_eq!(dist2_e(v(0, 0, 0), v(3, 4, 0)), 25);
    assert_eq!(dist2_e(v(-1000, 500, -2000), v(-1000, 500, -2000)), 0);
    assert_eq!(dist2_e(v(1, 2, 3), v(-1, -2, -3)), 4 + 16 + 36);
}

#[test]
fn move_toward_exact_on_a_3_4_5_triangle() {
    // from the origin toward (3, 0, 4), distance 5, one unit of step:
    // the step splits 3/5 and 4/5 across the axes, exactly.
    let p = move_toward(v(0, 0, 0), v(3000, 0, 4000), 1000);
    assert_eq!(p, v(600, 0, 800));
}

#[test]
fn move_toward_snaps_at_target_instead_of_overshooting() {
    let t = v(100, 0, 0);
    let p = move_toward(v(0, 0, 0), t, 5000);
    assert_eq!(p, t);
    // and a degenerate direction moves nothing
    assert_eq!(move_toward(t, t, 5000), t);
}

#[test]
fn move_toward_distance_strictly_decreases_every_step() {
    // the approach law on concrete values: stepping 100 at a time
    // toward a far target, the squared distance falls strictly until
    // arrival.
    let t = v(10_000, 500, -7_000);
    let mut p = v(-4_000, 500, 9_000);
    let mut d2 = dist2_e(p, t);
    let mut steps: u32 = 0;
    while d2 > 0 {
        p = move_toward(p, t, 100);
        let nd2 = dist2_e(p, t);
        assert!(nd2 < d2);
        d2 = nd2;
        steps += 1;
        assert!(steps < 100_000);
    }
    assert_eq!(p, t);
}

#[test]
fn bullet_flies_straight_and_despawns_within_its_radius() {
    // 8 units per second: with dt 500 ms the bullet advances 4 units.
    let mut b = Bullet { id: 7, pos: v(0, 500, 0), target: v(8_000, 500, 0) };
    assert!(!bullet_step(&mut b, 500));
    assert_eq!(b.pos, v(4_000, 500, 0));
    assert!(!bullet_step(&mut b, 500));
    assert_eq!(b.pos, v(8_000, 500, 0));
    // now within 0.2 units: the next tick despawns it, without moving
    assert!(bullet_step(&mut b, 500));
}

#[test]
fn bullet_spawned_within_radius_despawns_at_once() {
    let mut b = Bullet { id: 1, pos: v(0, 0, 0), target: v(100, 0, 0) };
    assert!(bullet_step(&mut b, 16));
}
