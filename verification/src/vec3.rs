//! Fixed-point 3D geometry for the simulation.
//!
//! Positions count thousandths of a world unit, so the authored arena
//! (a few dozen units across) and every threshold in the design (0.1 and
//! 0.2 units) are exact integers.  Movement is always a straight-line
//! step toward a target; `move_toward` performs one such step and clamps
//! at the target instead of overshooting, and the lemmas below establish
//! that a step never increases the distance to the target and, for any
//! real step size, strictly decreases it.

use vstd::prelude::*;

verus! {

use vstd::arithmetic::div_mod::lemma_div_by_self;
use vstd::arithmetic::div_mod::lemma_div_is_ordered;
use vstd::arithmetic::div_mod::lemma_div_multiples_vanish;
use vstd::arithmetic::div_mod::lemma_div_pos_is_pos;

/// Largest coordinate magnitude an entity position may take,
/// in thousandths of a unit.
pub const POS_LIMIT: i64 = 100_000_000;

/// Largest coordinate magnitude the kinematic helpers accept; aim
/// targets may stick out a little past `POS_LIMIT`.
pub const VEC_LIMIT: i64 = 200_000_000;

/// Largest advance a single `move_toward` call may take, in
/// thousandths of a unit.
pub const STEP_LIMIT: u64 = 10_000_000;

/// A point or direction in the arena, in thousandths of a world unit.
#[derive(Clone, Copy, PartialEq, Eq, Structural, Debug)]
pub struct Vec3i {
    pub x: i64,
    pub y: i64,
    pub z: i64,
}

pub open spec fn absi(v: int) -> int {
    if v >= 0 {
        v
    } else {
        -v
    }
}

impl Vec3i {
    /// Every coordinate magnitude stays within `limit`.
    pub open spec fn bounded(self, limit: int) -> bool {
        &&& absi(self.x as int) <= limit
        &&& absi(self.y as int) <= limit
        &&& absi(self.z as int) <= limit
    }
}

/// Squared Euclidean distance between two points.
pub open spec fn dist2(a: Vec3i, b: Vec3i) -> int {
    (a.x - b.x) * (a.x - b.x) + (a.y - b.y) * (a.y - b.y) + (a.z - b.z) * (a.z - b.z)
}

pub proof fn lemma_dist2_nonneg(a: Vec3i, b: Vec3i)
    ensures
        dist2(a, b) >= 0,
{
    assert((a.x - b.x) * (a.x - b.x) >= 0) by (nonlinear_arith);
    assert((a.y - b.y) * (a.y - b.y) >= 0) by (nonlinear_arith);
    assert((a.z - b.z) * (a.z - b.z) >= 0) by (nonlinear_arith);
}

/// Floor of the square root of `n`.
pub open spec fn sqrt_floor(n: nat) -> nat
    decreases n,
{
    if n == 0 {
        0
    } else {
        let r = sqrt_floor((n - 1) as nat);
        if (r + 1) * (r + 1) <= n {
            (r + 1) as nat
        } else {
            r
        }
    }
}

pub proof fn lemma_sqrt_floor_bounds(n: nat)
    ensures
        sqrt_floor(n) * sqrt_floor(n) <= n,
        n < (sqrt_floor(n) + 1) * (sqrt_floor(n) + 1),
    decreases n,
{
    if n > 0 {
        let r = sqrt_floor((n - 1) as nat);
        lemma_sqrt_floor_bounds((n - 1) as nat);
        if (r + 1) * (r + 1) <= n {
            assert((r + 1) * (r + 1) + 1 <= (r + 2) * (r + 2)) by (nonlinear_arith);
            assert(n < (r + 2) * (r + 2));
        }
    } else {
        assert(sqrt_floor(n) == 0);
        assert(sqrt_floor(n) * sqrt_floor(n) == 0) by (nonlinear_arith)
            requires
                sqrt_floor(n) == 0,
        ;
        assert((sqrt_floor(n) + 1) * (sqrt_floor(n) + 1) == 1) by (nonlinear_arith)
            requires
                sqrt_floor(n) == 0,
        ;
    }
}

pub proof fn lemma_sq_le(u: int, v: int)
    requires
        0 <= u <= v,
    ensures
        u * u <= v * v,
{
    assert(u * u <= v * v) by (nonlinear_arith)
        requires
            0 <= u <= v,
    ;
}

proof fn lemma_sq_lt(u: int, v: int)
    requires
        0 <= u < v,
    ensures
        u * u < v * v,
{
    assert(u * u < v * v) by (nonlinear_arith)
        requires
            0 <= u < v,
    ;
}

proof fn lemma_sq_neg(u: int)
    ensures
        (-u) * (-u) == u * u,
{
    assert((-u) * (-u) == u * u) by (nonlinear_arith);
}

pub proof fn lemma_sq_abs(w: int)
    ensures
        absi(w) * absi(w) == w * w,
{
    if w < 0 {
        lemma_sq_neg(w);
    }
}

pub proof fn lemma_sqrt_floor_unique(n: nat, r: nat)
    requires
        r * r <= n,
        n < (r + 1) * (r + 1),
    ensures
        r == sqrt_floor(n),
{
    let s = sqrt_floor(n);
    lemma_sqrt_floor_bounds(n);
    if r < s {
        lemma_sq_le(r as int + 1, s as int);
    }
    if s < r {
        lemma_sq_le(s as int + 1, r as int);
    }
}

/// Squared distance, executable.
pub fn dist2_e(a: Vec3i, b: Vec3i) -> (r: u64)
    requires
        a.bounded(VEC_LIMIT as int),
        b.bounded(VEC_LIMIT as int),
    ensures
        r as int == dist2(a, b),
        r <= 480_000_000_000_000_000,
{
    let dx = a.x - b.x;
    let dy = a.y - b.y;
    let dz = a.z - b.z;
    proof {
        assert(dx * dx <= 160_000_000_000_000_000 && dx * dx >= 0) by (nonlinear_arith)
            requires
                -400_000_000 <= dx <= 400_000_000,
        ;
        assert(dy * dy <= 160_000_000_000_000_000 && dy * dy >= 0) by (nonlinear_arith)
            requires
                -400_000_000 <= dy <= 400_000_000,
        ;
        assert(dz * dz <= 160_000_000_000_000_000 && dz * dz >= 0) by (nonlinear_arith)
            requires
                -400_000_000 <= dz <= 400_000_000,
        ;
    }
    let s = dx * dx + dy * dy + dz * dz;
    s as u64
}

/// Floor square root, executable; `r` is exactly `sqrt_floor(n)`.
pub fn isqrt(n: u64) -> (r: u64)
    requires
        n <= 480_000_000_000_000_000,
    ensures
        r as nat == sqrt_floor(n as nat),
        r * r <= n,
        r <= 700_000_000,
{
    let mut lo: u64 = 0;
    let mut hi: u64 = 700_000_000;
    while lo < hi
        invariant
            lo <= hi <= 700_000_000,
            n <= 480_000_000_000_000_000,
            lo * lo <= n,
            n < (hi + 1) * (hi + 1),
        decreases hi - lo,
    {
        let mid = lo + (hi - lo + 1) / 2;
        proof {
            assert(mid * mid <= 490_000_000_000_000_000) by (nonlinear_arith)
                requires
                    0 <= mid <= 700_000_000,
            ;
        }
        if mid * mid <= n {
            lo = mid;
        } else {
            hi = mid - 1;
        }
    }
    proof {
        lemma_sqrt_floor_unique(n as nat, lo as nat);
    }
    lo
}

/// One coordinate of a straight-line step: move from `pc` toward `tc`
/// by the share `step / d` of the axis gap, rounded toward `pc`.
pub open spec fn axis_toward(pc: int, tc: int, step: int, d: int) -> int {
    if tc >= pc {
        pc + ((tc - pc) * step) / d
    } else {
        pc - ((pc - tc) * step) / d
    }
}

/// Where a straight-line step of length `step` from `p` toward `t` ends.
/// A degenerate direction (`p == t`) or a zero step moves nothing; a step
/// at least as long as the distance lands exactly on the target.
pub open spec fn move_toward_spec(p: Vec3i, t: Vec3i, step: int) -> Vec3i {
    let d2 = dist2(p, t);
    if d2 <= 0 || step <= 0 {
        p
    } else {
        let d = sqrt_floor(d2 as nat) as int;
        if step >= d {
            t
        } else {
            Vec3i {
                x: axis_toward(p.x as int, t.x as int, step, d) as i64,
                y: axis_toward(p.y as int, t.y as int, step, d) as i64,
                z: axis_toward(p.z as int, t.z as int, step, d) as i64,
            }
        }
    }
}

/// Per-axis facts about one straight-line step: the new coordinate lies
/// between the old one and the target's, the axis gap shrinks by exactly
/// the rounded share, and a share of at least one full unit is taken as
/// soon as `a * step` reaches `d`.
proof fn lemma_axis_props(pc: int, tc: int, step: int, d: int)
    requires
        0 < step < d,
    ensures
        ({
            let q = axis_toward(pc, tc, step, d);
            let a = absi(tc - pc);
            let m = (a * step) / d;
            &&& absi(tc - q) == a - m
            &&& 0 <= m <= a
            &&& (a * step >= d ==> 1 <= m)
            &&& (pc <= tc ==> pc <= q <= tc)
            &&& (tc <= pc ==> tc <= q <= pc)
        }),
{
    let a = absi(tc - pc);
    let m = (a * step) / d;
    assert(a * step >= 0) by (nonlinear_arith)
        requires
            a >= 0,
            step > 0,
    ;
    lemma_div_pos_is_pos(a * step, d);
    assert(a * step <= a * d) by (nonlinear_arith)
        requires
            a >= 0,
            step <= d,
    ;
    lemma_div_is_ordered(a * step, a * d, d);
    lemma_div_multiples_vanish(a, d);
    assert(a * d == d * a) by (nonlinear_arith);
    assert(m <= a);
    if a * step >= d {
        lemma_div_is_ordered(d, a * step, d);
        lemma_div_by_self(d);
    }
}

/// A straight-line step keeps every coordinate between the old position's
/// and the target's, so it stays inside any box holding both.
pub proof fn lemma_move_toward_bounded(p: Vec3i, t: Vec3i, step: int, limit: int)
    requires
        p.bounded(limit),
        t.bounded(limit),
    ensures
        move_toward_spec(p, t, step).bounded(limit),
{
    let d2 = dist2(p, t);
    if d2 <= 0 || step <= 0 {
    } else {
        let d = sqrt_floor(d2 as nat) as int;
        lemma_sqrt_floor_bounds(d2 as nat);
        if step >= d {
        } else {
            lemma_axis_props(p.x as int, t.x as int, step, d);
            lemma_axis_props(p.y as int, t.y as int, step, d);
            lemma_axis_props(p.z as int, t.z as int, step, d);
        }
    }
}

/// The gap on one axis shrinks from `a` to `a - m`, so its square does
/// not grow; if at least one unit was taken, the square strictly shrinks.
proof fn lemma_axis_sq(a: int, m: int)
    requires
        0 <= m <= a,
    ensures
        (a - m) * (a - m) <= a * a,
        1 <= m ==> (a - m) * (a - m) < a * a,
{
    lemma_sq_le(a - m, a);
    if 1 <= m {
        lemma_sq_le(a - m, a - 1);
        lemma_sq_lt(a - 1, a);
    }
}

/// Relates the squared distance after a step to the per-axis gaps.
proof fn lemma_move_dist2(p: Vec3i, t: Vec3i, step: int)
    requires
        dist2(p, t) > 0,
        0 < step,
        step < sqrt_floor(dist2(p, t) as nat) as int,
        p.bounded(VEC_LIMIT as int),
        t.bounded(VEC_LIMIT as int),
    ensures
        ({
            let d = sqrt_floor(dist2(p, t) as nat) as int;
            let ax = absi(t.x - p.x);
            let ay = absi(t.y - p.y);
            let az = absi(t.z - p.z);
            let mx = (ax * step) / d;
            let my = (ay * step) / d;
            let mz = (az * step) / d;
            let r = move_toward_spec(p, t, step);
            &&& dist2(p, t) == ax * ax + ay * ay + az * az
            &&& dist2(r, t) == (ax - mx) * (ax - mx) + (ay - my) * (ay - my) + (az - mz) * (az
                - mz)
            &&& 0 <= mx <= ax
            &&& 0 <= my <= ay
            &&& 0 <= mz <= az
        }),
{
    let d = sqrt_floor(dist2(p, t) as nat) as int;
    let r = move_toward_spec(p, t, step);
    lemma_axis_props(p.x as int, t.x as int, step, d);
    lemma_axis_props(p.y as int, t.y as int, step, d);
    lemma_axis_props(p.z as int, t.z as int, step, d);
    lemma_sq_abs(t.x - p.x);
    lemma_sq_abs(t.y - p.y);
    lemma_sq_abs(t.z - p.z);
    lemma_sq_neg(t.x - p.x);
    lemma_sq_neg(t.y - p.y);
    lemma_sq_neg(t.z - p.z);
    let qx = axis_toward(p.x as int, t.x as int, step, d);
    let qy = axis_toward(p.y as int, t.y as int, step, d);
    let qz = axis_toward(p.z as int, t.z as int, step, d);
    assert(r.x as int == qx && r.y as int == qy && r.z as int == qz);
    lemma_sq_abs(t.x as int - qx);
    lemma_sq_abs(t.y as int - qy);
    lemma_sq_abs(t.z as int - qz);
    lemma_sq_neg(t.x as int - qx);
    lemma_sq_neg(t.y as int - qy);
    lemma_sq_neg(t.z as int - qz);
}

/// A straight-line step never increases the squared distance to the
/// target.
pub proof fn lemma_move_toward_non_increase(p: Vec3i, t: Vec3i, step: int)
    requires
        p.bounded(VEC_LIMIT as int),
        t.bounded(VEC_LIMIT as int),
    ensures
        dist2(move_toward_spec(p, t, step), t) <= dist2(p, t),
{
    let d2 = dist2(p, t);
    lemma_dist2_nonneg(p, t);
    if d2 <= 0 || step <= 0 {
    } else {
        let d = sqrt_floor(d2 as nat) as int;
        if step >= d {
            assert(dist2(t, t) == 0);
        } else {
            lemma_move_dist2(p, t, step);
            let ax = absi(t.x - p.x);
            let ay = absi(t.y - p.y);
            let az = absi(t.z - p.z);
            lemma_axis_sq(ax, (ax * step) / d);
            lemma_axis_sq(ay, (ay * step) / d);
            lemma_axis_sq(az, (az * step) / d);
        }
    }
}

/// While the direction is non-degenerate and the step is a real advance
/// (at least two thousandths of a unit, which a millisecond of the
/// slowest mover already gives), the squared distance to the target
/// strictly decreases: the step never oscillates around the target.
pub proof fn lemma_move_toward_strict_decrease(p: Vec3i, t: Vec3i, step: int)
    requires
        p.bounded(VEC_LIMIT as int),
        t.bounded(VEC_LIMIT as int),
        dist2(p, t) > 0,
        step >= 2,
    ensures
        dist2(move_toward_spec(p, t, step), t) < dist2(p, t),
{
    let d2 = dist2(p, t);
    let d = sqrt_floor(d2 as nat) as int;
    lemma_sqrt_floor_bounds(d2 as nat);
    if step >= d {
        assert(dist2(t, t) == 0);
    } else {
        lemma_move_dist2(p, t, step);
        let ax = absi(t.x - p.x);
        let ay = absi(t.y - p.y);
        let az = absi(t.z - p.z);
        let mx = (ax * step) / d;
        let my = (ay * step) / d;
        let mz = (az * step) / d;
        lemma_axis_sq(ax, mx);
        lemma_axis_sq(ay, my);
        lemma_axis_sq(az, mz);
        // the widest axis gap takes at least one unit of the step
        if ax >= ay && ax >= az {
            lemma_sq_le(ay, ax);
            lemma_sq_le(az, ax);
            lemma_widest_axis_moves(ax, step, d, d2);
            lemma_axis_props(p.x as int, t.x as int, step, d);
        } else if ay >= ax && ay >= az {
            lemma_sq_le(ax, ay);
            lemma_sq_le(az, ay);
            lemma_widest_axis_moves(ay, step, d, d2);
            lemma_axis_props(p.y as int, t.y as int, step, d);
        } else {
            lemma_sq_le(ax, az);
            lemma_sq_le(ay, az);
            lemma_widest_axis_moves(az, step, d, d2);
            lemma_axis_props(p.z as int, t.z as int, step, d);
        }
    }
}

/// If `a` is the widest of the three axis gaps making up `d2`, then
/// `a * step` reaches `d`, so the rounded share on that axis is at
/// least one unit.
proof fn lemma_widest_axis_moves(a: int, step: int, d: int, d2: int)
    requires
        0 < d2,
        d2 <= 3 * (a * a),
        0 <= a,
        d * d <= d2,
        step >= 2,
        0 < d,
    ensures
        a * step >= d,
{
    assert(1 <= a * a) by (nonlinear_arith)
        requires
            0 < d2,
            d2 <= 3 * (a * a),
    ;
    assert(1 <= a);
    // d * d <= 3 a^2 < (2a)^2, so d < 2a
    if d >= 2 * a {
        lemma_sq_le(2 * a, d);
        assert((2 * a) * (2 * a) == 4 * (a * a)) by (nonlinear_arith);
        assert(3 * (a * a) < 4 * (a * a)) by (nonlinear_arith)
            requires
                1 <= a * a,
        ;
        assert(false);
    }
    assert(a * step >= 2 * a) by (nonlinear_arith)
        requires
            step >= 2,
            0 <= a,
    ;
}

/// One straight-line step of length `step` from `p` toward `t`.
pub fn move_toward(p: Vec3i, t: Vec3i, step: u64) -> (r: Vec3i)
    requires
        p.bounded(VEC_LIMIT as int),
        t.bounded(VEC_LIMIT as int),
        step <= STEP_LIMIT,
    ensures
        r == move_toward_spec(p, t, step as int),
{
    let d2 = dist2_e(p, t);
    if d2 == 0 || step == 0 {
        return p;
    }
    let d = isqrt(d2);
    proof {
        lemma_sqrt_floor_bounds(d2 as nat);
    }
    if step >= d {
        return t;
    }
    let x = axis_step(p.x, t.x, step, d);
    let y = axis_step(p.y, t.y, step, d);
    let z = axis_step(p.z, t.z, step, d);
    Vec3i { x, y, z }
}

/// One coordinate of a straight-line step, executable.
fn axis_step(pc: i64, tc: i64, step: u64, d: u64) -> (q: i64)
    requires
        -(VEC_LIMIT as int) <= pc as int <= VEC_LIMIT as int,
        -(VEC_LIMIT as int) <= tc as int <= VEC_LIMIT as int,
        0 < step < d,
        d <= 700_000_000,
        step <= STEP_LIMIT,
    ensures
        q as int == axis_toward(pc as int, tc as int, step as int, d as int),
{
    proof {
        lemma_axis_props(pc as int, tc as int, step as int, d as int);
    }
    if tc >= pc {
        let a = (tc - pc) as u64;
        proof {
            assert(a * step <= 4_000_000_000_000_000) by (nonlinear_arith)
                requires
                    a <= 400_000_000,
                    step <= 10_000_000,
            ;
        }
        let m = a * step / d;
        pc + m as i64
    } else {
        let a = (pc - tc) as u64;
        proof {
            assert(a * step <= 4_000_000_000_000_000) by (nonlinear_arith)
                requires
                    a <= 400_000_000,
                    step <= 10_000_000,
            ;
        }
        let m = a * step / d;
        pc - m as i64
    }
}

} // verus!
