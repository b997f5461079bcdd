//! The player: movement, aiming, cooldown-gated firing, and the
//! upgrade economy.
//!
//! Input arrives as a logical gesture per tick: two 2-axis sticks in
//! thousandths of full deflection, a fire edge-flag, and one edge-flag
//! per upgrade.  Each upgrade press checks the ten-coin cost against
//! the balance of that moment, so presses in one tick never both spend
//! the same coins; `lemma_upgrade_economy` states the resulting law.

use vstd::prelude::*;

use crate::health::Health;
use crate::gun::GunShootEvent;
use crate::timer::CountdownTimer;
use crate::timer::DT_LIMIT;
use crate::vec3::POS_LIMIT;
use crate::vec3::VEC_LIMIT;
use crate::vec3::Vec3i;
use crate::vec3::absi;
use crate::vec3::isqrt;
use crate::vec3::lemma_sq_abs;
use crate::vec3::lemma_sq_le;
use crate::vec3::lemma_sqrt_floor_bounds;
use crate::vec3::sqrt_floor;
use vstd::arithmetic::div_mod::lemma_div_is_ordered;
use vstd::arithmetic::div_mod::lemma_div_multiples_vanish;
use vstd::arithmetic::div_mod::lemma_div_pos_is_pos;

verus! {

/// Coins one upgrade costs, for every stat.
pub const UPGRADE_COST: u32 = 10;

/// Cooldown between shots at fire-rate level zero, in milliseconds.
pub const BASE_SHOOT_COOLDOWN: u64 = 500;

/// Cooldown reduction per fire-rate level, in milliseconds.
pub const COOLDOWN_REDUCTION_PER_LEVEL: u64 = 80;

/// The cooldown never drops below this, in milliseconds.
pub const MIN_SHOOT_COOLDOWN: u64 = 50;

/// Player walking speed at speed level zero, in thousandths of a unit
/// per second.
pub const PLAYER_BASE_SPEED: u64 = 2_000;

/// Additional walking speed per speed level, in thousandths of a unit
/// per second.
pub const PLAYER_SPEED_PER_LEVEL: u64 = 500;

/// Stick deflection below this (of 1000) is noise for movement.
pub const MOVE_DEAD_ZONE: i64 = 10;

/// Stick deflection below this (of 1000) is noise for aiming.
pub const AIM_DEAD_ZONE: i64 = 100;

/// How far ahead of the player a shot is aimed, in thousandths of a
/// unit (20 units).
pub const FIRE_RANGE: i64 = 20_000;

/// Full stick deflection.
pub const AXIS_LIMIT: i64 = 1_000;

/// The player: position, facing (a horizontal world-space direction,
/// not necessarily unit length), currency and upgrade levels.
#[derive(Clone, Copy, PartialEq, Eq, Structural, Debug)]
pub struct Player {
    pub pos: Vec3i,
    pub aim_x: i64,
    pub aim_z: i64,
    pub coins: u32,
    pub fire_rate_level: u32,
    pub damage_level: u32,
    pub speed_level: u32,
    pub health: Health,
}

impl Player {
    pub open spec fn wf(self) -> bool {
        &&& self.pos.bounded(POS_LIMIT as int)
        &&& absi(self.aim_x as int) <= AXIS_LIMIT
        &&& absi(self.aim_z as int) <= AXIS_LIMIT
        &&& !(self.aim_x == 0 && self.aim_z == 0)
    }
}

/// The one-shot countdown gating the player's fire rate.
#[derive(Clone, Copy, PartialEq, Eq, Structural, Debug)]
pub struct ShootCooldown(pub CountdownTimer);

/// The logical input gesture of one tick: stick axes in thousandths of
/// full deflection, and edge-flags for firing and the four upgrades.
#[derive(Clone, Copy, PartialEq, Eq, Structural, Debug)]
pub struct InputFrame {
    pub move_x: i64,
    pub move_y: i64,
    pub aim_x: i64,
    pub aim_y: i64,
    pub fire: bool,
    pub upgrade_fire_rate: bool,
    pub upgrade_damage: bool,
    pub upgrade_heal: bool,
    pub upgrade_speed: bool,
}

impl InputFrame {
    pub open spec fn wf(self) -> bool {
        &&& absi(self.move_x as int) <= AXIS_LIMIT
        &&& absi(self.move_y as int) <= AXIS_LIMIT
        &&& absi(self.aim_x as int) <= AXIS_LIMIT
        &&& absi(self.aim_y as int) <= AXIS_LIMIT
    }
}

/// The player's starting state and cooldown: at the center, facing
/// negative x, with nothing earned yet and the full base cooldown to
/// wait out.
pub fn spawn_player() -> (r: (Player, ShootCooldown))
    ensures
        r.0.pos == (Vec3i { x: 0i64, y: 500i64, z: 0i64 }),
        r.0.aim_x == -1000i64 && r.0.aim_z == 0i64,
        r.0.coins == 0 && r.0.fire_rate_level == 0 && r.0.damage_level == 0 && r.0.speed_level
            == 0,
        r.0.health == Health(100),
        r.0.wf(),
        r.1.0.duration_ms == BASE_SHOOT_COOLDOWN && r.1.0.elapsed_ms == 0,
        r.1.0.wf(),
{
    let p = Player {
        pos: Vec3i { x: 0, y: 500, z: 0 },
        aim_x: -1000,
        aim_z: 0,
        coins: 0,
        fire_rate_level: 0,
        damage_level: 0,
        speed_level: 0,
        health: Health(100),
    };
    (p, ShootCooldown(CountdownTimer::new(BASE_SHOOT_COOLDOWN)))
}

/// The shot cooldown at a fire-rate level: the base cooldown less the
/// per-level reduction, clamped below at the minimum.
pub open spec fn cooldown_ms(level: int) -> int {
    if level >= 6 {
        MIN_SHOOT_COOLDOWN as int
    } else {
        BASE_SHOOT_COOLDOWN - COOLDOWN_REDUCTION_PER_LEVEL * level
    }
}

/// The shot cooldown at a fire-rate level, executable.
pub fn cooldown_for_level(level: u32) -> (r: u64)
    ensures
        r as int == cooldown_ms(level as int),
        MIN_SHOOT_COOLDOWN <= r <= BASE_SHOOT_COOLDOWN,
{
    if level >= 6 {
        MIN_SHOOT_COOLDOWN
    } else {
        BASE_SHOOT_COOLDOWN - COOLDOWN_REDUCTION_PER_LEVEL * (level as u64)
    }
}

/// The player's walking speed, in thousandths of a unit per second.
pub open spec fn player_speed(p: Player) -> int {
    PLAYER_BASE_SPEED + PLAYER_SPEED_PER_LEVEL * p.speed_level
}

fn player_speed_e(p: &Player) -> (r: u64)
    ensures
        r as int == player_speed(*p),
        r <= 2_200_000_000_000,
{
    PLAYER_BASE_SPEED + PLAYER_SPEED_PER_LEVEL * (p.speed_level as u64)
}

pub open spec fn clampi(v: int, limit: int) -> int {
    if v > limit {
        limit
    } else if v < -limit {
        -limit
    } else {
        v
    }
}

/// How far one stick axis moves the player this tick, in thousandths
/// of a unit: deflection share times speed times elapsed time.
pub open spec fn axis_delta(axis: int, speed: int, dt: int) -> int {
    (absi(axis) * speed * dt) / 1_000_000
}

/// One coordinate after a move gesture: shifted against the axis sign
/// and clamped to the arena bound.
pub open spec fn shift_axis(c: int, axis: int, speed: int, dt: int) -> int {
    if axis >= 0 {
        clampi(c - axis_delta(axis, speed, dt), POS_LIMIT as int)
    } else {
        clampi(c + axis_delta(axis, speed, dt), POS_LIMIT as int)
    }
}

fn shift_axis_e(c: i64, axis: i64, speed: u64, dt: u64) -> (r: i64)
    requires
        -(POS_LIMIT as int) <= c as int <= POS_LIMIT as int,
        -1000 <= axis as int <= 1000,
        speed <= 2_200_000_000_000,
        dt <= DT_LIMIT,
    ensures
        r as int == shift_axis(c as int, axis as int, speed as int, dt as int),
        -(POS_LIMIT as int) <= r as int <= POS_LIMIT as int,
{
    let a: u64 = if axis >= 0 {
        axis as u64
    } else {
        (-axis) as u64
    };
    proof {
        assert((a as u128) * (speed as u128) <= 2_200_000_000_000_000u128) by (nonlinear_arith)
            requires
                a <= 1000,
                speed <= 2_200_000_000_000,
        ;
        assert((a as u128) * (speed as u128) * (dt as u128) <= 2_200_000_000_000_000_000_000u128)
            by (nonlinear_arith)
            requires
                (a as u128) * (speed as u128) <= 2_200_000_000_000_000u128,
                dt <= 1_000_000,
        ;
    }
    let prod: u128 = (a as u128) * (speed as u128) * (dt as u128);
    let d128: u128 = prod / 1_000_000;
    proof {
        lemma_div_is_ordered(prod as int, 2_200_000_000_000_000_000_000, 1_000_000);
    }
    let d: i64 = d128 as u64 as i64;
    let shifted = if axis >= 0 {
        c - d
    } else {
        c + d
    };
    if shifted > POS_LIMIT {
        POS_LIMIT
    } else if shifted < -POS_LIMIT {
        -POS_LIMIT
    } else {
        shifted
    }
}

/// The player's position after the move gesture: the horizontal stick
/// shifts world z against its sign, the vertical stick shifts world x
/// against its sign, each only past its dead-zone, both scaled by the
/// walking speed and the elapsed time.
pub open spec fn moved_pos(p: Player, inp: InputFrame, dt: int) -> Vec3i {
    let speed = player_speed(p);
    let z = if absi(inp.move_x as int) > MOVE_DEAD_ZONE {
        shift_axis(p.pos.z as int, inp.move_x as int, speed, dt)
    } else {
        p.pos.z as int
    };
    let x = if absi(inp.move_y as int) > MOVE_DEAD_ZONE {
        shift_axis(p.pos.x as int, inp.move_y as int, speed, dt)
    } else {
        p.pos.x as int
    };
    Vec3i { x: x as i64, y: p.pos.y, z: z as i64 }
}

/// The player's facing after the aim gesture: with either aim axis
/// past its dead-zone, face the world direction the stick points at
/// (the screen-to-world mapping sends stick (x, y) to world
/// (-y, 0, -x)); otherwise keep the old facing.
pub open spec fn aimed(p: Player, inp: InputFrame) -> Player {
    if absi(inp.aim_x as int) > AIM_DEAD_ZONE || absi(inp.aim_y as int) > AIM_DEAD_ZONE {
        Player { aim_x: (-(inp.aim_y as int)) as i64, aim_z: (-(inp.aim_x as int)) as i64, ..p }
    } else {
        p
    }
}

/// One coordinate of the fire target's offset: the aim component
/// scaled to `FIRE_RANGE / r`, rounded toward zero.
pub open spec fn scaled_range(c: int, r: int) -> int {
    if c >= 0 {
        (c * FIRE_RANGE) / r
    } else {
        -(((-c) * FIRE_RANGE) / r)
    }
}

/// Where a shot fired now is aimed: `FIRE_RANGE` ahead of the player
/// along the facing direction, on the horizontal plane.
pub open spec fn fire_target(p: Player) -> Vec3i {
    let a2 = p.aim_x * p.aim_x + p.aim_z * p.aim_z;
    let r = sqrt_floor(a2 as nat) as int;
    Vec3i {
        x: (p.pos.x + scaled_range(p.aim_x as int, r)) as i64,
        y: p.pos.y,
        z: (p.pos.z + scaled_range(p.aim_z as int, r)) as i64,
    }
}

/// One fire-target coordinate offset, executable.
fn scaled_range_e(c: i64, r: u64) -> (q: i64)
    requires
        absi(c as int) <= r as int,
        absi(c as int) <= 1000,
        1 <= r,
    ensures
        q as int == scaled_range(c as int, r as int),
        absi(q as int) <= FIRE_RANGE as int,
{
    let a: u64 = if c >= 0 {
        c as u64
    } else {
        (-c) as u64
    };
    proof {
        assert(a * (FIRE_RANGE as u64) <= 20_000_000) by (nonlinear_arith)
            requires
                a <= 1000,
                FIRE_RANGE as u64 <= 20_000,
        ;
    }
    let m: u64 = a * (FIRE_RANGE as u64) / r;
    proof {
        let ai = a as int;
        let ri = r as int;
        assert(ai * FIRE_RANGE >= 0) by (nonlinear_arith)
            requires
                ai >= 0,
        ;
        lemma_div_pos_is_pos(ai * FIRE_RANGE, ri);
        assert(ai * FIRE_RANGE <= ri * FIRE_RANGE) by (nonlinear_arith)
            requires
                0 <= ai <= ri,
        ;
        lemma_div_is_ordered(ai * FIRE_RANGE, ri * FIRE_RANGE, ri);
        lemma_div_multiples_vanish(FIRE_RANGE as int, ri);
        assert(m as int <= FIRE_RANGE);
    }
    if c >= 0 {
        m as i64
    } else {
        -(m as i64)
    }
}

/// Where a shot fired now is aimed, executable.
pub fn fire_target_e(p: &Player) -> (t: Vec3i)
    requires
        p.wf(),
    ensures
        t == fire_target(*p),
        t.bounded(VEC_LIMIT as int),
{
    proof {
        assert(p.aim_x * p.aim_x >= 0 && p.aim_x * p.aim_x <= 1_000_000) by (nonlinear_arith)
            requires
                -1000 <= p.aim_x <= 1000,
        ;
        assert(p.aim_z * p.aim_z >= 0 && p.aim_z * p.aim_z <= 1_000_000) by (nonlinear_arith)
            requires
                -1000 <= p.aim_z <= 1000,
        ;
        if p.aim_x != 0 {
            assert(p.aim_x * p.aim_x >= 1) by (nonlinear_arith)
                requires
                    p.aim_x != 0,
            ;
        } else {
            assert(p.aim_z * p.aim_z >= 1) by (nonlinear_arith)
                requires
                    p.aim_z != 0,
            ;
        }
    }
    let a2: i64 = p.aim_x * p.aim_x + p.aim_z * p.aim_z;
    let r = isqrt(a2 as u64);
    proof {
        let n = (a2 as u64) as nat;
        lemma_sqrt_floor_bounds(n);
        lemma_sq_abs(p.aim_x as int);
        lemma_sq_abs(p.aim_z as int);
        if r == 0 {
            assert((sqrt_floor(n) + 1) * (sqrt_floor(n) + 1) == 1) by (nonlinear_arith)
                requires
                    sqrt_floor(n) == 0,
            ;
            assert(false);
        }
        // each component's magnitude is at most the vector's length
        if absi(p.aim_x as int) > r as int {
            lemma_sq_le(r as int + 1, absi(p.aim_x as int));
            assert(false);
        }
        if absi(p.aim_z as int) > r as int {
            lemma_sq_le(r as int + 1, absi(p.aim_z as int));
            assert(false);
        }
    }
    let ox = scaled_range_e(p.aim_x, r);
    let oz = scaled_range_e(p.aim_z, r);
    Vec3i { x: p.pos.x + ox, y: p.pos.y, z: p.pos.z + oz }
}

/// A one-shot countdown after one tick of `dt`, saturating at its
/// duration.
pub open spec fn ticked_cd(cd: CountdownTimer, dt: int) -> CountdownTimer {
    if cd.elapsed_ms + dt <= cd.duration_ms {
        CountdownTimer { duration_ms: cd.duration_ms, elapsed_ms: (cd.elapsed_ms + dt) as u64 }
    } else {
        CountdownTimer { duration_ms: cd.duration_ms, elapsed_ms: cd.duration_ms }
    }
}

/// The whole control pass of one tick: advance the cooldown, apply the
/// move gesture, apply the aim gesture, then — on a fire edge with the
/// cooldown elapsed — restart the cooldown and emit exactly one shoot
/// request from the player's position toward the fire target.  A fire
/// press while on cooldown is silently ignored.
pub open spec fn handle_player_move_spec(p: Player, cd: CountdownTimer, inp: InputFrame, dt: int)
    -> (Player, CountdownTimer, Option<GunShootEvent>) {
    let cd1 = ticked_cd(cd, dt);
    let p1 = aimed(Player { pos: moved_pos(p, inp, dt), ..p }, inp);
    if inp.fire && cd1.elapsed_ms >= cd1.duration_ms {
        (
            p1,
            CountdownTimer { duration_ms: cd1.duration_ms, elapsed_ms: 0 },
            Some(GunShootEvent { source: p1.pos, target: fire_target(p1) }),
        )
    } else {
        (p1, cd1, None)
    }
}

/// Run the control pass of one tick on the player.
pub fn handle_player_move(
    p: &mut Player,
    cooldown: &mut ShootCooldown,
    inp: &InputFrame,
    dt: u64,
) -> (shot: Option<GunShootEvent>)
    requires
        old(p).wf(),
        old(cooldown).0.wf(),
        inp.wf(),
        dt <= DT_LIMIT,
    ensures
        (*final(p), final(cooldown).0, shot) == handle_player_move_spec(
            *old(p),
            old(cooldown).0,
            *inp,
            dt as int,
        ),
        final(p).wf(),
        final(cooldown).0.wf(),
        shot is Some ==> shot->0.wf() && shot->0.source == final(p).pos,
{
    cooldown.0.tick(dt);
    let speed = player_speed_e(p);
    if abs_milli(inp.move_x) > MOVE_DEAD_ZONE {
        p.pos.z = shift_axis_e(p.pos.z, inp.move_x, speed, dt);
    }
    if abs_milli(inp.move_y) > MOVE_DEAD_ZONE {
        p.pos.x = shift_axis_e(p.pos.x, inp.move_y, speed, dt);
    }
    proof {
        assert(p.pos == moved_pos(*old(p), *inp, dt as int));
    }
    if abs_milli(inp.aim_x) > AIM_DEAD_ZONE || abs_milli(inp.aim_y) > AIM_DEAD_ZONE {
        p.aim_x = -inp.aim_y;
        p.aim_z = -inp.aim_x;
    }
    if inp.fire && cooldown.0.is_finished() {
        cooldown.0.reset();
        let target = fire_target_e(p);
        Some(GunShootEvent { source: p.pos, target })
    } else {
        None
    }
}

/// Magnitude of a stick deflection.
fn abs_milli(v: i64) -> (r: i64)
    requires
        -1000 <= v as int <= 1000,
    ensures
        r as int == absi(v as int),
{
    if v >= 0 {
        v
    } else {
        -v
    }
}

/// The four upgrade gestures.
#[derive(Clone, Copy, PartialEq, Eq, Structural, Debug)]
pub enum UpgradeKind {
    FireRate,
    Damage,
    Heal,
    Speed,
}

/// A level after one raise, held at the machine cap (which no run can
/// reach: each raise costs ten coins).
pub open spec fn bumped(l: u32) -> u32 {
    if l < u32::MAX {
        (l + 1) as u32
    } else {
        l
    }
}

/// Structure health after one heal: ten points more, capped at the
/// full hundred.
pub open spec fn healed(h: Health) -> Health {
    if h.0 + 10 <= 100 {
        Health((h.0 + 10) as i64)
    } else {
        Health(100)
    }
}

/// One upgrade press against the balance of that moment: if ten coins
/// are at hand, debit them and raise the stat — a fire-rate raise also
/// replaces the cooldown with a fresh full countdown of the new
/// duration, and a heal adds to the structure's health instead of any
/// level.  Without ten coins the press changes nothing.
pub open spec fn apply_press(p: Player, cd: CountdownTimer, cpu: Health, k: UpgradeKind) -> (
    Player,
    CountdownTimer,
    Health,
) {
    if p.coins < UPGRADE_COST {
        (p, cd, cpu)
    } else {
        let p1 = Player { coins: (p.coins - UPGRADE_COST) as u32, ..p };
        match k {
            UpgradeKind::FireRate => {
                let lvl = bumped(p.fire_rate_level);
                (
                    Player { fire_rate_level: lvl, ..p1 },
                    CountdownTimer { duration_ms: cooldown_ms(lvl as int) as u64, elapsed_ms: 0 },
                    cpu,
                )
            },
            UpgradeKind::Damage => (Player { damage_level: bumped(p.damage_level), ..p1 }, cd, cpu),
            UpgradeKind::Heal => (p1, cd, healed(cpu)),
            UpgradeKind::Speed => (Player { speed_level: bumped(p.speed_level), ..p1 }, cd, cpu),
        }
    }
}

/// A run of upgrade presses, applied in order.
pub open spec fn apply_presses(p: Player, cd: CountdownTimer, cpu: Health, ks: Seq<UpgradeKind>)
    -> (Player, CountdownTimer, Health)
    decreases ks.len(),
{
    if ks.len() == 0 {
        (p, cd, cpu)
    } else {
        let s = apply_presses(p, cd, cpu, ks.drop_last());
        apply_press(s.0, s.1, s.2, ks.last())
    }
}

/// How many presses of a run succeed: those finding ten coins at hand
/// at their moment.
pub open spec fn success_count(p: Player, cd: CountdownTimer, cpu: Health, ks: Seq<UpgradeKind>)
    -> int
    decreases ks.len(),
{
    if ks.len() == 0 {
        0
    } else {
        let s = apply_presses(p, cd, cpu, ks.drop_last());
        success_count(p, cd, cpu, ks.drop_last()) + if s.0.coins >= UPGRADE_COST {
            1int
        } else {
            0int
        }
    }
}

/// The presses one input frame makes, in the fixed gesture order:
/// fire rate, damage, heal, speed.
pub open spec fn presses_of(inp: InputFrame) -> Seq<UpgradeKind> {
    let s0 = Seq::<UpgradeKind>::empty();
    let s1 = if inp.upgrade_fire_rate {
        s0.push(UpgradeKind::FireRate)
    } else {
        s0
    };
    let s2 = if inp.upgrade_damage {
        s1.push(UpgradeKind::Damage)
    } else {
        s1
    };
    let s3 = if inp.upgrade_heal {
        s2.push(UpgradeKind::Heal)
    } else {
        s2
    };
    if inp.upgrade_speed {
        s3.push(UpgradeKind::Speed)
    } else {
        s3
    }
}

/// Appending one press to a run applies it to the run's final state,
/// and counts one more success exactly when that state affords it.
pub proof fn lemma_presses_snoc(
    p: Player,
    cd: CountdownTimer,
    cpu: Health,
    s: Seq<UpgradeKind>,
    k: UpgradeKind,
)
    ensures
        apply_presses(p, cd, cpu, s.push(k)) == ({
            let st = apply_presses(p, cd, cpu, s);
            apply_press(st.0, st.1, st.2, k)
        }),
        success_count(p, cd, cpu, s.push(k)) == success_count(p, cd, cpu, s) + (
        if apply_presses(p, cd, cpu, s).0.coins >= UPGRADE_COST {
            1int
        } else {
            0int
        }),
{
    assert(s.push(k).drop_last() =~= s);
    assert(s.push(k).last() == k);
}

/// Economy law: across any run of upgrade presses, the balance drops
/// by exactly ten coins per successful press — and a press succeeds
/// precisely when ten coins are at hand at its moment, as the final
/// clause states press by press.
pub proof fn lemma_upgrade_economy(
    p: Player,
    cd: CountdownTimer,
    cpu: Health,
    ks: Seq<UpgradeKind>,
)
    ensures
        apply_presses(p, cd, cpu, ks).0.coins == p.coins - UPGRADE_COST * success_count(
            p,
            cd,
            cpu,
            ks,
        ),
        0 <= success_count(p, cd, cpu, ks) <= ks.len(),
        forall|i: int|
            #![trigger ks.take(i)]
            0 <= i < ks.len() ==> {
                let before = apply_presses(p, cd, cpu, ks.take(i)).0.coins;
                let after = apply_presses(p, cd, cpu, ks.take(i + 1)).0.coins;
                &&& (before >= UPGRADE_COST ==> after == before - UPGRADE_COST)
                &&& (before < UPGRADE_COST ==> after == before)
            },
    decreases ks.len(),
{
    if ks.len() > 0 {
        lemma_upgrade_economy(p, cd, cpu, ks.drop_last());
        assert(ks.drop_last().push(ks.last()) =~= ks);
        lemma_presses_snoc(p, cd, cpu, ks.drop_last(), ks.last());
        assert forall|i: int| #![trigger ks.take(i)] 0 <= i < ks.len() implies {
            let before = apply_presses(p, cd, cpu, ks.take(i)).0.coins;
            let after = apply_presses(p, cd, cpu, ks.take(i + 1)).0.coins;
            &&& (before >= UPGRADE_COST ==> after == before - UPGRADE_COST)
            &&& (before < UPGRADE_COST ==> after == before)
        } by {
            if i < ks.len() - 1 {
                assert(ks.take(i) =~= ks.drop_last().take(i));
                assert(ks.take(i + 1) =~= ks.drop_last().take(i + 1));
            } else {
                assert(ks.take(i) =~= ks.drop_last());
                assert(ks.take(i + 1) =~= ks);
            }
        }
    }
}

/// Run the upgrade pass of one tick: each pressed gesture, in the
/// fixed order, independently re-checks the ten-coin cost against the
/// balance of its own moment.  The result is how many presses
/// succeeded (each owes a level-up cue).
pub fn handle_upgrades(
    p: &mut Player,
    cooldown: &mut ShootCooldown,
    cpu: &mut Health,
    inp: &InputFrame,
) -> (n: u32)
    requires
        old(cpu).0 <= 100,
    ensures
        (*final(p), final(cooldown).0, *final(cpu)) == apply_presses(
            *old(p),
            old(cooldown).0,
            *old(cpu),
            presses_of(*inp),
        ),
        n as int == success_count(*old(p), old(cooldown).0, *old(cpu), presses_of(*inp)),
        n <= 4,
        final(p).pos == old(p).pos,
        final(p).aim_x == old(p).aim_x && final(p).aim_z == old(p).aim_z,
        final(cpu).0 <= 100,
        final(cpu).0 >= old(cpu).0,
        old(cooldown).0.wf() ==> final(cooldown).0.wf(),
{
    let ghost p0 = *p;
    let ghost cd0 = cooldown.0;
    let ghost c0 = *cpu;
    let ghost mut done: Seq<UpgradeKind> = Seq::empty();
    let mut n: u32 = 0;
    if inp.upgrade_fire_rate {
        proof {
            lemma_presses_snoc(p0, cd0, c0, done, UpgradeKind::FireRate);
            done = done.push(UpgradeKind::FireRate);
        }
        if p.coins >= UPGRADE_COST {
            p.coins = p.coins - UPGRADE_COST;
            p.fire_rate_level = bump(p.fire_rate_level);
            cooldown.0 = CountdownTimer::new(cooldown_for_level(p.fire_rate_level));
            n = n + 1;
        }
    }
    proof {
        assert((*p, cooldown.0, *cpu) == apply_presses(p0, cd0, c0, done));
    }
    if inp.upgrade_damage {
        proof {
            lemma_presses_snoc(p0, cd0, c0, done, UpgradeKind::Damage);
            done = done.push(UpgradeKind::Damage);
        }
        if p.coins >= UPGRADE_COST {
            p.coins = p.coins - UPGRADE_COST;
            p.damage_level = bump(p.damage_level);
            n = n + 1;
        }
    }
    proof {
        assert((*p, cooldown.0, *cpu) == apply_presses(p0, cd0, c0, done));
    }
    if inp.upgrade_heal {
        proof {
            lemma_presses_snoc(p0, cd0, c0, done, UpgradeKind::Heal);
            done = done.push(UpgradeKind::Heal);
        }
        if p.coins >= UPGRADE_COST {
            p.coins = p.coins - UPGRADE_COST;
            if cpu.0 + 10 <= 100 {
                cpu.0 = cpu.0 + 10;
            } else {
                cpu.0 = 100;
            }
            n = n + 1;
        }
    }
    proof {
        assert((*p, cooldown.0, *cpu) == apply_presses(p0, cd0, c0, done));
    }
    if inp.upgrade_speed {
        proof {
            lemma_presses_snoc(p0, cd0, c0, done, UpgradeKind::Speed);
            done = done.push(UpgradeKind::Speed);
        }
        if p.coins >= UPGRADE_COST {
            p.coins = p.coins - UPGRADE_COST;
            p.speed_level = bump(p.speed_level);
            n = n + 1;
        }
    }
    proof {
        assert((*p, cooldown.0, *cpu) == apply_presses(p0, cd0, c0, done));
    }
    proof {
        assert(done =~= presses_of(*inp));
    }
    n
}

/// Raise a level, held at the machine cap.
fn bump(l: u32) -> (r: u32)
    ensures
        r == bumped(l),
{
    if l < u32::MAX {
        l + 1
    } else {
        l
    }
}

} // verus!
