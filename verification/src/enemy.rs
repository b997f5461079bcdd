//! Enemies, their path-following locomotion, and the perimeter spawners.
//!
//! An enemy consumes its waypoint sequence from the far end: the next
//! target is the last element, and coming within 0.1 units of it pops
//! it.  With the sequence empty the enemy heads for the defended
//! structure at (0, 0.5, 0); coming within 0.2 units of that is an
//! arrival, which removes the enemy and damages the structure.  Each
//! spawner repeats on a fixed period and emits one enemy per completion
//! with a private copy of the spawner's authored path.

use vstd::prelude::*;

use crate::health::Health;
use crate::timer::DT_LIMIT;
use crate::timer::RepeatTimer;
use crate::vec3::POS_LIMIT;
use crate::vec3::Vec3i;
use crate::vec3::dist2;
use crate::vec3::dist2_e;
use crate::vec3::lemma_move_toward_bounded;
use crate::vec3::move_toward;
use crate::vec3::lemma_move_toward_strict_decrease;
use crate::vec3::move_toward_spec;

verus! {

/// Enemy walking speed, in thousandths of a unit per millisecond
/// (2 units per second).
pub const ENEMY_SPEED: u64 = 2;

/// Squared waypoint-arrival threshold: within 0.1 units, strictly.
pub const WAYPOINT_RADIUS2: u64 = 10_000;

/// Squared structure-arrival threshold: within 0.2 units, inclusively.
pub const ARRIVAL_RADIUS2: u64 = 40_000;

/// Health a freshly spawned enemy carries.
pub const ENEMY_START_HEALTH: i64 = 100;

/// The defended structure's fixed position, (0, 0.5, 0).
pub open spec fn cpu_pos() -> Vec3i {
    Vec3i { x: 0, y: 500, z: 0 }
}

/// The defended structure's fixed position, executable.
pub fn cpu_position() -> (r: Vec3i)
    ensures
        r == cpu_pos(),
{
    Vec3i { x: 0, y: 500, z: 0 }
}

/// An enemy: a position, the waypoints still to visit (consumed from
/// the far end), and its health.
#[derive(Debug)]
pub struct Enemy {
    pub id: u64,
    pub pos: Vec3i,
    pub waypoints: Vec<Vec3i>,
    pub health: Health,
}

/// Mathematical image of an `Enemy`.
pub ghost struct EnemyView {
    pub id: u64,
    pub pos: Vec3i,
    pub waypoints: Seq<Vec3i>,
    pub health: Health,
}

impl View for Enemy {
    type V = EnemyView;

    open spec fn view(&self) -> EnemyView {
        EnemyView { id: self.id, pos: self.pos, waypoints: self.waypoints@, health: self.health }
    }
}

impl EnemyView {
    pub open spec fn wf(self) -> bool {
        &&& self.pos.bounded(POS_LIMIT as int)
        &&& forall|i: int|
            0 <= i < self.waypoints.len() ==> (#[trigger] self.waypoints[i]).bounded(
                POS_LIMIT as int,
            )
    }

    /// The point the enemy currently walks toward.
    pub open spec fn target(self) -> Vec3i {
        if self.waypoints.len() > 0 {
            self.waypoints.last()
        } else {
            cpu_pos()
        }
    }
}

/// One locomotion tick for one enemy: walk straight toward the current
/// target; pop the waypoint once within its radius; with no waypoints
/// left, report arrival once within the structure's radius.  The second
/// component of the result is the arrival flag.
pub open spec fn move_enemy_spec(e: EnemyView, dt: int) -> (EnemyView, bool) {
    let tgt = e.target();
    let p = move_toward_spec(e.pos, tgt, ENEMY_SPEED * dt);
    if e.waypoints.len() > 0 {
        if dist2(p, tgt) < WAYPOINT_RADIUS2 {
            (EnemyView { pos: p, waypoints: e.waypoints.drop_last(), ..e }, false)
        } else {
            (EnemyView { pos: p, ..e }, false)
        }
    } else {
        (EnemyView { pos: p, ..e }, dist2(p, cpu_pos()) <= ARRIVAL_RADIUS2)
    }
}

/// One locomotion tick for one enemy.  The waypoint sequence never
/// grows, and once it is empty the enemy only ever walks toward the
/// defended structure.
pub fn move_enemy_step(e: &mut Enemy, dt: u64) -> (arrived: bool)
    requires
        old(e)@.wf(),
        dt <= DT_LIMIT,
    ensures
        (final(e)@, arrived) == move_enemy_spec(old(e)@, dt as int),
        final(e)@.wf(),
        final(e)@.waypoints.len() <= old(e)@.waypoints.len(),
        old(e)@.waypoints.len() == 0 ==> final(e)@.waypoints.len() == 0 && final(e)@.pos
            == move_toward_spec(old(e)@.pos, cpu_pos(), ENEMY_SPEED * dt),
        final(e)@.id == old(e)@.id,
        final(e)@.health == old(e)@.health,
    {
    let step = ENEMY_SPEED * dt;
    if e.waypoints.len() > 0 {
        let tgt = e.waypoints[e.waypoints.len() - 1];
        proof {
            lemma_move_toward_bounded(e.pos, tgt, step as int, POS_LIMIT as int);
        }
        e.pos = move_toward(e.pos, tgt, step);
        if dist2_e(e.pos, tgt) < WAYPOINT_RADIUS2 {
            e.waypoints.pop();
            proof {
                assert(e.waypoints@ == old(e)@.waypoints.drop_last());
            }
        }
        false
    } else {
        let tgt = cpu_position();
        proof {
            lemma_move_toward_bounded(e.pos, tgt, step as int, POS_LIMIT as int);
        }
        e.pos = move_toward(e.pos, tgt, step);
        dist2_e(e.pos, tgt) <= ARRIVAL_RADIUS2
    }
}

/// Waypoint law: one locomotion tick never lengthens an enemy's
/// waypoint sequence, and once the sequence is empty it stays empty,
/// with every further step going straight toward the defended
/// structure.
pub proof fn lemma_waypoints_monotone(e: EnemyView, dt: int)
    ensures
        move_enemy_spec(e, dt).0.waypoints.len() <= e.waypoints.len(),
        e.waypoints.len() == 0 ==> move_enemy_spec(e, dt).0.waypoints == e.waypoints
            && move_enemy_spec(e, dt).0.pos == move_toward_spec(
            e.pos,
            cpu_pos(),
            ENEMY_SPEED * dt,
        ),
{
}

/// Approach law: while the tick is a real step and the enemy is not
/// already at its target, its distance to the current target strictly
/// decreases — locomotion never oscillates around a waypoint or the
/// structure.
pub proof fn lemma_enemy_closes_on_target(e: EnemyView, dt: int)
    requires
        e.wf(),
        dist2(e.pos, e.target()) > 0,
        1 <= dt <= DT_LIMIT,
    ensures
        dist2(move_enemy_spec(e, dt).0.pos, e.target()) < dist2(e.pos, e.target()),
{
    if e.waypoints.len() > 0 {
        assert(e.waypoints[e.waypoints.len() - 1].bounded(POS_LIMIT as int));
    }
    lemma_move_toward_strict_decrease(e.pos, e.target(), ENEMY_SPEED * dt);
}

/// A perimeter spawn point: a fixed origin, a fixed authored path, and
/// a repeating timer.
#[derive(Debug)]
pub struct EnemySpawner {
    pub position: Vec3i,
    pub timer: RepeatTimer,
    pub path: Vec<Vec3i>,
}

/// Mathematical image of an `EnemySpawner`.
pub ghost struct SpawnerView {
    pub position: Vec3i,
    pub timer: RepeatTimer,
    pub path: Seq<Vec3i>,
}

impl View for EnemySpawner {
    type V = SpawnerView;

    open spec fn view(&self) -> SpawnerView {
        SpawnerView { position: self.position, timer: self.timer, path: self.path@ }
    }
}

impl SpawnerView {
    pub open spec fn wf(self) -> bool {
        &&& self.timer.wf()
        &&& self.position.bounded(POS_LIMIT as int)
        &&& forall|i: int|
            0 <= i < self.path.len() ==> (#[trigger] self.path[i]).bounded(POS_LIMIT as int)
    }
}

/// The enemy a spawner emits: it appears at the spawner's origin with a
/// private copy of the spawner's path and full health.
pub open spec fn spawned_enemy(s: SpawnerView, id: u64) -> EnemyView {
    EnemyView { id, pos: s.position, waypoints: s.path, health: Health(ENEMY_START_HEALTH) }
}

/// Emit the enemy for one completion of the spawner's timer.
pub fn spawn_enemy(s: &EnemySpawner, id: u64) -> (e: Enemy)
    requires
        s@.wf(),
    ensures
        e@ == spawned_enemy(s@, id),
        e@.wf(),
    {
    let path = clone_path(&s.path);
    let e = Enemy { id, pos: s.position, waypoints: path, health: Health(ENEMY_START_HEALTH) };
    proof {
        assert forall|i: int| 0 <= i < e@.waypoints.len() implies (#[trigger] e@.waypoints[i])
            .bounded(POS_LIMIT as int) by {
            assert(e@.waypoints[i] == s@.path[i]);
        }
    }
    e
}

/// An element-exact copy of an enemy.
pub fn copy_enemy(e: &Enemy) -> (r: Enemy)
    ensures
        r@ == e@,
{
    Enemy { id: e.id, pos: e.pos, waypoints: clone_path(&e.waypoints), health: e.health }
}

/// Advance one spawner's timer by `dt`; the flag tells whether the
/// period completed, which owes one spawned enemy.
pub fn spawner_tick(s: &EnemySpawner, dt: u64) -> (r: (EnemySpawner, bool))
    requires
        s@.wf(),
        dt <= DT_LIMIT,
    ensures
        r.0@.position == s@.position,
        r.0@.path == s@.path,
        r.0@.wf(),
        r.1 == (s@.timer.elapsed_ms + dt >= s@.timer.period_ms),
        r.1 ==> r.0@.timer == (RepeatTimer { period_ms: s@.timer.period_ms, elapsed_ms: 0 }),
        !r.1 ==> r.0@.timer == (RepeatTimer {
            period_ms: s@.timer.period_ms,
            elapsed_ms: (s@.timer.elapsed_ms + dt) as u64,
        }),
{
    let mut t = s.timer;
    let fired = t.tick(dt);
    (EnemySpawner { position: s.position, timer: t, path: clone_path(&s.path) }, fired)
}

/// An element-exact copy of a waypoint list.
fn clone_path(src: &Vec<Vec3i>) -> (r: Vec<Vec3i>)
    ensures
        r@ == src@,
{
    let mut r: Vec<Vec3i> = Vec::new();
    let mut i: usize = 0;
    while i < src.len()
        invariant
            i <= src.len(),
            r@ == src@.take(i as int),
        decreases src.len() - i,
    {
        r.push(src[i]);
        proof {
            assert(r@ =~= src@.take(i as int + 1));
        }
        i = i + 1;
    }
    proof {
        assert(r@ =~= src@);
    }
    r
}

/// The four authored perimeter spawners.
pub open spec fn default_spawners() -> Seq<SpawnerView> {
    seq![
        SpawnerView {
            position: Vec3i { x: 0i64, y: 500i64, z: -14_000i64 },
            timer: RepeatTimer { period_ms: 3_000u64, elapsed_ms: 0u64 },
            path: seq![
                Vec3i { x: -1_000i64, y: 500i64, z: -2_000i64 },
                Vec3i { x: 1_500i64, y: 500i64, z: -5_000i64 },
                Vec3i { x: -2_000i64, y: 500i64, z: -9_000i64 },
            ],
        },
        SpawnerView {
            position: Vec3i { x: 0i64, y: 500i64, z: 14_000i64 },
            timer: RepeatTimer { period_ms: 12_000u64, elapsed_ms: 0u64 },
            path: seq![
                Vec3i { x: 1_000i64, y: 500i64, z: 2_000i64 },
                Vec3i { x: -1_500i64, y: 500i64, z: 5_000i64 },
                Vec3i { x: 2_000i64, y: 500i64, z: 9_000i64 },
            ],
        },
        SpawnerView {
            position: Vec3i { x: 14_000i64, y: 500i64, z: 0i64 },
            timer: RepeatTimer { period_ms: 17_000u64, elapsed_ms: 0u64 },
            path: seq![
                Vec3i { x: 2_000i64, y: 500i64, z: 1_000i64 },
                Vec3i { x: 6_000i64, y: 500i64, z: -1_500i64 },
                Vec3i { x: 10_000i64, y: 500i64, z: 1_000i64 },
            ],
        },
        SpawnerView {
            position: Vec3i { x: -14_000i64, y: 500i64, z: 0i64 },
            timer: RepeatTimer { period_ms: 25_000u64, elapsed_ms: 0u64 },
            path: seq![
                Vec3i { x: -2_000i64, y: 500i64, z: -1_000i64 },
                Vec3i { x: -6_000i64, y: 500i64, z: 1_500i64 },
                Vec3i { x: -10_000i64, y: 500i64, z: -1_000i64 },
            ],
        },
    ]
}

/// Build the four authored perimeter spawners.
pub fn spawn_enemy_spawner() -> (v: Vec<EnemySpawner>)
    ensures
        v@.len() == 4,
        forall|i: int| 0 <= i < 4 ==> (#[trigger] v@[i])@ == default_spawners()[i],
        forall|i: int| 0 <= i < 4 ==> (#[trigger] v@[i])@.wf(),
    {
    let mut v: Vec<EnemySpawner> = Vec::new();

    let mut p0: Vec<Vec3i> = Vec::new();
    p0.push(Vec3i { x: -1_000, y: 500, z: -2_000 });
    p0.push(Vec3i { x: 1_500, y: 500, z: -5_000 });
    p0.push(Vec3i { x: -2_000, y: 500, z: -9_000 });
    v.push(
        EnemySpawner {
            position: Vec3i { x: 0, y: 500, z: -14_000 },
            timer: RepeatTimer::new(3_000),
            path: p0,
        },
    );

    let mut p1: Vec<Vec3i> = Vec::new();
    p1.push(Vec3i { x: 1_000, y: 500, z: 2_000 });
    p1.push(Vec3i { x: -1_500, y: 500, z: 5_000 });
    p1.push(Vec3i { x: 2_000, y: 500, z: 9_000 });
    v.push(
        EnemySpawner {
            position: Vec3i { x: 0, y: 500, z: 14_000 },
            timer: RepeatTimer::new(12_000),
            path: p1,
        },
    );

    let mut p2: Vec<Vec3i> = Vec::new();
    p2.push(Vec3i { x: 2_000, y: 500, z: 1_000 });
    p2.push(Vec3i { x: 6_000, y: 500, z: -1_500 });
    p2.push(Vec3i { x: 10_000, y: 500, z: 1_000 });
    v.push(
        EnemySpawner {
            position: Vec3i { x: 14_000, y: 500, z: 0 },
            timer: RepeatTimer::new(17_000),
            path: p2,
        },
    );

    let mut p3: Vec<Vec3i> = Vec::new();
    p3.push(Vec3i { x: -2_000, y: 500, z: -1_000 });
    p3.push(Vec3i { x: -6_000, y: 500, z: 1_500 });
    p3.push(Vec3i { x: -10_000, y: 500, z: -1_000 });
    v.push(
        EnemySpawner {
            position: Vec3i { x: -14_000, y: 500, z: 0 },
            timer: RepeatTimer::new(25_000),
            path: p3,
        },
    );

    proof {
        assert(v@[0]@.path =~= default_spawners()[0].path);
        assert(v@[1]@.path =~= default_spawners()[1].path);
        assert(v@[2]@.path =~= default_spawners()[2].path);
        assert(v@[3]@.path =~= default_spawners()[3].path);
        assert(v@[0]@ == default_spawners()[0]);
        assert(v@[1]@ == default_spawners()[1]);
        assert(v@[2]@ == default_spawners()[2]);
        assert(v@[3]@ == default_spawners()[3]);
    }
    v
}

} // verus!
