//! The simulation world and the fixed per-tick pass order.
//!
//! One `World` holds the spawners, the live enemies and bullets, the
//! player with the shot cooldown, the defended structure's health, and
//! the game-over flag.  A tick runs the components in the dependency
//! order the design fixes: spawners, enemy locomotion (arrivals damage
//! the structure), player control and upgrades, the projectile
//! lifecycle, the collision resolver over the physics collaborator's
//! reported events, and last the health sweep.  Entity identifiers are
//! handed out from a single counter, so every live enemy and bullet
//! carries a distinct id.

use vstd::prelude::*;

use crate::enemy::Enemy;
use crate::enemy::EnemySpawner;
use crate::enemy::EnemyView;
use crate::enemy::SpawnerView;
use crate::enemy::copy_enemy;
use crate::enemy::move_enemy_spec;
use crate::enemy::move_enemy_step;
use crate::enemy::spawn_enemy;
use crate::enemy::spawn_enemy_spawner;
use crate::enemy::spawned_enemy;
use crate::enemy::spawner_tick;
use crate::gun::Bullet;
use crate::gun::GunShootEvent;
use crate::gun::bullet_step;
use crate::gun::bullet_step_spec;
use crate::health::Health;
use crate::health::damaged;
use crate::player::InputFrame;
use crate::player::Player;
use crate::player::ShootCooldown;
use crate::player::apply_presses;
use crate::player::handle_player_move;
use crate::player::handle_player_move_spec;
use crate::player::handle_upgrades;
use crate::player::presses_of;
use crate::player::spawn_player;
use crate::player::success_count;
use crate::timer::CountdownTimer;
use crate::timer::DT_LIMIT;
use crate::timer::RepeatTimer;

verus! {

/// Damage one bullet deals before the damage upgrade, in health points.
pub const BASE_BULLET_DAMAGE: i64 = 10;

/// Additional bullet damage per damage level, in health points.
pub const DAMAGE_PER_LEVEL: i64 = 5;

/// Coins one defeated enemy awards.
pub const COIN_REWARD: u32 = 5;

/// Health the structure loses to one enemy arrival.
pub const STRUCTURE_DAMAGE: i64 = 10;

/// The structure's full (and starting) health.
pub const CPU_START_HEALTH: i64 = 100;

/// A begin-of-overlap report from the physics collaborator: the two
/// participants' entity identifiers.
#[derive(Clone, Copy, PartialEq, Eq, Structural, Debug)]
pub struct CollisionStart {
    pub collider1: u64,
    pub collider2: u64,
}

/// The side effects one tick owes the host: cue playbacks and counts
/// for the projections the host displays.
#[derive(Clone, Copy, PartialEq, Eq, Structural, Debug)]
pub struct TickOutput {
    pub arrivals: u64,
    pub shots: u32,
    pub defeats: u64,
    pub upgrades: u32,
}

/// The whole simulation state.
#[derive(Debug)]
pub struct World {
    pub next_id: u64,
    pub spawners: Vec<EnemySpawner>,
    pub enemies: Vec<Enemy>,
    pub bullets: Vec<Bullet>,
    pub player: Player,
    pub cooldown: ShootCooldown,
    pub cpu: Health,
    pub game_over: bool,
}

/// Mathematical image of a `World`.
pub ghost struct WorldView {
    pub next_id: u64,
    pub spawners: Seq<SpawnerView>,
    pub enemies: Seq<EnemyView>,
    pub bullets: Seq<Bullet>,
    pub player: Player,
    pub cooldown: CountdownTimer,
    pub cpu: Health,
    pub game_over: bool,
}

pub open spec fn spawner_views(s: Seq<EnemySpawner>) -> Seq<SpawnerView> {
    s.map_values(|x: EnemySpawner| x@)
}

pub open spec fn enemy_views(s: Seq<Enemy>) -> Seq<EnemyView> {
    s.map_values(|x: Enemy| x@)
}

impl View for World {
    type V = WorldView;

    open spec fn view(&self) -> WorldView {
        WorldView {
            next_id: self.next_id,
            spawners: spawner_views(self.spawners@),
            enemies: enemy_views(self.enemies@),
            bullets: self.bullets@,
            player: self.player,
            cooldown: self.cooldown.0,
            cpu: self.cpu,
            game_over: self.game_over,
        }
    }
}

impl WorldView {
    /// Well-formedness: every part in bounds, every live id below the
    /// counter, and all ids pairwise distinct.
    pub open spec fn wf(self) -> bool {
        &&& forall|i: int| 0 <= i < self.spawners.len() ==> (#[trigger] self.spawners[i]).wf()
        &&& forall|i: int|
            0 <= i < self.enemies.len() ==> (#[trigger] self.enemies[i]).wf()
                && self.enemies[i].id < self.next_id
        &&& forall|i: int|
            0 <= i < self.bullets.len() ==> (#[trigger] self.bullets[i]).wf()
                && self.bullets[i].id < self.next_id
        &&& forall|i: int, j: int|
            #![trigger self.enemies[i], self.enemies[j]]
            0 <= i < j < self.enemies.len() ==> self.enemies[i].id != self.enemies[j].id
        &&& forall|i: int, j: int|
            #![trigger self.bullets[i], self.bullets[j]]
            0 <= i < j < self.bullets.len() ==> self.bullets[i].id != self.bullets[j].id
        &&& forall|i: int, j: int|
            #![trigger self.enemies[i], self.bullets[j]]
            0 <= i < self.enemies.len() && 0 <= j < self.bullets.len() ==> self.enemies[i].id
                != self.bullets[j].id
        &&& self.player.wf()
        &&& self.cooldown.wf()
        &&& self.cpu.0 <= CPU_START_HEALTH
        &&& !self.game_over ==> self.cpu.0 >= 1
    }
}

/// The spawner pass of one tick: advance every spawner's timer in
/// order; each completion emits one enemy at the spawner's origin with
/// a copy of its path, under a fresh id (ids stop being handed out at
/// the machine cap of the counter, which no run can reach).
pub open spec fn spawn_pass(ss: Seq<SpawnerView>, next_id: u64, dt: int) -> (
    Seq<SpawnerView>,
    u64,
    Seq<EnemyView>,
)
    decreases ss.len(),
{
    if ss.len() == 0 {
        (ss, next_id, Seq::<EnemyView>::empty())
    } else {
        let r = spawn_pass(ss.drop_last(), next_id, dt);
        let s = ss.last();
        let fired = s.timer.elapsed_ms + dt >= s.timer.period_ms;
        let t2 = if fired {
            RepeatTimer { period_ms: s.timer.period_ms, elapsed_ms: 0 }
        } else {
            RepeatTimer {
                period_ms: s.timer.period_ms,
                elapsed_ms: (s.timer.elapsed_ms + dt) as u64,
            }
        };
        let s2 = SpawnerView { position: s.position, timer: t2, path: s.path };
        if fired && r.1 < u64::MAX {
            (r.0.push(s2), (r.1 + 1) as u64, r.2.push(spawned_enemy(s, r.1)))
        } else {
            (r.0.push(s2), r.1, r.2)
        }
    }
}

/// The projectile travel pass of one tick: every bullet already within
/// its arrival radius despawns, every other flies on, in order.
pub open spec fn bullet_pass(bs: Seq<Bullet>, dt: int) -> Seq<Bullet>
    decreases bs.len(),
{
    if bs.len() == 0 {
        bs
    } else {
        let r = bullet_pass(bs.drop_last(), dt);
        let m = bullet_step_spec(bs.last(), dt);
        if m.1 {
            r
        } else {
            r.push(m.0)
        }
    }
}

/// The locomotion pass of one tick: each enemy in order takes one
/// `move_enemy_spec` step.  An arrival removes the enemy, costs the
/// structure `STRUCTURE_DAMAGE` health and counts in the last
/// component; structure health at or below zero ends the run on the
/// spot — the game-over flag rises and the remaining enemies are left
/// untouched, as the session is over.
pub open spec fn move_pass(es: Seq<EnemyView>, cpu: Health, go: bool, dt: int) -> (
    Seq<EnemyView>,
    Health,
    bool,
    int,
)
    decreases es.len(),
{
    if es.len() == 0 {
        (es, cpu, go, 0)
    } else {
        let r = move_pass(es.drop_last(), cpu, go, dt);
        let e = es.last();
        if r.2 {
            (r.0.push(e), r.1, r.2, r.3)
        } else {
            let m = move_enemy_spec(e, dt);
            if !m.1 {
                (r.0.push(m.0), r.1, r.2, r.3)
            } else {
                let c2 = damaged(r.1, STRUCTURE_DAMAGE as int);
                (r.0, c2, c2.0 <= 0, r.3 + 1)
            }
        }
    }
}

/// The health sweep of one tick: every enemy whose health is at or
/// below zero is removed, unconditionally and without further effects.
pub open spec fn sweep(es: Seq<EnemyView>) -> Seq<EnemyView>
    decreases es.len(),
{
    if es.len() == 0 {
        es
    } else {
        let r = sweep(es.drop_last());
        if es.last().health.0 <= 0 {
            r
        } else {
            r.push(es.last())
        }
    }
}

/// Whether some live bullet carries this id.
pub open spec fn has_bullet(bs: Seq<Bullet>, id: u64) -> bool {
    exists|i: int| 0 <= i < bs.len() && (#[trigger] bs[i]).id == id
}

/// The index of the bullet with this id (ids are unique in a
/// well-formed world).
pub open spec fn bullet_index(bs: Seq<Bullet>, id: u64) -> int {
    choose|i: int| 0 <= i < bs.len() && (#[trigger] bs[i]).id == id
}

/// Whether some live enemy carries this id.
pub open spec fn has_enemy(es: Seq<EnemyView>, id: u64) -> bool {
    exists|i: int| 0 <= i < es.len() && (#[trigger] es[i]).id == id
}

/// The index of the enemy with this id.
pub open spec fn enemy_index(es: Seq<EnemyView>, id: u64) -> int {
    choose|i: int| 0 <= i < es.len() && (#[trigger] es[i]).id == id
}

/// Damage one bullet deals at the player's current damage level.
pub open spec fn damage_of(p: Player) -> int {
    BASE_BULLET_DAMAGE + DAMAGE_PER_LEVEL * p.damage_level
}

/// A coin balance after one defeat's award, held at the machine cap
/// (which no run can reach).
pub open spec fn awarded(coins: u32) -> u32 {
    if coins + COIN_REWARD <= u32::MAX {
        (coins + COIN_REWARD) as u32
    } else {
        u32::MAX
    }
}

/// The non-projectile half of a consumed collision: if it is a live
/// enemy, that enemy takes one bullet's damage; crossing to zero or
/// below awards the defeat's coins — only on the crossing, so one
/// enemy is never credited twice.  The enemy itself is not removed
/// here: the health sweep does that, later in the same tick.  Any
/// other participant (terrain, another projectile's trace, a stale
/// id) takes no effect.
pub open spec fn resolve_hit(w: WorldView, target: u64, dmg: int) -> (WorldView, int) {
    if has_enemy(w.enemies, target) {
        let j = enemy_index(w.enemies, target);
        let e = w.enemies[j];
        let h2 = damaged(e.health, dmg);
        let slain = e.health.0 > 0 && h2.0 <= 0;
        let e2 = EnemyView { health: h2, ..e };
        let p2 = if slain {
            Player { coins: awarded(w.player.coins), ..w.player }
        } else {
            w.player
        };
        (
            WorldView { enemies: w.enemies.update(j, e2), player: p2, ..w },
            if slain {
                1int
            } else {
                0int
            },
        )
    } else {
        (w, 0)
    }
}

/// One collision-start event through the resolver: if either
/// participant is a live projectile, that projectile is consumed
/// unconditionally, and the other participant is resolved as the hit
/// target.  An event naming no live projectile (both participants
/// something else, or a projectile already consumed earlier this
/// tick) is a no-op — `lemma_resolver_idempotent` states that law.
/// The second component counts the defeat, if any.
pub open spec fn resolve_spec(w: WorldView, ev: CollisionStart) -> (WorldView, int) {
    let dmg = damage_of(w.player);
    if has_bullet(w.bullets, ev.collider1) {
        let i = bullet_index(w.bullets, ev.collider1);
        resolve_hit(WorldView { bullets: w.bullets.remove(i), ..w }, ev.collider2, dmg)
    } else if has_bullet(w.bullets, ev.collider2) {
        let i = bullet_index(w.bullets, ev.collider2);
        resolve_hit(WorldView { bullets: w.bullets.remove(i), ..w }, ev.collider1, dmg)
    } else {
        (w, 0)
    }
}

/// A tick's worth of collision-start events through the resolver, in
/// report order; the second component counts the defeats.
pub open spec fn resolve_pass(w: WorldView, evs: Seq<CollisionStart>) -> (WorldView, int)
    decreases evs.len(),
{
    if evs.len() == 0 {
        (w, 0)
    } else {
        let r = resolve_pass(w, evs.drop_last());
        let s = resolve_spec(r.0, evs.last());
        (s.0, r.1 + s.1)
    }
}

/// What one tick leaves behind and owes the host.
pub ghost struct TickResult {
    pub world: WorldView,
    pub arrivals: int,
    pub shots: int,
    pub defeats: int,
    pub upgrades: int,
}

/// One whole tick: the per-component passes composed in the design's
/// fixed order.  After game over nothing runs; a run-ending arrival
/// stops the tick right after locomotion, as the session is over.
pub open spec fn tick_spec(w: WorldView, inp: InputFrame, evs: Seq<CollisionStart>, dt: int)
    -> TickResult {
    if w.game_over {
        TickResult { world: w, arrivals: 0, shots: 0, defeats: 0, upgrades: 0 }
    } else {
        let sp = spawn_pass(w.spawners, w.next_id, dt);
        let w1 = WorldView { spawners: sp.0, next_id: sp.1, enemies: w.enemies + sp.2, ..w };
        let mv = move_pass(w1.enemies, w1.cpu, w1.game_over, dt);
        let w2 = WorldView { enemies: mv.0, cpu: mv.1, game_over: mv.2, ..w1 };
        if mv.2 {
            TickResult { world: w2, arrivals: mv.3, shots: 0, defeats: 0, upgrades: 0 }
        } else {
            let pm = handle_player_move_spec(w2.player, w2.cooldown, inp, dt);
            let w3 = WorldView { player: pm.0, cooldown: pm.1, ..w2 };
            let up = apply_presses(w3.player, w3.cooldown, w3.cpu, presses_of(inp));
            let w4 = WorldView { player: up.0, cooldown: up.1, cpu: up.2, ..w3 };
            let shot = pm.2;
            let spawned = shot is Some && w4.next_id < u64::MAX;
            let w5 = if spawned {
                WorldView {
                    bullets: w4.bullets.push(
                        Bullet { id: w4.next_id, pos: shot->0.source, target: shot->0.target },
                    ),
                    next_id: (w4.next_id + 1) as u64,
                    ..w4
                }
            } else {
                w4
            };
            let w6 = WorldView { bullets: bullet_pass(w5.bullets, dt), ..w5 };
            let rs = resolve_pass(w6, evs);
            let w7 = WorldView { enemies: sweep(rs.0.enemies), ..rs.0 };
            TickResult {
                world: w7,
                arrivals: mv.3,
                shots: if spawned {
                    1int
                } else {
                    0int
                },
                defeats: rs.1,
                upgrades: success_count(w3.player, w3.cooldown, w3.cpu, presses_of(inp)),
            }
        }
    }
}

impl World {
    /// A fresh run: the four authored spawners, the player at the
    /// center, full structure health, and nothing else alive.
    pub fn new() -> (w: World)
        ensures
            w@.wf(),
            w@.next_id == 0,
            w@.spawners == crate::enemy::default_spawners(),
            w@.enemies.len() == 0,
            w@.bullets.len() == 0,
            w@.cpu == Health(CPU_START_HEALTH),
            !w@.game_over,
            w@.player.coins == 0,
    {
        let (player, cooldown) = spawn_player();
        let w = World {
            next_id: 0,
            spawners: spawn_enemy_spawner(),
            enemies: Vec::new(),
            bullets: Vec::new(),
            player,
            cooldown,
            cpu: Health(CPU_START_HEALTH),
            game_over: false,
        };
        proof {
            assert(w@.spawners =~= crate::enemy::default_spawners());
        }
        w
    }

    /// Run the spawner pass of one tick.
    pub fn handle_enemy_spawn(&mut self, dt: u64)
        requires
            old(self)@.wf(),
            dt <= DT_LIMIT,
        ensures
            final(self)@.wf(),
            ({
                let r = spawn_pass(old(self)@.spawners, old(self)@.next_id, dt as int);
                &&& final(self)@.spawners == r.0
                &&& final(self)@.next_id == r.1
                &&& final(self)@.enemies == old(self)@.enemies + r.2
            }),
            final(self)@.bullets == old(self)@.bullets,
            final(self)@.player == old(self)@.player,
            final(self)@.cooldown == old(self)@.cooldown,
            final(self)@.cpu == old(self)@.cpu,
            final(self)@.game_over == old(self)@.game_over,
    {
        let ghost ss0 = self@.spawners;
        let ghost en0 = self@.enemies;
        let ghost nid0 = self.next_id;
        proof {
            assert forall|k: int| 0 <= k < self.enemies@.len() implies (#[trigger] self.enemies@[k])@.wf()
                && self.enemies@[k]@.id < self.next_id by {
                assert(self@.enemies[k] == self.enemies@[k]@);
                assert(self@.enemies[k].wf() && self@.enemies[k].id < self@.next_id);
            }
            assert forall|k: int, l: int|
                #![trigger self.enemies@[k], self.enemies@[l]]
                0 <= k < l < self.enemies@.len() implies self.enemies@[k]@.id
                != self.enemies@[l]@.id by {
                assert(self@.enemies[k] == self.enemies@[k]@);
                assert(self@.enemies[l] == self.enemies@[l]@);
            }
            assert forall|k: int, l: int|
                #![trigger self.enemies@[k], self.bullets@[l]]
                0 <= k < self.enemies@.len() && 0 <= l < self.bullets@.len()
                implies self.enemies@[k]@.id != self.bullets@[l].id by {
                assert(self@.enemies[k] == self.enemies@[k]@);
                assert(self@.bullets[l] == self.bullets@[l]);
            }
        }
        let n = self.spawners.len();
        let mut out: Vec<EnemySpawner> = Vec::new();
        let mut i: usize = 0;
        while i < n
            invariant
                0 <= i <= n,
                n == self.spawners.len(),
                self.spawners@ == old(self).spawners@,
                ss0 == spawner_views(self.spawners@),
                en0 == enemy_views(old(self).enemies@),
                nid0 == old(self)@.next_id,
                old(self)@.wf(),
                nid0 <= self.next_id,
                ({
                    let r = spawn_pass(ss0.take(i as int), nid0, dt as int);
                    &&& spawner_views(out@) == r.0
                    &&& self.next_id == r.1
                    &&& enemy_views(self.enemies@) == en0 + r.2
                }),
                forall|k: int|
                    0 <= k < out@.len() ==> (#[trigger] out@[k])@.wf(),
                forall|k: int|
                    0 <= k < self.enemies@.len() ==> (#[trigger] self.enemies@[k])@.wf()
                        && self.enemies@[k]@.id < self.next_id,
                forall|k: int, l: int|
                    #![trigger self.enemies@[k], self.enemies@[l]]
                    0 <= k < l < self.enemies@.len() ==> self.enemies@[k]@.id
                        != self.enemies@[l]@.id,
                forall|k: int, l: int|
                    #![trigger self.enemies@[k], self.bullets@[l]]
                    0 <= k < self.enemies@.len() && 0 <= l < self.bullets@.len()
                        ==> self.enemies@[k]@.id != self.bullets@[l].id,
                self.bullets@ == old(self).bullets@,
                self.player == old(self).player,
                self.cooldown == old(self).cooldown,
                self.cpu == old(self).cpu,
                self.game_over == old(self).game_over,
                dt <= DT_LIMIT,
            decreases n - i,
        {
            proof {
                assert(ss0.take(i as int + 1).drop_last() =~= ss0.take(i as int));
                assert(ss0.take(i as int + 1).last() == ss0[i as int]);
                assert(self.spawners@[i as int]@ == ss0[i as int]);
                assert(ss0 == old(self)@.spawners);
                assert(old(self)@.spawners[i as int].wf());
            }
            let (s2, fired) = spawner_tick(&self.spawners[i], dt);
            if fired && self.next_id < u64::MAX {
                let e = spawn_enemy(&self.spawners[i], self.next_id);
                let ghost prev_en = self.enemies@;
                self.next_id = self.next_id + 1;
                self.enemies.push(e);
                proof {
                    assert(enemy_views(self.enemies@) =~= enemy_views(prev_en).push(e@));
                    assert(self.enemies@[self.enemies@.len() - 1]@ == e@);
                    assert forall|l: int| 0 <= l < self.bullets@.len() implies (
                        #[trigger] self.bullets@[l]).id < nid0 by {
                        assert(old(self)@.bullets[l].id < old(self)@.next_id);
                        assert(self.bullets@[l] == old(self)@.bullets[l]);
                    }
                }
            }
            let ghost prev_out = out@;
            out.push(s2);
            proof {
                assert(spawner_views(out@) =~= spawner_views(prev_out).push(s2@));
            }
            i = i + 1;
        }
        proof {
            assert(ss0.take(n as int) =~= ss0);
        }
        self.spawners = out;
        proof {
            assert(ss0 == old(self)@.spawners);
            assert(en0 == old(self)@.enemies);
            assert forall|k: int| 0 <= k < self@.spawners.len() implies (
                #[trigger] self@.spawners[k]).wf() by {
                assert(self@.spawners[k] == self.spawners@[k]@);
            }
            assert forall|k: int| 0 <= k < self@.enemies.len() implies (#[trigger] self@.enemies[k]).wf()
                && self@.enemies[k].id < self@.next_id by {
                assert(self@.enemies[k] == self.enemies@[k]@);
            }
            assert forall|i: int, j: int|
                #![trigger self@.enemies[i], self@.enemies[j]]
                0 <= i < j < self@.enemies.len() implies self@.enemies[i].id
                != self@.enemies[j].id by {
                assert(self@.enemies[i] == self.enemies@[i]@);
                assert(self@.enemies[j] == self.enemies@[j]@);
            }
            assert forall|i: int, j: int|
                #![trigger self@.enemies[i], self@.bullets[j]]
                0 <= i < self@.enemies.len() && 0 <= j < self@.bullets.len()
                implies self@.enemies[i].id != self@.bullets[j].id by {
                assert(self@.enemies[i] == self.enemies@[i]@);
                assert(self@.bullets[j] == self.bullets@[j]);
            }
            assert forall|i: int| 0 <= i < self@.bullets.len() implies (
                #[trigger] self@.bullets[i]).wf() && self@.bullets[i].id < self@.next_id by {
                assert(self@.bullets[i] == old(self)@.bullets[i]);
                assert(old(self)@.bullets[i].wf() && old(self)@.bullets[i].id < old(
                    self,
                )@.next_id);
            }
            assert forall|i: int, j: int|
                #![trigger self@.bullets[i], self@.bullets[j]]
                0 <= i < j < self@.bullets.len() implies self@.bullets[i].id
                != self@.bullets[j].id by {
                assert(self@.bullets[i] == old(self)@.bullets[i]);
                assert(self@.bullets[j] == old(self)@.bullets[j]);
                assert(old(self)@.bullets[i].id != old(self)@.bullets[j].id);
            }
        }
    }

    /// Spawn the projectile a shoot request asks for (the projectile
    /// lifecycle's spawn half); the result says whether one spawned,
    /// which owes one impact cue.
    pub fn handle_shoot(&mut self, shot: &Option<GunShootEvent>) -> (spawned: bool)
        requires
            old(self)@.wf(),
            shot is Some ==> shot->0.wf(),
        ensures
            final(self)@.wf(),
            spawned == (shot is Some && old(self)@.next_id < u64::MAX),
            spawned ==> final(self)@.bullets == old(self)@.bullets.push(
                Bullet { id: old(self)@.next_id, pos: shot->0.source, target: shot->0.target },
            ) && final(self)@.next_id == old(self)@.next_id + 1,
            !spawned ==> final(self)@.bullets == old(self)@.bullets && final(self)@.next_id == old(
                self,
            )@.next_id,
            final(self)@.spawners == old(self)@.spawners,
            final(self)@.enemies == old(self)@.enemies,
            final(self)@.player == old(self)@.player,
            final(self)@.cooldown == old(self)@.cooldown,
            final(self)@.cpu == old(self)@.cpu,
            final(self)@.game_over == old(self)@.game_over,
    {
        match shot {
            Some(ev) => {
                if self.next_id < u64::MAX {
                    let ghost w0 = self@;
                    self.bullets.push(Bullet { id: self.next_id, pos: ev.source, target: ev.target });
                    self.next_id = self.next_id + 1;
                    proof {
                        let last = self@.bullets.len() - 1;
                        assert forall|i: int, j: int|
                            #![trigger self@.bullets[i], self@.bullets[j]]
                            0 <= i < j < self@.bullets.len() implies self@.bullets[i].id
                            != self@.bullets[j].id by {
                            if j == last {
                                assert(w0.bullets[i].id < w0.next_id);
                            }
                        }
                        assert forall|i: int, j: int|
                            #![trigger self@.enemies[i], self@.bullets[j]]
                            0 <= i < self@.enemies.len() && 0 <= j < self@.bullets.len()
                            implies self@.enemies[i].id != self@.bullets[j].id by {
                            if j == last {
                                assert(w0.enemies[i].id < w0.next_id);
                            } else {
                                assert(w0.enemies[i].id != w0.bullets[j].id);
                            }
                        }
                        assert forall|i: int| 0 <= i < self@.bullets.len() implies (
                            #[trigger] self@.bullets[i]).wf() && self@.bullets[i].id
                            < self@.next_id by {
                            if i < last {
                                assert(w0.bullets[i].wf() && w0.bullets[i].id < w0.next_id);
                            }
                        }
                        assert forall|i: int| 0 <= i < self@.enemies.len() implies (
                            #[trigger] self@.enemies[i]).wf() && self@.enemies[i].id
                            < self@.next_id by {
                            assert(self@.enemies[i] == w0.enemies[i]);
                            assert(w0.enemies[i].wf() && w0.enemies[i].id < w0.next_id);
                        }
                        assert forall|i: int| 0 <= i < self@.spawners.len() implies (
                            #[trigger] self@.spawners[i]).wf() by {
                            assert(self@.spawners[i] == w0.spawners[i]);
                            assert(w0.spawners[i].wf());
                        }
                        assert forall|i: int, j: int|
                            #![trigger self@.enemies[i], self@.enemies[j]]
                            0 <= i < j < self@.enemies.len() implies self@.enemies[i].id
                            != self@.enemies[j].id by {
                            assert(self@.enemies[i] == w0.enemies[i]);
                            assert(self@.enemies[j] == w0.enemies[j]);
                            assert(w0.enemies[i].id != w0.enemies[j].id);
                        }
                    }
                    true
                } else {
                    false
                }
            },
            None => false,
        }
    }

    /// Run the projectile travel pass of one tick (the lifecycle's
    /// travel half).
    pub fn handle_bullet_move(&mut self, dt: u64)
        requires
            old(self)@.wf(),
            dt <= DT_LIMIT,
        ensures
            final(self)@.wf(),
            final(self)@.bullets == bullet_pass(old(self)@.bullets, dt as int),
            final(self)@.spawners == old(self)@.spawners,
            final(self)@.enemies == old(self)@.enemies,
            final(self)@.next_id == old(self)@.next_id,
            final(self)@.player == old(self)@.player,
            final(self)@.cooldown == old(self)@.cooldown,
            final(self)@.cpu == old(self)@.cpu,
            final(self)@.game_over == old(self)@.game_over,
    {
        let ghost bs0 = self.bullets@;
        proof {
            assert(bs0 == old(self)@.bullets);
        }
        let n = self.bullets.len();
        let mut out: Vec<Bullet> = Vec::new();
        let mut i: usize = 0;
        while i < n
            invariant
                0 <= i <= n,
                n == self.bullets.len(),
                self.bullets@ == bs0,
                out@ == bullet_pass(bs0.take(i as int), dt as int),
                forall|k: int| 0 <= k < bs0.len() ==> (#[trigger] bs0[k]).wf(),
                forall|k: int| 0 <= k < out@.len() ==> (#[trigger] out@[k]).wf(),
                dt <= DT_LIMIT,
            decreases n - i,
        {
            proof {
                assert(bs0.take(i as int + 1).drop_last() =~= bs0.take(i as int));
                assert(bs0.take(i as int + 1).last() == bs0[i as int]);
            }
            let mut b = self.bullets[i];
            let gone = bullet_step(&mut b, dt);
            if !gone {
                out.push(b);
            }
            i = i + 1;
        }
        proof {
            assert(bs0.take(n as int) =~= bs0);
        }
        self.bullets = out;
        proof {
            lemma_bullet_pass_keeps(bs0, old(self)@.next_id, dt as int);
            let bp = bullet_pass(bs0, dt as int);
            assert(self@.bullets == bp);
            assert forall|i: int, j: int|
                #![trigger self@.enemies[i], self@.bullets[j]]
                0 <= i < self@.enemies.len() && 0 <= j < self@.bullets.len()
                implies self@.enemies[i].id != self@.bullets[j].id by {
                assert(self@.bullets[j] == bp[j]);
                assert(exists|k: int| 0 <= k < bs0.len() && bp[j].id == bs0[k].id);
                let k = choose|k: int| 0 <= k < bs0.len() && bp[j].id == bs0[k].id;
                assert(self@.enemies[i] == old(self)@.enemies[i]);
                assert(old(self)@.enemies[i].id != old(self)@.bullets[k].id);
            }
            assert forall|i: int| 0 <= i < self@.bullets.len() implies (
                #[trigger] self@.bullets[i]).wf() && self@.bullets[i].id < self@.next_id by {
                assert(self@.bullets[i] == out@[i]);
                assert(out@[i].wf());
                assert(bp[i].id < old(self)@.next_id);
            }
            assert forall|i: int, j: int|
                #![trigger self@.bullets[i], self@.bullets[j]]
                0 <= i < j < self@.bullets.len() implies self@.bullets[i].id
                != self@.bullets[j].id by {
                assert(self@.bullets[i] == bp[i]);
                assert(self@.bullets[j] == bp[j]);
                assert(bp[i].id != bp[j].id);
            }
            assert forall|i: int| 0 <= i < self@.enemies.len() implies (
                #[trigger] self@.enemies[i]).wf() && self@.enemies[i].id < self@.next_id by {
                assert(self@.enemies[i] == old(self)@.enemies[i]);
                assert(old(self)@.enemies[i].wf() && old(self)@.enemies[i].id < old(
                    self,
                )@.next_id);
            }
            assert forall|i: int, j: int|
                #![trigger self@.enemies[i], self@.enemies[j]]
                0 <= i < j < self@.enemies.len() implies self@.enemies[i].id
                != self@.enemies[j].id by {
                assert(self@.enemies[i] == old(self)@.enemies[i]);
                assert(self@.enemies[j] == old(self)@.enemies[j]);
                assert(old(self)@.enemies[i].id != old(self)@.enemies[j].id);
            }
            assert forall|i: int| 0 <= i < self@.spawners.len() implies (
                #[trigger] self@.spawners[i]).wf() by {
                assert(self@.spawners[i] == old(self)@.spawners[i]);
                assert(old(self)@.spawners[i].wf());
            }
        }
    }

    /// Run the locomotion pass of one tick; the result counts the
    /// arrivals at the structure (each owes a health-bar update, and a
    /// game-over if the structure's health is gone).
    pub fn move_enemy(&mut self, dt: u64) -> (arrivals: u64)
        requires
            old(self)@.wf(),
            dt <= DT_LIMIT,
        ensures
            final(self)@.wf(),
            ({
                let r = move_pass(
                    old(self)@.enemies,
                    old(self)@.cpu,
                    old(self)@.game_over,
                    dt as int,
                );
                &&& final(self)@.enemies == r.0
                &&& final(self)@.cpu == r.1
                &&& final(self)@.game_over == r.2
                &&& arrivals as int == r.3
            }),
            final(self)@.spawners == old(self)@.spawners,
            final(self)@.bullets == old(self)@.bullets,
            final(self)@.next_id == old(self)@.next_id,
            final(self)@.player == old(self)@.player,
            final(self)@.cooldown == old(self)@.cooldown,
    {
        let ghost es0 = self@.enemies;
        let ghost cpu0 = self.cpu;
        let ghost go0 = self.game_over;
        proof {
            assert forall|k: int| 0 <= k < es0.len() implies (#[trigger] es0[k]).wf()
                && es0[k].id < self.next_id by {
                assert(self@.enemies[k].wf() && self@.enemies[k].id < self@.next_id);
            }
            assert forall|k: int, l: int|
                #![trigger es0[k], es0[l]]
                0 <= k < l < es0.len() implies es0[k].id != es0[l].id by {
                assert(self@.enemies[k].id != self@.enemies[l].id);
            }
        }
        let n = self.enemies.len();
        let mut out: Vec<Enemy> = Vec::new();
        let mut arrivals: u64 = 0;
        let mut i: usize = 0;
        while i < n
            invariant
                0 <= i <= n,
                n == self.enemies.len(),
                es0 == enemy_views(self.enemies@),
                es0.len() == n,
                old(self)@.wf(),
                forall|k: int| 0 <= k < es0.len() ==> (#[trigger] es0[k]).wf(),
                forall|k: int, l: int|
                    #![trigger es0[k], es0[l]]
                    0 <= k < l < es0.len() ==> es0[k].id != es0[l].id,
                cpu0 == old(self)@.cpu,
                go0 == old(self)@.game_over,
                ({
                    let r = move_pass(es0.take(i as int), cpu0, go0, dt as int);
                    &&& enemy_views(out@) == r.0
                    &&& self.cpu == r.1
                    &&& self.game_over == r.2
                    &&& arrivals as int == r.3
                }),
                arrivals <= i as u64,
                forall|k: int|
                    0 <= k < out@.len() ==> (#[trigger] out@[k])@.wf(),
                forall|k: int|
                    0 <= k < out@.len() ==> exists|m: int|
                        0 <= m < i && (#[trigger] out@[k])@.id == es0[m].id,
                forall|k: int, l: int|
                    #![trigger out@[k], out@[l]]
                    0 <= k < l < out@.len() ==> out@[k]@.id != out@[l]@.id,
                self.cpu.0 <= CPU_START_HEALTH,
                !self.game_over ==> self.cpu.0 >= 1,
                self.spawners@ == old(self).spawners@,
                self.bullets@ == old(self).bullets@,
                self.next_id == old(self).next_id,
                self.player == old(self).player,
                self.cooldown == old(self).cooldown,
                dt <= DT_LIMIT,
            decreases n - i,
        {
            proof {
                assert(es0.take(i as int + 1).drop_last() =~= es0.take(i as int));
                assert(es0.take(i as int + 1).last() == es0[i as int]);
                assert(self.enemies@[i as int]@ == es0[i as int]);
            }
            if self.game_over {
                let e = copy_enemy(&self.enemies[i]);
                let ghost prev_out = out@;
                out.push(e);
                proof {
                    assert(enemy_views(out@) =~= enemy_views(prev_out).push(e@));
                    lemma_out_push_fresh(prev_out, e, es0, i as int);
                }
            } else {
                let mut e = copy_enemy(&self.enemies[i]);
                let arrived = move_enemy_step(&mut e, dt);
                if !arrived {
                    let ghost prev_out = out@;
                    out.push(e);
                    proof {
                        assert(enemy_views(out@) =~= enemy_views(prev_out).push(e@));
                        lemma_out_push_fresh(prev_out, e, es0, i as int);
                    }
                } else {
                    arrivals = arrivals + 1;
                    self.cpu.damage(STRUCTURE_DAMAGE);
                    if self.cpu.is_dead() {
                        self.game_over = true;
                    }
                }
            }
            i = i + 1;
        }
        proof {
            assert(es0.take(n as int) =~= es0);
        }
        self.enemies = out;
        proof {
            assert(es0 == old(self)@.enemies);
            assert forall|k: int| 0 <= k < self@.enemies.len() implies (
                #[trigger] self@.enemies[k]).wf() && self@.enemies[k].id < self@.next_id by {
                assert(self@.enemies[k] == self.enemies@[k]@);
                assert(exists|m: int|
                    0 <= m < n && (#[trigger] self.enemies@[k])@.id == es0[m].id);
                let m = choose|m: int| 0 <= m < n && self.enemies@[k]@.id == es0[m].id;
                assert(es0[m].id < old(self)@.next_id);
            }
            assert forall|k: int, l: int|
                #![trigger self@.enemies[k], self@.enemies[l]]
                0 <= k < l < self@.enemies.len() implies self@.enemies[k].id
                != self@.enemies[l].id by {
                assert(self@.enemies[k] == self.enemies@[k]@);
                assert(self@.enemies[l] == self.enemies@[l]@);
            }
            assert forall|k: int, l: int|
                #![trigger self@.enemies[k], self@.bullets[l]]
                0 <= k < self@.enemies.len() && 0 <= l < self@.bullets.len()
                implies self@.enemies[k].id != self@.bullets[l].id by {
                assert(self@.enemies[k] == self.enemies@[k]@);
                assert(exists|m: int|
                    0 <= m < n && (#[trigger] self.enemies@[k])@.id == es0[m].id);
                let m = choose|m: int| 0 <= m < n && self.enemies@[k]@.id == es0[m].id;
                assert(old(self)@.enemies[m].id != old(self)@.bullets[l].id);
                assert(self@.bullets[l] == old(self)@.bullets[l]);
            }
            assert forall|k: int| 0 <= k < self@.spawners.len() implies (
                #[trigger] self@.spawners[k]).wf() by {
                assert(self@.spawners[k] == old(self)@.spawners[k]);
                assert(old(self)@.spawners[k].wf());
            }
            assert forall|k: int| 0 <= k < self@.bullets.len() implies (
                #[trigger] self@.bullets[k]).wf() && self@.bullets[k].id < self@.next_id by {
                assert(self@.bullets[k] == old(self)@.bullets[k]);
                assert(old(self)@.bullets[k].wf() && old(self)@.bullets[k].id < old(
                    self,
                )@.next_id);
            }
            assert forall|k: int, l: int|
                #![trigger self@.bullets[k], self@.bullets[l]]
                0 <= k < l < self@.bullets.len() implies self@.bullets[k].id
                != self@.bullets[l].id by {
                assert(self@.bullets[k] == old(self)@.bullets[k]);
                assert(self@.bullets[l] == old(self)@.bullets[l]);
                assert(old(self)@.bullets[k].id != old(self)@.bullets[l].id);
            }
        }
        arrivals
    }

    /// Run the health sweep of one tick: remove every enemy whose
    /// health is at or below zero.
    pub fn kill_when_no_more_health(&mut self)
        requires
            old(self)@.wf(),
        ensures
            final(self)@.wf(),
            final(self)@.enemies == sweep(old(self)@.enemies),
            final(self)@.spawners == old(self)@.spawners,
            final(self)@.bullets == old(self)@.bullets,
            final(self)@.next_id == old(self)@.next_id,
            final(self)@.player == old(self)@.player,
            final(self)@.cooldown == old(self)@.cooldown,
            final(self)@.cpu == old(self)@.cpu,
            final(self)@.game_over == old(self)@.game_over,
    {
        let ghost es0 = self@.enemies;
        proof {
            assert forall|k: int| 0 <= k < es0.len() implies (#[trigger] es0[k]).wf()
                && es0[k].id < self.next_id by {
                assert(self@.enemies[k].wf() && self@.enemies[k].id < self@.next_id);
            }
            assert forall|k: int, l: int|
                #![trigger es0[k], es0[l]]
                0 <= k < l < es0.len() implies es0[k].id != es0[l].id by {
                assert(self@.enemies[k].id != self@.enemies[l].id);
            }
        }
        let n = self.enemies.len();
        let mut out: Vec<Enemy> = Vec::new();
        let mut i: usize = 0;
        while i < n
            invariant
                0 <= i <= n,
                n == self.enemies.len(),
                es0 == enemy_views(self.enemies@),
                es0.len() == n,
                forall|k: int| 0 <= k < es0.len() ==> (#[trigger] es0[k]).wf(),
                forall|k: int, l: int|
                    #![trigger es0[k], es0[l]]
                    0 <= k < l < es0.len() ==> es0[k].id != es0[l].id,
                enemy_views(out@) == sweep(es0.take(i as int)),
                forall|k: int|
                    0 <= k < out@.len() ==> (#[trigger] out@[k])@.wf(),
                forall|k: int|
                    0 <= k < out@.len() ==> exists|m: int|
                        0 <= m < i && (#[trigger] out@[k])@.id == es0[m].id,
                forall|k: int, l: int|
                    #![trigger out@[k], out@[l]]
                    0 <= k < l < out@.len() ==> out@[k]@.id != out@[l]@.id,
            decreases n - i,
        {
            proof {
                assert(es0.take(i as int + 1).drop_last() =~= es0.take(i as int));
                assert(es0.take(i as int + 1).last() == es0[i as int]);
                assert(self.enemies@[i as int]@ == es0[i as int]);
            }
            if self.enemies[i].health.0 > 0 {
                let e = copy_enemy(&self.enemies[i]);
                let ghost prev_out = out@;
                out.push(e);
                proof {
                    assert(enemy_views(out@) =~= enemy_views(prev_out).push(e@));
                    lemma_out_push_fresh(prev_out, e, es0, i as int);
                }
            }
            i = i + 1;
        }
        proof {
            assert(es0.take(n as int) =~= es0);
        }
        let ghost w0 = old(self)@;
        self.enemies = out;
        proof {
            assert(es0 == w0.enemies);
            assert forall|k: int| 0 <= k < self@.enemies.len() implies (
                #[trigger] self@.enemies[k]).wf() && self@.enemies[k].id < self@.next_id by {
                assert(self@.enemies[k] == self.enemies@[k]@);
                assert(exists|m: int|
                    0 <= m < n && (#[trigger] self.enemies@[k])@.id == es0[m].id);
                let m = choose|m: int| 0 <= m < n && self.enemies@[k]@.id == es0[m].id;
                assert(es0[m].id < w0.next_id);
            }
            assert forall|k: int, l: int|
                #![trigger self@.enemies[k], self@.enemies[l]]
                0 <= k < l < self@.enemies.len() implies self@.enemies[k].id
                != self@.enemies[l].id by {
                assert(self@.enemies[k] == self.enemies@[k]@);
                assert(self@.enemies[l] == self.enemies@[l]@);
            }
            assert forall|k: int, l: int|
                #![trigger self@.enemies[k], self@.bullets[l]]
                0 <= k < self@.enemies.len() && 0 <= l < self@.bullets.len()
                implies self@.enemies[k].id != self@.bullets[l].id by {
                assert(self@.enemies[k] == self.enemies@[k]@);
                assert(exists|m: int|
                    0 <= m < n && (#[trigger] self.enemies@[k])@.id == es0[m].id);
                let m = choose|m: int| 0 <= m < n && self.enemies@[k]@.id == es0[m].id;
                assert(w0.enemies[m].id != w0.bullets[l].id);
                assert(self@.bullets[l] == w0.bullets[l]);
            }
            assert forall|k: int| 0 <= k < self@.spawners.len() implies (
                #[trigger] self@.spawners[k]).wf() by {
                assert(self@.spawners[k] == w0.spawners[k]);
                assert(w0.spawners[k].wf());
            }
            assert forall|k: int| 0 <= k < self@.bullets.len() implies (
                #[trigger] self@.bullets[k]).wf() && self@.bullets[k].id < self@.next_id by {
                assert(self@.bullets[k] == w0.bullets[k]);
                assert(w0.bullets[k].wf() && w0.bullets[k].id < w0.next_id);
            }
            assert forall|k: int, l: int|
                #![trigger self@.bullets[k], self@.bullets[l]]
                0 <= k < l < self@.bullets.len() implies self@.bullets[k].id
                != self@.bullets[l].id by {
                assert(self@.bullets[k] == w0.bullets[k]);
                assert(self@.bullets[l] == w0.bullets[l]);
                assert(w0.bullets[k].id != w0.bullets[l].id);
            }
        }
    }

    /// Run one collision-start event through the resolver; the result
    /// says whether an enemy was defeated by it (which owes a defeat
    /// cue).
    pub fn resolve_collision(&mut self, ev: &CollisionStart) -> (slain: bool)
        requires
            old(self)@.wf(),
        ensures
            final(self)@.wf(),
            (final(self)@, if slain { 1int } else { 0int }) == resolve_spec(old(self)@, *ev),
            final(self)@.spawners == old(self)@.spawners,
            final(self)@.next_id == old(self)@.next_id,
            final(self)@.cooldown == old(self)@.cooldown,
            final(self)@.cpu == old(self)@.cpu,
            final(self)@.game_over == old(self)@.game_over,
    {
        let ghost w0 = self@;
        let ghost braw0 = self.bullets@;
        let target_id: u64;
        if let Some(i) = find_bullet(&self.bullets, ev.collider1) {
            proof {
                lemma_found_is_the_bullet(w0.bullets, ev.collider1, i as int);
            }
            self.bullets.remove(i);
            target_id = ev.collider2;
        } else if let Some(i) = find_bullet(&self.bullets, ev.collider2) {
            proof {
                lemma_found_is_the_bullet(w0.bullets, ev.collider2, i as int);
            }
            self.bullets.remove(i);
            target_id = ev.collider1;
        } else {
            return false;
        }
        proof {
            assert forall|k: int| 0 <= k < self@.bullets.len() implies (
                #[trigger] self@.bullets[k]).wf() && self@.bullets[k].id < self@.next_id
                && (exists|m: int| 0 <= m < w0.bullets.len() && self@.bullets[k]
                == #[trigger] w0.bullets[m]) by {
                if k < self@.bullets.len() {
                    assert(self@.bullets[k] == w0.bullets[k] || self@.bullets[k] == w0.bullets[k
                        + 1]);
                }
            }
            assert forall|k: int, l: int|
                #![trigger self@.bullets[k], self@.bullets[l]]
                0 <= k < l < self@.bullets.len() implies self@.bullets[k].id
                != self@.bullets[l].id by {
                assert(self@.bullets[k] == w0.bullets[k] || self@.bullets[k] == w0.bullets[k + 1]);
                assert(self@.bullets[l] == w0.bullets[l] || self@.bullets[l] == w0.bullets[l + 1]);
            }
            assert forall|k: int, l: int|
                #![trigger self@.enemies[k], self@.bullets[l]]
                0 <= k < self@.enemies.len() && 0 <= l < self@.bullets.len()
                implies self@.enemies[k].id != self@.bullets[l].id by {
                assert(self@.bullets[l] == w0.bullets[l] || self@.bullets[l] == w0.bullets[l + 1]);
                assert(self@.enemies[k] == w0.enemies[k]);
            }
        }
        let ghost w1 = self@;
        let ghost eraw1 = self.enemies@;
        let dmg: i64 = BASE_BULLET_DAMAGE + DAMAGE_PER_LEVEL * (self.player.damage_level as i64);
        proof {
            assert(dmg as int == damage_of(w0.player));
        }
        let slain: bool;
        if let Some(j) = find_enemy(&self.enemies, target_id) {
            proof {
                lemma_found_is_the_enemy(w1.enemies, target_id, j as int);
            }
            let mut e = self.enemies.remove(j);
            let ghost eold = e@;
            let was_alive = e.health.0 > 0;
            e.health.damage(dmg);
            slain = was_alive && e.health.0 <= 0;
            self.enemies.insert(j, e);
            proof {
                assert(self.enemies@ =~= eraw1.update(j as int, e));
                assert(enemy_views(self.enemies@) =~= w1.enemies.update(j as int, e@));
                assert(e@ == (EnemyView { health: damaged(eold.health, dmg as int), ..eold }));
            }
            if slain {
                if self.player.coins <= u32::MAX - COIN_REWARD {
                    self.player.coins = self.player.coins + COIN_REWARD;
                } else {
                    self.player.coins = u32::MAX;
                }
            }
            proof {
                assert(self@.enemies == w1.enemies.update(j as int, (EnemyView {
                    health: damaged(eold.health, dmg as int),
                    ..eold
                })));
                assert forall|k: int| 0 <= k < self@.enemies.len() implies (
                    #[trigger] self@.enemies[k]).wf() && self@.enemies[k].id < self@.next_id by {
                    if k != j as int {
                        assert(self@.enemies[k] == w1.enemies[k]);
                    }
                }
                assert forall|k: int, l: int|
                    #![trigger self@.enemies[k], self@.enemies[l]]
                    0 <= k < l < self@.enemies.len() implies self@.enemies[k].id
                    != self@.enemies[l].id by {
                    assert(self@.enemies[k].id == w1.enemies[k].id);
                    assert(self@.enemies[l].id == w1.enemies[l].id);
                }
                assert forall|k: int, l: int|
                    #![trigger self@.enemies[k], self@.bullets[l]]
                    0 <= k < self@.enemies.len() && 0 <= l < self@.bullets.len()
                    implies self@.enemies[k].id != self@.bullets[l].id by {
                    assert(self@.enemies[k].id == w1.enemies[k].id);
                    assert(w1.enemies[k].id != w1.bullets[l].id);
                }
            }
        } else {
            slain = false;
        }
        proof {
            assert(w1 == (WorldView {
                bullets: w0.bullets.remove(bullet_index(w0.bullets, if has_bullet(
                    w0.bullets,
                    ev.collider1,
                ) {
                    ev.collider1
                } else {
                    ev.collider2
                })),
                ..w0
            }));
        }
        slain
    }

    /// Run the resolver pass of one tick over the collision-start
    /// events the physics collaborator reported; the result counts the
    /// defeats (each owes a defeat cue).
    pub fn handle_enemy_hit(&mut self, events: &Vec<CollisionStart>) -> (defeats: u64)
        requires
            old(self)@.wf(),
        ensures
            final(self)@.wf(),
            (final(self)@, defeats as int) == resolve_pass(old(self)@, events@),
            final(self)@.spawners == old(self)@.spawners,
            final(self)@.next_id == old(self)@.next_id,
            final(self)@.cooldown == old(self)@.cooldown,
            final(self)@.cpu == old(self)@.cpu,
            final(self)@.game_over == old(self)@.game_over,
    {
        let ghost w0 = self@;
        let ghost evs = events@;
        let n = events.len();
        let mut defeats: u64 = 0;
        let mut i: usize = 0;
        while i < n
            invariant
                0 <= i <= n,
                n == events@.len(),
                evs == events@,
                ({
                    let r = resolve_pass(w0, evs.take(i as int));
                    &&& self@ == r.0
                    &&& defeats as int == r.1
                }),
                defeats <= i as u64,
                self@.wf(),
                self@.spawners == w0.spawners,
                self@.next_id == w0.next_id,
                self@.cooldown == w0.cooldown,
                self@.cpu == w0.cpu,
                self@.game_over == w0.game_over,
            decreases n - i,
        {
            proof {
                assert(evs.take(i as int + 1).drop_last() =~= evs.take(i as int));
                assert(evs.take(i as int + 1).last() == evs[i as int]);
            }
            let s = self.resolve_collision(&events[i]);
            if s {
                defeats = defeats + 1;
            }
            i = i + 1;
        }
        proof {
            assert(evs.take(n as int) =~= evs);
        }
        defeats
    }

    /// One whole simulation tick, in the design's fixed order:
    /// spawners, enemy locomotion, player control and upgrades, the
    /// projectile lifecycle, the collision resolver over the reported
    /// events, and the health sweep.  A tick after game over changes
    /// nothing, and a tick whose arrivals end the run stops on the
    /// spot, so the game-over condition triggers exactly once.
    pub fn tick(&mut self, inp: &InputFrame, events: &Vec<CollisionStart>, dt: u64) -> (out:
        TickOutput)
        requires
            old(self)@.wf(),
            inp.wf(),
            dt <= DT_LIMIT,
        ensures
            final(self)@.wf(),
            ({
                let r = tick_spec(old(self)@, *inp, events@, dt as int);
                &&& final(self)@ == r.world
                &&& out.arrivals as int == r.arrivals
                &&& out.shots as int == r.shots
                &&& out.defeats as int == r.defeats
                &&& out.upgrades as int == r.upgrades
            }),
    {
        let ghost w0 = self@;
        if self.game_over {
            return TickOutput { arrivals: 0, shots: 0, defeats: 0, upgrades: 0 };
        }
        self.handle_enemy_spawn(dt);
        proof {
            let sp = spawn_pass(w0.spawners, w0.next_id, dt as int);
            assert(self@ == (WorldView {
                spawners: sp.0,
                next_id: sp.1,
                enemies: w0.enemies + sp.2,
                ..w0
            }));
        }
        let ghost w1 = self@;
        let arrivals = self.move_enemy(dt);
        proof {
            let mv = move_pass(w1.enemies, w1.cpu, w1.game_over, dt as int);
            assert(self@ == (WorldView { enemies: mv.0, cpu: mv.1, game_over: mv.2, ..w1 }));
        }
        if self.game_over {
            return TickOutput { arrivals, shots: 0, defeats: 0, upgrades: 0 };
        }
        let ghost w2 = self@;
        let shot = handle_player_move(&mut self.player, &mut self.cooldown, inp, dt);
        proof {
            let pm = handle_player_move_spec(w2.player, w2.cooldown, *inp, dt as int);
            assert(self@ == (WorldView { player: pm.0, cooldown: pm.1, ..w2 }));
        }
        let ghost w3 = self@;
        let upgrades = handle_upgrades(&mut self.player, &mut self.cooldown, &mut self.cpu, inp);
        proof {
            let up = apply_presses(w3.player, w3.cooldown, w3.cpu, presses_of(*inp));
            assert(self@ == (WorldView { player: up.0, cooldown: up.1, cpu: up.2, ..w3 }));
        }
        let ghost w4 = self@;
        let spawned = self.handle_shoot(&shot);
        let ghost w5 = self@;
        self.handle_bullet_move(dt);
        proof {
            assert(self@ == (WorldView { bullets: bullet_pass(w5.bullets, dt as int), ..w5 }));
        }
        let ghost w6 = self@;
        let defeats = self.handle_enemy_hit(events);
        let ghost w7 = self@;
        self.kill_when_no_more_health();
        proof {
            assert(self@ == (WorldView { enemies: sweep(w7.enemies), ..w7 }));
        }
        TickOutput { arrivals, shots: if spawned { 1 } else { 0 }, defeats, upgrades }
    }

    /// The player's coin balance, for the coin display.
    pub fn coins(&self) -> (r: u32)
        ensures
            r == self@.player.coins,
    {
        self.player.coins
    }

    /// The structure's health as a share of full, in percent, for the
    /// health-bar fill.
    pub fn cpu_health_percent(&self) -> (r: i64)
        ensures
            r == self@.cpu.0,
    {
        self.cpu.0
    }

    /// Whether the run has ended (structure health gone).
    pub fn is_game_over(&self) -> (r: bool)
        ensures
            r == self@.game_over,
    {
        self.game_over
    }

    /// The three displayed stat levels: fire rate, damage, speed.
    pub fn upgrade_levels(&self) -> (r: (u32, u32, u32))
        ensures
            r.0 == self@.player.fire_rate_level,
            r.1 == self@.player.damage_level,
            r.2 == self@.player.speed_level,
    {
        (self.player.fire_rate_level, self.player.damage_level, self.player.speed_level)
    }
}

/// The travel pass keeps every surviving bullet's id among the old
/// ones' (so id bounds and distinctness carry over).
proof fn lemma_bullet_pass_keeps(bs: Seq<Bullet>, next_id: u64, dt: int)
    requires
        forall|i: int| 0 <= i < bs.len() ==> (#[trigger] bs[i]).id < next_id,
        forall|i: int, j: int|
            #![trigger bs[i], bs[j]]
            0 <= i < j < bs.len() ==> bs[i].id != bs[j].id,
    ensures
        forall|i: int|
            0 <= i < bullet_pass(bs, dt).len() ==> (#[trigger] bullet_pass(bs, dt)[i]).id
                < next_id,
        forall|i: int, j: int|
            #![trigger bullet_pass(bs, dt)[i], bullet_pass(bs, dt)[j]]
            0 <= i < j < bullet_pass(bs, dt).len() ==> bullet_pass(bs, dt)[i].id != bullet_pass(
                bs,
                dt,
            )[j].id,
        forall|i: int|
            0 <= i < bullet_pass(bs, dt).len() ==> exists|k: int|
                0 <= k < bs.len() && (#[trigger] bullet_pass(bs, dt)[i]).id == bs[k].id,
    decreases bs.len(),
{
    if bs.len() > 0 {
        lemma_bullet_pass_keeps(bs.drop_last(), next_id, dt);
        let r = bullet_pass(bs.drop_last(), dt);
        let m = bullet_step_spec(bs.last(), dt);
        let out = bullet_pass(bs, dt);
        assert(bs[bs.len() - 1].id < next_id);
        assert(m.0.id == bs.last().id);
        assert forall|i: int|
            0 <= i < out.len() implies (#[trigger] out[i]).id < next_id by {
            if i == r.len() {
                assert(out[i] == m.0);
            }
        }
        assert forall|i: int|
            0 <= i < out.len() implies exists|k: int|
                0 <= k < bs.len() && (#[trigger] out[i]).id == bs[k].id by {
            if i < r.len() {
                assert(out[i] == r[i]);
                let k = choose|k: int|
                    0 <= k < bs.drop_last().len() && r[i].id == bs.drop_last()[k].id;
                assert(bs.drop_last()[k] == bs[k]);
                assert(0 <= k < bs.len() && out[i].id == bs[k].id);
            } else {
                assert(out[i] == m.0);
                assert(out[i].id == bs[bs.len() - 1].id);
            }
        }
        assert forall|i: int, j: int|
            #![trigger out[i], out[j]]
            0 <= i < j < out.len() implies out[i].id != out[j].id by {
            if j == r.len() {
                assert(out[j] == m.0);
                let k = choose|k: int|
                    0 <= k < bs.drop_last().len() && r[i].id == bs.drop_last()[k].id;
                assert(bs.drop_last()[k] == bs[k]);
                assert(bs[k].id != bs[bs.len() - 1].id);
            }
        }
    }
}


/// Pushing the copy of source enemy `i` onto a pass's output keeps the
/// output's ids distinct and drawn from the source prefix.
proof fn lemma_out_push_fresh(prev: Seq<Enemy>, ee: Enemy, es0: Seq<EnemyView>, i: int)
    requires
        0 <= i < es0.len(),
        ee@.id == es0[i].id,
        forall|k: int|
            0 <= k < prev.len() ==> exists|m: int|
                0 <= m < i && (#[trigger] prev[k])@.id == es0[m].id,
        forall|k: int, l: int|
            #![trigger prev[k], prev[l]]
            0 <= k < l < prev.len() ==> prev[k]@.id != prev[l]@.id,
        forall|k: int, l: int|
            #![trigger es0[k], es0[l]]
            0 <= k < l < es0.len() ==> es0[k].id != es0[l].id,
    ensures
        forall|k: int|
            0 <= k < prev.push(ee).len() ==> exists|m: int|
                0 <= m < i + 1 && (#[trigger] prev.push(ee)[k])@.id == es0[m].id,
        forall|k: int, l: int|
            #![trigger prev.push(ee)[k], prev.push(ee)[l]]
            0 <= k < l < prev.push(ee).len() ==> prev.push(ee)[k]@.id != prev.push(ee)[l]@.id,
{
    let cur = prev.push(ee);
    assert forall|k: int|
        0 <= k < cur.len() implies exists|m: int|
            0 <= m < i + 1 && (#[trigger] cur[k])@.id == es0[m].id by {
        if k < prev.len() {
            assert(cur[k] == prev[k]);
            let m = choose|m: int| 0 <= m < i && prev[k]@.id == es0[m].id;
            assert(0 <= m < i + 1 && cur[k]@.id == es0[m].id);
        } else {
            assert(cur[k] == ee);
            assert(0 <= i < i + 1 && cur[k]@.id == es0[i].id);
        }
    }
    assert forall|k: int, l: int|
        #![trigger cur[k], cur[l]]
        0 <= k < l < cur.len() implies cur[k]@.id != cur[l]@.id by {
        if l < prev.len() {
            assert(cur[k] == prev[k] && cur[l] == prev[l]);
        } else {
            assert(cur[k] == prev[k] && cur[l] == ee);
            let m = choose|m: int| 0 <= m < i && prev[k]@.id == es0[m].id;
            assert(es0[m].id != es0[i].id);
        }
    }
}


/// Find the live bullet carrying this id.
fn find_bullet(bs: &Vec<Bullet>, id: u64) -> (r: Option<usize>)
    ensures
        r is Some ==> 0 <= r->0 < bs@.len() && bs@[r->0 as int].id == id,
        r is None ==> !has_bullet(bs@, id),
{
    let n = bs.len();
    let mut i: usize = 0;
    while i < n
        invariant
            0 <= i <= n,
            n == bs@.len(),
            forall|k: int| 0 <= k < i ==> (#[trigger] bs@[k]).id != id,
        decreases n - i,
    {
        if bs[i].id == id {
            return Some(i);
        }
        i = i + 1;
    }
    None
}

/// Find the live enemy carrying this id.
fn find_enemy(es: &Vec<Enemy>, id: u64) -> (r: Option<usize>)
    ensures
        r is Some ==> 0 <= r->0 < es@.len() && es@[r->0 as int]@.id == id,
        r is None ==> !has_enemy(enemy_views(es@), id),
{
    let n = es.len();
    let mut i: usize = 0;
    while i < n
        invariant
            0 <= i <= n,
            n == es@.len(),
            forall|k: int| 0 <= k < i ==> (#[trigger] es@[k])@.id != id,
        decreases n - i,
    {
        if es[i].id == id {
            return Some(i);
        }
        i = i + 1;
    }
    proof {
        assert forall|k: int| 0 <= k < enemy_views(es@).len() implies (
            #[trigger] enemy_views(es@)[k]).id != id by {
            assert(enemy_views(es@)[k] == es@[k]@);
        }
    }
    None
}

/// With distinct ids, a found bullet index is the one the resolver's
/// description picks.
proof fn lemma_found_is_the_bullet(bs: Seq<Bullet>, id: u64, i: int)
    requires
        0 <= i < bs.len(),
        bs[i].id == id,
        forall|k: int, l: int|
            #![trigger bs[k], bs[l]]
            0 <= k < l < bs.len() ==> bs[k].id != bs[l].id,
    ensures
        has_bullet(bs, id),
        bullet_index(bs, id) == i,
{
    assert(has_bullet(bs, id));
    let c = bullet_index(bs, id);
    assert(0 <= c < bs.len() && bs[c].id == id);
    if c < i {
        assert(bs[c].id != bs[i].id);
    }
    if i < c {
        assert(bs[i].id != bs[c].id);
    }
}

/// With distinct ids, a found enemy index is the one the resolver's
/// description picks.
proof fn lemma_found_is_the_enemy(es: Seq<EnemyView>, id: u64, i: int)
    requires
        0 <= i < es.len(),
        es[i].id == id,
        forall|k: int, l: int|
            #![trigger es[k], es[l]]
            0 <= k < l < es.len() ==> es[k].id != es[l].id,
    ensures
        has_enemy(es, id),
        enemy_index(es, id) == i,
{
    assert(has_enemy(es, id));
    let c = enemy_index(es, id);
    assert(0 <= c < es.len() && es[c].id == id);
    if c < i {
        assert(es[c].id != es[i].id);
    }
    if i < c {
        assert(es[i].id != es[c].id);
    }
}

/// Resolver idempotence law: once an event has consumed its
/// projectile, running the very same event again changes nothing and
/// credits nothing — a stale report is a no-op, not an error.  (The
/// one configuration left out is an overlap of two live projectiles
/// with each other, where each run consumes one of them.)
pub proof fn lemma_resolver_idempotent(w: WorldView, ev: CollisionStart)
    requires
        w.wf(),
        !(has_bullet(w.bullets, ev.collider1) && has_bullet(w.bullets, ev.collider2)),
    ensures
        resolve_spec(resolve_spec(w, ev).0, ev).0 == resolve_spec(w, ev).0,
        resolve_spec(resolve_spec(w, ev).0, ev).1 == 0,
{
    let w1 = resolve_spec(w, ev).0;
    if has_bullet(w.bullets, ev.collider1) || has_bullet(w.bullets, ev.collider2) {
        let id = if has_bullet(w.bullets, ev.collider1) {
            ev.collider1
        } else {
            ev.collider2
        };
        let i = bullet_index(w.bullets, id);
        assert(0 <= i < w.bullets.len() && w.bullets[i].id == id);
        let removed = w.bullets.remove(i);
        assert(w1.bullets == removed);
        assert forall|k: int| 0 <= k < removed.len() implies (#[trigger] removed[k]).id
            != ev.collider1 && removed[k].id != ev.collider2 by {
            assert(removed[k] == w.bullets[k] || removed[k] == w.bullets[k + 1]);
            if has_bullet(w.bullets, ev.collider1) {
                assert(!has_bullet(w.bullets, ev.collider2));
            } else {
                assert(!has_bullet(w.bullets, ev.collider1));
            }
        }
        assert(!has_bullet(w1.bullets, ev.collider1));
        assert(!has_bullet(w1.bullets, ev.collider2));
    } else {
        assert(w1 == w);
    }
}

} // verus!
