//! Projectiles.
//!
//! A bullet spawns at the shooter's position with a destination fixed
//! for its whole life, flies straight at it, and despawns on coming
//! within 0.2 units of it (a clean miss, with no damage of its own) or
//! on losing a collision — which the collision resolver, not this
//! module, decides.

use vstd::prelude::*;

use crate::timer::DT_LIMIT;
use crate::vec3::POS_LIMIT;
use crate::vec3::VEC_LIMIT;
use crate::vec3::Vec3i;
use crate::vec3::dist2;
use crate::vec3::dist2_e;
use crate::vec3::lemma_move_toward_bounded;
use crate::vec3::lemma_move_toward_strict_decrease;
use crate::vec3::move_toward;
use crate::vec3::move_toward_spec;

verus! {

/// Bullet speed, in thousandths of a unit per millisecond
/// (8 units per second, four times an enemy's walk).
pub const BULLET_SPEED: u64 = 8;

/// Squared bullet-arrival threshold: within 0.2 units, strictly.
pub const BULLET_RADIUS2: u64 = 40_000;

/// A request to fire one projectile from `source` at `target`.
#[derive(Clone, Copy, PartialEq, Eq, Structural, Debug)]
pub struct GunShootEvent {
    pub target: Vec3i,
    pub source: Vec3i,
}

impl GunShootEvent {
    pub open spec fn wf(self) -> bool {
        &&& self.source.bounded(POS_LIMIT as int)
        &&& self.target.bounded(VEC_LIMIT as int)
    }
}

/// A projectile in flight.
#[derive(Clone, Copy, PartialEq, Eq, Structural, Debug)]
pub struct Bullet {
    pub id: u64,
    pub pos: Vec3i,
    pub target: Vec3i,
}

impl Bullet {
    pub open spec fn wf(self) -> bool {
        &&& self.pos.bounded(VEC_LIMIT as int)
        &&& self.target.bounded(VEC_LIMIT as int)
    }
}

/// One travel tick for one bullet: a bullet already within its arrival
/// radius despawns (second component true); otherwise it flies straight
/// toward its fixed destination.
pub open spec fn bullet_step_spec(b: Bullet, dt: int) -> (Bullet, bool) {
    if dist2(b.pos, b.target) < BULLET_RADIUS2 {
        (b, true)
    } else {
        (Bullet { pos: move_toward_spec(b.pos, b.target, BULLET_SPEED * dt), ..b }, false)
    }
}

/// One travel tick for one bullet; true means the bullet despawned.
pub fn bullet_step(b: &mut Bullet, dt: u64) -> (gone: bool)
    requires
        old(b).wf(),
        dt <= DT_LIMIT,
    ensures
        (*final(b), gone) == bullet_step_spec(*old(b), dt as int),
        final(b).wf(),
{
    if dist2_e(b.pos, b.target) < BULLET_RADIUS2 {
        true
    } else {
        proof {
            lemma_move_toward_bounded(b.pos, b.target, (BULLET_SPEED * dt) as int, VEC_LIMIT as int);
        }
        b.pos = move_toward(b.pos, b.target, BULLET_SPEED * dt);
        false
    }
}

/// Approach law for projectiles: a bullet not yet within its arrival
/// radius strictly closes on its fixed destination every real tick.
pub proof fn lemma_bullet_closes_on_target(b: Bullet, dt: int)
    requires
        b.wf(),
        dist2(b.pos, b.target) >= BULLET_RADIUS2,
        1 <= dt <= DT_LIMIT,
    ensures
        dist2(bullet_step_spec(b, dt).0.pos, b.target) < dist2(b.pos, b.target),
{
    lemma_move_toward_strict_decrease(b.pos, b.target, BULLET_SPEED * dt);
}

} // verus!
