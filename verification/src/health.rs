//! Health values.
//!
//! Health counts whole points (every damage, heal and starting value in
//! the design is a whole number).  A value at or below zero means dead,
//! pending removal by the per-tick health sweep; the value may sit below
//! zero transiently until that sweep runs.

use vstd::prelude::*;

verus! {

/// A health record.  Negative values are allowed transiently: whoever
/// holds one must treat `value <= 0` as dead, pending removal.
#[derive(Clone, Copy, PartialEq, Eq, Structural, Debug)]
pub struct Health(pub i64);

/// What subtracting `d` points of damage leaves, bottoming out at the
/// machine minimum (a limit no run can reach: damage per hit is small
/// and dead entities are swept within the tick).
pub open spec fn damaged(h: Health, d: int) -> Health {
    if h.0 - d >= i64::MIN {
        Health((h.0 - d) as i64)
    } else {
        Health(i64::MIN)
    }
}

impl Health {
    pub open spec fn dead(self) -> bool {
        self.0 <= 0
    }

    /// Subtract `d` points of damage.
    pub fn damage(&mut self, d: i64)
        requires
            d >= 0,
        ensures
            *final(self) == damaged(*old(self), d as int),
    {
        if self.0 >= i64::MIN + d {
            self.0 = self.0 - d;
        } else {
            self.0 = i64::MIN;
        }
    }

    pub fn is_dead(&self) -> (r: bool)
        ensures
            r == self.dead(),
    {
        self.0 <= 0
    }
}

} // verus!
