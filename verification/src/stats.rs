//! Health and its last change.

use vstd::prelude::*;

verus! {

/// What changed an entity's health.
#[derive(Clone, Copy, Debug, PartialEq, Eq, Structural)]
pub enum HealthSource {
    /// A hit by the entity with this network identity.
    Attack { by: u64 },
    /// Anything else.
    Other,
}

/// The last change of an entity's health.
#[derive(Clone, Copy, Debug, PartialEq, Eq, Structural)]
pub struct HealthChange {
    pub amount: i32,
    /// Time since the change, in microseconds.
    pub elapsed: u64,
    pub source: HealthSource,
}

#[derive(Clone, Copy, Debug, PartialEq, Eq, Structural)]
pub struct Health {
    pub current: u32,
    pub maximum: u32,
    pub last_change: Option<HealthChange>,
}

#[derive(Clone, Copy, Debug, PartialEq, Eq, Structural)]
pub struct Stats {
    pub hp: Health,
    pub is_dead: bool,
}

/// `current` changed by `amount`, kept within what a `u32` holds.
pub open spec fn spec_changed(current: u32, amount: i32) -> u32 {
    if current + amount < 0 {
        0
    } else if current + amount > u32::MAX {
        u32::MAX
    } else {
        (current + amount) as u32
    }
}

impl Health {
    /// This health after a change by `amount`, caused by `source`.
    pub open spec fn spec_change_by(self, amount: i32, source: HealthSource) -> Health {
        Health {
            current: spec_changed(self.current, amount),
            maximum: self.maximum,
            last_change: Some(HealthChange { amount, elapsed: 0, source }),
        }
    }

    /// Full health of `maximum` points, never changed.
    pub fn full(maximum: u32) -> (h: Health)
        ensures
            h == (Health { current: maximum, maximum, last_change: None }),
    {
        Health { current: maximum, maximum, last_change: None }
    }

    /// Changes the health by `amount` and records the change and its cause.
    /// Health does not fall below zero.
    pub fn change_by(&mut self, amount: i32, source: HealthSource)
        ensures
            *final(self) == old(self).spec_change_by(amount, source),
    {
        let sum: i64 = self.current as i64 + amount as i64;
        self.current = if sum < 0 {
            0
        } else if sum > u32::MAX as i64 {
            u32::MAX
        } else {
            sum as u32
        };
        self.last_change = Some(HealthChange { amount, elapsed: 0, source });
    }
}

impl Stats {
    /// Alive, at full health of `maximum` points.
    pub fn full(maximum: u32) -> (s: Stats)
        ensures
            s == (Stats {
                hp: Health { current: maximum, maximum, last_change: None },
                is_dead: false,
            }),
    {
        Stats { hp: Health::full(maximum), is_dead: false }
    }
}

} // verus!
