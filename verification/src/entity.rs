//! Which attributes an entity carries.

use crate::stats::Health;
use crate::stats::Stats;
use vstd::prelude::*;

verus! {

/// The attributes of an entity that the server's rules read: which are
/// there, and the stats themselves. Positions and the like live with the
/// caller.
#[derive(Clone, Copy, Debug, PartialEq, Eq, Structural)]
pub struct Attributes {
    /// The metadata of the player that controls the entity.
    pub player: bool,
    /// Name and body.
    pub actor: bool,
    pub stats: Option<Stats>,
    pub animation: bool,
    pub position: bool,
    pub velocity: bool,
    pub orientation: bool,
    /// Marked for a push to everybody at the end of the tick.
    pub force_update: bool,
}

impl Attributes {
    /// Whether the entity carries all that a character in play needs, at
    /// full health of `maximum` points, and is marked for a forced push.
    pub open spec fn is_fresh_character(self, maximum: u32) -> bool {
        &&& self.actor
        &&& self.stats == Some(
            Stats { hp: Health { current: maximum, maximum, last_change: None }, is_dead: false },
        )
        &&& self.animation
        &&& self.position
        &&& self.velocity
        &&& self.orientation
        &&& self.force_update
    }

    /// An entity as it is made for a new connection: it carries nothing.
    pub fn bare() -> (a: Attributes)
        ensures
            a == (Attributes {
                player: false,
                actor: false,
                stats: None,
                animation: false,
                position: false,
                velocity: false,
                orientation: false,
                force_update: false,
            }),
    {
        Attributes {
            player: false,
            actor: false,
            stats: None,
            animation: false,
            position: false,
            velocity: false,
            orientation: false,
            force_update: false,
        }
    }

    /// A character that no player controls, at full health of `maximum`
    /// points.
    pub fn create_npc(maximum: u32) -> (a: Attributes)
        ensures
            !a.player,
            a.is_fresh_character(maximum),
    {
        let mut a = Attributes::bare();
        a.create_player_character(maximum);
        a
    }

    /// Stores the metadata of the player that controls the entity.
    pub fn initialize_player(&mut self)
        ensures
            *final(self) == (Attributes { player: true, ..*old(self) }),
    {
        self.player = true;
    }

    /// Gives the entity all that a character in play needs, in one go: name
    /// and body, fresh stats of `maximum` health, animation, position,
    /// velocity and orientation, and the mark for a forced push.
    pub fn create_player_character(&mut self, maximum: u32)
        ensures
            final(self).player == old(self).player,
            final(self).is_fresh_character(maximum),
    {
        self.actor = true;
        self.stats = Some(Stats::full(maximum));
        self.animation = true;
        self.position = true;
        self.velocity = true;
        self.orientation = true;
        self.force_update = true;
    }
}

} // verus!
