//! The order of a tick, and what the server settles between simulation and
//! replication: deaths, respawns, and the marks that last one tick.

use crate::stats::HealthSource;
use vstd::prelude::*;

verus! {

/// The steps of a tick, in the order in which they run.
#[derive(Clone, Copy, Debug, PartialEq, Eq, Structural)]
pub enum Phase {
    /// New connections are accepted.
    Connections,
    /// Inbound messages are handled.
    Messages,
    /// Movers are moved.
    Physics,
    /// Swings are resolved.
    Combat,
    /// The dying are killed or deleted.
    Deaths,
    /// The respawning are put back.
    Respawns,
    /// A finished chunk is stored, and unseen chunks are dropped.
    Terrain,
    /// State is pushed to the connections.
    Replication,
    /// The marks that last one tick are taken off.
    Cleanup,
}

impl Phase {
    /// The place of the phase in a tick, counted from zero.
    pub open spec fn rank(self) -> int {
        match self {
            Phase::Connections => 0,
            Phase::Messages => 1,
            Phase::Physics => 2,
            Phase::Combat => 3,
            Phase::Deaths => 4,
            Phase::Respawns => 5,
            Phase::Terrain => 6,
            Phase::Replication => 7,
            Phase::Cleanup => 8,
        }
    }

    /// The phase that a tick begins with.
    pub fn first() -> (p: Phase)
        ensures
            p.rank() == 0,
    {
        Phase::Connections
    }

    /// The phase that follows this one, or `None` at the end of the tick.
    pub fn next(self) -> (n: Option<Phase>)
        ensures
            match n {
                Some(p) => p.rank() == self.rank() + 1,
                None => self == Phase::Cleanup,
            },
    {
        match self {
            Phase::Connections => Some(Phase::Messages),
            Phase::Messages => Some(Phase::Physics),
            Phase::Physics => Some(Phase::Combat),
            Phase::Combat => Some(Phase::Deaths),
            Phase::Deaths => Some(Phase::Respawns),
            Phase::Respawns => Some(Phase::Terrain),
            Phase::Terrain => Some(Phase::Replication),
            Phase::Replication => Some(Phase::Cleanup),
            Phase::Cleanup => None,
        }
    }
}

/// Within a tick messages are handled before movers are moved, movers are
/// moved before swings are resolved, and swings are resolved before state is
/// pushed; the marks come off last.
pub proof fn phases_are_ordered()
    ensures
        Phase::Messages.rank() < Phase::Physics.rank() < Phase::Combat.rank()
            < Phase::Replication.rank() < Phase::Cleanup.rank(),
        forall|p: Phase| 0 <= #[trigger] p.rank() <= Phase::Cleanup.rank(),
        forall|p: Phase, q: Phase| #[trigger] p.rank() == #[trigger] q.rank() ==> p == q,
{
}

/// What becomes of an entity that dies.
#[derive(Clone, Copy, Debug, PartialEq, Eq, Structural)]
pub enum Fate {
    /// The entity stays: it is stopped, marked for a forced push, and its
    /// connection is put into the `Dead` state.
    Downed,
    /// Nobody controls the entity: it is deleted.
    Deleted,
}

/// How a player's death is announced.
#[derive(Clone, Copy, Debug, PartialEq, Eq, Structural)]
pub enum DeathNotice {
    /// Killed by the player with this network identity.
    KilledBy(u64),
    Died,
}

/// Announces a player's death: by whom, if an attack caused it and the
/// attacker is a player too.
pub fn death_notice(cause: HealthSource, attacker_is_player: bool) -> (notice: DeathNotice)
    ensures
        notice == match cause {
            HealthSource::Attack { by } => if attacker_is_player {
                DeathNotice::KilledBy(by)
            } else {
                DeathNotice::Died
            },
            HealthSource::Other => DeathNotice::Died,
        },
{
    match cause {
        HealthSource::Attack { by } => if attacker_is_player {
            DeathNotice::KilledBy(by)
        } else {
            DeathNotice::Died
        },
        HealthSource::Other => DeathNotice::Died,
    }
}

/// The marks on an entity that last one tick.
#[derive(Clone, Copy, Debug, PartialEq, Eq, Structural)]
pub struct Marks {
    /// The entity died this tick, of this cause.
    pub dying: Option<HealthSource>,
    /// The entity asked to be put back this tick.
    pub respawning: bool,
}

/// No marks.
pub open spec fn spec_unmarked() -> Marks {
    Marks { dying: None, respawning: false }
}

/// Takes every mark off every entity, whether or not it was acted on.
pub fn end_tick(marks: &mut Vec<Marks>)
    ensures
        final(marks).len() == old(marks).len(),
        forall|i: int| 0 <= i < final(marks).len() ==> #[trigger] final(marks)@[i] == spec_unmarked(),
{
    let mut i: usize = 0;
    while i < marks.len()
        invariant
            i <= marks.len(),
            marks.len() == old(marks).len(),
            forall|j: int| 0 <= j < i ==> #[trigger] marks@[j] == spec_unmarked(),
        decreases marks.len() - i,
    {
        marks.set(i, Marks { dying: None, respawning: false });
        i = i + 1;
    }
}

} // verus!
