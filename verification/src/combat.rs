//! Melee combat: who a swing hits, and when the swing is over.
//!
//! A swing scans for targets once, on the first tick that finds it, and hits
//! every living entity other than the attacker that stands in range and
//! within the attacker's forward cone. The swing then stays until its time
//! is up, without hitting again.

use crate::select::is_selection;
use crate::select::lemma_selection_skip;
use crate::select::lemma_selection_take;
use crate::stats::HealthSource;
use crate::stats::Stats;
use vstd::prelude::*;

verus! {

/// Time, in microseconds, after which a swing is over.
pub const SWING_DURATION: u64 = 500_000;

/// A target is in range if the square of its distance is below this.
pub const ATTACK_RANGE_SQUARED: u64 = 50;

/// A target is in the cone if its angle, in degrees, is below this.
pub const ATTACK_CONE_DEGREES: u32 = 70;

/// Health taken by a hit.
pub const ATTACK_DAMAGE: i32 = 10;

/// Speed, away from the attacker and along the ground, that a hit adds.
pub const KNOCKBACK_PUSH: u32 = 10;

/// Vertical speed that a hit sets.
pub const KNOCKBACK_POP: u32 = 15;

/// A swing in progress.
#[derive(Clone, Copy, Debug, PartialEq, Eq, Structural)]
pub struct Attacking {
    /// Time since the swing began, in microseconds.
    pub time: u64,
    /// Whether the swing has scanned for targets.
    pub applied: bool,
}

/// Where a target stands as seen from the attacker. Both measures are
/// rounded down to whole numbers, which leaves the comparison with a whole
/// bound as it was.
#[derive(Clone, Copy, Debug, PartialEq, Eq, Structural)]
pub struct Bearing {
    /// Square of the distance between attacker and target.
    pub distance_squared: u64,
    /// Angle, in degrees, between the attacker's facing and the direction
    /// from the attacker to the target.
    pub angle: u32,
}

/// An entity that a swing may hit.
#[derive(Clone, Copy, Debug, PartialEq, Eq, Structural)]
pub struct Target {
    pub entity: u64,
    pub stats: Stats,
    /// Where the target stands; `None` where that cannot be measured, as
    /// when it stands in the attacker's own place.
    pub bearing: Option<Bearing>,
    /// Marked for a push to everybody at the end of the tick.
    pub force_update: bool,
}

/// Whether a swing by `attacker` hits `target`.
pub open spec fn spec_is_hit(attacker: u64, target: Target) -> bool {
    &&& target.entity != attacker
    &&& !target.stats.is_dead
    &&& match target.bearing {
        Some(b) => b.distance_squared < ATTACK_RANGE_SQUARED && b.angle < ATTACK_CONE_DEGREES,
        None => false,
    }
}

/// A target after a hit by the entity with network identity `by`.
pub open spec fn spec_struck(target: Target, by: u64) -> Target {
    Target {
        entity: target.entity,
        stats: Stats {
            hp: target.stats.hp.spec_change_by(
                (-ATTACK_DAMAGE) as i32,
                HealthSource::Attack { by },
            ),
            is_dead: target.stats.is_dead,
        },
        bearing: target.bearing,
        force_update: true,
    }
}

/// A target after one tick of a swing by `attacker`.
pub open spec fn spec_target_after(swing: Attacking, attacker: u64, by: u64, target: Target) -> Target {
    if !swing.applied && spec_is_hit(attacker, target) {
        spec_struck(target, by)
    } else {
        target
    }
}

/// The swing after a tick of `dt` microseconds, or `None` if it is over: a
/// swing that has lasted longer than [`SWING_DURATION`] is taken away, any
/// other grows older by `dt` and has scanned.
pub open spec fn spec_swing_after(swing: Attacking, dt: u64) -> Option<Attacking> {
    if swing.time > SWING_DURATION {
        None
    } else {
        Some(
            Attacking {
                time: if swing.time + dt > u64::MAX {
                    u64::MAX
                } else {
                    (swing.time + dt) as u64
                },
                applied: true,
            },
        )
    }
}

/// What one tick of a swing did.
#[derive(Debug)]
pub struct SwingTick {
    /// The swing as it goes on, or `None` if it is over.
    pub swing: Option<Attacking>,
    /// The targets hit this tick, by index: they are owed the knockback.
    pub hits: Vec<usize>,
}

impl Attacking {
    /// A swing that has just begun.
    pub fn start() -> (a: Attacking)
        ensures
            a == (Attacking { time: 0, applied: false }),
    {
        Attacking { time: 0, applied: false }
    }
}

/// Whether a swing by `attacker` hits `target`.
pub fn is_hit(attacker: u64, target: &Target) -> (b: bool)
    ensures
        b == spec_is_hit(attacker, *target),
{
    target.entity != attacker && !target.stats.is_dead && match target.bearing {
        Some(b) => b.distance_squared < ATTACK_RANGE_SQUARED && b.angle < ATTACK_CONE_DEGREES,
        None => false,
    }
}

/// Runs one tick of the swing of `attacker`, whose network identity is `by`.
///
/// If the swing has not scanned yet, every target that it hits loses
/// [`ATTACK_DAMAGE`] health with the attacker as the cause and is marked for
/// a forced push. A swing that has scanned touches nobody.
pub fn resolve_swing(
    swing: Attacking,
    attacker: u64,
    by: u64,
    dt: u64,
    targets: &mut Vec<Target>,
) -> (tick: SwingTick)
    ensures
        final(targets).len() == old(targets).len(),
        forall|i: int|
            0 <= i < old(targets).len() ==> #[trigger] final(targets)@[i] == spec_target_after(
                swing,
                attacker,
                by,
                old(targets)@[i],
            ),
        is_selection(
            tick.hits@,
            old(targets).len() as int,
            |i: int| !swing.applied && spec_is_hit(attacker, old(targets)@[i]),
        ),
        tick.swing == spec_swing_after(swing, dt),
{
    let ghost wanted = |i: int| !swing.applied && spec_is_hit(attacker, old(targets)@[i]);
    let mut hits: Vec<usize> = Vec::new();
    let mut i: usize = 0;
    while i < targets.len()
        invariant
            i <= targets.len(),
            targets.len() == old(targets).len(),
            wanted == |i: int| !swing.applied && spec_is_hit(attacker, old(targets)@[i]),
            forall|j: int|
                0 <= j < i ==> #[trigger] targets@[j] == spec_target_after(
                    swing,
                    attacker,
                    by,
                    old(targets)@[j],
                ),
            forall|j: int| i <= j < targets.len() ==> #[trigger] targets@[j] == old(targets)@[j],
            is_selection(hits@, i as int, wanted),
        decreases targets.len() - i,
    {
        let ghost before = hits@;
        let mut target = targets[i];
        if !swing.applied && is_hit(attacker, &target) {
            target.stats.hp.change_by(-ATTACK_DAMAGE, HealthSource::Attack { by });
            target.force_update = true;
            targets.set(i, target);
            hits.push(i);
            proof {
                lemma_selection_take(before, i as int, wanted);
            }
        } else {
            proof {
                lemma_selection_skip(before, i as int, wanted);
            }
        }
        i = i + 1;
    }
    let next = if swing.time > SWING_DURATION {
        None
    } else {
        Some(Attacking { time: swing.time.saturating_add(dt), applied: true })
    };
    SwingTick { swing: next, hits }
}

/// A swing scans once: whatever a tick leaves of it has scanned, and a swing
/// that has scanned changes no target, however often it is run.
pub proof fn swing_hits_once(swing: Attacking, attacker: u64, by: u64, dt: u64, target: Target)
    ensures
        spec_swing_after(swing, dt) is Some ==> spec_swing_after(swing, dt)->0.applied,
        swing.applied ==> spec_target_after(swing, attacker, by, target) == target,
{
}

/// The swing and a target after the ticks `dts`, one after the other. Once
/// the swing is over, nothing more happens.
pub open spec fn spec_swing_run(
    swing: Attacking,
    attacker: u64,
    by: u64,
    target: Target,
    dts: Seq<u64>,
) -> (Option<Attacking>, Target)
    decreases dts.len(),
{
    if dts.len() == 0 {
        (Some(swing), target)
    } else {
        let before = spec_swing_run(swing, attacker, by, target, dts.drop_last());
        match before.0 {
            Some(s) => (
                spec_swing_after(s, dts.last()),
                spec_target_after(s, attacker, by, before.1),
            ),
            None => before,
        }
    }
}

/// However many ticks a swing runs for, a target is struck once if the
/// swing hits it and never if it does not: after any run of one tick or more
/// the target is as the first tick left it.
pub proof fn a_swing_strikes_once(
    swing: Attacking,
    attacker: u64,
    by: u64,
    target: Target,
    dts: Seq<u64>,
)
    requires
        dts.len() >= 1,
    ensures
        spec_swing_run(swing, attacker, by, target, dts).1 == spec_target_after(
            swing,
            attacker,
            by,
            target,
        ),
        spec_swing_run(swing, attacker, by, target, dts).0 is Some ==> spec_swing_run(
            swing,
            attacker,
            by,
            target,
            dts,
        ).0->0.applied,
    decreases dts.len(),
{
    if dts.len() > 1 {
        a_swing_strikes_once(swing, attacker, by, target, dts.drop_last());
    } else {
        assert(spec_swing_run(swing, attacker, by, target, dts.drop_last()) == (
            Some(swing),
            target,
        ));
    }
}

/// A target at or beyond the range is not hit, whatever its angle.
pub proof fn out_of_range_is_not_hit(attacker: u64, target: Target)
    requires
        target.bearing is Some ==> target.bearing->0.distance_squared >= ATTACK_RANGE_SQUARED,
    ensures
        !spec_is_hit(attacker, target),
{
}

} // verus!
