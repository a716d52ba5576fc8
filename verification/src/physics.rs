//! The rules of movement: which drive a mover gets, when it glides, how long
//! it rolls, when it stands, and how long it may be pushed out of the ground.
//!
//! Speeds are in blocks per second and rounded down to whole numbers, which
//! leaves a comparison with a whole bound as it was. Times are in
//! microseconds.

use vstd::prelude::*;

verus! {

/// Time, in microseconds, that a roll lasts.
pub const ROLL_DURATION: u64 = 550_000;

/// Vertical speed that a jump sets.
pub const JUMP_SPEED: u32 = 16;

/// Bound on the vertical speed, up and down, after a step.
pub const VERTICAL_SPEED_CAP: u32 = 100;

/// Speed below which a glider is lifted.
pub const GLIDE_SPEED: u32 = 45;

/// How a mover is held at the start of a step.
#[derive(Clone, Copy, Debug, PartialEq, Eq, Structural)]
pub struct Modes {
    pub on_ground: bool,
    pub gliding: bool,
    pub rolling: bool,
}

/// What moves a mover along its intent: the acceleration, and the speed at
/// and above which no more is given.
#[derive(Clone, Copy, Debug, PartialEq, Eq, Structural)]
pub struct Drive {
    pub accel: u32,
    pub cap: u32,
}

/// The drive of each combination of modes; `None` where there is none.
pub open spec fn spec_drive(modes: Modes) -> Option<Drive> {
    match (modes.on_ground, modes.gliding, modes.rolling) {
        (true, false, false) => Some(Drive { accel: 70, cap: 120 }),
        (false, true, false) => Some(Drive { accel: 15, cap: 45 }),
        (false, false, false) => Some(Drive { accel: 10, cap: 100 }),
        (true, false, true) => Some(Drive { accel: 160, cap: 550 }),
        _ => None,
    }
}

/// The acceleration along the intent, for a mover at `speed`.
pub open spec fn spec_drive_accel(modes: Modes, speed: u32) -> u32 {
    match spec_drive(modes) {
        Some(d) => if speed < d.cap {
            d.accel
        } else {
            0
        },
        None => 0,
    }
}

/// The drive of a combination of modes.
pub fn drive(modes: Modes) -> (d: Option<Drive>)
    ensures
        d == spec_drive(modes),
{
    match (modes.on_ground, modes.gliding, modes.rolling) {
        (true, false, false) => Some(Drive { accel: 70, cap: 120 }),
        (false, true, false) => Some(Drive { accel: 15, cap: 45 }),
        (false, false, false) => Some(Drive { accel: 10, cap: 100 }),
        (true, false, true) => Some(Drive { accel: 160, cap: 550 }),
        _ => None,
    }
}

/// The acceleration along the intent, for a mover at `speed`: that of its
/// drive while it is slower than the drive's cap, and none otherwise.
pub fn drive_accel(modes: Modes, speed: u32) -> (accel: u32)
    ensures
        accel == spec_drive_accel(modes, speed),
{
    match drive(modes) {
        Some(d) => if speed < d.cap {
            d.accel
        } else {
            0
        },
        None => 0,
    }
}

/// Takes the jump marker off, and returns the vertical speed to set if it
/// was on.
pub fn take_jump(jumping: &mut bool) -> (speed: Option<u32>)
    ensures
        !*final(jumping),
        speed == if *old(jumping) {
            Some(JUMP_SPEED)
        } else {
            None
        },
{
    if *jumping {
        *jumping = false;
        Some(JUMP_SPEED)
    } else {
        None
    }
}

/// Whether a mover is lifted by its glider: it glides, is slower than
/// [`GLIDE_SPEED`], and falls.
pub fn glide_lifts(gliding: bool, speed: u32, falling: bool) -> (lifts: bool)
    ensures
        lifts == (gliding && speed < GLIDE_SPEED && falling),
{
    gliding && speed < GLIDE_SPEED && falling
}

/// `a + b`, or the largest `u64` if that is less.
pub open spec fn spec_saturating(a: u64, b: u64) -> u64 {
    if a + b > u64::MAX {
        u64::MAX
    } else {
        (a + b) as u64
    }
}

/// The roll marker after a step of `dt`: the time rolled so far grows by
/// `dt`, and the marker goes once that exceeds [`ROLL_DURATION`].
pub open spec fn spec_advance_roll(roll: Option<u64>, dt: u64) -> Option<u64> {
    match roll {
        Some(t) => if spec_saturating(t, dt) > ROLL_DURATION {
            None
        } else {
            Some(spec_saturating(t, dt))
        },
        None => None,
    }
}

/// Advances the roll marker by a step of `dt`.
pub fn advance_roll(roll: Option<u64>, dt: u64) -> (next: Option<u64>)
    ensures
        next == spec_advance_roll(roll, dt),
{
    match roll {
        Some(t) => {
            let rolled: u64 = t.saturating_add(dt);
            if rolled > ROLL_DURATION {
                None
            } else {
                Some(rolled)
            }
        },
        None => None,
    }
}

/// Whether a sample of the terrain is solid. Where there is no sample there
/// is nothing solid.
pub fn is_solid(sample: Option<bool>) -> (solid: bool)
    ensures
        solid == (sample == Some(true)),
{
    match sample {
        Some(s) => s,
        None => false,
    }
}

/// Whether a mover stands: the terrain just below it is solid and it does
/// not rise.
pub fn stands(below: Option<bool>, rising: bool) -> (on_ground: bool)
    ensures
        on_ground == (below == Some(true) && !rising),
{
    is_solid(below) && !rising
}

/// How often a mover may be nudged up out of the ground in a step of `dt`:
/// six thousand times a second, a begun nudge counting whole.
pub open spec fn spec_unstick_budget(dt: u64) -> int {
    (3 * dt + 499) / 500
}

/// How often a mover may be nudged up out of the ground in a step of `dt`.
pub fn unstick_budget(dt: u64) -> (budget: u64)
    ensures
        budget == spec_unstick_budget(dt),
{
    let q: u64 = dt / 500;
    let r: u64 = dt % 500;
    q * 3 + (r * 3 + 499) / 500
}

/// Whether a mover is nudged up once more: the block it is in is solid and
/// fewer than `budget` nudges were made.
pub fn keeps_unsticking(here: Option<bool>, done: u64, budget: u64) -> (again: bool)
    ensures
        again == (here == Some(true) && done < budget),
{
    is_solid(here) && done < budget
}

/// The time that the steps `dts` take together.
pub open spec fn spec_total(dts: Seq<u64>) -> int
    decreases dts.len(),
{
    if dts.len() == 0 {
        0
    } else {
        spec_total(dts.drop_last()) + dts.last()
    }
}

/// The roll marker after the steps `dts`, one after the other.
pub open spec fn spec_roll_after(roll: Option<u64>, dts: Seq<u64>) -> Option<u64>
    decreases dts.len(),
{
    if dts.len() == 0 {
        roll
    } else {
        spec_advance_roll(spec_roll_after(roll, dts.drop_last()), dts.last())
    }
}

/// A roll lasts its duration and no longer: a marker set at time zero is
/// still there after a run of steps exactly if the steps together took no
/// more than [`ROLL_DURATION`], and then it holds the time they took. So it
/// goes at the first step that takes the time past the duration, and never
/// before.
pub proof fn roll_lasts_its_duration(dts: Seq<u64>)
    ensures
        spec_total(dts) >= 0,
        spec_roll_after(Some(0), dts) == if spec_total(dts) <= ROLL_DURATION {
            Some(spec_total(dts) as u64)
        } else {
            None
        },
        dts.len() > 0 ==> spec_total(dts.drop_last()) <= spec_total(dts),
    decreases dts.len(),
{
    if dts.len() > 0 {
        roll_lasts_its_duration(dts.drop_last());
    }
}

} // verus!
