//! Interest management: who is told about whom.
//!
//! An entity that carries the force-update mark is pushed to every
//! connection. Any other entity is pushed to every connection but the one
//! that controls it, and only where the connection's own entity stands within
//! its view distance of the entity, along every axis.

use crate::grid::block_offset;
use crate::grid::spec_block_offset;
use crate::grid::BlockPos;
use crate::grid::ChunkSize;
use crate::select::is_selection;
use crate::select::lemma_selection_skip;
use crate::select::lemma_selection_take;
use vstd::prelude::*;

verus! {

/// A connection as replication sees it: the entity it controls, where that
/// entity stands, and how far the connection sees, in chunks.
#[derive(Clone, Copy, Debug, PartialEq, Eq, Structural)]
pub struct Viewer {
    pub entity: u64,
    pub pos: Option<BlockPos>,
    pub view_distance: Option<u32>,
}

/// An entity with a position, as replication sees it.
#[derive(Clone, Copy, Debug, PartialEq, Eq, Structural)]
pub struct Subject {
    pub entity: u64,
    pub pos: BlockPos,
    /// Push to everybody this tick, whatever the distance.
    pub force_update: bool,
    /// The animation differs from what was last pushed.
    pub animation_changed: bool,
}

/// Whether `target` lies within `view_distance` chunks of `from` along every
/// axis: the distance in blocks is less than the view distance times the
/// chunk's edge.
pub open spec fn spec_within(
    target: BlockPos,
    from: BlockPos,
    view_distance: u32,
    size: ChunkSize,
) -> bool {
    let d = spec_block_offset(target, from);
    d.0 < view_distance * size.x && d.1 < view_distance * size.y && d.2 < view_distance * size.z
}

/// Whether `viewer` has `target` in view. A viewer without a position or
/// without a view distance has nothing in view.
pub open spec fn spec_in_view(target: BlockPos, viewer: Viewer, size: ChunkSize) -> bool {
    match (viewer.pos, viewer.view_distance) {
        (Some(from), Some(vd)) => spec_within(target, from, vd, size),
        _ => false,
    }
}

/// Whether the physics of `subject` are pushed to `viewer`.
pub open spec fn spec_gets_physics(subject: Subject, viewer: Viewer, size: ChunkSize) -> bool {
    subject.force_update || (viewer.entity != subject.entity && spec_in_view(
        subject.pos,
        viewer,
        size,
    ))
}

/// Whether the animation of `subject` is pushed to `viewer`: as its physics
/// are, but only if there is something new to tell.
pub open spec fn spec_gets_animation(subject: Subject, viewer: Viewer, size: ChunkSize) -> bool {
    (subject.animation_changed || subject.force_update) && spec_gets_physics(
        subject,
        viewer,
        size,
    )
}

/// Whether `viewer` has `target` in view.
pub fn in_view(target: BlockPos, viewer: Viewer, size: ChunkSize) -> (b: bool)
    ensures
        b == spec_in_view(target, viewer, size),
{
    match (viewer.pos, viewer.view_distance) {
        (Some(from), Some(vd)) => {
            let d = block_offset(target, from);
            let vd: u64 = vd as u64;
            assert(vd * size.x <= u64::MAX && vd * size.y <= u64::MAX && vd * size.z <= u64::MAX)
                by (nonlinear_arith)
                requires
                    vd <= u32::MAX,
                    size.x <= u32::MAX,
                    size.y <= u32::MAX,
                    size.z <= u32::MAX,
            ;
            (d.0 as u64) < vd * (size.x as u64) && (d.1 as u64) < vd * (size.y as u64) && (
            d.2 as u64) < vd * (size.z as u64)
        },
        _ => false,
    }
}

/// Whether the physics of `subject` are pushed to `viewer`.
pub fn gets_physics(subject: Subject, viewer: Viewer, size: ChunkSize) -> (b: bool)
    ensures
        b == spec_gets_physics(subject, viewer, size),
{
    subject.force_update || (viewer.entity != subject.entity && in_view(subject.pos, viewer, size))
}

/// Whether the animation of `subject` is pushed to `viewer`.
pub fn gets_animation(subject: Subject, viewer: Viewer, size: ChunkSize) -> (b: bool)
    ensures
        b == spec_gets_animation(subject, viewer, size),
{
    (subject.animation_changed || subject.force_update) && gets_physics(subject, viewer, size)
}

/// The connections that the physics of `subject` are pushed to, by index.
pub fn physics_recipients(subject: Subject, viewers: &Vec<Viewer>, size: ChunkSize) -> (picked:
    Vec<usize>)
    ensures
        is_selection(
            picked@,
            viewers.len() as int,
            |i: int| spec_gets_physics(subject, viewers@[i], size),
        ),
{
    let ghost wanted = |i: int| spec_gets_physics(subject, viewers@[i], size);
    let mut picked: Vec<usize> = Vec::new();
    let mut i: usize = 0;
    while i < viewers.len()
        invariant
            i <= viewers.len(),
            wanted == |i: int| spec_gets_physics(subject, viewers@[i], size),
            is_selection(picked@, i as int, wanted),
        decreases viewers.len() - i,
    {
        let ghost before = picked@;
        if gets_physics(subject, viewers[i], size) {
            picked.push(i);
            proof {
                lemma_selection_take(before, i as int, wanted);
            }
        } else {
            proof {
                lemma_selection_skip(before, i as int, wanted);
            }
        }
        i = i + 1;
    }
    picked
}

/// The connections that the animation of `subject` is pushed to, by index.
pub fn animation_recipients(subject: Subject, viewers: &Vec<Viewer>, size: ChunkSize) -> (picked:
    Vec<usize>)
    ensures
        is_selection(
            picked@,
            viewers.len() as int,
            |i: int| spec_gets_animation(subject, viewers@[i], size),
        ),
{
    let ghost wanted = |i: int| spec_gets_animation(subject, viewers@[i], size);
    let mut picked: Vec<usize> = Vec::new();
    let mut i: usize = 0;
    while i < viewers.len()
        invariant
            i <= viewers.len(),
            wanted == |i: int| spec_gets_animation(subject, viewers@[i], size),
            is_selection(picked@, i as int, wanted),
        decreases viewers.len() - i,
    {
        let ghost before = picked@;
        if gets_animation(subject, viewers[i], size) {
            picked.push(i);
            proof {
                lemma_selection_take(before, i as int, wanted);
            }
        } else {
            proof {
                lemma_selection_skip(before, i as int, wanted);
            }
        }
        i = i + 1;
    }
    picked
}

/// What one tick pushes: for each subject, by its index, the connections that
/// get its physics and the connections that get its animation.
#[derive(Debug)]
pub struct Pushes {
    pub physics: Vec<Vec<usize>>,
    pub animation: Vec<Vec<usize>>,
}

/// Computes what this tick pushes to whom.
pub fn replicate(subjects: &Vec<Subject>, viewers: &Vec<Viewer>, size: ChunkSize) -> (out: Pushes)
    ensures
        out.physics.len() == subjects.len(),
        out.animation.len() == subjects.len(),
        forall|s: int|
            0 <= s < subjects.len() ==> is_selection(
                (#[trigger] out.physics[s])@,
                viewers.len() as int,
                |i: int| spec_gets_physics(subjects@[s], viewers@[i], size),
            ),
        forall|s: int|
            0 <= s < subjects.len() ==> is_selection(
                (#[trigger] out.animation[s])@,
                viewers.len() as int,
                |i: int| spec_gets_animation(subjects@[s], viewers@[i], size),
            ),
{
    let mut physics: Vec<Vec<usize>> = Vec::new();
    let mut animation: Vec<Vec<usize>> = Vec::new();
    let mut s: usize = 0;
    while s < subjects.len()
        invariant
            s <= subjects.len(),
            physics.len() == s,
            animation.len() == s,
            forall|t: int|
                0 <= t < s ==> is_selection(
                    (#[trigger] physics[t])@,
                    viewers.len() as int,
                    |i: int| spec_gets_physics(subjects@[t], viewers@[i], size),
                ),
            forall|t: int|
                0 <= t < s ==> is_selection(
                    (#[trigger] animation[t])@,
                    viewers.len() as int,
                    |i: int| spec_gets_animation(subjects@[t], viewers@[i], size),
                ),
        decreases subjects.len() - s,
    {
        physics.push(physics_recipients(subjects[s], viewers, size));
        animation.push(animation_recipients(subjects[s], viewers, size));
        s = s + 1;
    }
    Pushes { physics, animation }
}

/// A subject with its one-tick marks taken off.
pub open spec fn spec_cleared(subject: Subject) -> Subject {
    Subject {
        entity: subject.entity,
        pos: subject.pos,
        force_update: false,
        animation_changed: false,
    }
}

/// Takes the one-tick marks off every subject, whether or not anybody was
/// told about it.
pub fn clear_transient(subjects: &mut Vec<Subject>)
    ensures
        final(subjects).len() == old(subjects).len(),
        forall|i: int|
            0 <= i < old(subjects).len() ==> #[trigger] final(subjects)@[i] == spec_cleared(
                old(subjects)@[i],
            ),
{
    let mut i: usize = 0;
    while i < subjects.len()
        invariant
            i <= subjects.len(),
            subjects.len() == old(subjects).len(),
            forall|j: int| 0 <= j < i ==> #[trigger] subjects@[j] == spec_cleared(old(subjects)@[j]),
            forall|j: int| i <= j < subjects.len() ==> #[trigger] subjects@[j] == old(subjects)@[j],
        decreases subjects.len() - i,
    {
        let was = subjects[i];
        subjects.set(
            i,
            Subject {
                entity: was.entity,
                pos: was.pos,
                force_update: false,
                animation_changed: false,
            },
        );
        i = i + 1;
    }
}

/// An entity that carries the force-update mark is pushed to every
/// connection, physics and animation both, wherever the connection's own
/// entity stands and whether or not it has a position or a view distance.
pub proof fn forced_reaches_everyone(subject: Subject, viewer: Viewer, size: ChunkSize)
    requires
        subject.force_update,
    ensures
        spec_gets_physics(subject, viewer, size),
        spec_gets_animation(subject, viewer, size),
{
}

/// Without the force-update mark, a connection whose own entity stands at
/// least its view distance away from the subject along some axis is told
/// nothing about it.
pub proof fn out_of_view_is_not_told(subject: Subject, viewer: Viewer, size: ChunkSize)
    requires
        !subject.force_update,
        viewer.pos is Some,
        viewer.view_distance is Some,
        ({
            let d = spec_block_offset(subject.pos, viewer.pos->0);
            let vd = viewer.view_distance->0;
            d.0 >= vd * size.x || d.1 >= vd * size.y || d.2 >= vd * size.z
        }),
    ensures
        !spec_gets_physics(subject, viewer, size),
        !spec_gets_animation(subject, viewer, size),
{
}

/// Once the one-tick marks are off, replication has nothing forced left to
/// push: what it still pushes goes by view distance alone and never to the
/// subject's own controller, and no animation is pushed at all. Taking the
/// marks off a second time changes nothing.
pub proof fn cleared_pushes_nothing_forced(subject: Subject, viewer: Viewer, size: ChunkSize)
    ensures
        !spec_cleared(subject).force_update,
        spec_gets_physics(spec_cleared(subject), viewer, size) <==> viewer.entity
            != subject.entity && spec_in_view(subject.pos, viewer, size),
        !spec_gets_animation(spec_cleared(subject), viewer, size),
        spec_cleared(spec_cleared(subject)) == spec_cleared(subject),
{
}

} // verus!
