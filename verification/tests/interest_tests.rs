use server_core::grid::{BlockPos, ChunkSize};
use server_core::interest::{
    animation_recipients, clear_transient, gets_animation, gets_physics, in_view,
    physics_recipients, replicate, Subject, Viewer,
};

const SIZE: ChunkSize = ChunkSize { x: 32, y: 32, z: 256 };

fn at(x: i32, y: i32, z: i32) -> BlockPos {
    BlockPos { x, y, z }
}

fn viewer(entity: u64, x: i32, y: i32, vd: u32) -> Viewer {
    Viewer { entity, pos: Some(at(x, y, 0)), view_distance: Some(vd) }
}

fn subject(entity: u64, x: i32, y: i32) -> Subject {
    Subject { entity, pos: at(x, y, 0), force_update: false, animation_changed: false }
}

#[test]
fn forced_updates_reach_everybody() {
    let far = Subject { force_update: true, ..subject(1, 1_000_000, -1_000_000) };
    let viewers = vec![
        viewer(1, 0, 0, 2),
        viewer(2, 0, 0, 0),
        Viewer { entity: 3, pos: None, view_distance: None },
        Viewer { entity: 4, pos: Some(at(0, 0, 0)), view_distance: None },
    ];
    assert_eq!(physics_recipients(far, &viewers, SIZE), vec![0, 1, 2, 3]);
    assert_eq!(animation_recipients(far, &viewers, SIZE), vec![0, 1, 2, 3]);
}

#[test]
fn five_chunks_away_is_out_of_a_view_of_two() {
    let v = viewer(2, 0, 0, 2);
    let s = subject(1, 5 * 32, 0);
    assert!(!gets_physics(s, v, SIZE));
    assert!(!gets_animation(Subject { animation_changed: true, ..s }, v, SIZE));
    assert_eq!(physics_recipients(s, &vec![v], SIZE), Vec::<usize>::new());
    assert!(gets_physics(Subject { force_update: true, ..s }, v, SIZE));
}

#[test]
fn the_view_ends_at_the_view_distance_in_blocks() {
    let v = viewer(2, 0, 0, 2);
    assert!(in_view(at(63, -63, 0), v, SIZE));
    assert!(!in_view(at(64, 0, 0), v, SIZE));
    assert!(!in_view(at(0, -64, 0), v, SIZE));
    assert!(in_view(at(0, 0, 511), v, SIZE));
    assert!(!in_view(at(0, 0, -512), v, SIZE));
    assert!(!in_view(at(0, 0, 0), viewer(2, 0, 0, 0), SIZE));
    assert!(!in_view(at(0, 0, 0), Viewer { entity: 2, pos: None, view_distance: Some(9) }, SIZE));
    assert!(!in_view(at(0, 0, 0), Viewer { entity: 2, pos: Some(at(0, 0, 0)), view_distance: None }, SIZE));
}

#[test]
fn the_widest_view_does_not_overflow() {
    let v = Viewer { entity: 2, pos: Some(at(i32::MIN, i32::MIN, i32::MIN)), view_distance: Some(u32::MAX) };
    let wide = ChunkSize { x: u32::MAX, y: u32::MAX, z: u32::MAX };
    assert!(in_view(at(i32::MAX, i32::MAX, i32::MAX), v, wide));
}

#[test]
fn the_controller_is_not_told_about_its_own_entity() {
    let s = subject(7, 10, 10);
    let viewers = vec![viewer(7, 10, 10, 4), viewer(8, 10, 10, 4), viewer(9, 500, 0, 4)];
    assert_eq!(physics_recipients(s, &viewers, SIZE), vec![1]);
}

#[test]
fn animation_needs_something_new() {
    let viewers = vec![viewer(8, 0, 0, 4), viewer(9, 0, 0, 4)];
    let still = subject(8, 5, 5);
    assert_eq!(animation_recipients(still, &viewers, SIZE), Vec::<usize>::new());
    let changed = Subject { animation_changed: true, ..still };
    assert_eq!(animation_recipients(changed, &viewers, SIZE), vec![1]);
    let forced = Subject { force_update: true, ..still };
    assert_eq!(animation_recipients(forced, &viewers, SIZE), vec![0, 1]);
}

#[test]
fn replication_lists_recipients_per_subject() {
    let subjects = vec![
        Subject { force_update: true, ..subject(1, 0, 0) },
        Subject { animation_changed: true, ..subject(2, 40, 0) },
        subject(3, 4000, 0),
    ];
    let viewers = vec![viewer(1, 0, 0, 2), viewer(2, 40, 0, 1)];
    let out = replicate(&subjects, &viewers, SIZE);
    assert_eq!(out.physics, vec![vec![0, 1], vec![0], vec![]]);
    assert_eq!(out.animation, vec![vec![0, 1], vec![0], vec![]]);
}

#[test]
fn cleared_marks_force_nothing_on_a_second_run() {
    let mut subjects = vec![
        Subject { force_update: true, animation_changed: true, ..subject(1, 9000, 0) },
        Subject { animation_changed: true, ..subject(2, 0, 0) },
    ];
    let viewers = vec![viewer(1, 0, 0, 2), viewer(2, 0, 0, 2)];
    let first = replicate(&subjects, &viewers, SIZE);
    assert_eq!(first.physics, vec![vec![0, 1], vec![0]]);
    assert_eq!(first.animation, vec![vec![0, 1], vec![0]]);
    clear_transient(&mut subjects);
    assert_eq!(subjects, vec![subject(1, 9000, 0), subject(2, 0, 0)]);
    let second = replicate(&subjects, &viewers, SIZE);
    assert_eq!(second.physics, vec![vec![], vec![0]]);
    assert_eq!(second.animation, vec![Vec::<usize>::new(), vec![]]);
    let again = subjects.clone();
    clear_transient(&mut subjects);
    assert_eq!(subjects, again);
}
