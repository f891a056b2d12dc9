use mountain_render::controls::{shade, step_counter, Keys, Pose, Shading};
use mountain_render::mesh::{Triangle, Vertex};
use mountain_render::scene::{check_resolution, object_kind, same_text, MainState, ObjectKind};

fn no_keys() -> Keys {
    Keys {
        q: false,
        e: false,
        left: false,
        right: false,
        up: false,
        down: false,
        s: false,
        w: false,
        d: false,
        a: false,
        shift: false,
        ctrl: false,
    }
}

#[test]
fn names_pick_objects() {
    assert_eq!(object_kind("cube"), ObjectKind::Cube);
    assert_eq!(object_kind("sphere"), ObjectKind::Sphere);
    assert_eq!(object_kind("mountain"), ObjectKind::Mountain);
    assert_eq!(object_kind("help"), ObjectKind::Help);
    assert_eq!(object_kind("Cube"), ObjectKind::Other);
    assert_eq!(object_kind("mountains"), ObjectKind::Other);
    assert_eq!(object_kind(""), ObjectKind::Other);
}

#[test]
fn texts_compare_by_characters() {
    assert!(same_text("héllo", "héllo"));
    assert!(!same_text("héllo", "hello"));
    assert!(!same_text("ab", "abc"));
    assert!(same_text("", ""));
}

#[test]
fn resolutions_that_fit() {
    assert!(check_resolution(ObjectKind::Sphere, 0));
    assert!(check_resolution(ObjectKind::Sphere, 3));
    assert!(!check_resolution(ObjectKind::Sphere, 40));
    assert!(check_resolution(ObjectKind::Mountain, 50));
    assert!(!check_resolution(ObjectKind::Mountain, u32::MAX));
    assert!(check_resolution(ObjectKind::Cube, u32::MAX));
    assert!(check_resolution(ObjectKind::Other, u32::MAX));
}

#[test]
fn start_states() {
    let cube = MainState::new("cube", 1);
    assert_eq!(cube.object.triangles.len(), 12);
    assert!(!cube.reverse_lighting);
    assert_eq!(
        cube.pose,
        Pose { theta_x: 0, theta_y: 0, theta_z: 0, move_x: 0, move_y: 0, move_z: 130 }
    );
    let other = MainState::new("teapot", 9);
    assert_eq!(other.object.triangles.len(), 12);
    assert!(!other.reverse_lighting);
    let sphere = MainState::new("sphere", 2);
    assert_eq!(sphere.object.triangles.len(), 320);
    assert!(!sphere.reverse_lighting);
    let mountain = MainState::new("mountain", 3);
    assert!(mountain.reverse_lighting);
    assert_eq!(mountain.object.vertices.len(), 16);
    assert_eq!(mountain.object.triangles.len(), 18);
    assert_eq!(mountain.object.vertices[5], Vertex::Grid { i: 1, j: 1 });
    assert_eq!(mountain.object.triangles[0], Triangle { a: 1, b: 0, c: 5 });
}

#[test]
fn keys_steer_the_pose() {
    let mut state = MainState::new("cube", 1);
    let mut k = no_keys();
    k.q = true;
    k.left = true;
    k.down = true;
    k.s = true;
    k.a = true;
    k.ctrl = true;
    state.update(&k);
    assert_eq!(
        state.pose,
        Pose { theta_x: 1, theta_y: 1, theta_z: -1, move_x: -1, move_y: -1, move_z: 131 }
    );
    // the first of two opposed keys wins
    let mut both = no_keys();
    both.q = true;
    both.e = true;
    both.shift = true;
    both.ctrl = true;
    state.update(&both);
    assert_eq!(state.pose.theta_x, 2);
    assert_eq!(state.pose.move_y, 0);
    assert_eq!(state.object.triangles.len(), 12);
}

#[test]
fn idle_frame_changes_nothing() {
    let mut state = MainState::new("mountain", 2);
    let before = state.pose;
    state.update(&no_keys());
    assert_eq!(state.pose, before);
    assert!(state.reverse_lighting);
}

#[test]
fn opposite_keys_undo_a_frame() {
    let p = Pose { theta_x: 5, theta_y: -3, theta_z: 0, move_x: 7, move_y: 1, move_z: 130 };
    let mut k = no_keys();
    k.e = true;
    k.right = true;
    k.w = true;
    k.d = true;
    let mut opposite = no_keys();
    opposite.q = true;
    opposite.left = true;
    opposite.s = true;
    opposite.a = true;
    let there = p.steer(&k);
    assert_eq!(
        there,
        Pose { theta_x: 4, theta_y: -4, theta_z: 0, move_x: 8, move_y: 1, move_z: 129 }
    );
    assert_eq!(there.steer(&opposite), p);
}

#[test]
fn counters_stop_at_their_limits() {
    assert_eq!(step_counter(i64::MAX, true, false), i64::MAX);
    assert_eq!(step_counter(i64::MIN, false, true), i64::MIN);
    assert_eq!(step_counter(3, false, true), 2);
    assert_eq!(step_counter(3, false, false), 3);
    assert_eq!(Pose::start().move_z, 130);
}

#[test]
fn shading_choices() {
    // facing the viewer
    assert_eq!(shade(true, false, false), Shading::Lit);
    assert_eq!(shade(true, false, true), Shading::Lit);
    // facing away
    assert_eq!(shade(false, true, false), Shading::Hidden);
    assert_eq!(shade(false, true, true), Shading::LitFlipped);
    // not a number
    assert_eq!(shade(false, false, false), Shading::Hidden);
    assert_eq!(shade(false, false, true), Shading::Lit);
}
