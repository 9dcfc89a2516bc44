use dog_adventure::control::{
    ControlInput, ControlOutcome, PlayerControl, COYOTE_FRAMES, JUMP_BUFFER_FRAMES,
};

fn input(left: bool, right: bool, jump: bool, grounded: bool) -> ControlInput {
    ControlInput { left, right, jump_pressed: jump, grounded }
}

fn idle(grounded: bool) -> ControlInput {
    input(false, false, false, grounded)
}

#[test]
fn new_control_faces_right() {
    let c = PlayerControl::new();
    assert!(c.facing_right);
    assert_eq!(c.coyote_counter, 0);
    assert_eq!(c.jump_buffer_counter, 0);
}

#[test]
fn movement_and_facing() {
    let mut c = PlayerControl::new();
    assert_eq!(c.step(input(true, false, false, true)).move_x, -1);
    assert!(!c.facing_right);
    assert_eq!(c.step(input(true, true, false, true)).move_x, 0);
    assert!(!c.facing_right);
    assert_eq!(c.step(input(false, true, false, true)).move_x, 1);
    assert!(c.facing_right);
    assert_eq!(c.step(idle(true)).move_x, 0);
    assert!(c.facing_right);
}

#[test]
fn grounded_press_jumps_and_empties_counters() {
    let mut c = PlayerControl::new();
    let out = c.step(input(false, false, true, true));
    assert_eq!(out, ControlOutcome { move_x: 0, jumped: true });
    assert_eq!(c.coyote_counter, 0);
    assert_eq!(c.jump_buffer_counter, 0);
}

#[test]
fn counters_load_and_count_down() {
    let mut c = PlayerControl::new();
    assert!(!c.step(idle(true)).jumped);
    assert_eq!(c.coyote_counter, COYOTE_FRAMES);
    assert_eq!(c.jump_buffer_counter, -1);
    assert!(!c.step(idle(false)).jumped);
    assert_eq!(c.coyote_counter, COYOTE_FRAMES - 1);
    assert_eq!(c.jump_buffer_counter, -2);
}

#[test]
fn counters_saturate() {
    let mut c = PlayerControl { facing_right: true, coyote_counter: i32::MIN, jump_buffer_counter: i32::MIN };
    assert!(!c.step(idle(false)).jumped);
    assert_eq!(c.coyote_counter, i32::MIN);
    assert_eq!(c.jump_buffer_counter, i32::MIN);
}

#[test]
fn jump_buffer_remembers_a_press() {
    // press in the air, land JUMP_BUFFER_FRAMES - 1 frames later: the dog jumps on landing
    let mut c = PlayerControl::new();
    assert!(!c.step(input(false, false, true, false)).jumped);
    for _ in 1..(JUMP_BUFFER_FRAMES - 1) {
        assert!(!c.step(idle(false)).jumped);
    }
    assert!(c.step(idle(true)).jumped);
}

#[test]
fn jump_buffer_forgets_an_old_press() {
    let mut c = PlayerControl::new();
    assert!(!c.step(input(false, false, true, false)).jumped);
    for _ in 1..JUMP_BUFFER_FRAMES {
        assert!(!c.step(idle(false)).jumped);
    }
    assert!(!c.step(idle(true)).jumped);
}

#[test]
fn coyote_time_allows_late_jump() {
    let mut c = PlayerControl::new();
    assert!(!c.step(idle(true)).jumped);
    for _ in 1..(COYOTE_FRAMES - 1) {
        assert!(!c.step(idle(false)).jumped);
    }
    assert!(c.step(input(false, false, true, false)).jumped);
}

#[test]
fn coyote_time_runs_out() {
    let mut c = PlayerControl::new();
    assert!(!c.step(idle(true)).jumped);
    for _ in 1..COYOTE_FRAMES {
        assert!(!c.step(idle(false)).jumped);
    }
    assert!(!c.step(input(false, false, true, false)).jumped);
}

#[test]
fn no_double_jump() {
    let mut c = PlayerControl::new();
    assert!(c.step(input(false, false, true, true)).jumped);
    assert!(!c.step(input(false, false, true, false)).jumped);
    let mut d = PlayerControl::new();
    assert!(d.step(input(false, false, true, true)).jumped);
    assert!(!d.step(idle(true)).jumped);
    let mut e = PlayerControl::new();
    assert!(e.step(input(false, false, true, true)).jumped);
    assert!(e.step(input(false, false, true, true)).jumped);
}
