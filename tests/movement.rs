use tmv::movement::{choose_jump, JumpKind, JumpState};

fn state() -> JumpState {
    JumpState {
        shrunken: false,
        grounded_recently: false,
        blocked_left_recently: false,
        blocked_right_recently: false,
        have_double_jump: false,
    }
}

#[test]
fn no_jump_without_press_or_while_shrunk() {
    let mut s = JumpState { grounded_recently: true, ..state() };
    assert_eq!(choose_jump(&mut s, false, true), None);
    let mut shrunk = JumpState { shrunken: true, grounded_recently: true, ..state() };
    assert_eq!(choose_jump(&mut shrunk, true, true), None);
    assert!(shrunk.grounded_recently);
}

#[test]
fn ground_jump_keeps_air_jump() {
    let mut s = JumpState { grounded_recently: true, have_double_jump: true, ..state() };
    assert_eq!(choose_jump(&mut s, true, false), Some(JumpKind::Ground));
    assert!(!s.grounded_recently);
    assert!(s.have_double_jump);
}

#[test]
fn wall_jump_needs_the_ability() {
    let mut s = JumpState { blocked_right_recently: true, ..state() };
    assert_eq!(choose_jump(&mut s, true, false), None);
    assert_eq!(choose_jump(&mut s, true, true), Some(JumpKind::WallOnRight));
    assert!(!s.blocked_right_recently);
    let mut both = JumpState { blocked_left_recently: true, blocked_right_recently: true, ..state() };
    assert_eq!(choose_jump(&mut both, true, true), Some(JumpKind::WallOnLeft));
}

#[test]
fn air_jump_is_used_once() {
    let mut s = JumpState { have_double_jump: true, ..state() };
    assert_eq!(choose_jump(&mut s, true, false), Some(JumpKind::Double));
    assert!(!s.have_double_jump);
    assert_eq!(choose_jump(&mut s, true, false), None);
}
