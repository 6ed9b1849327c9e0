use vstd::prelude::*;

verus! {

/// How a jump leaves: from the ground (or within its grace window), off a wall with a kick away
/// from it, or with the one air jump.
#[derive(Clone, Copy, Debug, PartialEq, Eq, Structural)]
pub enum JumpKind {
    Ground,
    /// Off a wall on the left, kicking to the right.
    WallOnLeft,
    /// Off a wall on the right, kicking to the left.
    WallOnRight,
    Double,
}

/// The discrete state that decides whether and how the player may jump.
#[derive(Clone, Copy, Debug, PartialEq, Eq, Structural)]
pub struct JumpState {
    /// The player is shrunk and cannot jump.
    pub shrunken: bool,
    /// The ground grace window is open.
    pub grounded_recently: bool,
    /// The wall-jump grace window for a wall on the left is open.
    pub blocked_left_recently: bool,
    /// The wall-jump grace window for a wall on the right is open.
    pub blocked_right_recently: bool,
    /// The air jump has not been used since the last grounding.
    pub have_double_jump: bool,
}

/// The jump that a press gives, if any: a ground jump within the grace window; otherwise, with
/// the wall-jump ability and a wall grace window open, a wall jump off the left wall first;
/// otherwise the air jump when it is left.
pub open spec fn jump_of(s: JumpState, jump_hit: bool, has_wall_jump: bool) -> Option<JumpKind> {
    let wall = has_wall_jump && (s.blocked_left_recently || s.blocked_right_recently);
    if s.shrunken || !jump_hit {
        None
    } else if s.grounded_recently {
        Some(JumpKind::Ground)
    } else if wall && s.blocked_left_recently {
        Some(JumpKind::WallOnLeft)
    } else if wall {
        Some(JumpKind::WallOnRight)
    } else if s.have_double_jump {
        Some(JumpKind::Double)
    } else {
        None
    }
}

/// Decides the jump of a press. A jump closes every grace window; only the air jump uses up the
/// air jump.
pub fn choose_jump(s: &mut JumpState, jump_hit: bool, has_wall_jump: bool) -> (r: Option<JumpKind>)
    ensures
        r == jump_of(*old(s), jump_hit, has_wall_jump),
        r is None ==> *final(s) == *old(s),
        r is Some ==> *final(s) == (JumpState {
            grounded_recently: false,
            blocked_left_recently: false,
            blocked_right_recently: false,
            have_double_jump: old(s).have_double_jump && r != Some(JumpKind::Double),
            ..*old(s)
        }),
{
    let wall = has_wall_jump && (s.blocked_left_recently || s.blocked_right_recently);
    if s.shrunken || !jump_hit {
        return None;
    }
    let kind = if s.grounded_recently {
        JumpKind::Ground
    } else if wall && s.blocked_left_recently {
        JumpKind::WallOnLeft
    } else if wall {
        JumpKind::WallOnRight
    } else if s.have_double_jump {
        JumpKind::Double
    } else {
        return None;
    };
    if kind == JumpKind::Double {
        s.have_double_jump = false;
    }
    s.grounded_recently = false;
    s.blocked_left_recently = false;
    s.blocked_right_recently = false;
    Some(kind)
}

} // verus!
