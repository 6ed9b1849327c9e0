use vstd::prelude::*;

verus! {

/// A point in half-tile units: the tile corner `(x, y)` is `(2 * x, 2 * y)`, and its centre is
/// `(2 * x + 1, 2 * y + 1)`.
#[derive(Clone, Copy, Debug, PartialEq, Eq, Structural)]
pub struct HalfTile {
    pub x: i32,
    pub y: i32,
}

/// A direction along an axis, as a unit vector with integer components.
#[derive(Clone, Copy, Debug, PartialEq, Eq, Structural)]
pub struct Dir {
    pub x: i32,
    pub y: i32,
}

impl Dir {
    /// The four directions, counterclockwise from the left one as the screen shows them (with
    /// `y` growing downwards): left, down, right, up.
    pub fn cardinal_direction(dir: usize) -> (r: Dir)
        requires
            dir < 4,
        ensures
            dir == 0 ==> r == (Dir { x: -1i32, y: 0 }),
            dir == 1 ==> r == (Dir { x: 0, y: 1 }),
            dir == 2 ==> r == (Dir { x: 1, y: 0 }),
            dir == 3 ==> r == (Dir { x: 0, y: -1i32 }),
    {
        match dir {
            0 => Dir { x: -1, y: 0 },
            1 => Dir { x: 0, y: 1 },
            2 => Dir { x: 1, y: 0 },
            _ => Dir { x: 0, y: -1 },
        }
    }
}

} // verus!
