use vstd::prelude::*;

use crate::level::is_text;

verus! {

/// The edge-triggered inputs of a frame, and whether the map is shown.
#[derive(Clone, Copy, Debug, PartialEq, Eq, Structural)]
pub struct InputFlags {
    pub jump_hit: bool,
    pub dash_hit: bool,
    pub interact_hit: bool,
    pub showing_map: bool,
}

impl InputFlags {
    pub fn new() -> (r: InputFlags)
        ensures
            !r.jump_hit && !r.dash_hit && !r.interact_hit && !r.showing_map,
    {
        InputFlags { jump_hit: false, dash_hit: false, interact_hit: false, showing_map: false }
    }

    /// Records a key press: the up arrow and `z` jump, shift dashes, `e` interacts, `m` shows or
    /// hides the map. Returns whether the press asks for a respawn, which the space bar does
    /// while the player is dead.
    pub fn key_down(&mut self, key: &String, dead: bool) -> (respawn: bool)
        ensures
            final(self).jump_hit == (old(self).jump_hit || key@ == "ArrowUp"@ || key@ == "z"@),
            final(self).dash_hit == (old(self).dash_hit || key@ == "Shift"@),
            final(self).interact_hit == (old(self).interact_hit || key@ == "e"@),
            final(self).showing_map == (old(self).showing_map != (key@ == "m"@)),
            respawn == (dead && key@ == " "@),
    {
        if is_text(key, "ArrowUp") || is_text(key, "z") {
            self.jump_hit = true;
        }
        if is_text(key, "Shift") {
            self.dash_hit = true;
        }
        if is_text(key, "e") {
            self.interact_hit = true;
        }
        if is_text(key, "m") {
            self.showing_map = !self.showing_map;
        }
        dead && is_text(key, " ")
    }

    /// Clears the edge-triggered inputs at the end of a frame.
    pub fn end_frame(&mut self)
        ensures
            *final(self) == (InputFlags {
                jump_hit: false,
                dash_hit: false,
                interact_hit: false,
                showing_map: old(self).showing_map,
            }),
    {
        self.jump_hit = false;
        self.dash_hit = false;
        self.interact_hit = false;
    }
}

} // verus!
