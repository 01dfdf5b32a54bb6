use vstd::prelude::*;

verus! {

/// Directional button bits.
pub const DIR_LEFT: u8 = 1;
pub const DIR_RIGHT: u8 = 2;
pub const DIR_DOWN: u8 = 4;
pub const DIR_UP: u8 = 8;

/// Action button bits.
pub const ACT_CENTER: u8 = 1;
pub const ACT_SET: u8 = 2;
pub const ACT_RESET: u8 = 4;

/// The button bitmasks of the current and of the previous poll.
pub struct InputState {
    pub dir_curr: u8,
    pub dir_prev: u8,
    pub act_curr: u8,
    pub act_prev: u8,
}

/// A button selected by `mask` is down in `curr` and was up in `prev`.
pub open spec fn rising_edge(curr: u8, prev: u8, mask: u8) -> bool {
    (curr & mask) != 0 && (prev & mask) == 0
}

impl InputState {
    /// Returns true only on the edge where the specified directional button was just pressed.
    pub fn just_pressed_dir(&self, mask: u8) -> (r: bool)
        ensures
            r == rising_edge(self.dir_curr, self.dir_prev, mask),
    {
        (self.dir_curr & mask) != 0 && (self.dir_prev & mask) == 0
    }

    /// Returns true only on the edge where the specified action button was just pressed.
    pub fn just_pressed_act(&self, mask: u8) -> (r: bool)
        ensures
            r == rising_edge(self.act_curr, self.act_prev, mask),
    {
        (self.act_curr & mask) != 0 && (self.act_prev & mask) == 0
    }
}

} // verus!
