//! Where the text stands on the 400 x 300 panel, which the reader can turn.
use vstd::prelude::*;

verus! {

pub const DISPLAY_WIDTH: u32 = 400;

pub const DISPLAY_HEIGHT: u32 = 300;

pub const FONT_SIZE: u32 = 16;

/// The strip at the bottom that the progress bar takes.
pub const PROGRESS_AREA_HEIGHT: u32 = 8;

/// Quarter turns of the panel before the reader turns it: upright.
pub const DEFAULT_ROT_NUM: u8 = 1;

/// How often the reader has turned the panel, each time to the right.
#[derive(Clone, Copy, Debug, PartialEq, Eq, Structural)]
pub struct RotateState {
    pub quarter: u8,
}

impl RotateState {
    /// Quarter turns of the panel.
    pub open spec fn turns(self) -> int {
        (DEFAULT_ROT_NUM + self.quarter) % 4
    }

    /// The panel stands upright.
    pub open spec fn upright(self) -> bool {
        self.turns() % 2 == 1
    }

    /// The width and height that the reader sees.
    pub open spec fn size(self) -> (int, int) {
        if self.upright() {
            (DISPLAY_HEIGHT as int, DISPLAY_WIDTH as int)
        } else {
            (DISPLAY_WIDTH as int, DISPLAY_HEIGHT as int)
        }
    }
}

/// Notes how often the reader has turned the panel.
pub fn set_rotation_state(state: &mut RotateState, r: u8)
    ensures
        final(state).quarter == r % 4,
{
    state.quarter = r % 4;
}

fn cur_rot_num(state: RotateState) -> (n: u8)
    requires
        state.quarter < 4,
    ensures
        n == state.turns(),
{
    (DEFAULT_ROT_NUM + state.quarter) % 4
}

fn swapped(state: RotateState) -> (b: bool)
    requires
        state.quarter < 4,
    ensures
        b == state.upright(),
{
    cur_rot_num(state) % 2 == 1
}

/// The width that the reader sees.
pub fn visual_width(state: RotateState) -> (w: u32)
    requires
        state.quarter < 4,
    ensures
        w == state.size().0,
{
    if swapped(state) {
        DISPLAY_HEIGHT
    } else {
        DISPLAY_WIDTH
    }
}

/// The height that the reader sees.
pub fn visual_height(state: RotateState) -> (h: u32)
    requires
        state.quarter < 4,
    ensures
        h == state.size().1,
{
    if swapped(state) {
        DISPLAY_WIDTH
    } else {
        DISPLAY_HEIGHT
    }
}

/// The text takes the whole width.
pub fn text_width(state: RotateState) -> (w: u32)
    requires
        state.quarter < 4,
    ensures
        w == state.size().0,
{
    visual_width(state)
}

/// The text begins at the edge.
pub fn text_left_margin() -> (m: i32)
    ensures
        m == 0,
{
    0
}

/// How many lines a page holds: those above the progress bar, less one.
pub fn page_lines(state: RotateState) -> (n: u32)
    requires
        state.quarter < 4,
    ensures
        n == (state.size().1 - PROGRESS_AREA_HEIGHT) / FONT_SIZE as int - 1,
        n == (if state.upright() {
            23int
        } else {
            17
        }),
{
    (visual_height(state) - PROGRESS_AREA_HEIGHT) / FONT_SIZE - 1
}

/// Quarter turns of the panel.
pub fn current_rotation(state: RotateState) -> (quarter: u8)
    requires
        state.quarter < 4,
    ensures
        quarter == state.turns(),
{
    cur_rot_num(state)
}

/// Two quarter turns keep the size, and one swaps width and height.
pub proof fn law_quarter_turn_swaps(a: RotateState, b: RotateState)
    requires
        a.quarter < 4,
        b.quarter == (a.quarter + 1) % 4,
    ensures
        a.size() == (b.size().1, b.size().0),
{
}

} // verus!
