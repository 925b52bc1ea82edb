//! Where the text stands on the 176 x 264 panel.
use vstd::prelude::*;

verus! {

pub const DISPLAY_WIDTH: u32 = 176;

pub const DISPLAY_HEIGHT: u32 = 264;

pub const FONT_SIZE: u32 = 16;

pub const PROGRESS_AREA_HEIGHT: u32 = 20;

/// The width that the reader sees.
pub fn visual_width() -> (w: u32)
    ensures
        w == 176,
{
    DISPLAY_WIDTH
}

/// The height that the reader sees.
pub fn visual_height() -> (h: u32)
    ensures
        h == 264,
{
    DISPLAY_HEIGHT
}

/// The width of the text: one character less than the panel, so that the last one on a line is
/// not cut off.
pub fn text_width() -> (w: u32)
    ensures
        w == 160,
{
    visual_width() - 16
}

/// Half of what the text leaves free.
pub fn text_left_margin() -> (m: i32)
    ensures
        m == 8,
{
    ((visual_width() - text_width()) / 2) as i32
}

/// How many lines a page holds: those above the progress bar, less one.
pub fn page_lines() -> (n: u32)
    ensures
        n == 14,
{
    (visual_height() - PROGRESS_AREA_HEIGHT) / FONT_SIZE - 1
}

/// Quarter turns of the panel.
pub fn current_rotation(flipped: bool) -> (quarter: u8)
    ensures
        quarter == (if flipped {
            2u8
        } else {
            0u8
        }),
{
    if flipped {
        2
    } else {
        0
    }
}

} // verus!
