//! The reading page: the list of books, the open book and its menus.
//!
//! The page is a state machine. Key events change it and tell the caller what to do beside
//! drawing; the files and the panel stay with the caller.
use vstd::prelude::*;
#[allow(unused_imports)]
use vstd::string::*;

use crate::bounded::{
    log_len, log_offsets, log_slice, page_offsets, pages_slice, LogVec, PageVec, LOG_VEC_MAX,
    PAGES_VEC_MAX,
};
use crate::draw::{lemma_texts, texts};
use crate::event::EventType;

verus! {

/// How many books are listed at most.
pub const BOOKS_MAX: usize = 40;

/// How many fonts are listed at most.
pub const FONTS_MAX: usize = 10;

/// How many lines the popup menu has.
pub const MENU_COUNT: u32 = 10;

/// The smallest and the largest text size.
pub const PX_MIN: u8 = 12;

pub const PX_MAX: u8 = 40;

/// The widest extra space between lines.
pub const GAP_MAX: i32 = 10;

/// The menu that lies over the page.
#[derive(Clone, Copy, Debug, PartialEq, Eq, Structural)]
pub enum MenuState {
    Closed,
    Popup { menu_index: u32 },
    JumpInput { input_pct: u8 },
    /// `px` and `gap` are the settings on entry, which a cancelled change goes back to.
    Layout { px: u8, gap: u8 },
    FontList { font_index: u32 },
    BookmarkList { bm_index: u32, deleting: bool },
}

/// What survives a restart of the device.
#[derive(Clone, Copy, Debug, PartialEq, Eq, Structural)]
pub struct Retained {
    /// The book that was open.
    pub page_index: Option<u32>,
    /// Where in it the reader was.
    pub resume_offset: u32,
}

/// The layout settings that are kept in flash.
#[derive(Debug)]
pub struct ReadingSettings {
    pub ttf_px: u8,
    pub line_gap: u8,
    pub rotate: u8,
    /// The font's file name, filled up to 32 bytes with zeros.
    pub font_name: Vec<u8>,
}

/// What the caller does after a key event, beside drawing.
#[derive(Clone, Copy, Debug, PartialEq, Eq, Structural)]
pub struct Outcome {
    /// How long no further event is taken.
    pub delay_ms: u64,
    /// The panel's count of partial refreshes starts over.
    pub reset_render_times: bool,
    /// The layout settings are written to flash.
    pub save_settings: bool,
    /// The panel is turned to the new rotation.
    pub turn_display: bool,
    /// Drawn glyphs are no longer valid.
    pub clear_glyphs: bool,
    /// The device goes to sleep.
    pub sleep_now: bool,
}

/// Nothing to do.
pub open spec fn quiet() -> Outcome {
    Outcome {
        delay_ms: 0,
        reset_render_times: false,
        save_settings: false,
        turn_display: false,
        clear_glyphs: false,
        sleep_now: false,
    }
}

/// The part of the reading page that is plain numbers and flags.
#[derive(Clone, Copy, Debug, PartialEq, Eq, Structural)]
pub struct ReadState {
    pub running: bool,
    pub reading: bool,
    pub need_render: bool,
    pub choose_index: u32,
    pub menu_state: MenuState,
    pub save_bookmark_flag: bool,
    pub delete_bookmark_flag: bool,
    pub need_save_position: bool,
    pub need_load_preview: bool,
    /// Quarter turns to the right of the default rotation.
    pub rotate: u8,
    pub exit_selected: bool,
    pub jump_accel: u32,
    /// Where the shown page begins and ends, and how long the book is.
    pub ttf_offset: u32,
    pub ttf_end: u32,
    pub ttf_file_len: u32,
    pub ttf_page_idx: u32,
    pub ttf_px: u8,
    pub line_gap: i32,
    /// The position was kept over a restart and wins over the log.
    pub ttf_resume: bool,
    pub need_reload_font: bool,
    pub retained: Retained,
}

/// The reading page.
pub struct ReadPage {
    pub state: ReadState,
    /// The books by name, once they were looked up.
    pub menus: Option<Vec<String>>,
    /// The log of the open book.
    pub log_vec: Option<LogVec>,
    pub bookmark_preview: String,
    /// How far each book has been read.
    pub book_progress: Vec<String>,
    /// Where the pages begin.
    pub ttf_page_starts: PageVec,
    pub font_name: String,
    pub font_list: Vec<String>,
}

/// The reading page as plain values.
pub struct ReadView {
    pub state: ReadState,
    pub menus: Option<Seq<Seq<char>>>,
    pub log_vec: Option<Seq<u32>>,
    pub bookmark_preview: Seq<char>,
    pub book_progress: Seq<Seq<char>>,
    pub ttf_page_starts: Seq<u32>,
    pub font_name: Seq<char>,
    pub font_list: Seq<Seq<char>>,
}

/// The names in an optional list.
pub open spec fn opt_texts(v: Option<Vec<String>>) -> Option<Seq<Seq<char>>> {
    match v {
        Some(l) => Some(texts(l@)),
        None => None,
    }
}

/// The offsets in an optional log.
pub open spec fn opt_log(v: Option<LogVec>) -> Option<Seq<u32>> {
    match v {
        Some(l) => Some(log_offsets(l)),
        None => None,
    }
}

impl View for ReadPage {
    type V = ReadView;

    open spec fn view(&self) -> ReadView {
        ReadView {
            state: self.state,
            menus: opt_texts(self.menus),
            log_vec: opt_log(self.log_vec),
            bookmark_preview: self.bookmark_preview@,
            book_progress: texts(self.book_progress@),
            ttf_page_starts: page_offsets(self.ttf_page_starts),
            font_name: self.font_name@,
            font_list: texts(self.font_list@),
        }
    }
}

impl ReadState {
    /// The numbers lie within their bounds.
    pub open spec fn valid(self) -> bool {
        &&& match self.menu_state {
            MenuState::Closed => true,
            MenuState::Popup { menu_index } => menu_index < MENU_COUNT,
            MenuState::JumpInput { input_pct } => input_pct <= 100,
            MenuState::Layout { px, gap } => PX_MIN <= px <= PX_MAX && gap <= GAP_MAX,
            MenuState::FontList { font_index } => font_index < FONTS_MAX,
            MenuState::BookmarkList { bm_index, .. } => bm_index <= LOG_VEC_MAX,
        }
        &&& PX_MIN <= self.ttf_px <= PX_MAX
        &&& 0 <= self.line_gap <= GAP_MAX
        &&& self.rotate < 4
        &&& self.choose_index < u32::MAX
    }
}

impl ReadView {
    /// How many books are listed.
    pub open spec fn book_count(self) -> nat {
        match self.menus {
            Some(b) => b.len(),
            None => 0,
        }
    }

    /// How many bookmarks the open book has.
    pub open spec fn bookmark_count(self) -> nat {
        match self.log_vec {
            Some(l) => if l.len() > 0 {
                (l.len() - 1) as nat
            } else {
                0
            },
            None => 0,
        }
    }

    /// The page is in a state that it can be in.
    pub open spec fn valid(self) -> bool {
        &&& self.state.valid()
        &&& self.book_count() <= BOOKS_MAX
        &&& self.font_list.len() <= FONTS_MAX
        &&& self.log_vec matches Some(l) ==> l.len() <= LOG_VEC_MAX
        &&& self.ttf_page_starts.len() <= PAGES_VEC_MAX
        &&& self.ttf_page_starts.len() > 0 ==> self.state.ttf_page_idx
            < self.ttf_page_starts.len()
    }
}

/// The percentage that `offset` is of `len`, nought of an empty book.
pub open spec fn percent(offset: int, len: int) -> int {
    if len > 0 {
        (if offset <= len {
            offset
        } else {
            len
        }) * 100 / len
    } else {
        0
    }
}

/// The step of a jump after `tick` repeats of a held key.
pub open spec fn accel(tick: int) -> int {
    if tick < 3 {
        1
    } else if tick < 5 {
        5
    } else if tick < 8 {
        10
    } else if tick < 10 {
        50
    } else if tick < 15 {
        100
    } else if tick < 20 {
        200
    } else {
        400
    }
}

/// Accelerating step size for page jump long press.
fn accel_step(tick: u32) -> (s: u32)
    ensures
        s == accel(tick as int),
{
    if tick < 3 {
        1
    } else if tick < 5 {
        5
    } else if tick < 8 {
        10
    } else if tick < 10 {
        50
    } else if tick < 15 {
        100
    } else if tick < 20 {
        200
    } else {
        400
    }
}

/// The longer a key is held, the larger the step.
pub proof fn law_steps_accelerate(a: int, b: int)
    requires
        a <= b,
    ensures
        accel(a) <= accel(b),
{
}

/// The end of the run of pages from `i` that begin at or before `off`.
pub open spec fn page_run(starts: Seq<u32>, off: int, i: int) -> int
    decreases starts.len() - i,
{
    if 0 <= i < starts.len() && starts[i] <= off {
        page_run(starts, off, i + 1)
    } else {
        i
    }
}

/// The page that `off` lies on.
pub open spec fn page_at(starts: Seq<u32>, off: int) -> int {
    if page_run(starts, off, 0) > 0 {
        page_run(starts, off, 0) - 1
    } else {
        0
    }
}

/// What a run of pages looks like from the inside.
proof fn lemma_page_run(starts: Seq<u32>, off: int, i: int)
    requires
        0 <= i <= starts.len(),
    ensures
        i <= page_run(starts, off, i) <= starts.len(),
        forall|j: int| i <= j < page_run(starts, off, i) ==> starts[j] <= off,
        page_run(starts, off, i) < starts.len() ==> starts[page_run(starts, off, i)] > off,
    decreases starts.len() - i,
{
    if i < starts.len() && starts[i] <= off {
        lemma_page_run(starts, off, i + 1);
    }
}

/// In an index that begins at nought and ascends, an offset lies on the page that begins at or
/// before it and whose successor begins after it.
pub proof fn law_offset_lies_on_its_page(starts: Seq<u32>, off: int)
    requires
        starts.len() > 0,
        starts[0] == 0,
        off >= 0,
    ensures
        0 <= page_at(starts, off) < starts.len(),
        starts[page_at(starts, off)] <= off,
        page_at(starts, off) + 1 < starts.len() ==> off < starts[page_at(starts, off) + 1],
{
    reveal_with_fuel(page_run, 2);
    lemma_page_run(starts, off, 0);
    assert(page_run(starts, off, 0) >= 1) by {
        lemma_page_run(starts, off, 1);
    }
}

/// The page after a jump to the byte `target` in a book whose pages begin at `starts`.
pub open spec fn jumped(s: ReadState, starts: Seq<u32>, target: int) -> ReadState {
    let off = if target <= s.ttf_file_len {
        target as u32
    } else {
        s.ttf_file_len
    };
    let idx = page_at(starts, off as int);
    let at = if starts.len() > 0 {
        starts[idx]
    } else {
        off
    };
    ReadState {
        ttf_offset: at,
        ttf_end: at,
        ttf_page_idx: if starts.len() > 0 {
            idx as u32
        } else {
            s.ttf_page_idx
        },
        retained: Retained { resume_offset: off, ..s.retained },
        need_save_position: true,
        need_render: true,
        ..s
    }
}

/// The page after one page forward or back; unchanged without an index.
pub open spec fn turned(s: ReadState, starts: Seq<u32>, next: bool) -> ReadState {
    let total = starts.len();
    if total == 0 {
        s
    } else {
        let idx = if next {
            if s.ttf_page_idx + 1 < total {
                (s.ttf_page_idx + 1) as u32
            } else {
                s.ttf_page_idx
            }
        } else if s.ttf_page_idx > 0 {
            (s.ttf_page_idx - 1) as u32
        } else {
            s.ttf_page_idx
        };
        let at = starts[idx as int];
        ReadState {
            ttf_page_idx: idx,
            ttf_offset: at,
            ttf_end: at,
            retained: Retained { resume_offset: at, ..s.retained },
            need_save_position: true,
            need_render: true,
            ..s
        }
    }
}

/// Turning a page forward and back again comes back to the same place, except from the last
/// page, where there is nothing to turn to.
pub proof fn law_turning_there_and_back(s: ReadState, starts: Seq<u32>)
    requires
        starts.len() <= PAGES_VEC_MAX,
        s.ttf_page_idx + 1 < starts.len(),
    ensures
        turned(turned(s, starts, true), starts, false).ttf_page_idx == s.ttf_page_idx,
        turned(turned(s, starts, true), starts, false).ttf_offset == starts[s.ttf_page_idx as int],
{
}

/// Turning pages and jumping keep to the pages of the index.
pub proof fn law_pages_stay_in_the_index(s: ReadState, starts: Seq<u32>, next: bool, target: int)
    requires
        0 < starts.len() <= PAGES_VEC_MAX,
        s.ttf_page_idx < starts.len(),
        target >= 0,
    ensures
        turned(s, starts, next).ttf_page_idx < starts.len(),
        turned(s, starts, next).ttf_offset == starts[turned(s, starts, next).ttf_page_idx as int],
        jumped(s, starts, target).ttf_page_idx < starts.len(),
        jumped(s, starts, target).ttf_offset == starts[jumped(s, starts, target).ttf_page_idx as int],
{
    let off = if target <= s.ttf_file_len {
        target
    } else {
        s.ttf_file_len as int
    };
    lemma_page_run(starts, off, 0);
}

/// The page after a long press of the third key: out of a submenu, out of the book, or out of
/// the page. A cancelled layout change is taken back.
pub open spec fn left(s: ReadState) -> ReadState {
    match s.menu_state {
        MenuState::Layout { px, gap } => ReadState {
            menu_state: MenuState::Popup { menu_index: 0 },
            ttf_px: px,
            line_gap: gap as i32,
            need_render: true,
            ..s
        },
        MenuState::JumpInput { .. } | MenuState::FontList { .. } | MenuState::BookmarkList {
            ..
        } => ReadState {
            menu_state: MenuState::Popup { menu_index: 0 },
            need_render: true,
            ..s
        },
        _ => if s.reading {
            ReadState {
                reading: false,
                retained: Retained { page_index: None, ..s.retained },
                menu_state: MenuState::Closed,
                need_render: true,
                ..s
            }
        } else {
            ReadState { running: false, ..s }
        },
    }
}

/// A submenu lies over the popup menu.
pub open spec fn in_submenu(s: ReadState) -> bool {
    !(s.menu_state is Popup) && !(s.menu_state is Closed)
}

/// The menu is closed.
pub open spec fn closed(s: ReadState) -> ReadState {
    ReadState { menu_state: MenuState::Closed, need_render: true, ..s }
}

/// The menu `m` is opened.
pub open spec fn opened(s: ReadState, m: MenuState) -> ReadState {
    ReadState { menu_state: m, need_render: true, ..s }
}

/// The page after the popup menu's line `i` was chosen.
pub open spec fn popup_chosen(s: ReadState, i: u32) -> ReadState {
    if i == 0 {
        ReadState {
            reading: false,
            retained: Retained { page_index: None, ..s.retained },
            ..closed(s)
        }
    } else if i == 1 {
        ReadState { save_bookmark_flag: true, ..closed(s) }
    } else if i == 2 {
        ReadState {
            need_load_preview: true,
            ..opened(s, MenuState::BookmarkList { bm_index: 0, deleting: false })
        }
    } else if i == 3 {
        opened(s, MenuState::BookmarkList { bm_index: 0, deleting: true })
    } else if i == 4 {
        let pct = percent(s.ttf_offset as int, s.ttf_file_len as int) as u8;
        ReadState { jump_accel: 0, ..opened(s, MenuState::JumpInput { input_pct: pct }) }
    } else if i == 5 {
        opened(s, MenuState::Layout { px: s.ttf_px, gap: s.line_gap as u8 })
    } else if i == 6 {
        opened(s, MenuState::FontList { font_index: 0 })
    } else if i == 7 {
        ReadState { rotate: ((s.rotate + 1) % 4) as u8, ..closed(s) }
    } else if i == 8 {
        s
    } else {
        closed(s)
    }
}

/// Without a menu: the menu of an open book, the way out, or the chosen book.
pub open spec fn closed_chosen(s: ReadState) -> ReadState {
    if s.reading {
        opened(s, MenuState::Popup { menu_index: 0 })
    } else if s.exit_selected {
        ReadState { running: false, ..s }
    } else {
        ReadState {
            reading: true,
            ttf_file_len: 0,
            ttf_offset: 0,
            ttf_end: 0,
            retained: Retained { page_index: Some(s.choose_index), resume_offset: 0 },
            need_render: true,
            ..s
        }
    }
}

/// The page after a short press of the third key: opens a menu, chooses or confirms.
pub open spec fn chosen(v: ReadView) -> ReadState {
    let s = v.state;
    match s.menu_state {
        MenuState::Popup { menu_index } => popup_chosen(s, menu_index),
        MenuState::JumpInput { input_pct } => closed(
            jumped(s, v.ttf_page_starts, input_pct as int * s.ttf_file_len as int / 100),
        ),
        MenuState::Layout { .. } => closed(s),
        MenuState::FontList { font_index } => ReadState {
            need_reload_font: s.need_reload_font || font_index < v.font_list.len(),
            ..closed(s)
        },
        MenuState::BookmarkList { bm_index, deleting } => if bm_index >= v.bookmark_count() {
            opened(s, MenuState::Popup { menu_index: 0 })
        } else if deleting {
            ReadState { delete_bookmark_flag: true, need_render: true, ..s }
        } else {
            closed(jumped(s, v.ttf_page_starts, v.log_vec->0[bm_index + 1] as int))
        },
        MenuState::Closed => closed_chosen(s),
    }
}

/// What a short press of the third key asks of the caller.
pub open spec fn chosen_outcome(v: ReadView) -> Outcome {
    match v.state.menu_state {
        MenuState::Popup { menu_index } => if menu_index == 7 {
            Outcome { save_settings: true, turn_display: true, ..quiet() }
        } else {
            Outcome { sleep_now: menu_index == 8, ..quiet() }
        },
        MenuState::Layout { .. } => Outcome { save_settings: true, ..quiet() },
        MenuState::FontList { font_index } => Outcome {
            save_settings: font_index < v.font_list.len(),
            ..quiet()
        },
        _ => quiet(),
    }
}

/// The list of `n` books one line down or up; the line to leave the page lies between its ends.
pub open spec fn book_moved(s: ReadState, n: int, down: bool) -> ReadState {
    if down {
        if s.exit_selected {
            ReadState { exit_selected: false, choose_index: 0, ..s }
        } else if n > 0 && s.choose_index < n - 1 {
            ReadState { choose_index: (s.choose_index + 1) as u32, ..s }
        } else if n > 0 {
            ReadState { exit_selected: true, ..s }
        } else {
            s
        }
    } else {
        if s.exit_selected {
            if n > 0 {
                ReadState { exit_selected: false, choose_index: (n - 1) as u32, ..s }
            } else {
                s
            }
        } else if s.choose_index > 0 {
            ReadState { choose_index: (s.choose_index - 1) as u32, ..s }
        } else {
            ReadState { exit_selected: true, ..s }
        }
    }
}

/// `i` one further or one back among `n` lines, going round.
pub open spec fn ring(i: u32, n: int, down: bool) -> u32 {
    if down {
        ((i + 1) % n) as u32
    } else {
        ((i + n - 1) % n) as u32
    }
}

/// A jump target moved by `step` percent within nought and a hundred.
pub open spec fn pct_moved(pct: u8, step: int, down: bool) -> u8 {
    if down {
        if pct + step <= 100 {
            (pct + step) as u8
        } else {
            100
        }
    } else if pct >= step {
        (pct - step) as u8
    } else {
        0
    }
}

/// A counter that stays at its largest value.
pub open spec fn counted(n: u32) -> u32 {
    if n < u32::MAX {
        (n + 1) as u32
    } else {
        n
    }
}

/// The jump target one step up or down; a held key takes ever larger steps.
pub open spec fn scrolled_jump(s: ReadState, input_pct: u8, down: bool, held: bool) -> ReadState {
    let step = if held {
        accel(s.jump_accel as int)
    } else {
        1
    };
    ReadState {
        jump_accel: if held {
            counted(s.jump_accel)
        } else {
            0
        },
        ..opened(s, MenuState::JumpInput { input_pct: pct_moved(input_pct, step, down) })
    }
}

/// The text size two up or down, or the line spacing one, within their bounds.
pub open spec fn scrolled_layout(s: ReadState, down: bool, held: bool) -> ReadState {
    if held {
        ReadState {
            line_gap: if down {
                if s.line_gap < GAP_MAX {
                    (s.line_gap + 1) as i32
                } else {
                    GAP_MAX
                }
            } else if s.line_gap > 0 {
                (s.line_gap - 1) as i32
            } else {
                0
            },
            need_render: true,
            ..s
        }
    } else {
        ReadState {
            ttf_px: if down {
                if s.ttf_px + 2 <= PX_MAX {
                    (s.ttf_px + 2) as u8
                } else {
                    PX_MAX
                }
            } else if s.ttf_px - 2 >= PX_MIN {
                (s.ttf_px - 2) as u8
            } else {
                PX_MIN
            },
            need_render: true,
            ..s
        }
    }
}

/// A list of `n` bookmarks can move down or up from its line `bm_index`.
pub open spec fn bookmark_movable(n: int, bm_index: u32, down: bool) -> bool {
    if down {
        bm_index < n
    } else {
        bm_index > 0
    }
}

/// The list of `n` bookmarks one line down or up.
pub open spec fn scrolled_bookmarks(
    s: ReadState,
    n: int,
    bm_index: u32,
    deleting: bool,
    down: bool,
) -> ReadState {
    if bookmark_movable(n, bm_index, down) {
        let next = if down {
            (bm_index + 1) as u32
        } else {
            (bm_index - 1) as u32
        };
        ReadState {
            need_load_preview: s.need_load_preview || !deleting,
            ..opened(s, MenuState::BookmarkList { bm_index: next, deleting })
        }
    } else {
        s
    }
}

/// Upwards from the line to leave there is nowhere to go without books.
pub open spec fn book_unmoved(s: ReadState, n: int, down: bool) -> bool {
    !down && s.exit_selected && n == 0
}

/// Without a menu: the next or previous page of the book, or line of the list of books.
pub open spec fn scrolled_closed(v: ReadView, down: bool, held: bool) -> ReadState {
    let s = v.state;
    if s.reading {
        if held {
            s
        } else {
            turned(s, v.ttf_page_starts, down)
        }
    } else if held && book_unmoved(s, v.book_count() as int, down) {
        s
    } else {
        ReadState { need_render: true, ..book_moved(s, v.book_count() as int, down) }
    }
}

/// The page after the first key (`down`) or the second, pressed shortly or `held`.
pub open spec fn scrolled(v: ReadView, down: bool, held: bool) -> ReadState {
    let s = v.state;
    match s.menu_state {
        MenuState::Popup { menu_index } => opened(
            s,
            MenuState::Popup { menu_index: ring(menu_index, MENU_COUNT as int, down) },
        ),
        MenuState::JumpInput { input_pct } => scrolled_jump(s, input_pct, down, held),
        MenuState::Layout { .. } => scrolled_layout(s, down, held),
        MenuState::FontList { font_index } => if v.font_list.len() > 0 {
            opened(
                s,
                MenuState::FontList {
                    font_index: ring(font_index, v.font_list.len() as int, down),
                },
            )
        } else {
            s
        },
        MenuState::BookmarkList { bm_index, deleting } => scrolled_bookmarks(
            s,
            v.bookmark_count() as int,
            bm_index,
            deleting,
            down,
        ),
        MenuState::Closed => scrolled_closed(v, down, held),
    }
}

/// A pause of `ms` where the key is held.
pub open spec fn pause(held: bool, ms: u64) -> Outcome {
    Outcome {
        delay_ms: if held {
            ms
        } else {
            0
        },
        ..quiet()
    }
}

/// What scrolling asks of the caller: a pause while a key is held.
pub open spec fn scrolled_outcome(v: ReadView, down: bool, held: bool) -> Outcome {
    match v.state.menu_state {
        MenuState::Popup { .. } => pause(held, 200),
        MenuState::JumpInput { .. } => pause(held, 75),
        MenuState::Layout { .. } => Outcome { clear_glyphs: !held, ..pause(held, 150) },
        MenuState::FontList { .. } => pause(held && v.font_list.len() > 0, 150),
        MenuState::BookmarkList { bm_index, .. } => pause(
            held && bookmark_movable(v.bookmark_count() as int, bm_index, down),
            200,
        ),
        MenuState::Closed => if held && !v.state.reading && !book_unmoved(
            v.state,
            v.book_count() as int,
            down,
        ) {
            Outcome { reset_render_times: true, ..pause(true, 200) }
        } else {
            quiet()
        },
    }
}

/// The numbers and flags after an event; events of no concern change nothing.
pub open spec fn next_state(v: ReadView, e: EventType) -> ReadState {
    if e == EventType::KeyLongEnd(3) {
        left(v.state)
    } else if e == EventType::KeyShort(3) {
        chosen(v)
    } else if e == EventType::KeyLongIng(1) {
        scrolled(v, true, true)
    } else if e == EventType::KeyLongIng(2) {
        scrolled(v, false, true)
    } else if e == EventType::KeyShort(1) {
        scrolled(v, true, false)
    } else if e == EventType::KeyShort(2) {
        scrolled(v, false, false)
    } else {
        v.state
    }
}

/// The event empties the preview of a bookmark: a submenu was left, or a bookmark is to be
/// deleted.
pub open spec fn clears_preview(v: ReadView, e: EventType) -> bool {
    if e == EventType::KeyLongEnd(3) {
        in_submenu(v.state)
    } else if e == EventType::KeyShort(3) {
        match v.state.menu_state {
            MenuState::Popup { menu_index } => menu_index == 3,
            MenuState::BookmarkList { bm_index, .. } => bm_index >= v.bookmark_count(),
            _ => false,
        }
    } else {
        false
    }
}

/// The font after an event: the chosen one where one was confirmed.
pub open spec fn next_font(v: ReadView, e: EventType) -> Seq<char> {
    match v.state.menu_state {
        MenuState::FontList { font_index } => if e == EventType::KeyShort(3) && font_index
            < v.font_list.len() {
            v.font_list[font_index as int]
        } else {
            v.font_name
        },
        _ => v.font_name,
    }
}

/// The page after an event.
pub open spec fn after(v: ReadView, e: EventType) -> ReadView {
    ReadView {
        state: next_state(v, e),
        bookmark_preview: if clears_preview(v, e) {
            seq![]
        } else {
            v.bookmark_preview
        },
        font_name: next_font(v, e),
        ..v
    }
}

/// What an event asks of the caller.
pub open spec fn outcome(v: ReadView, e: EventType) -> Outcome {
    if e == EventType::KeyLongEnd(3) {
        Outcome { clear_glyphs: v.state.menu_state is Layout, ..quiet() }
    } else if e == EventType::KeyShort(3) {
        chosen_outcome(v)
    } else if e == EventType::KeyLongIng(1) {
        scrolled_outcome(v, true, true)
    } else if e == EventType::KeyLongIng(2) {
        scrolled_outcome(v, false, true)
    } else if e == EventType::KeyShort(1) {
        scrolled_outcome(v, true, false)
    } else if e == EventType::KeyShort(2) {
        scrolled_outcome(v, false, false)
    } else {
        quiet()
    }
}

/// Nothing to do.
fn no_outcome() -> (o: Outcome)
    ensures
        o == quiet(),
{
    Outcome {
        delay_ms: 0,
        reset_render_times: false,
        save_settings: false,
        turn_display: false,
        clear_glyphs: false,
        sleep_now: false,
    }
}

/// The percentage that `offset` is of `len`.
pub fn percent_of(offset: u32, len: u32) -> (p: u32)
    ensures
        p == percent(offset as int, len as int),
        p <= 100,
{
    if len == 0 {
        return 0;
    }
    let at: u64 = if offset <= len {
        offset as u64
    } else {
        len as u64
    };
    let p: u64 = at * 100 / (len as u64);
    assert(at * 100 / (len as int) <= 100) by (nonlinear_arith)
        requires
            at <= len,
            len > 0,
    ;
    p as u32
}

impl ReadState {
    /// Closes the menu.
    fn close_menu(self) -> (s: ReadState)
        ensures
            s == closed(self),
    {
        ReadState { menu_state: MenuState::Closed, need_render: true, ..self }
    }

    /// Opens the menu `m`.
    fn open_menu(self, m: MenuState) -> (s: ReadState)
        ensures
            s == opened(self, m),
    {
        ReadState { menu_state: m, need_render: true, ..self }
    }

    /// Goes to the page that the byte `off` lies on.
    fn jump(self, page_starts: &PageVec, off: u64) -> (s: ReadState)
        ensures
            s == jumped(self, page_offsets(*page_starts), off as int),
    {
        let off: u32 = if off <= self.ttf_file_len as u64 {
            off as u32
        } else {
            self.ttf_file_len
        };
        let starts = pages_slice(page_starts);
        let mut at: u32 = off;
        let mut page: u32 = self.ttf_page_idx;
        if starts.len() > 0 {
            let mut i: usize = 0;
            while i < starts.len() && starts[i] <= off
                invariant
                    i <= starts@.len(),
                    starts@.len() <= PAGES_VEC_MAX,
                    page_run(starts@, off as int, 0) == page_run(starts@, off as int, i as int),
                decreases starts@.len() - i,
            {
                i += 1;
            }
            let idx: usize = if i > 0 {
                i - 1
            } else {
                0
            };
            at = starts[idx];
            page = idx as u32;
        }
        ReadState {
            ttf_offset: at,
            ttf_end: at,
            ttf_page_idx: page,
            retained: Retained { resume_offset: off, ..self.retained },
            need_save_position: true,
            need_render: true,
            ..self
        }
    }

    /// Turns one page forward or back.
    fn turn(self, page_starts: &PageVec, next: bool) -> (s: ReadState)
        requires
            page_offsets(*page_starts).len() > 0 ==> self.ttf_page_idx < page_offsets(
                *page_starts,
            ).len(),
        ensures
            s == turned(self, page_offsets(*page_starts), next),
    {
        let starts = pages_slice(page_starts);
        let total: u32 = starts.len() as u32;
        if total == 0 {
            return self;
        }
        let mut idx: u32 = self.ttf_page_idx;
        if next {
            if idx + 1 < total {
                idx += 1;
            }
        } else if idx > 0 {
            idx -= 1;
        }
        let at: u32 = starts[idx as usize];
        ReadState {
            ttf_page_idx: idx,
            ttf_offset: at,
            ttf_end: at,
            retained: Retained { resume_offset: at, ..self.retained },
            need_save_position: true,
            need_render: true,
            ..self
        }
    }

    /// A long press of the third key.
    fn leave(self) -> (s: ReadState)
        ensures
            s == left(self),
    {
        match self.menu_state {
            MenuState::Layout { px, gap } => {
                let s = self.open_menu(MenuState::Popup { menu_index: 0 });
                ReadState { ttf_px: px, line_gap: gap as i32, ..s }
            },
            MenuState::JumpInput { .. } | MenuState::FontList { .. } | MenuState::BookmarkList {
                ..
            } => self.open_menu(MenuState::Popup { menu_index: 0 }),
            _ => {
                if self.reading {
                    ReadState {
                        reading: false,
                        retained: Retained { page_index: None, ..self.retained },
                        ..self.close_menu()
                    }
                } else {
                    ReadState { running: false, ..self }
                }
            },
        }
    }

    /// Chooses the line `i` of the popup menu.
    fn choose_popup(self, i: u32) -> (s: ReadState)
        requires
            self.valid(),
        ensures
            s == popup_chosen(self, i),
    {
        if i == 0 {
            ReadState {
                reading: false,
                retained: Retained { page_index: None, ..self.retained },
                ..self.close_menu()
            }
        } else if i == 1 {
            ReadState { save_bookmark_flag: true, ..self.close_menu() }
        } else if i == 2 {
            let s = self.open_menu(MenuState::BookmarkList { bm_index: 0, deleting: false });
            ReadState { need_load_preview: true, ..s }
        } else if i == 3 {
            self.open_menu(MenuState::BookmarkList { bm_index: 0, deleting: true })
        } else if i == 4 {
            let pct: u32 = percent_of(self.ttf_offset, self.ttf_file_len);
            let s = self.open_menu(MenuState::JumpInput { input_pct: pct as u8 });
            ReadState { jump_accel: 0, ..s }
        } else if i == 5 {
            self.open_menu(MenuState::Layout { px: self.ttf_px, gap: self.line_gap as u8 })
        } else if i == 6 {
            self.open_menu(MenuState::FontList { font_index: 0 })
        } else if i == 7 {
            ReadState { rotate: (self.rotate + 1) % 4, ..self.close_menu() }
        } else if i == 8 {
            self
        } else {
            self.close_menu()
        }
    }

    /// Opens the menu or the chosen book, or leaves.
    fn confirm_closed(self) -> (s: ReadState)
        ensures
            s == closed_chosen(self),
    {
        if self.reading {
            self.open_menu(MenuState::Popup { menu_index: 0 })
        } else if self.exit_selected {
            ReadState { running: false, ..self }
        } else {
            ReadState {
                reading: true,
                ttf_file_len: 0,
                ttf_offset: 0,
                ttf_end: 0,
                retained: Retained { page_index: Some(self.choose_index), resume_offset: 0 },
                need_render: true,
                ..self
            }
        }
    }

    /// Moves one line in the list of `n` books.
    fn move_book(self, n: usize, down: bool) -> (s: ReadState)
        requires
            n <= BOOKS_MAX,
        ensures
            s == book_moved(self, n as int, down),
    {
        if down {
            if self.exit_selected {
                ReadState { exit_selected: false, choose_index: 0, ..self }
            } else if n > 0 && self.choose_index < (n - 1) as u32 {
                ReadState { choose_index: self.choose_index + 1, ..self }
            } else if n > 0 {
                ReadState { exit_selected: true, ..self }
            } else {
                self
            }
        } else {
            if self.exit_selected {
                if n > 0 {
                    ReadState { exit_selected: false, choose_index: (n - 1) as u32, ..self }
                } else {
                    self
                }
            } else if self.choose_index > 0 {
                ReadState { choose_index: self.choose_index - 1, ..self }
            } else {
                ReadState { exit_selected: true, ..self }
            }
        }
    }

    /// Moves the jump target.
    fn scroll_jump(self, input_pct: u8, down: bool, held: bool) -> (s: ReadState)
        requires
            input_pct <= 100,
        ensures
            s == scrolled_jump(self, input_pct, down, held),
    {
        let step: u32 = if held {
            accel_step(self.jump_accel)
        } else {
            1
        };
        let pct: u32 = input_pct as u32;
        let moved: u32 = if down {
            if pct + step <= 100 {
                pct + step
            } else {
                100
            }
        } else if pct >= step {
            pct - step
        } else {
            0
        };
        let jump_accel: u32 = if held {
            if self.jump_accel < u32::MAX {
                self.jump_accel + 1
            } else {
                u32::MAX
            }
        } else {
            0
        };
        ReadState {
            jump_accel,
            ..self.open_menu(MenuState::JumpInput { input_pct: moved as u8 })
        }
    }

    /// Changes the text size or the line spacing.
    fn scroll_layout(self, down: bool, held: bool) -> (s: ReadState)
        requires
            self.valid(),
        ensures
            s == scrolled_layout(self, down, held),
    {
        if held {
            let line_gap: i32 = if down {
                if self.line_gap < GAP_MAX {
                    self.line_gap + 1
                } else {
                    GAP_MAX
                }
            } else if self.line_gap > 0 {
                self.line_gap - 1
            } else {
                0
            };
            ReadState { line_gap, need_render: true, ..self }
        } else {
            let ttf_px: u8 = if down {
                if self.ttf_px + 2 <= PX_MAX {
                    self.ttf_px + 2
                } else {
                    PX_MAX
                }
            } else if self.ttf_px - 2 >= PX_MIN {
                self.ttf_px - 2
            } else {
                PX_MIN
            };
            ReadState { ttf_px, need_render: true, ..self }
        }
    }

    /// Moves in the list of `n` bookmarks.
    fn scroll_bookmarks(self, n: usize, bm_index: u32, deleting: bool, down: bool) -> (s: ReadState)
        requires
            n < LOG_VEC_MAX,
        ensures
            s == scrolled_bookmarks(self, n as int, bm_index, deleting, down),
    {
        let movable: bool = if down {
            (bm_index as usize) < n
        } else {
            bm_index > 0
        };
        if movable {
            let next: u32 = if down {
                bm_index + 1
            } else {
                bm_index - 1
            };
            ReadState {
                need_load_preview: self.need_load_preview || !deleting,
                ..self.open_menu(MenuState::BookmarkList { bm_index: next, deleting })
            }
        } else {
            self
        }
    }
}

impl ReadPage {
    /// How many books are listed.
    fn book_total(&self) -> (n: usize)
        ensures
            n == self@.book_count(),
    {
        match &self.menus {
            Some(m) => {
                proof {
                    lemma_texts(m@);
                }
                m.len()
            },
            None => 0,
        }
    }

    /// How many bookmarks the open book has.
    fn bookmark_total(&self) -> (n: usize)
        ensures
            n == self@.bookmark_count(),
            n < LOG_VEC_MAX,
    {
        match &self.log_vec {
            Some(lv) => {
                let n: usize = log_len(lv);
                if n > 0 {
                    n - 1
                } else {
                    0
                }
            },
            None => 0,
        }
    }

    /// Leaves the page.
    pub fn back(&mut self)
        ensures
            final(self)@ == (ReadView {
                state: ReadState { running: false, ..old(self)@.state },
                ..old(self)@
            }),
    {
        self.state.running = false;
    }

    /// Goes to the page that the byte `off` lies on.
    pub fn jump_to_offset(&mut self, off: u64)
        ensures
            final(self)@ == (ReadView {
                state: jumped(old(self)@.state, old(self)@.ttf_page_starts, off as int),
                ..old(self)@
            }),
    {
        self.state = self.state.jump(&self.ttf_page_starts, off);
    }

    /// Turns one page forward or back.
    pub fn do_change_page(&mut self, next: bool)
        requires
            old(self)@.valid(),
        ensures
            final(self)@ == (ReadView {
                state: turned(old(self)@.state, old(self)@.ttf_page_starts, next),
                ..old(self)@
            }),
    {
        self.state = self.state.turn(&self.ttf_page_starts, next);
    }

    /// The state after a short press of the third key, and what it asks of the caller.
    fn confirm(&self) -> (r: (ReadState, Outcome))
        requires
            self@.valid(),
        ensures
            r.0 == chosen(self@),
            r.1 == chosen_outcome(self@),
    {
        proof {
            lemma_texts(self.font_list@);
        }
        let s = self.state;
        let mut o = no_outcome();
        let next = match s.menu_state {
            MenuState::Popup { menu_index } => {
                o.save_settings = menu_index == 7;
                o.turn_display = menu_index == 7;
                o.sleep_now = menu_index == 8;
                s.choose_popup(menu_index)
            },
            MenuState::JumpInput { input_pct } => {
                let len: u64 = s.ttf_file_len as u64;
                assert(input_pct as u64 * len <= 100 * 0xffff_ffff) by (nonlinear_arith)
                    requires
                        input_pct <= 100,
                        len <= 0xffff_ffff,
                ;
                s.jump(&self.ttf_page_starts, input_pct as u64 * len / 100).close_menu()
            },
            MenuState::Layout { .. } => {
                o.save_settings = true;
                s.close_menu()
            },
            MenuState::FontList { font_index } => {
                let known: bool = (font_index as usize) < self.font_list.len();
                o.save_settings = known;
                ReadState {
                    need_reload_font: s.need_reload_font || known,
                    ..s.close_menu()
                }
            },
            MenuState::BookmarkList { bm_index, deleting } => {
                if bm_index as usize >= self.bookmark_total() {
                    s.open_menu(MenuState::Popup { menu_index: 0 })
                } else if deleting {
                    ReadState { delete_bookmark_flag: true, need_render: true, ..s }
                } else {
                    match &self.log_vec {
                        Some(lv) => {
                            let off: u32 = log_slice(lv)[bm_index as usize + 1];
                            s.jump(&self.ttf_page_starts, off as u64).close_menu()
                        },
                        None => s,
                    }
                }
            },
            MenuState::Closed => s.confirm_closed(),
        };
        (next, o)
    }

    /// The state after the first key (`down`) or the second, pressed shortly or `held`, and what
    /// that asks of the caller.
    fn scroll(&self, down: bool, held: bool) -> (r: (ReadState, Outcome))
        requires
            self@.valid(),
        ensures
            r.0 == scrolled(self@, down, held),
            r.1 == scrolled_outcome(self@, down, held),
    {
        proof {
            lemma_texts(self.font_list@);
        }
        let s = self.state;
        let mut o = no_outcome();
        let next = match s.menu_state {
            MenuState::Popup { menu_index } => {
                let next: u32 = if down {
                    (menu_index + 1) % MENU_COUNT
                } else {
                    (menu_index + MENU_COUNT - 1) % MENU_COUNT
                };
                o.delay_ms = if held { 200 } else { 0 };
                s.open_menu(MenuState::Popup { menu_index: next })
            },
            MenuState::JumpInput { input_pct } => {
                o.delay_ms = if held { 75 } else { 0 };
                s.scroll_jump(input_pct, down, held)
            },
            MenuState::Layout { .. } => {
                o.delay_ms = if held { 150 } else { 0 };
                o.clear_glyphs = !held;
                s.scroll_layout(down, held)
            },
            MenuState::FontList { font_index } => {
                let max: u32 = self.font_list.len() as u32;
                if max > 0 {
                    o.delay_ms = if held { 150 } else { 0 };
                    let next: u32 = if down {
                        (font_index + 1) % max
                    } else {
                        (font_index + max - 1) % max
                    };
                    s.open_menu(MenuState::FontList { font_index: next })
                } else {
                    s
                }
            },
            MenuState::BookmarkList { bm_index, deleting } => {
                let n: usize = self.bookmark_total();
                let movable: bool = if down {
                    (bm_index as usize) < n
                } else {
                    bm_index > 0
                };
                o.delay_ms = if held && movable { 200 } else { 0 };
                s.scroll_bookmarks(n, bm_index, deleting, down)
            },
            MenuState::Closed => {
                let n: usize = self.book_total();
                if s.reading {
                    if held {
                        s
                    } else {
                        s.turn(&self.ttf_page_starts, down)
                    }
                } else if held && !down && s.exit_selected && n == 0 {
                    s
                } else {
                    o.delay_ms = if held { 200 } else { 0 };
                    o.reset_render_times = held;
                    ReadState { need_render: true, ..s.move_book(n, down) }
                }
            },
        };
        (next, o)
    }

    /// Takes in a key event.
    pub fn handle_event(&mut self, e: EventType) -> (o: Outcome)
        requires
            old(self)@.valid(),
        ensures
            final(self)@ == after(old(self)@, e),
            o == outcome(old(self)@, e),
            final(self)@.valid(),
    {
        proof {
            lemma_texts(self.font_list@);
            law_events_keep_the_page_valid(self@, e);
        }
        let (next, o) = if e == EventType::KeyLongEnd(3) {
            let mut o = no_outcome();
            if let MenuState::Layout { .. } = self.state.menu_state {
                o.clear_glyphs = true;
            }
            (self.state.leave(), o)
        } else if e == EventType::KeyShort(3) {
            self.confirm()
        } else if e == EventType::KeyLongIng(1) {
            self.scroll(true, true)
        } else if e == EventType::KeyLongIng(2) {
            self.scroll(false, true)
        } else if e == EventType::KeyShort(1) {
            self.scroll(true, false)
        } else if e == EventType::KeyShort(2) {
            self.scroll(false, false)
        } else {
            (self.state, no_outcome())
        };
        if self.empties_preview(e) {
            self.bookmark_preview = String::new();
        }
        if let MenuState::FontList { font_index } = self.state.menu_state {
            if e == EventType::KeyShort(3) && (font_index as usize) < self.font_list.len() {
                self.font_name = self.font_list[font_index as usize].clone();
            }
        }
        self.state = next;
        o
    }

    /// Whether an event empties the preview of a bookmark.
    fn empties_preview(&self, e: EventType) -> (b: bool)
        ensures
            b == clears_preview(self@, e),
    {
        if e == EventType::KeyLongEnd(3) {
            match self.state.menu_state {
                MenuState::Popup { .. } | MenuState::Closed => false,
                _ => true,
            }
        } else if e == EventType::KeyShort(3) {
            match self.state.menu_state {
                MenuState::Popup { menu_index } => menu_index == 3,
                MenuState::BookmarkList { bm_index, .. } => bm_index as usize
                    >= self.bookmark_total(),
                _ => false,
            }
        } else {
            false
        }
    }
}

/// A page in the index, where there is one.
pub open spec fn on_a_page(s: ReadState, starts: Seq<u32>) -> bool {
    starts.len() > 0 ==> s.ttf_page_idx < starts.len()
}

proof fn lemma_jumped_valid(s: ReadState, starts: Seq<u32>, target: int)
    requires
        s.valid(),
        starts.len() <= PAGES_VEC_MAX,
        target >= 0,
        on_a_page(s, starts),
    ensures
        jumped(s, starts, target).valid(),
        on_a_page(jumped(s, starts, target), starts),
{
    if starts.len() > 0 {
        law_pages_stay_in_the_index(s, starts, true, target);
    }
}

proof fn lemma_popup_chosen_valid(s: ReadState, i: u32)
    requires
        s.valid(),
    ensures
        popup_chosen(s, i).valid(),
        popup_chosen(s, i).ttf_page_idx == s.ttf_page_idx,
{
    let o = s.ttf_offset as int;
    let l = s.ttf_file_len as int;
    let m = if o <= l {
        o
    } else {
        l
    };
    if l > 0 {
        assert(0 <= m * 100 / l <= 100) by (nonlinear_arith)
            requires
                0 <= m <= l,
                l > 0,
        ;
    }
}

proof fn lemma_chosen_valid(v: ReadView)
    requires
        v.valid(),
    ensures
        chosen(v).valid(),
        on_a_page(chosen(v), v.ttf_page_starts),
{
    let s = v.state;
    match s.menu_state {
        MenuState::Popup { menu_index } => {
            lemma_popup_chosen_valid(s, menu_index);
        },
        MenuState::JumpInput { input_pct } => {
            let p = input_pct as int;
            let l = s.ttf_file_len as int;
            assert(p * l / 100 >= 0) by (nonlinear_arith)
                requires
                    p >= 0,
                    l >= 0,
            ;
            lemma_jumped_valid(s, v.ttf_page_starts, p * l / 100);
        },
        MenuState::BookmarkList { bm_index, deleting } => {
            if bm_index < v.bookmark_count() {
                lemma_jumped_valid(s, v.ttf_page_starts, v.log_vec->0[bm_index + 1] as int);
            }
        },
        _ => {},
    }
}

proof fn lemma_ring_in(i: u32, n: int, down: bool)
    requires
        0 < n <= 0x1_0000,
    ensures
        ring(i, n, down) < n,
{
    assert(0 <= (i + 1) % n < n) by (nonlinear_arith)
        requires
            n > 0,
    ;
    assert(0 <= (i + n - 1) % n < n) by (nonlinear_arith)
        requires
            n > 0,
    ;
}

proof fn lemma_scrolled_jump_valid(s: ReadState, input_pct: u8, down: bool, held: bool)
    requires
        s.valid(),
        input_pct <= 100,
    ensures
        scrolled_jump(s, input_pct, down, held).valid(),
        scrolled_jump(s, input_pct, down, held).ttf_page_idx == s.ttf_page_idx,
{
}

proof fn lemma_scrolled_layout_valid(s: ReadState, down: bool, held: bool)
    requires
        s.valid(),
    ensures
        scrolled_layout(s, down, held).valid(),
        scrolled_layout(s, down, held).ttf_page_idx == s.ttf_page_idx,
{
}

proof fn lemma_scrolled_bookmarks_valid(
    s: ReadState,
    n: int,
    bm_index: u32,
    deleting: bool,
    down: bool,
)
    requires
        s.valid(),
        n < LOG_VEC_MAX,
        bm_index <= LOG_VEC_MAX,
        s.menu_state == (MenuState::BookmarkList { bm_index, deleting }),
    ensures
        scrolled_bookmarks(s, n, bm_index, deleting, down).valid(),
        scrolled_bookmarks(s, n, bm_index, deleting, down).ttf_page_idx == s.ttf_page_idx,
{
}

proof fn lemma_scrolled_closed_valid(v: ReadView, down: bool, held: bool)
    requires
        v.valid(),
        v.state.menu_state is Closed,
    ensures
        scrolled_closed(v, down, held).valid(),
        on_a_page(scrolled_closed(v, down, held), v.ttf_page_starts),
{
}

proof fn lemma_scrolled_valid(v: ReadView, down: bool, held: bool)
    requires
        v.valid(),
    ensures
        scrolled(v, down, held).valid(),
        on_a_page(scrolled(v, down, held), v.ttf_page_starts),
{
    let s = v.state;
    match s.menu_state {
        MenuState::Popup { menu_index } => {
            lemma_ring_in(menu_index, MENU_COUNT as int, down);
        },
        MenuState::JumpInput { input_pct } => {
            lemma_scrolled_jump_valid(s, input_pct, down, held);
        },
        MenuState::Layout { .. } => {
            lemma_scrolled_layout_valid(s, down, held);
        },
        MenuState::FontList { font_index } => {
            if v.font_list.len() > 0 {
                lemma_ring_in(font_index, v.font_list.len() as int, down);
            }
        },
        MenuState::BookmarkList { bm_index, deleting } => {
            lemma_scrolled_bookmarks_valid(
                s,
                v.bookmark_count() as int,
                bm_index,
                deleting,
                down,
            );
        },
        MenuState::Closed => {
            lemma_scrolled_closed_valid(v, down, held);
        },
    }
}

/// Every event leads from one valid state of the page to another.
pub proof fn law_events_keep_the_page_valid(v: ReadView, e: EventType)
    requires
        v.valid(),
    ensures
        after(v, e).valid(),
{
    if e == EventType::KeyLongEnd(3) {
        assert(left(v.state).valid());
    } else if e == EventType::KeyShort(3) {
        lemma_chosen_valid(v);
    } else {
        lemma_scrolled_valid(v, true, true);
        lemma_scrolled_valid(v, true, false);
        lemma_scrolled_valid(v, false, true);
        lemma_scrolled_valid(v, false, false);
    }
}

/// In the popup menu the second key undoes the first, and the other way round.
pub proof fn law_ring_undoes(i: u32, n: int, down: bool)
    requires
        i < n <= 0x1_0000,
    ensures
        ring(ring(i, n, down), n, !down) == i,
        ring(i, n, down) < n,
{
    if down {
        if i + 1 < n {
            assert((i + 1) % n == i + 1) by (nonlinear_arith)
                requires
                    0 <= i + 1 < n,
            ;
            assert((i + 1 + n - 1) % n == i) by (nonlinear_arith)
                requires
                    0 <= i < n,
            ;
        } else {
            assert((i + 1) % n == 0) by (nonlinear_arith)
                requires
                    i + 1 == n,
                    n > 0,
            ;
            assert((n - 1) % n == n - 1) by (nonlinear_arith)
                requires
                    n > 0,
            ;
        }
    } else {
        if i > 0 {
            assert((i + n - 1) % n == i - 1) by (nonlinear_arith)
                requires
                    0 < i < n,
            ;
            assert((i as int) % n == i) by (nonlinear_arith)
                requires
                    0 <= i < n,
            ;
        } else {
            assert((n - 1) % n == n - 1) by (nonlinear_arith)
                requires
                    n > 0,
            ;
            assert(n % n == 0) by (nonlinear_arith)
                requires
                    n > 0,
            ;
        }
    }
}

/// Cancelling a layout change gives back the size and the spacing from before it, however they
/// were moved in between.
pub proof fn law_cancelled_layout_is_taken_back(s: ReadState, changes: Seq<(bool, bool)>)
    requires
        s.valid(),
    ensures
        left(all_scrolled(popup_chosen(s, 5), changes)).ttf_px == s.ttf_px,
        left(all_scrolled(popup_chosen(s, 5), changes)).line_gap == s.line_gap,
{
    lemma_layout_kept(popup_chosen(s, 5), changes);
}

/// The layout menu after several presses of the first two keys.
pub open spec fn all_scrolled(s: ReadState, changes: Seq<(bool, bool)>) -> ReadState
    decreases changes.len(),
{
    if changes.len() == 0 {
        s
    } else {
        let before = all_scrolled(s, changes.drop_last());
        scrolled_layout(before, changes.last().0, changes.last().1)
    }
}

proof fn lemma_layout_kept(s: ReadState, changes: Seq<(bool, bool)>)
    ensures
        all_scrolled(s, changes).menu_state == s.menu_state,
    decreases changes.len(),
{
    if changes.len() > 0 {
        lemma_layout_kept(s, changes.drop_last());
    }
}

/// What is shown in per cent of a book is how much of a hundred the place is, rounded down: nought
/// at the beginning, a hundred at the end, and never more or less further on.
pub proof fn law_percent_rises(a: int, b: int, len: int)
    requires
        0 <= a <= b,
        len > 0,
    ensures
        percent(0, len) == 0,
        percent(len, len) == 100,
        0 <= percent(a, len) <= percent(b, len) <= 100,
        a <= len ==> percent(a, len) * len <= a * 100 < (percent(a, len) + 1) * len,
{
    let x = if a <= len {
        a
    } else {
        len
    };
    let y = if b <= len {
        b
    } else {
        len
    };
    let p = x * 100 / len;
    let q = y * 100 / len;
    assert(p * len <= x * 100 < (p + 1) * len) by (nonlinear_arith)
        requires
            len > 0,
            p == x * 100 / len,
    ;
    assert(q * len <= y * 100 < (q + 1) * len) by (nonlinear_arith)
        requires
            len > 0,
            q == y * 100 / len,
    ;
    assert(0 <= p <= q <= 100) by (nonlinear_arith)
        requires
            len > 0,
            0 <= x <= y <= len,
            p * len <= x * 100 < (p + 1) * len,
            q * len <= y * 100 < (q + 1) * len,
    ;
    assert(0int * 100 / len == 0) by (nonlinear_arith)
        requires
            len > 0,
    ;
    assert(len * 100 / len == 100) by (nonlinear_arith)
        requires
            len > 0,
    ;
}

/// The page on which an offset lies is no earlier for a later offset.
proof fn lemma_page_at_rises(starts: Seq<u32>, a: int, b: int)
    requires
        a <= b,
    ensures
        page_at(starts, a) <= page_at(starts, b),
{
    lemma_page_run(starts, a, 0);
    lemma_page_run(starts, b, 0);
    let m = page_run(starts, a, 0);
    let n = page_run(starts, b, 0);
    if n < m {
        assert(starts[n] <= a);
    }
}

/// The state after the third key confirmed a jump to so many per cent.
pub open spec fn jump_confirmed(v: ReadView, pct: u8) -> ReadState {
    after(
        ReadView {
            state: ReadState { menu_state: MenuState::JumpInput { input_pct: pct }, ..v.state },
            ..v
        },
        EventType::KeyShort(3),
    ).state
}

/// A confirmed jump leads to the page that holds the byte at so many hundredths of the book: to its
/// first page at nought, to its last at a hundred, and for a larger part never to an earlier page.
/// The place is kept for a restart, and the menu is closed.
#[verifier::rlimit(50)]
pub proof fn law_jumps_lead_to_their_part(v: ReadView, p: u8, q: u8, byte: int)
    requires
        v.valid(),
        p <= q <= 100,
        byte * 100 <= p * v.state.ttf_file_len < (byte + 1) * 100,
        v.ttf_page_starts.len() > 0,
        v.ttf_page_starts[0] == 0,
        forall|i: int, j: int|
            0 <= i < j < v.ttf_page_starts.len() ==> v.ttf_page_starts[i] < v.ttf_page_starts[j],
        v.ttf_page_starts.last() <= v.state.ttf_file_len,
    ensures
        ({
            let starts = v.ttf_page_starts;
            let s = jump_confirmed(v, p);
            let k = s.ttf_page_idx as int;
            &&& 0 <= k < starts.len()
            &&& s.ttf_offset == starts[k]
            &&& starts[k] <= byte
            &&& k + 1 < starts.len() ==> byte < starts[k + 1]
            &&& k <= jump_confirmed(v, q).ttf_page_idx
            &&& p == 0 ==> k == 0
            &&& p == 100 ==> k == starts.len() - 1
            &&& s.retained.resume_offset == byte
            &&& s.menu_state is Closed && s.need_render && s.need_save_position
        }),
{
    let l = v.state.ttf_file_len as int;
    let starts = v.ttf_page_starts;
    assert(p * l / 100 == byte);
    assert(p * l <= 100 * l) by (nonlinear_arith)
        requires
            p <= 100,
            l >= 0,
    ;
    assert(p * l >= 0) by (nonlinear_arith)
        requires
            p >= 0,
            l >= 0,
    ;
    assert(p * l <= q * l) by (nonlinear_arith)
        requires
            p <= q,
            l >= 0,
    ;
    assert(q * l <= 100 * l) by (nonlinear_arith)
        requires
            q <= 100,
            l >= 0,
    ;
    law_offset_lies_on_its_page(starts, byte);
    lemma_page_at_rises(starts, byte, q * l / 100);
    law_offset_lies_on_its_page(starts, q * l / 100);
    assert(p == 0 ==> p * l == 0) by (nonlinear_arith);
    assert(p == 100 ==> p * l == 100 * l) by (nonlinear_arith);
    let k = page_at(starts, byte);
    if p == 0 && k > 0 {
        assert(starts[0] < starts[k]);
    }
    if p == 100 && k + 1 < starts.len() {
        assert(starts[k + 1] <= starts.last());
    }
}

/// Opening the jump menu shows how far the book was read, and confirming it unchanged never leads
/// past the page that was shown.
pub proof fn law_unchanged_jump_stays(v: ReadView)
    requires
        v.valid(),
        v.state.ttf_file_len > 0,
        v.state.ttf_offset <= v.state.ttf_file_len,
        v.ttf_page_starts.len() > 0,
        v.ttf_page_starts[0] == 0,
    ensures
        ({
            let opened = after(
                ReadView {
                    state: ReadState {
                        menu_state: MenuState::Popup { menu_index: 4 },
                        ..v.state
                    },
                    ..v
                },
                EventType::KeyShort(3),
            );
            let pct = opened.state.menu_state->input_pct;
            &&& opened.state.menu_state is JumpInput
            &&& pct * v.state.ttf_file_len <= v.state.ttf_offset * 100 < (pct + 1)
                * v.state.ttf_file_len
            &&& after(opened, EventType::KeyShort(3)).state.ttf_offset <= v.state.ttf_offset
        }),
{
    let l = v.state.ttf_file_len as int;
    let o = v.state.ttf_offset as int;
    let starts = v.ttf_page_starts;
    law_percent_rises(o, o, l);
    let p = percent(o, l);
    assert(0 <= p * l <= o * 100) by (nonlinear_arith)
        requires
            p >= 0,
            l >= 0,
            p * l <= o * 100,
    ;
    assert(0 <= p * l / 100 <= o);
    law_offset_lies_on_its_page(starts, p * l / 100);
}

/// The first key goes on and the second goes back: by a page of an open book, by a line of a list or
/// menu, by a hundredth of the book where a part of it is asked for, and by two sizes of the text;
/// held, by one more or less between the lines.
#[verifier::rlimit(50)]
pub proof fn law_first_key_goes_on(v: ReadView)
    requires
        v.valid(),
    ensures
        ({
            let s = v.state;
            let a = after(v, EventType::KeyShort(1)).state;
            let b = after(v, EventType::KeyShort(2)).state;
            let c = after(v, EventType::KeyLongIng(1)).state;
            let d = after(v, EventType::KeyLongIng(2)).state;
            let n = v.ttf_page_starts.len();
            let books = v.book_count();
            &&& s.menu_state is Closed && s.reading && s.ttf_page_idx + 1 < n ==> a.ttf_page_idx
                == s.ttf_page_idx + 1 && a.ttf_offset == v.ttf_page_starts[s.ttf_page_idx + 1]
            &&& s.menu_state is Closed && s.reading && n > 0 && s.ttf_page_idx > 0 ==> b.ttf_page_idx
                == s.ttf_page_idx - 1 && b.ttf_offset == v.ttf_page_starts[s.ttf_page_idx - 1]
            &&& s.menu_state is Closed && s.reading ==> c == s && d == s
            &&& s.menu_state is Closed && !s.reading && !s.exit_selected && s.choose_index + 1 < books
                ==> a.choose_index == s.choose_index + 1 && c.choose_index == s.choose_index + 1
                && !a.exit_selected
            &&& s.menu_state is Closed && !s.reading && !s.exit_selected && s.choose_index > 0
                ==> b.choose_index == s.choose_index - 1 && d.choose_index == s.choose_index - 1
                && !b.exit_selected
            &&& s.menu_state is Closed && !s.reading && s.exit_selected && books > 0 ==> a.choose_index
                == 0 && !a.exit_selected && b.choose_index == books - 1 && !b.exit_selected
            &&& s.menu_state matches MenuState::Popup { menu_index } ==> menu_index + 1 < MENU_COUNT
                ==> a.menu_state == (MenuState::Popup { menu_index: (menu_index + 1) as u32 })
            &&& s.menu_state matches MenuState::Popup { menu_index } ==> menu_index > 0 ==> b.menu_state
                == (MenuState::Popup { menu_index: (menu_index - 1) as u32 })
            &&& s.menu_state matches MenuState::JumpInput { input_pct } ==> input_pct < 100
                ==> a.menu_state == (MenuState::JumpInput { input_pct: (input_pct + 1) as u8 })
            &&& s.menu_state matches MenuState::JumpInput { input_pct } ==> input_pct > 0
                ==> b.menu_state == (MenuState::JumpInput { input_pct: (input_pct - 1) as u8 })
            &&& s.menu_state is Layout && s.ttf_px <= 38 ==> a.ttf_px == s.ttf_px + 2 && a.line_gap
                == s.line_gap
            &&& s.menu_state is Layout && s.ttf_px >= 14 ==> b.ttf_px == s.ttf_px - 2 && b.line_gap
                == s.line_gap
            &&& s.menu_state is Layout && s.line_gap < 10 ==> c.line_gap == s.line_gap + 1 && c.ttf_px
                == s.ttf_px
            &&& s.menu_state is Layout && s.line_gap > 0 ==> d.line_gap == s.line_gap - 1 && d.ttf_px
                == s.ttf_px
            &&& s.menu_state matches MenuState::BookmarkList { bm_index, deleting } ==> bm_index
                < v.bookmark_count() ==> a.menu_state == (MenuState::BookmarkList {
                bm_index: (bm_index + 1) as u32,
                deleting,
            })
            &&& s.menu_state matches MenuState::BookmarkList { bm_index, deleting } ==> bm_index > 0
                ==> b.menu_state == (MenuState::BookmarkList {
                bm_index: (bm_index - 1) as u32,
                deleting,
            })
        }),
{
    if let MenuState::Popup { menu_index } = v.state.menu_state {
        lemma_ring_step(menu_index, MENU_COUNT as int);
    }
}

proof fn lemma_ring_step(i: u32, n: int)
    requires
        i < n <= 0x1_0000,
    ensures
        i + 1 < n ==> ring(i, n, true) == i + 1,
        i > 0 ==> ring(i, n, false) == i - 1,
{
    assert(i + 1 < n ==> (i + 1) % n == i + 1) by (nonlinear_arith)
        requires
            0 <= i,
    ;
    assert(i > 0 ==> (i + n - 1) % n == i - 1) by (nonlinear_arith)
        requires
            0 <= i < n,
    ;
}

/// The third key, held, leads out by one step: out of a submenu to the menu, out of an open book to
/// the list of books, and from there out of the page.
pub proof fn law_third_key_held_leads_out(v: ReadView)
    requires
        v.valid(),
    ensures
        ({
            let s = v.state;
            let a = after(v, EventType::KeyLongEnd(3)).state;
            let submenu = !(s.menu_state is Closed) && !(s.menu_state is Popup);
            &&& submenu ==> a.menu_state == (MenuState::Popup { menu_index: 0 }) && a.reading
                == s.reading && a.running == s.running
            &&& !submenu && s.reading ==> !a.reading && a.menu_state is Closed && a.running == s.running
                && a.retained.page_index is None
            &&& !submenu && !s.reading ==> !a.running
            &&& a.ttf_offset == s.ttf_offset
        }),
{
}

/// The third key, pressed: opens the chosen book from its beginning and keeps that it is open, opens
/// the menu of an open book, and confirms what is chosen.
#[verifier::rlimit(50)]
pub proof fn law_third_key_confirms(v: ReadView)
    requires
        v.valid(),
    ensures
        ({
            let s = v.state;
            let a = after(v, EventType::KeyShort(3)).state;
            &&& s.menu_state is Closed && !s.reading && s.exit_selected ==> !a.running && !a.reading
            &&& s.menu_state is Closed && !s.reading && !s.exit_selected ==> a.reading && a.ttf_offset
                == 0 && a.ttf_file_len == 0 && a.retained.page_index == Some(s.choose_index)
            &&& s.menu_state is Closed && s.reading ==> a.menu_state == (MenuState::Popup {
                menu_index: 0,
            })
            &&& s.menu_state is Layout ==> a.menu_state is Closed && a.ttf_px == s.ttf_px && a.line_gap
                == s.line_gap && outcome(v, EventType::KeyShort(3)).save_settings
            &&& s.menu_state matches MenuState::FontList { font_index } ==> font_index
                < v.font_list.len() ==> a.need_reload_font && after(v, EventType::KeyShort(3)).font_name
                == v.font_list[font_index as int]
            &&& s.menu_state matches MenuState::BookmarkList { bm_index, deleting } ==> deleting
                && bm_index < v.bookmark_count() ==> a.delete_bookmark_flag && a.ttf_offset
                == s.ttf_offset
            &&& s.menu_state matches MenuState::BookmarkList { bm_index, deleting } ==> bm_index
                >= v.bookmark_count() ==> a.menu_state == (MenuState::Popup { menu_index: 0 })
                && a.delete_bookmark_flag == s.delete_bookmark_flag && a.ttf_offset == s.ttf_offset
        }),
{
}

/// Opening a bookmark leads to the page that holds its byte.
pub proof fn law_bookmarks_open_at_their_byte(v: ReadView, i: u32, byte: u32)
    requires
        v.valid(),
        v.state.menu_state == (MenuState::BookmarkList { bm_index: i, deleting: false }),
        v.log_vec is Some,
        i + 1 < v.log_vec->0.len(),
        v.log_vec->0[i + 1] == byte,
        byte <= v.state.ttf_file_len,
        v.ttf_page_starts.len() > 0,
        v.ttf_page_starts[0] == 0,
    ensures
        ({
            let a = after(v, EventType::KeyShort(3)).state;
            let k = a.ttf_page_idx as int;
            &&& 0 <= k < v.ttf_page_starts.len()
            &&& a.ttf_offset == v.ttf_page_starts[k] <= byte
            &&& k + 1 < v.ttf_page_starts.len() ==> byte < v.ttf_page_starts[k + 1]
            &&& a.menu_state is Closed
        }),
{
    law_offset_lies_on_its_page(v.ttf_page_starts, byte as int);
}

/// The longer a key is held, the further a jump goes with each repeat: one at first, and then five,
/// ten, fifty and a hundred and its doubles; and never past either end of the book.
#[verifier::rlimit(50)]
pub proof fn law_held_jumps_stay_in_the_book(v: ReadView, pct: u8)
    requires
        v.valid(),
        v.state.menu_state == (MenuState::JumpInput { input_pct: pct }),
    ensures
        ({
            let a = after(v, EventType::KeyLongIng(1)).state;
            let b = after(v, EventType::KeyLongIng(2)).state;
            let p = a.menu_state->input_pct;
            let q = b.menu_state->input_pct;
            let tick = v.state.jump_accel;
            &&& a.menu_state is JumpInput && b.menu_state is JumpInput
            &&& q <= pct <= p <= 100
            &&& pct < 100 ==> p > pct
            &&& pct > 0 ==> q < pct
            &&& tick < 3 && 0 < pct < 100 ==> p == pct + 1 && q == pct - 1
            &&& 3 <= tick < 5 && 5 <= pct <= 95 ==> p == pct + 5 && q == pct - 5
            &&& 5 <= tick < 8 && 10 <= pct <= 90 ==> p == pct + 10 && q == pct - 10
            &&& 8 <= tick < 10 && pct == 50 ==> p == 100 && q == 0
            &&& tick >= 10 ==> p == 100 && q == 0
            &&& tick < u32::MAX ==> a.jump_accel == tick + 1 && b.jump_accel == tick + 1
        }),
{
}

/// The preview of a bookmark goes when its list is left or bookmarks are to be deleted, and stays
/// otherwise.
pub proof fn law_preview_goes_with_its_list(v: ReadView, e: EventType)
    requires
        v.valid(),
    ensures
        ({
            let a = after(v, e);
            let submenu = !(v.state.menu_state is Popup) && !(v.state.menu_state is Closed);
            &&& e == EventType::KeyLongEnd(3) && submenu ==> a.bookmark_preview.len() == 0
            &&& e == EventType::KeyLongEnd(3) && !submenu ==> a.bookmark_preview == v.bookmark_preview
            &&& e == EventType::KeyShort(3) && v.state.menu_state == (MenuState::Popup { menu_index: 3 })
                ==> a.bookmark_preview.len() == 0
            &&& e == EventType::KeyShort(1) || e == EventType::KeyShort(2) ==> a.bookmark_preview
                == v.bookmark_preview
            &&& a.log_vec == v.log_vec && a.menus == v.menus && a.ttf_page_starts == v.ttf_page_starts
        }),
{
}

/// A held key repeats with a pause: shorter where a part of the book is asked for, longer in lists;
/// a short press has none.
pub proof fn law_held_keys_pause(v: ReadView)
    requires
        v.valid(),
    ensures
        ({
            let held = outcome(v, EventType::KeyLongIng(1)).delay_ms;
            &&& outcome(v, EventType::KeyShort(1)).delay_ms == 0
            &&& outcome(v, EventType::KeyShort(2)).delay_ms == 0
            &&& outcome(v, EventType::KeyShort(3)).delay_ms == 0
            &&& v.state.menu_state is Popup ==> held == 200
            &&& v.state.menu_state is JumpInput ==> held == 75
            &&& v.state.menu_state is Layout ==> held == 150
            &&& v.state.menu_state is FontList && v.font_list.len() > 0 ==> held == 150
        }),
{
}

} // verus!
