//! The order in which the reader does what is due.
use vstd::prelude::*;

use crate::pages::read::page::{MenuState, ReadPage, ReadView};
use crate::pages::read::session::chosen_book;
use crate::sd_mount::names::SdError;

verus! {

/// How often room for the glyphs is asked for.
pub const ALLOC_TRIES: u32 = 8;

/// What a pass of the reader consists of, in this order.
#[derive(Clone, Copy, Debug, PartialEq, Eq, Structural)]
pub enum ReadTask {
    /// The pass begins.
    Begin,
    /// The chosen book and its log are opened.
    OpenBook,
    /// The current position is kept as a bookmark.
    SaveBookmark,
    /// The current position is kept.
    SavePosition,
    /// The font is opened anew.
    ReloadFont,
    /// The selected bookmark is deleted.
    DeleteBookmark,
    /// The text at the selected bookmark is read.
    LoadPreview,
    /// The panel counts its quick refreshes anew.
    ResetTimes,
    /// The page is drawn.
    Render,
    /// The glyphs of the next page are drawn ahead.
    Preload,
    /// The device sleeps where it was idle for long enough.
    Sleep,
    /// The pass is over, and the next begins after a while.
    Pause,
    /// The reader ends.
    Stop,
}

/// The place of a task in a pass.
pub open spec fn rank(t: ReadTask) -> int {
    match t {
        ReadTask::Begin => 0,
        ReadTask::OpenBook => 1,
        ReadTask::SaveBookmark => 2,
        ReadTask::SavePosition => 3,
        ReadTask::ReloadFont => 4,
        ReadTask::DeleteBookmark => 5,
        ReadTask::LoadPreview => 6,
        ReadTask::ResetTimes => 7,
        ReadTask::Render => 8,
        ReadTask::Preload => 9,
        ReadTask::Sleep => 10,
        ReadTask::Pause => 11,
        ReadTask::Stop => 12,
    }
}

/// A task is due, in a pass that drew the page or not. Drawing ahead and sleep wait until no menu is
/// open.
pub open spec fn due(v: ReadView, t: ReadTask, did_render: bool) -> bool {
    let s = v.state;
    match t {
        ReadTask::Begin => false,
        ReadTask::OpenBook => v.book_count() > 0 && s.ttf_file_len == 0,
        ReadTask::SaveBookmark => s.save_bookmark_flag,
        ReadTask::SavePosition => s.need_save_position,
        ReadTask::ReloadFont => s.need_reload_font,
        ReadTask::DeleteBookmark => s.delete_bookmark_flag,
        ReadTask::LoadPreview => s.need_load_preview,
        ReadTask::ResetTimes => !(s.menu_state is Closed),
        ReadTask::Render => s.need_render,
        ReadTask::Preload => did_render && s.menu_state is Closed && s.reading && chosen_book(
            v,
        ) is Some && s.ttf_file_len > 0 && s.ttf_end < s.ttf_file_len,
        ReadTask::Sleep => s.menu_state is Closed,
        ReadTask::Pause => true,
        ReadTask::Stop => false,
    }
}

/// `t` is the next task after `done`: the reader ends at the beginning of a pass where it was left,
/// and otherwise the first task that is due comes.
pub open spec fn is_next(v: ReadView, done: ReadTask, did_render: bool, t: ReadTask) -> bool {
    if done is Begin && !v.state.running {
        t is Stop
    } else {
        &&& rank(done) < rank(t) <= rank(ReadTask::Pause)
        &&& due(v, t, did_render)
        &&& forall|u: ReadTask|
            rank(done) < rank(u) < rank(t) ==> !#[trigger] due(v, u, did_render)
    }
}

impl ReadPage {
    /// The next task of a pass, after the one that was done.
    pub fn run(&self, done: ReadTask, did_render: bool) -> (t: ReadTask)
        requires
            rank(done) < rank(ReadTask::Pause),
        ensures
            is_next(self@, done, did_render, t),
    {
        if matches!(done, ReadTask::Begin) && !self.state.running {
            return ReadTask::Stop;
        }
        let at: u8 = Self::place_of(done);
        let s = self.state;
        let closed: bool = matches!(s.menu_state, MenuState::Closed);
        if at < 1 && self.wants_book() {
            ReadTask::OpenBook
        } else if at < 2 && s.save_bookmark_flag {
            ReadTask::SaveBookmark
        } else if at < 3 && s.need_save_position {
            ReadTask::SavePosition
        } else if at < 4 && s.need_reload_font {
            ReadTask::ReloadFont
        } else if at < 5 && s.delete_bookmark_flag {
            ReadTask::DeleteBookmark
        } else if at < 6 && s.need_load_preview {
            ReadTask::LoadPreview
        } else if at < 7 && !closed {
            ReadTask::ResetTimes
        } else if at < 8 && s.need_render {
            ReadTask::Render
        } else if at < 9 && self.wants_preload(did_render) {
            ReadTask::Preload
        } else if at < 10 && closed {
            ReadTask::Sleep
        } else {
            ReadTask::Pause
        }
    }

    fn place_of(t: ReadTask) -> (n: u8)
        ensures
            n == rank(t),
    {
        match t {
            ReadTask::Begin => 0,
            ReadTask::OpenBook => 1,
            ReadTask::SaveBookmark => 2,
            ReadTask::SavePosition => 3,
            ReadTask::ReloadFont => 4,
            ReadTask::DeleteBookmark => 5,
            ReadTask::LoadPreview => 6,
            ReadTask::ResetTimes => 7,
            ReadTask::Render => 8,
            ReadTask::Preload => 9,
            ReadTask::Sleep => 10,
            ReadTask::Pause => 11,
            ReadTask::Stop => 12,
        }
    }
}

/// What is shown where the card cannot be read: nothing where only the books are missing.
pub fn open_failure(e: SdError) -> (s: Option<&'static str>)
    ensures
        match e {
            SdError::OpenVolumeError => s is Some && s->0@ == "读取分区失败"@,
            SdError::OpenRootError => s is Some && s->0@ == "打开主目录失败"@,
            _ => s is None,
        },
{
    match e {
        SdError::OpenVolumeError => Some("读取分区失败"),
        SdError::OpenRootError => Some("打开主目录失败"),
        _ => None,
    }
}

/// Whether room for the glyphs is asked for once more.
pub fn asks_again(got: bool, tries: u32) -> (r: bool)
    ensures
        r == (!got && tries < ALLOC_TRIES),
{
    !got && tries < ALLOC_TRIES
}

/// There is one next task.
pub proof fn law_one_task_is_next(
    v: ReadView,
    done: ReadTask,
    did_render: bool,
    a: ReadTask,
    b: ReadTask,
)
    requires
        is_next(v, done, did_render, a),
        is_next(v, done, did_render, b),
    ensures
        a == b,
{
    if !(done is Begin && !v.state.running) {
        if rank(a) < rank(b) {
            assert(!due(v, a, did_render));
        }
        if rank(b) < rank(a) {
            assert(!due(v, b, did_render));
        }
    }
}

/// A device does not sleep while a menu is open.
pub proof fn law_no_sleep_in_a_menu(v: ReadView, done: ReadTask, did_render: bool, t: ReadTask)
    requires
        is_next(v, done, did_render, t),
        !(v.state.menu_state is Closed),
    ensures
        !(t is Sleep),
        !(t is Preload),
{
}

/// Whatever is asked for is done in the next pass: bookmarks and places are kept, the font is opened,
/// bookmarks are deleted and looked into, and the page is drawn, in this order and before sleep.
#[verifier::rlimit(50)]
pub proof fn law_what_is_asked_for_is_done(v: ReadView, t: ReadTask)
    requires
        v.state.running,
        is_next(v, ReadTask::Begin, false, t),
        v.state.ttf_file_len > 0,
    ensures
        v.state.save_bookmark_flag ==> t is SaveBookmark,
        !v.state.save_bookmark_flag && v.state.need_save_position ==> t is SavePosition,
        !v.state.save_bookmark_flag && !v.state.need_save_position && v.state.need_reload_font
            ==> t is ReloadFont,
        !v.state.save_bookmark_flag && !v.state.need_save_position && !v.state.need_reload_font
            && v.state.delete_bookmark_flag ==> t is DeleteBookmark,
        t is Sleep ==> !v.state.need_render && !v.state.need_save_position,
{
    assert(!due(v, ReadTask::OpenBook, false));
    assert(due(v, ReadTask::SaveBookmark, false) == v.state.save_bookmark_flag);
    assert(due(v, ReadTask::SavePosition, false) == v.state.need_save_position);
    assert(due(v, ReadTask::ReloadFont, false) == v.state.need_reload_font);
    assert(due(v, ReadTask::DeleteBookmark, false) == v.state.delete_bookmark_flag);
    assert(due(v, ReadTask::Render, false) == v.state.need_render);
}

/// A reader that was left ends at the beginning of the next pass, and not before.
pub proof fn law_left_reader_ends(v: ReadView, did_render: bool, t: ReadTask)
    requires
        is_next(v, ReadTask::Begin, did_render, t),
    ensures
        !v.state.running <==> t is Stop,
{
}

/// The next page is prepared once the page was drawn, where there is more of the book, and never while
/// a menu is open.
pub proof fn law_next_page_is_prepared(v: ReadView, did_render: bool)
    ensures
        due(v, ReadTask::Preload, did_render) ==> did_render && v.state.menu_state is Closed
            && v.state.reading && v.state.ttf_end < v.state.ttf_file_len,
        did_render && v.state.menu_state is Closed && v.state.reading && v.state.ttf_file_len > 0
            && v.state.ttf_end < v.state.ttf_file_len && chosen_book(v) is Some ==> due(
            v,
            ReadTask::Preload,
            did_render,
        ),
        due(v, ReadTask::OpenBook, did_render) <==> v.book_count() > 0 && v.state.ttf_file_len == 0,
        due(v, ReadTask::Sleep, did_render) <==> v.state.menu_state is Closed,
        due(v, ReadTask::ResetTimes, did_render) <==> !(v.state.menu_state is Closed),
{
}

} // verus!
