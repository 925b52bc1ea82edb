//! What the reader reads from the card and writes to it.
use vstd::prelude::*;
#[allow(unused_imports)]
use vstd::string::*;

use crate::bounded::{log_len, log_offsets, log_remove, log_slice, LogVec};
use crate::epd2in9_txt::{log_file, TxtReader};
use crate::pages::read_page::page::{bookmark_count, MenuState, ReadPage};
use crate::text::{
    dec, dec_text, join, law_numbers_read_back, num_of,
};

verus! {

/// The index is to be made: it is missing or empty, or does not reach the end of the book.
pub open spec fn index_stale(idx_len: Option<u32>, index_end: u32, file_len: u32) -> bool {
    match idx_len {
        Some(n) => n / 4 == 0 || index_end != file_len,
        None => true,
    }
}

/// The number in four bytes at `o`, the most significant first; bytes that are missing are noughts.
pub open spec fn index_entry(idx: Seq<u8>, o: int) -> int {
    let b = |k: int|
        if o + k < idx.len() {
            idx[o + k] as int
        } else {
            0
        };
    b(0) * 0x1000000 + b(1) * 0x10000 + b(2) * 0x100 + b(3)
}

/// Where a file of `len` bytes stands after it was sent from `pos` to `at`: a place past its end is
/// refused.
pub open spec fn sent_to(len: int, pos: int, at: int) -> int {
    if at <= len {
        at
    } else {
        pos
    }
}

/// Where a file of `len` bytes stands after an entry was read at `pos`.
pub open spec fn past_entry(len: int, pos: int) -> int {
    if pos + 4 <= len {
        pos + 4
    } else {
        len
    }
}

/// Where a page begins and ends in the book; nothing where it is empty. The index is read from its
/// beginning on: sent past its end, it stays where it stands.
pub open spec fn page_range(idx: Seq<u8>, page: int) -> Option<(int, int)> {
    let len = idx.len() as int;
    let first = sent_to(len, 0, (page - 1) * 4);
    let (begin, pos) = if page == 0 {
        (0, 0)
    } else {
        (index_entry(idx, first), past_entry(len, first))
    };
    let second = sent_to(len, pos, page * 4);
    let end = if second + 4 <= len {
        index_entry(idx, second)
    } else {
        0
    };
    if end > begin {
        Some((begin, end))
    } else {
        None
    }
}

fn byte_at(idx: &[u8], o: u64) -> (b: u8)
    ensures
        b == (if o < idx@.len() {
            idx@[o as int]
        } else {
            0
        }),
{
    if o < idx.len() as u64 {
        idx[o as usize]
    } else {
        0
    }
}

fn read_entry(idx: &[u8], o: u64) -> (n: u32)
    requires
        o <= 0x8_0000_0000,
    ensures
        n == index_entry(idx@, o as int),
{
    byte_at(idx, o) as u32 * 0x1000000 + byte_at(idx, o + 1) as u32 * 0x10000 + byte_at(idx, o + 2)
        as u32 * 0x100 + byte_at(idx, o + 3) as u32
}

/// Where a page begins and ends in the book.
pub fn find_page(idx: &[u8], page: u32) -> (r: Option<(u32, u32)>)
    ensures
        match r {
            Some((b, e)) => page_range(idx@, page as int) == Some((b as int, e as int)),
            None => page_range(idx@, page as int) is None,
        },
{
    let len: u64 = idx.len() as u64;
    let (begin, pos): (u32, u64) = if page == 0 {
        (0, 0)
    } else {
        let at: u64 = (page as u64 - 1) * 4;
        let first: u64 = if at <= len {
            at
        } else {
            0
        };
        (
            read_entry(idx, first),
            if len - first >= 4 {
                first + 4
            } else {
                len
            },
        )
    };
    let at: u64 = page as u64 * 4;
    let second: u64 = if at <= len {
        at
    } else {
        pos
    };
    let end: u32 = if len - second >= 4 {
        read_entry(idx, second)
    } else {
        0
    };
    if end > begin {
        Some((begin, end))
    } else {
        None
    }
}

/// The progress of a book in percent; nothing where it has no index.
pub open spec fn progress_of(current: int, total: int) -> Seq<char> {
    if total > 0 {
        dec((current * 100 / total) as nat) + "%"@
    } else {
        seq![]
    }
}

/// The progress of a book, from the place in its log and the length of its index.
pub fn book_progress(place: u32, idx_len: u32) -> (s: String)
    ensures
        s@ == progress_of(place as int, idx_len as int / 4),
{
    let total: u32 = idx_len / 4;
    if total > 0 {
        assert(0 <= place as int * 100 / (total as int) <= 0xffff_ffff * 100) by (nonlinear_arith)
            requires
                0 <= place <= 0xffff_ffff,
                total > 0,
        ;
        join(dec_text(place as u64 * 100 / total as u64).as_str(), "%")
    } else {
        let s = String::new();
        assert(s@ =~= seq![]);
        s
    }
}

impl ReadPage {
    /// The reader begins to run, and is drawn.
    pub fn start(self) -> (s: ReadPage)
        ensures
            s == (ReadPage { running: true, need_render: true, ..self }),
    {
        ReadPage { running: true, need_render: true, ..self }
    }

    /// Whether the index is to be made before the book is read.
    pub fn needs_index(self, idx_len: Option<u32>, index_end: u32, file_len: u32) -> (r: bool)
        ensures
            r == (index_stale(idx_len, index_end, file_len) || self.force_indexing),
    {
        let stale = match idx_len {
            Some(n) => n / 4 == 0 || index_end != file_len,
            None => true,
        };
        stale || self.force_indexing
    }

    /// The index is being made.
    pub fn begin_index(self) -> (s: ReadPage)
        ensures
            s == (ReadPage { indexing: true, ..self }),
    {
        ReadPage { indexing: true, ..self }
    }

    /// The index is known, `made` where it was just made.
    pub fn get_page_vec(self, total_page: Option<u32>, made: bool) -> (s: ReadPage)
        ensures
            s == (ReadPage {
                total_page,
                need_render: self.need_render || made,
                force_indexing: self.force_indexing && !made,
                indexing: self.indexing && !made,
                ..self
            }),
    {
        ReadPage {
            total_page,
            need_render: self.need_render || made,
            force_indexing: self.force_indexing && !made,
            indexing: self.indexing && !made,
            ..self
        }
    }

    /// The log was read: the reader goes on at its place.
    pub fn get_log_vec(self, log: &LogVec) -> (s: ReadPage)
        ensures
            s == (ReadPage {
                page_index: if log_offsets(*log).len() > 0 {
                    log_offsets(*log)[0]
                } else {
                    self.page_index
                },
                ..self
            }),
    {
        let l = log_slice(log);
        if l.len() > 0 {
            ReadPage { page_index: l[0], ..self }
        } else {
            self
        }
    }

    /// Whether the text of the page is to be read; it then is.
    pub fn take_change(self) -> (r: (ReadPage, bool))
        ensures
            r.1 == self.change_page,
            r.0 == (ReadPage { change_page: false, ..self }),
    {
        (ReadPage { change_page: false, ..self }, self.change_page)
    }

    /// Whether a bookmark is to be set; it then is.
    pub fn take_bookmark(self) -> (r: (ReadPage, bool))
        ensures
            r.1 == self.save_bookmark_flag,
            r.0 == (ReadPage { save_bookmark_flag: false, ..self }),
    {
        (ReadPage { save_bookmark_flag: false, ..self }, self.save_bookmark_flag)
    }

    /// The bookmark to delete, as it is counted in the log.
    pub open spec fn doomed(self) -> int {
        match self.menu_state {
            MenuState::BookmarkList { bm_index, .. } => bm_index + 1,
            _ => 1,
        }
    }

    /// The reader after a bookmark was deleted, with so many left in the log.
    pub open spec fn after_delete(self, left: int) -> ReadPage {
        ReadPage {
            menu_state: match self.menu_state {
                MenuState::BookmarkList { bm_index, deleting } if bm_index >= bookmark_count(left)
                    && bm_index > 0 => MenuState::BookmarkList {
                    bm_index: (bm_index - 1) as u32,
                    deleting,
                },
                m => m,
            },
            ..self
        }
    }

    /// Deletes the chosen bookmark where that was asked for: the log that is to be written, where one
    /// was deleted, and whether the preview is dropped.
    pub fn delete_bookmark(self, log: &mut LogVec) -> (r: (ReadPage, Option<Vec<u8>>, bool))
        ensures
            r.2 == self.delete_bookmark_flag,
            ({
                let before = log_offsets(*old(log));
                let d = self.doomed();
                let gone = self.delete_bookmark_flag && d < before.len();
                let s = ReadPage {
                    delete_bookmark_flag: false,
                    need_render: self.need_render || self.delete_bookmark_flag,
                    ..self
                };
                &&& log_offsets(*final(log)) == (if gone {
                    before.remove(d)
                } else {
                    before
                })
                &&& r.0 == (if gone {
                    s.after_delete(before.len() - 1)
                } else {
                    s
                })
                &&& match r.1 {
                    Some(file) => gone && file@ == log_file(log_offsets(*final(log))),
                    None => !gone,
                }
            }),
    {
        if !self.delete_bookmark_flag {
            return (self, None, false);
        }
        let s = ReadPage { delete_bookmark_flag: false, need_render: true, ..self };
        let bm: u32 = match self.menu_state {
            MenuState::BookmarkList { bm_index, .. } => bm_index,
            _ => 0,
        };
        let n: usize = log_len(log);
        if n == 0 || bm as usize >= n - 1 {
            return (s, None, true);
        }
        log_remove(log, bm as usize + 1);
        let file = TxtReader::save_log_raw(log);
        let left: usize = log_len(log);
        let count: usize = if left > 0 {
            left - 1
        } else {
            0
        };
        let menu_state = match s.menu_state {
            MenuState::BookmarkList { bm_index, deleting } => {
                if bm_index as usize >= count && bm_index > 0 {
                    MenuState::BookmarkList { bm_index: bm_index - 1, deleting }
                } else {
                    s.menu_state
                }
            },
            m => m,
        };
        (ReadPage { menu_state, ..s }, Some(file), true)
    }

    /// The page of the chosen bookmark.
    pub open spec fn chosen_bookmark(self, log: Seq<u32>) -> Option<u32> {
        match self.menu_state {
            MenuState::BookmarkList { bm_index, .. } if bm_index + 1 < log.len() => Some(
                log[bm_index + 1],
            ),
            _ => None,
        }
    }

    /// Whether the text of the chosen bookmark is to be read, and from which page, where there is
    /// one and the index is known; it then is.
    pub fn load_preview(self, log: &LogVec) -> (r: (ReadPage, bool, Option<u32>))
        ensures
            r.1 == self.need_load_preview,
            r.0 == (ReadPage {
                need_load_preview: false,
                need_render: self.need_render || self.need_load_preview,
                ..self
            }),
            r.2 == (if self.need_load_preview && self.total_page is Some {
                self.chosen_bookmark(log_offsets(*log))
            } else {
                None
            }),
    {
        if !self.need_load_preview {
            return (self, false, None);
        }
        let s = ReadPage { need_load_preview: false, need_render: true, ..self };
        if self.total_page.is_none() {
            return (s, true, None);
        }
        let l = log_slice(log);
        let page = match self.menu_state {
            MenuState::BookmarkList { bm_index, .. } => {
                if l.len() > 0 && (bm_index as usize) < l.len() - 1 {
                    Some(l[bm_index as usize + 1])
                } else {
                    None
                }
            },
            _ => None,
        };
        (s, true, page)
    }

    /// Whether the device may sleep: not while a menu is open.
    pub fn may_sleep(self) -> (r: bool)
        ensures
            r == (self.menu_state is Closed),
    {
        matches!(self.menu_state, MenuState::Closed)
    }
}

/// What a pass of the reader consists of, in this order.
#[derive(Clone, Copy, Debug, PartialEq, Eq, Structural)]
pub enum PassTask {
    /// The pass begins.
    Begin,
    /// The index and the log of the chosen book are opened.
    OpenBook,
    /// The text of the page is read.
    ChangePage,
    /// The page is kept as a bookmark.
    SaveBookmark,
    /// The selected bookmark is deleted.
    DeleteBookmark,
    /// The text of the selected bookmark is read.
    LoadPreview,
    /// The panel counts its quick refreshes anew.
    ResetTimes,
    /// The page is drawn.
    Render,
    /// The device sleeps where it was idle for long enough.
    Sleep,
    /// The pass is over, and the next begins after a while.
    Pause,
    /// The reader ends.
    Stop,
}

/// The place of a task in a pass.
pub open spec fn rank(t: PassTask) -> int {
    match t {
        PassTask::Begin => 0,
        PassTask::OpenBook => 1,
        PassTask::ChangePage => 2,
        PassTask::SaveBookmark => 3,
        PassTask::DeleteBookmark => 4,
        PassTask::LoadPreview => 5,
        PassTask::ResetTimes => 6,
        PassTask::Render => 7,
        PassTask::Sleep => 8,
        PassTask::Pause => 9,
        PassTask::Stop => 10,
    }
}

/// A task is due, with so many books listed. Sleep waits until no menu is open.
pub open spec fn due(s: ReadPage, t: PassTask, books: int) -> bool {
    match t {
        PassTask::Begin => false,
        PassTask::OpenBook => books > 0 && s.total_page is None,
        PassTask::ChangePage => books > 0 && s.change_page,
        PassTask::SaveBookmark => s.save_bookmark_flag,
        PassTask::DeleteBookmark => s.delete_bookmark_flag,
        PassTask::LoadPreview => s.need_load_preview,
        PassTask::ResetTimes => !(s.menu_state is Closed),
        PassTask::Render => s.need_render,
        PassTask::Sleep => s.menu_state is Closed,
        PassTask::Pause => true,
        PassTask::Stop => false,
    }
}

/// `t` is the next task after `done`.
pub open spec fn is_next(s: ReadPage, done: PassTask, books: int, t: PassTask) -> bool {
    if done is Begin && !s.running {
        t is Stop
    } else {
        &&& rank(done) < rank(t) <= rank(PassTask::Pause)
        &&& due(s, t, books)
        &&& forall|u: PassTask| rank(done) < rank(u) < rank(t) ==> !#[trigger] due(s, u, books)
    }
}

impl ReadPage {
    /// The next task of a pass, after the one that was done.
    pub fn run(self, done: PassTask, books: u32) -> (t: PassTask)
        requires
            rank(done) < rank(PassTask::Pause),
        ensures
            is_next(self, done, books as int, t),
    {
        if matches!(done, PassTask::Begin) && !self.running {
            return PassTask::Stop;
        }
        let at: u8 = match done {
            PassTask::Begin => 0,
            PassTask::OpenBook => 1,
            PassTask::ChangePage => 2,
            PassTask::SaveBookmark => 3,
            PassTask::DeleteBookmark => 4,
            PassTask::LoadPreview => 5,
            PassTask::ResetTimes => 6,
            PassTask::Render => 7,
            PassTask::Sleep => 8,
            PassTask::Pause => 9,
            PassTask::Stop => 10,
        };
        if at < 1 && books > 0 && self.total_page.is_none() {
            PassTask::OpenBook
        } else if at < 2 && books > 0 && self.change_page {
            PassTask::ChangePage
        } else if at < 3 && self.save_bookmark_flag {
            PassTask::SaveBookmark
        } else if at < 4 && self.delete_bookmark_flag {
            PassTask::DeleteBookmark
        } else if at < 5 && self.need_load_preview {
            PassTask::LoadPreview
        } else if at < 6 && !self.may_sleep() {
            PassTask::ResetTimes
        } else if at < 7 && self.need_render {
            PassTask::Render
        } else if at < 8 && self.may_sleep() {
            PassTask::Sleep
        } else {
            PassTask::Pause
        }
    }
}

/// There is one next task.
pub proof fn law_one_task_is_next(s: ReadPage, done: PassTask, books: int, a: PassTask, b: PassTask)
    requires
        is_next(s, done, books, a),
        is_next(s, done, books, b),
    ensures
        a == b,
{
    if !(done is Begin && !s.running) {
        if rank(a) < rank(b) {
            assert(!due(s, a, books));
        }
        if rank(b) < rank(a) {
            assert(!due(s, b, books));
        }
    }
}

/// A deleted bookmark is gone from the log, and the others stay in their order.
pub proof fn law_others_stay(log: Seq<u32>, d: int, i: int)
    requires
        0 <= d < log.len(),
        0 <= i < log.len() - 1,
    ensures
        log.remove(d)[i] == (if i < d {
            log[i]
        } else {
            log[i + 1]
        }),
{
}

/// After a bookmark was deleted, the chosen one is one that is left, or the line to cancel.
pub proof fn law_choice_stays_in_the_list(s: ReadPage, left: int, i: u32, deleting: bool)
    requires
        s.menu_state == (MenuState::BookmarkList { bm_index: i, deleting }),
        1 <= left,
        i <= left - 1,
    ensures
        s.after_delete(left).menu_state matches MenuState::BookmarkList { bm_index, .. }
            && bm_index <= bookmark_count(left),
{
}

/// A page goes from one place of the index to the next, and the first from the beginning of the book;
/// the places are numbers of four bytes, the most significant first.
pub proof fn law_pages_lie_between_their_places(idx: Seq<u8>, page: int)
    requires
        0 <= page,
        4 * page + 4 <= idx.len(),
    ensures
        ({
            let place = |k: int|
                idx[4 * k] * 16777216 + idx[4 * k + 1] * 65536 + idx[4 * k + 2] * 256 + idx[4 * k + 3];
            let begin = if page == 0 {
                0
            } else {
                place(page - 1)
            };
            page_range(idx, page) == (if place(page) > begin {
                Some((begin, place(page)))
            } else {
                None::<(int, int)>
            })
        }),
{
}

/// The progress of a book reads back as the hundredths that were read, rounded down.
pub proof fn law_progress_reads_back(current: int, total: int)
    requires
        0 <= current,
        total > 0,
    ensures
        ({
            let t = progress_of(current, total);
            let p = num_of(t.drop_last());
            &&& t.last() == '%'
            &&& p * total <= current * 100 < (p + 1) * total
        }),
{
    reveal_strlit("%");
    let p = current * 100 / total;
    assert(p * total <= current * 100 < (p + 1) * total) by (nonlinear_arith)
        requires
            total > 0,
            p == current * 100 / total,
    ;
    assert(p >= 0) by (nonlinear_arith)
        requires
            p * total <= current * 100 < (p + 1) * total,
            total > 0,
            current >= 0,
    ;
    law_numbers_read_back(p as nat);
    assert(progress_of(current, total).drop_last() =~= dec(p as nat));
}

/// An index is made anew where it is missing, empty, or ends elsewhere than the book.
pub proof fn law_index_fits_its_book(len: u32, end: u32, file_len: u32)
    ensures
        index_stale(None, end, file_len),
        len < 4 ==> index_stale(Some(len), end, file_len),
        end != file_len ==> index_stale(Some(len), end, file_len),
        len >= 4 && end == file_len ==> !index_stale(Some(len), end, file_len),
{
}

/// A reader that was left ends at the beginning of the next pass; else what is asked for is done, in
/// its order, and sleep comes last and only without a menu.
#[verifier::rlimit(50)]
pub proof fn law_what_is_asked_for_is_done(s: ReadPage, books: int, t: PassTask)
    requires
        is_next(s, PassTask::Begin, books, t),
    ensures
        !s.running <==> t is Stop,
        s.running && books > 0 && s.total_page is None ==> t is OpenBook,
        s.running && s.total_page is Some && books > 0 && s.change_page ==> t is ChangePage,
        s.running && s.total_page is Some && !s.change_page && s.save_bookmark_flag ==> t is SaveBookmark,
        s.running && s.total_page is Some && !s.change_page && !s.save_bookmark_flag
            && s.delete_bookmark_flag ==> t is DeleteBookmark,
        t is Sleep ==> !s.need_render && s.menu_state is Closed,
{
    assert(due(s, PassTask::OpenBook, books) == (books > 0 && s.total_page is None));
    assert(due(s, PassTask::ChangePage, books) == (books > 0 && s.change_page));
    assert(due(s, PassTask::SaveBookmark, books) == s.save_bookmark_flag);
    assert(due(s, PassTask::DeleteBookmark, books) == s.delete_bookmark_flag);
    assert(due(s, PassTask::Render, books) == s.need_render);
}

/// The bookmark that is deleted is the one that is chosen.
pub proof fn law_chosen_bookmark_is_deleted(s: ReadPage, i: u32, deleting: bool, log: Seq<u32>)
    requires
        s.menu_state == (MenuState::BookmarkList { bm_index: i, deleting }),
        i + 1 < log.len(),
    ensures
        s.chosen_bookmark(log) == Some(log[i + 1]),
        s.chosen_bookmark(log) == Some(log[s.doomed()]),
        log.remove(s.doomed()).len() == log.len() - 1,
        s.doomed() >= 1,
{
}

} // verus!
