//! A reading session: what happens between the key events.
//!
//! The caller reads and writes the files; each function here takes in what the caller found and
//! says what is to be written or drawn.
use vstd::prelude::*;
#[allow(unused_imports)]
use vstd::string::*;
#[allow(unused_imports)]
use vstd::utf8::*;

use crate::bounded::{
    log_len, log_new, log_offsets, log_remove, log_slice, page_offsets, pages_clear, pages_new,
    pages_push, pages_slice, LogVec, PageVec, LOG_VEC_MAX, PAGES_VEC_MAX,
};
use crate::draw::{
    lemma_texts, texts, Anchor, Area, Canvas, DrawOp, Face, HPos, Ink, Op, VPos,
};
use crate::epd2in9_txt::{log_file, saved_log, TxtReader, ONE_PAGE_CONTENT_LEN};
use crate::pages::read::overlay::{area, has_room, mid, overlay_ops, progress_ops};
use crate::pages::read::page::{
    page_at, page_run, MenuState, ReadPage, ReadState, ReadView, ReadingSettings, Retained,
    BOOKS_MAX, FONTS_MAX, GAP_MAX, PX_MAX, PX_MIN,
};
use crate::text::{
    dec, dec_text, join, law_numbers_read_back, num_of, utf8_text,
};

verus! {

/// The longest font file name, in bytes.
pub const FONT_NAME_MAX: usize = 32;

/// The lower case of an ASCII letter.
pub open spec fn lower(b: u8) -> u8 {
    if 65 <= b <= 90 {
        (b + 32) as u8
    } else {
        b
    }
}

/// Two rows of bytes are equal but for the case of ASCII letters.
pub open spec fn same_but_case(a: Seq<u8>, b: Seq<u8>) -> bool {
    a.len() == b.len() && forall|i: int| 0 <= i < a.len() ==> lower(#[trigger] a[i]) == lower(b[i])
}

/// The lower case of an ASCII letter.
pub fn ascii_lower(b: u8) -> (l: u8)
    ensures
        l == lower(b),
{
    if 65 <= b && b <= 90 {
        b + 32
    } else {
        b
    }
}

/// The bytes end in `.ttf`, in any case.
pub open spec fn ends_in_ttf(b: Seq<u8>) -> bool {
    b.len() >= 4 && same_but_case(b.skip(b.len() - 4), seq![46u8, 116, 116, 102])
}

/// Whether a file name ends in `.ttf`, in any case.
pub fn is_ttf(name: &str) -> (r: bool)
    ensures
        r == ends_in_ttf(name.spec_bytes()),
{
    let b = name.as_bytes();
    let n: usize = b.len();
    if n < 4 {
        return false;
    }
    let r: bool = ascii_lower(b[n - 4]) == 46 && ascii_lower(b[n - 3]) == 116 && ascii_lower(
        b[n - 2],
    ) == 116 && ascii_lower(b[n - 1]) == 102;
    proof {
        let t = b@.skip(n - 4);
        let w = seq![46u8, 116, 116, 102];
        assert(t[0] == b@[n - 4] && t[1] == b@[n - 3] && t[2] == b@[n - 2] && t[3] == b@[n - 1]);
        assert(w[0] == 46 && w[1] == 116 && w[2] == 116 && w[3] == 102);
        if r {
            assert(same_but_case(t, w));
        } else if same_but_case(t, w) {
            assert(lower(t[0]) == lower(w[0]));
            assert(lower(t[1]) == lower(w[1]));
            assert(lower(t[2]) == lower(w[2]));
            assert(lower(t[3]) == lower(w[3]));
        }
    }
    r
}

/// The font that a session starts with: the stored one where it is a font file whose name is
/// not too long.
pub open spec fn start_font(stored: Seq<char>) -> Seq<char> {
    if !ends_in_ttf(encode_utf8(stored)) {
        "font.ttf"@
    } else if encode_utf8(stored).len() <= FONT_NAME_MAX {
        stored
    } else {
        seq![]
    }
}

/// `n` brought within `lo` and `hi`.
pub open spec fn clamp(n: int, lo: int, hi: int) -> int {
    if n < lo {
        lo
    } else if n > hi {
        hi
    } else {
        n
    }
}

/// The page when a session starts: with the book that was open, where there was one.
pub open spec fn fresh(
    px: u8,
    gap: u8,
    rotate: u8,
    stored: Seq<char>,
    retained: Retained,
) -> ReadView {
    ReadView {
        state: ReadState {
            running: false,
            reading: retained.page_index is Some,
            need_render: false,
            choose_index: match retained.page_index {
                Some(i) => i,
                None => 0,
            },
            menu_state: MenuState::Closed,
            save_bookmark_flag: false,
            delete_bookmark_flag: false,
            need_save_position: false,
            need_load_preview: false,
            rotate: (rotate % 4) as u8,
            exit_selected: false,
            jump_accel: 0,
            ttf_offset: if retained.page_index is Some {
                retained.resume_offset
            } else {
                0
            },
            ttf_end: 0,
            ttf_file_len: 0,
            ttf_page_idx: 0,
            ttf_px: clamp(px as int, PX_MIN as int, PX_MAX as int) as u8,
            line_gap: clamp(gap as int, 0, GAP_MAX as int) as i32,
            ttf_resume: retained.page_index is Some,
            need_reload_font: false,
            retained,
        },
        menus: None,
        log_vec: None,
        bookmark_preview: seq![],
        book_progress: seq![],
        ttf_page_starts: seq![],
        font_name: start_font(stored),
        font_list: seq![],
    }
}

/// A font file found in the book directory: its long name, or else the parts of its short one.
pub struct FontEntry {
    pub long: Option<String>,
    /// The short name before the dot, empty where it is no text.
    pub base: String,
    /// The short name after the dot.
    pub extension: Vec<u8>,
}

impl FontEntry {
    /// The name by which the file is listed, where it is a font.
    pub open spec fn font(self) -> Option<Seq<char>> {
        match self.long {
            Some(n) => if ends_in_ttf(encode_utf8(n@)) {
                Some(n@)
            } else {
                None
            },
            None => if same_but_case(self.extension@, seq![84u8, 84, 70]) {
                Some(self.base@ + ".TTF"@)
            } else {
                None
            },
        }
    }

    /// The name by which the file is listed, where it is a font.
    pub fn font_name(&self) -> (n: Option<String>)
        ensures
            n is Some <==> self.font() is Some,
            n is Some ==> n->0@ == self.font()->0,
    {
        match &self.long {
            Some(n) => {
                if is_ttf(n.as_str()) {
                    Some(n.clone())
                } else {
                    None
                }
            },
            None => {
                let e = &self.extension;
                let font: bool = e.len() == 3 && ascii_lower(e[0]) == 116 && ascii_lower(e[1])
                    == 116 && ascii_lower(e[2]) == 102;
                proof {
                    let w = seq![84u8, 84, 70];
                    assert(w[0] == 84 && w[1] == 84 && w[2] == 70);
                    if font {
                        assert(same_but_case(e@, w));
                    } else if same_but_case(e@, w) {
                        assert(lower(e@[0]) == lower(w[0]));
                        assert(lower(e@[1]) == lower(w[1]));
                        assert(lower(e@[2]) == lower(w[2]));
                    }
                }
                if font {
                    Some(join(self.base.as_str(), ".TTF"))
                } else {
                    None
                }
            },
        }
    }
}

/// The fonts among the first `n` entries: those with names short enough, until the list is full.
pub open spec fn fonts_among(entries: Seq<FontEntry>, n: int) -> Seq<Seq<char>>
    decreases n,
{
    if n <= 0 {
        seq![]
    } else {
        let before = fonts_among(entries, n - 1);
        match entries[n - 1].font() {
            Some(name) => if encode_utf8(name).len() <= FONT_NAME_MAX && before.len() < FONTS_MAX {
                before.push(name)
            } else {
                before
            },
            None => before,
        }
    }
}

/// The fonts among the files of a directory.
pub fn find_fonts(entries: &Vec<FontEntry>) -> (fonts: Vec<String>)
    ensures
        texts(fonts@) == fonts_among(entries@, entries@.len() as int),
        fonts@.len() <= FONTS_MAX,
{
    let mut fonts: Vec<String> = Vec::new();
    let mut i: usize = 0;
    proof {
        lemma_texts(fonts@);
        assert(texts(fonts@) =~= fonts_among(entries@, 0));
    }
    while i < entries.len()
        invariant
            i <= entries@.len(),
            fonts@.len() <= FONTS_MAX,
            texts(fonts@) == fonts_among(entries@, i as int),
        decreases entries@.len() - i,
    {
        let ghost before = fonts@;
        proof {
            lemma_texts(fonts@);
        }
        if let Some(name) = entries[i].font_name() {
            if name.as_str().as_bytes().len() <= FONT_NAME_MAX && fonts.len() < FONTS_MAX {
                let ghost added = name@;
                fonts.push(name);
                proof {
                    lemma_texts(fonts@);
                    assert(texts(fonts@) =~= texts(before).push(added));
                }
            }
        }
        i += 1;
    }
    fonts
}

/// The percentage shown beside a book, nothing for an empty or missing one.
pub open spec fn progress_text(found: Option<(u32, u32)>) -> Seq<char> {
    match found {
        Some((offset, total)) => if total > 0 {
            dec((offset as int * 100 / total as int) as nat) + "%"@
        } else {
            seq![]
        },
        None => seq![],
    }
}

/// The percentage shown beside a book whose position and length were found.
pub fn progress_label(found: Option<(u32, u32)>) -> (s: String)
    ensures
        s@ == progress_text(found),
{
    match found {
        Some((offset, total)) => {
            if total > 0 {
                let pct: u64 = offset as u64 * 100 / total as u64;
                join(dec_text(pct).as_str(), "%")
            } else {
                String::new()
            }
        },
        None => String::new(),
    }
}

/// How long the page waits without a key before it sleeps, with a default for nought.
pub fn read_sleep_seconds(stored: u64) -> (s: u64)
    ensures
        s == (if stored > 0 {
            stored
        } else {
            120
        }),
{
    if stored > 0 {
        stored
    } else {
        120
    }
}

/// How a text area of height `area_h` is divided into lines of at least `base`: the height of a
/// line, and how many there are.
pub open spec fn line_split(area_h: int, base: int) -> (int, int) {
    let lines = if area_h / base >= 1 {
        area_h / base
    } else {
        1
    };
    (area_h / lines, lines)
}

/// The height of a text line and how many fit, for a font whose lines are `line_height` high.
pub fn line_metrics(area_h: i32, line_height: i32, gap: i32) -> (r: (i32, u32))
    requires
        area_h >= 0,
        0 <= gap <= GAP_MAX,
        line_height <= 0xffff,
        line_height >= -0xffff,
    ensures
        (r.0 as int, r.1 as int) == line_split(
            area_h as int,
            if line_height + gap > 1 {
                line_height + gap
            } else {
                1
            },
        ),
        r.1 >= 1,
{
    let base: i32 = if line_height + gap > 1 {
        line_height + gap
    } else {
        1
    };
    let fit: i32 = area_h / base;
    assert(0 <= area_h / base <= area_h) by (nonlinear_arith)
        requires
            area_h >= 0,
            base >= 1,
    ;
    let lines: i32 = if fit >= 1 {
        fit
    } else {
        1
    };
    (area_h / lines, lines as u32)
}

/// The lines of a page never reach below its text area.
pub proof fn law_lines_fit(area_h: int, base: int)
    requires
        area_h >= 0,
        base >= 1,
    ensures
        line_split(area_h, base).0 * line_split(area_h, base).1 <= area_h,
        area_h >= base ==> line_split(area_h, base).0 >= base,
{
    let lines = line_split(area_h, base).1;
    assert(area_h / lines * lines <= area_h) by (nonlinear_arith)
        requires
            area_h >= 0,
            lines >= 1,
    ;
    if area_h >= base {
        assert(area_h / base >= 1) by (nonlinear_arith)
            requires
                area_h >= base >= 1,
        ;
        assert(area_h / (area_h / base) >= base) by (nonlinear_arith)
            requires
                area_h >= base >= 1,
                area_h / base >= 1,
        ;
    }
}

/// The page `i` ends where the next one begins, within the book.
pub open spec fn page_ends<F: Fn(u32) -> u32>(page_len: F, len: u32, starts: Seq<u32>, i: int) -> bool {
    &&& starts[i] < starts[i + 1]
    &&& starts[i + 1] < len
    &&& call_ensures(page_len, (starts[i],), (starts[i + 1] - starts[i]) as u32)
}

/// The page at `off` is empty or reaches the end of the book.
pub open spec fn book_ends<F: Fn(u32) -> u32>(page_len: F, len: u32, off: u32) -> bool {
    exists|c: u32| #[trigger] call_ensures(page_len, (off,), c) && (c == 0 || off + c >= len)
}

/// The pages of a book of `len` bytes begin at `starts`, where `page_len` tells how many bytes
/// the page at an offset takes: each page begins where the one before ends, and the last one is
/// empty, reaches the end of the book or fills the index.
pub open spec fn indexed<F: Fn(u32) -> u32>(page_len: F, len: u32, starts: Seq<u32>) -> bool {
    &&& 1 <= starts.len() <= PAGES_VEC_MAX
    &&& starts[0] == 0
    &&& forall|i: int| 0 <= i < starts.len() - 1 ==> #[trigger] page_ends(page_len, len, starts, i)
    &&& book_ends(page_len, len, starts.last()) || starts.len() == PAGES_VEC_MAX
}

/// The index of a book of `len` bytes, where `page_len` tells how many bytes the page at an offset
/// takes.
fn page_index<F: Fn(u32) -> u32>(page_len: F, len: u32) -> (starts: PageVec)
    requires
        forall|o: u32| call_requires(page_len, (o,)),
    ensures
        indexed(page_len, len, page_offsets(starts)),
{
    let mut starts = pages_new();
    let _ = pages_push(&mut starts, 0);
    let mut off: u32 = 0;
    loop
        invariant
            forall|o: u32| call_requires(page_len, (o,)),
            1 <= page_offsets(starts).len() <= PAGES_VEC_MAX,
            page_offsets(starts)[0] == 0,
            off == page_offsets(starts).last(),
            forall|i: int|
                0 <= i < page_offsets(starts).len() - 1 ==> #[trigger] page_ends(
                    page_len,
                    len,
                    page_offsets(starts),
                    i,
                ),
        decreases 0xffff_ffff - off,
    {
        let c: u32 = page_len(off);
        let ghost before = page_offsets(starts);
        if c == 0 || off as u64 + c as u64 >= len as u64 {
            return starts;
        }
        let next: u32 = off + c;
        let r = pages_push(&mut starts, next);
        if r.is_err() {
            return starts;
        }
        off = next;
        proof {
            let now = page_offsets(starts);
            assert(now == before.push(next));
            assert forall|i: int| 0 <= i < now.len() - 1 implies #[trigger] page_ends(
                page_len,
                len,
                now,
                i,
            ) by {
                if i < before.len() - 1 {
                    assert(page_ends(page_len, len, before, i));
                }
            }
        }
    }
}

/// The page that `at` lies on.
fn find_page(starts: &PageVec, at: u32) -> (idx: u32)
    ensures
        idx == page_at(page_offsets(*starts), at as int),
        page_offsets(*starts).len() > 0 ==> idx < page_offsets(*starts).len(),
{
    let found = pages_slice(starts);
    let mut i: usize = 0;
    while i < found.len() && found[i] <= at
        invariant
            i <= found@.len() <= PAGES_VEC_MAX,
            page_run(found@, at as int, 0) == page_run(found@, at as int, i as int),
        decreases found@.len() - i,
    {
        i += 1;
    }
    if i > 0 {
        (i - 1) as u32
    } else {
        0
    }
}

/// The pages of an index follow one another.
pub proof fn law_pages_ascend<F: Fn(u32) -> u32>(
    page_len: F,
    len: u32,
    starts: Seq<u32>,
    i: int,
    j: int,
)
    requires
        indexed(page_len, len, starts),
        0 <= i < j < starts.len(),
    ensures
        starts[i] < starts[j],
    decreases j - i,
{
    if i + 1 < j {
        law_pages_ascend(page_len, len, starts, i + 1, j);
    }
    assert(page_ends(page_len, len, starts, i));
}

/// The name of the chosen book.
pub open spec fn chosen_book(v: ReadView) -> Option<Seq<char>> {
    match v.menus {
        Some(b) => if v.state.choose_index < b.len() {
            Some(b[v.state.choose_index as int])
        } else {
            None
        },
        None => None,
    }
}

/// The page once the chosen book was found to be `len` bytes long. A position kept over a restart
/// stays, within the book.
pub open spec fn book_opened(v: ReadView, len: u32) -> ReadView {
    let at = if !v.state.ttf_resume {
        0
    } else if v.state.ttf_offset <= len {
        v.state.ttf_offset
    } else {
        len
    };
    ReadView {
        state: ReadState {
            ttf_file_len: len,
            ttf_offset: at,
            ttf_end: at,
            ttf_page_idx: 0,
            ..v.state
        },
        ttf_page_starts: seq![],
        ..v
    }
}

/// The page once the log of the open book was read, empty where there is none. Without a position
/// kept over a restart the reader goes to where the log says, within the book.
pub open spec fn log_read(v: ReadView, log: Seq<u32>) -> ReadView {
    let s = v.state;
    let state = if s.ttf_resume {
        ReadState { ttf_resume: false, ..s }
    } else if log.len() > 0 {
        let at = if log[0] <= s.ttf_file_len {
            log[0]
        } else {
            s.ttf_file_len
        };
        ReadState { ttf_offset: at, ttf_end: at, ..s }
    } else {
        s
    };
    ReadView { state, log_vec: Some(log), ..v }
}

/// The log that an update starts from.
pub open spec fn log_or_empty(v: ReadView) -> Seq<u32> {
    match v.log_vec {
        Some(l) => l,
        None => seq![],
    }
}

/// The page after the current position was saved in the log.
pub open spec fn position_logged(v: ReadView, is_favorite: bool) -> ReadView {
    ReadView {
        log_vec: Some(saved_log(log_or_empty(v), v.state.ttf_offset, is_favorite)),
        ..v
    }
}

/// The page after a bookmark was due; it is saved where the log file could be opened.
pub open spec fn bookmark_saved(v: ReadView, opened: bool) -> ReadView {
    let w = if opened {
        position_logged(v, true)
    } else {
        v
    };
    ReadView {
        state: ReadState { save_bookmark_flag: false, need_render: true, ..w.state },
        ..w
    }
}

/// The page after the position was due; it is saved where a book is open and the log file could
/// be opened.
pub open spec fn position_saved(v: ReadView, opened: bool) -> ReadView {
    let w = if opened && v.state.ttf_file_len > 0 {
        position_logged(v, false)
    } else {
        v
    };
    ReadView { state: ReadState { need_save_position: false, ..w.state }, ..w }
}

/// The line of the list of bookmarks, or the first.
pub open spec fn bookmark_line(s: ReadState) -> u32 {
    match s.menu_state {
        MenuState::BookmarkList { bm_index, .. } => bm_index,
        _ => 0,
    }
}

/// There is a bookmark to delete at the selected line.
pub open spec fn deletable(v: ReadView) -> bool {
    v.log_vec matches Some(l) && bookmark_line(v.state) + 1 < l.len()
}

/// The state after a bookmark was to be deleted, with so many entries left in the log where one was;
/// a selection at the end moves up.
pub open spec fn state_deleted(s: ReadState, left: Option<int>) -> ReadState {
    ReadState {
        delete_bookmark_flag: false,
        need_render: true,
        menu_state: match (s.menu_state, left) {
            (MenuState::BookmarkList { bm_index, deleting }, Some(n)) if bm_index >= n - 1 && bm_index
                > 0 => MenuState::BookmarkList { bm_index: (bm_index - 1) as u32, deleting },
            (m, _) => m,
        },
        ..s
    }
}

/// The page after a bookmark was to be deleted.
pub open spec fn bookmark_deleted(v: ReadView) -> ReadView {
    if deletable(v) {
        let log = v.log_vec->0.remove(bookmark_line(v.state) + 1);
        ReadView {
            state: state_deleted(v.state, Some(log.len() as int)),
            log_vec: Some(log),
            bookmark_preview: seq![],
            ..v
        }
    } else {
        ReadView { state: state_deleted(v.state, None), bookmark_preview: seq![], ..v }
    }
}

/// Where the selected bookmark lies.
pub open spec fn selected_bookmark(v: ReadView) -> Option<u32> {
    match v.state.menu_state {
        MenuState::BookmarkList { bm_index, .. } => match v.log_vec {
            Some(l) => if bm_index + 1 < l.len() {
                Some(l[bm_index + 1])
            } else {
                None
            },
            None => None,
        },
        _ => None,
    }
}

/// What a preview shows of the bytes at a bookmark: all of it where that is text of at most a
/// page, and nothing otherwise.
pub open spec fn preview_text(bytes: Seq<u8>) -> Seq<char> {
    if valid_utf8(bytes) && bytes.len() <= ONE_PAGE_CONTENT_LEN {
        decode_utf8(bytes)
    } else {
        seq![]
    }
}

/// How the text of a page came out.
pub enum TextPage {
    /// There was no room for the glyphs.
    NoMemory,
    /// The book or the font could not be read.
    Failed,
    /// The text was drawn and took this many bytes.
    Drawn(Canvas, u32),
}

/// The list of books is shown with the way out above it, in at most this many lines.
pub const LIST_MAX: usize = 20;

/// The first `n` lines of the list of books.
pub open spec fn list_lines(books: Seq<Seq<char>>, n: int) -> Seq<Seq<char>> {
    Seq::new(
        n as nat,
        |i: int|
            if i == 0 {
                "退出"@
            } else {
                books[i - 1]
            },
    )
}

/// How many lines the list of books has.
pub open spec fn list_len(books: Seq<Seq<char>>) -> int {
    if books.len() + 1 < LIST_MAX {
        books.len() as int + 1
    } else {
        LIST_MAX as int
    }
}

/// The chosen line of the list of books.
pub open spec fn list_choice(v: ReadView, len: int) -> int {
    let i = if v.state.exit_selected {
        0
    } else {
        v.state.choose_index + 1
    };
    if i < len - 1 {
        i
    } else {
        len - 1
    }
}

/// How far a list of `n` lines is scrolled on a panel of height `vh` to show the line `sel`.
pub open spec fn list_scroll(n: int, vh: int, sel: int) -> int {
    let content = n * 20;
    let half = vh / 2;
    let most = content - vh;
    let y = sel * 20;
    if content <= vh || y <= half {
        0
    } else if y >= most + half {
        most
    } else {
        y - half
    }
}

/// `c` with the percentages of the first `n` books.
pub open spec fn percent_ops(
    c: Seq<Op>,
    progress: Seq<Seq<char>>,
    scroll: int,
    vw: int,
    vh: int,
    n: int,
) -> Seq<Op>
    decreases n,
{
    if n <= 0 {
        c
    } else {
        let before = percent_ops(c, progress, scroll, vw, vh, n - 1);
        let y = n * 20 - scroll;
        if progress[n - 1].len() == 0 || y < 0 || y + 20 > vh {
            before
        } else {
            before.push(
                Op::Text(
                    progress[n - 1],
                    Anchor {
                        x: (vw - 15) as i32,
                        y: (y + 5) as i32,
                        v: VPos::Top,
                        h: HPos::Right,
                        ink: Ink::Black,
                        face: Face::Wqy16,
                    },
                ),
            )
        }
    }
}

/// `c` with the list of books.
pub open spec fn list_ops(c: Seq<Op>, v: ReadView, vw: int, vh: int) -> Seq<Op> {
    match v.menus {
        None => c,
        Some(books) => {
            let len = list_len(books);
            let sel = list_choice(v, len);
            let listed = c.push(Op::Menu(list_lines(books, len), sel, area(0, 0, vw, vh)));
            if v.book_progress.len() == books.len() {
                let n = v.book_progress.len() as int;
                percent_ops(listed, v.book_progress, list_scroll(n + 1, vh, sel), vw, vh, n)
            } else {
                listed
            }
        },
    }
}

/// The reader is on the last page of the index.
pub open spec fn on_last_page(v: ReadView) -> bool {
    v.ttf_page_starts.len() > 0 && v.state.ttf_page_idx + 1 >= v.ttf_page_starts.len()
}

/// `c` with the text of the page, or with what stands in its place.
pub open spec fn text_ops(c: Seq<Op>, v: ReadView, text: TextPage, vw: int, vh: int) -> Seq<Op> {
    let center = mid(vw / 2, vh / 2);
    if on_last_page(v) {
        c.push(Op::Text("已是最后一页"@, center))
    } else {
        match text {
            TextPage::NoMemory => c.push(Op::Text("TTF 内存不足"@, center)),
            TextPage::Failed => c.push(Op::Text("TTF 渲染失败"@, center)),
            TextPage::Drawn(glyphs, _) => c + glyphs@,
        }
    }
}

/// Everything that the page draws.
pub open spec fn page_ops(v: ReadView, text: TextPage, vw: int, vh: int) -> Seq<Op> {
    let c = seq![Op::Clear(Ink::White)];
    if v.state.reading {
        overlay_ops(progress_ops(text_ops(c, v, text, vw, vh), v, vw, vh), v, vw, vh)
    } else {
        list_ops(c, v, vw, vh)
    }
}

/// The page once it was drawn: the end of the shown text is known.
pub open spec fn drawn(v: ReadView, text: TextPage) -> ReadView {
    let s = ReadState { need_render: false, ..v.state };
    ReadView {
        state: if v.state.reading && !on_last_page(v) {
            match text {
                TextPage::Drawn(_, consumed) => ReadState {
                    ttf_end: (s.ttf_offset + consumed) as u32,
                    ..s
                },
                _ => s,
            }
        } else {
            s
        },
        ..v
    }
}

impl ReadState {
    /// The state after a bookmark was to be deleted.
    fn delete_done(self, left: Option<usize>) -> (s: ReadState)
        requires
            left matches Some(n) ==> n > 0,
        ensures
            s == state_deleted(
                self,
                match left {
                    Some(n) => Some(n as int),
                    None => None,
                },
            ),
            self.valid() ==> s.valid(),
    {
        let mut menu_state = self.menu_state;
        if let Some(n) = left {
            if let MenuState::BookmarkList { bm_index, deleting } = self.menu_state {
                if bm_index as usize >= n - 1 && bm_index > 0 {
                    menu_state = MenuState::BookmarkList { bm_index: bm_index - 1, deleting };
                }
            }
        }
        ReadState { delete_bookmark_flag: false, need_render: true, menu_state, ..self }
    }
}

impl ReadPage {
    /// A new session with stored settings, and with what survived the restart.
    pub fn new(px: u8, gap: u8, rotate: u8, stored_font: &str, retained: Retained) -> (page:
        ReadPage)
        requires
            retained.page_index matches Some(i) ==> i < u32::MAX,
        ensures
            page@ == fresh(px, gap, rotate, stored_font@, retained),
            page@.valid(),
    {
        let ttf_px: u8 = if px < PX_MIN {
            PX_MIN
        } else if px > PX_MAX {
            PX_MAX
        } else {
            px
        };
        let line_gap: i32 = if gap as i32 > GAP_MAX {
            GAP_MAX
        } else {
            gap as i32
        };
        let font_name: String = if is_ttf(stored_font) {
            if stored_font.as_bytes().len() <= FONT_NAME_MAX {
                stored_font.to_owned()
            } else {
                String::new()
            }
        } else {
            "font.ttf".to_owned()
        };
        let (choose_index, reading, offset): (u32, bool, u32) = match retained.page_index {
            Some(i) => (i, true, retained.resume_offset),
            None => (0, false, 0),
        };
        let page = ReadPage {
            state: ReadState {
                running: false,
                reading,
                need_render: false,
                choose_index,
                menu_state: MenuState::Closed,
                save_bookmark_flag: false,
                delete_bookmark_flag: false,
                need_save_position: false,
                need_load_preview: false,
                rotate: rotate % 4,
                exit_selected: false,
                jump_accel: 0,
                ttf_offset: offset,
                ttf_end: 0,
                ttf_file_len: 0,
                ttf_page_idx: 0,
                ttf_px,
                line_gap,
                ttf_resume: reading,
                need_reload_font: false,
                retained,
            },
            menus: None,
            log_vec: None,
            bookmark_preview: String::new(),
            book_progress: Vec::new(),
            ttf_page_starts: pages_new(),
            font_name,
            font_list: Vec::new(),
        };
        proof {
            lemma_texts(page.book_progress@);
            lemma_texts(page.font_list@);
            assert(page@.book_progress =~= seq![]);
            assert(page@.font_list =~= seq![]);
        }
        page
    }

    /// The layout settings to keep in flash.
    pub fn save_reading_settings(&self) -> (r: ReadingSettings)
        requires
            self@.valid(),
        ensures
            r.ttf_px == self@.state.ttf_px,
            r.line_gap == self@.state.line_gap,
            r.rotate == self@.state.rotate,
            r.font_name@ == Seq::new(
                FONT_NAME_MAX as nat,
                |i: int|
                    if i < encode_utf8(self@.font_name).len() {
                        encode_utf8(self@.font_name)[i]
                    } else {
                        0
                    },
            ),
    {
        let bytes = self.font_name.as_str().as_bytes();
        let mut font_name: Vec<u8> = Vec::new();
        let mut i: usize = 0;
        while i < FONT_NAME_MAX
            invariant
                i <= FONT_NAME_MAX,
                font_name@.len() == i,
                bytes@ == encode_utf8(self.font_name@),
                forall|k: int|
                    0 <= k < i ==> font_name@[k] == (if k < bytes@.len() {
                        bytes@[k]
                    } else {
                        0
                    }),
            decreases FONT_NAME_MAX - i,
        {
            font_name.push(
                if i < bytes.len() {
                    bytes[i]
                } else {
                    0
                },
            );
            i += 1;
        }
        proof {
            let want = Seq::new(
                FONT_NAME_MAX as nat,
                |i: int|
                    if i < encode_utf8(self@.font_name).len() {
                        encode_utf8(self@.font_name)[i]
                    } else {
                        0
                    },
            );
            assert(font_name@ =~= want);
        }
        ReadingSettings {
            ttf_px: self.state.ttf_px,
            line_gap: self.state.line_gap as u8,
            rotate: self.state.rotate,
            font_name,
        }
    }

    /// The file of the chosen book.
    pub fn book_file(&self) -> (f: Option<String>)
        ensures
            f is Some <==> chosen_book(self@) is Some,
            f is Some ==> f->0@ == chosen_book(self@)->0 + ".txt"@,
    {
        match &self.menus {
            Some(m) => {
                proof {
                    lemma_texts(m@);
                }
                if (self.state.choose_index as usize) < m.len() {
                    Some(join(m[self.state.choose_index as usize].as_str(), ".txt"))
                } else {
                    None
                }
            },
            None => None,
        }
    }

    /// Starts the session with the books and fonts that were found. A font that is not there
    /// gives way to the first that is.
    pub fn start(&mut self, books: Vec<String>, fonts: Vec<String>)
        requires
            old(self)@.valid(),
            books@.len() <= BOOKS_MAX,
            fonts@.len() <= FONTS_MAX,
        ensures
            final(self)@ == (ReadView {
                state: ReadState { running: true, need_render: true, ..old(self)@.state },
                menus: Some(texts(books@)),
                font_list: texts(fonts@),
                font_name: if fonts@.len() > 0 && !texts(fonts@).contains(old(self)@.font_name) {
                    texts(fonts@)[0]
                } else {
                    old(self)@.font_name
                },
                ..old(self)@
            }),
            final(self)@.valid(),
    {
        proof {
            lemma_texts(books@);
            lemma_texts(fonts@);
        }
        self.state.running = true;
        self.state.need_render = true;
        let mut known: bool = false;
        let mut i: usize = 0;
        while i < fonts.len()
            invariant
                i <= fonts@.len(),
                known == exists|k: int| 0 <= k < i && fonts@[k]@ == self.font_name@,
            decreases fonts@.len() - i,
        {
            if fonts[i] == self.font_name {
                known = true;
            }
            i += 1;
        }
        proof {
            if known {
                let k = choose|k: int| 0 <= k < fonts@.len() && fonts@[k]@ == self.font_name@;
                assert(texts(fonts@)[k] == self.font_name@);
                assert(texts(fonts@).contains(self.font_name@));
            } else if texts(fonts@).contains(self.font_name@) {
                let k = choose|k: int|
                    0 <= k < texts(fonts@).len() && texts(fonts@)[k] == self.font_name@;
                assert(fonts@[k]@ == self.font_name@);
            }
        }
        if fonts.len() > 0 && !known {
            self.font_name = fonts[0].clone();
        }
        self.menus = Some(books);
        self.font_list = fonts;
    }

    /// Notes how far each book has been read.
    pub fn load_book_progress(&mut self, found: &Vec<Option<(u32, u32)>>)
        requires
            old(self)@.valid(),
            found@.len() == old(self)@.book_count(),
        ensures
            final(self)@ == (ReadView {
                book_progress: Seq::new(found@.len(), |i: int| progress_text(found@[i])),
                ..old(self)@
            }),
            final(self)@.valid(),
    {
        let mut labels: Vec<String> = Vec::new();
        let mut i: usize = 0;
        while i < found.len()
            invariant
                i <= found@.len(),
                labels@.len() == i,
                forall|k: int| 0 <= k < i ==> labels@[k]@ == progress_text(found@[k]),
            decreases found@.len() - i,
        {
            labels.push(progress_label(found[i]));
            i += 1;
        }
        proof {
            lemma_texts(labels@);
            assert(texts(labels@) =~= Seq::new(found@.len(), |i: int| progress_text(found@[i])));
        }
        self.book_progress = labels;
    }

    /// Whether the chosen book is still to be opened.
    pub fn wants_book(&self) -> (b: bool)
        ensures
            b == (self@.book_count() > 0 && self@.state.ttf_file_len == 0),
    {
        let n: usize = match &self.menus {
            Some(m) => {
                proof {
                    lemma_texts(m@);
                }
                m.len()
            },
            None => 0,
        };
        n > 0 && self.state.ttf_file_len == 0
    }

    /// Takes in the length of the chosen book, where it could be opened.
    pub fn get_page_vec(&mut self, file_len: Option<u32>)
        requires
            old(self)@.valid(),
        ensures
            final(self)@ == (match file_len {
                Some(len) => if chosen_book(old(self)@) is Some {
                    book_opened(old(self)@, len)
                } else {
                    old(self)@
                },
                None => old(self)@,
            }),
            final(self)@.valid(),
    {
        if self.book_file().is_none() {
            return;
        }
        if let Some(len) = file_len {
            let at: u32 = if !self.state.ttf_resume {
                0
            } else if self.state.ttf_offset <= len {
                self.state.ttf_offset
            } else {
                len
            };
            self.state.ttf_file_len = len;
            self.state.ttf_offset = at;
            self.state.ttf_end = at;
            self.state.ttf_page_idx = 0;
            pages_clear(&mut self.ttf_page_starts);
        }
    }

    /// Takes in the log of the open book: the contents of its file, where there is one.
    pub fn get_log_vec(&mut self, log: Option<LogVec>)
        requires
            old(self)@.valid(),
        ensures
            final(self)@ == log_read(
                old(self)@,
                match log {
                    Some(l) => log_offsets(l),
                    None => seq![],
                },
            ),
            final(self)@.valid(),
    {
        let log = match log {
            Some(l) => l,
            None => log_new(),
        };
        let offsets = log_slice(&log);
        if self.state.ttf_resume {
            self.state.ttf_resume = false;
        } else if offsets.len() > 0 {
            let first: u32 = offsets[0];
            let at: u32 = if first <= self.state.ttf_file_len {
                first
            } else {
                self.state.ttf_file_len
            };
            self.state.ttf_offset = at;
            self.state.ttf_end = at;
        }
        self.log_vec = Some(log);
    }

    /// Whether the index of the open book is to be built: where there is none, the book is not empty
    /// and its font is open.
    pub fn wants_index(&self, font_open: bool) -> (b: bool)
        ensures
            b == (self@.ttf_page_starts.len() == 0 && self@.state.ttf_file_len > 0 && font_open),
    {
        pages_slice(&self.ttf_page_starts).len() == 0 && self.state.ttf_file_len > 0 && font_open
    }

    /// Builds the index of the open book, where `page_len` tells how many bytes the page at an
    /// offset takes, and finds the page of the current position.
    pub fn build_page_index<F: Fn(u32) -> u32>(&mut self, page_len: F)
        requires
            forall|o: u32| call_requires(page_len, (o,)),
        ensures
            indexed(page_len, old(self)@.state.ttf_file_len, final(self)@.ttf_page_starts),
            final(self)@ == (ReadView {
                ttf_page_starts: final(self)@.ttf_page_starts,
                state: ReadState {
                    ttf_page_idx: page_at(
                        final(self)@.ttf_page_starts,
                        old(self)@.state.ttf_offset as int,
                    ) as u32,
                    ..old(self)@.state
                },
                ..old(self)@
            }),
            old(self)@.valid() ==> final(self)@.valid(),
    {
        let starts = page_index(page_len, self.state.ttf_file_len);
        self.state.ttf_page_idx = find_page(&starts, self.state.ttf_offset);
        self.ttf_page_starts = starts;
    }

    /// Saves the current position in the log, and gives the bytes that the log is written as.
    fn log_position(&mut self, is_favorite: bool) -> (out: Vec<u8>)
        requires
            old(self)@.valid(),
        ensures
            final(self)@ == position_logged(old(self)@, is_favorite),
            final(self)@.valid(),
            final(self)@.log_vec == Some(
                saved_log(log_or_empty(old(self)@), old(self)@.state.ttf_offset, is_favorite),
            ),
            out@ == log_file(
                saved_log(log_or_empty(old(self)@), old(self)@.state.ttf_offset, is_favorite),
            ),
    {
        let taken = self.log_vec.take();
        let mut lv = match taken {
            Some(l) => l,
            None => log_new(),
        };
        assert(log_offsets(lv) =~= log_or_empty(old(self)@));
        let out = TxtReader::save_log(&mut lv, self.state.ttf_offset, is_favorite);
        let n: usize = log_len(&lv);
        self.log_vec = Some(lv);
        out
    }

    /// Saves a bookmark where one is due. `opened` says whether the log file could be opened;
    /// the result is what to write to it.
    pub fn save_bookmark(&mut self, opened: bool) -> (out: Option<Vec<u8>>)
        requires
            old(self)@.valid(),
        ensures
            final(self)@ == (if old(self)@.state.save_bookmark_flag {
                bookmark_saved(old(self)@, opened)
            } else {
                old(self)@
            }),
            out is Some <==> old(self)@.state.save_bookmark_flag && opened,
            out is Some ==> out->0@ == log_file(log_or_empty(final(self)@)),
            final(self)@.valid(),
    {
        if !self.state.save_bookmark_flag {
            return None;
        }
        let out = if opened {
            Some(self.log_position(true))
        } else {
            None
        };
        self.state.save_bookmark_flag = false;
        self.state.need_render = true;
        out
    }

    /// Saves the reading position where that is due. `opened` says whether the log file could be
    /// opened; the result is what to write to it.
    pub fn save_position(&mut self, opened: bool) -> (out: Option<Vec<u8>>)
        requires
            old(self)@.valid(),
        ensures
            final(self)@ == (if old(self)@.state.need_save_position {
                position_saved(old(self)@, opened)
            } else {
                old(self)@
            }),
            out is Some <==> old(self)@.state.need_save_position && old(self)@.state.ttf_file_len
                > 0 && opened,
            out is Some ==> out->0@ == log_file(log_or_empty(final(self)@)),
            final(self)@.valid(),
    {
        if !self.state.need_save_position {
            return None;
        }
        let out = if opened && self.state.ttf_file_len > 0 {
            Some(self.log_position(false))
        } else {
            None
        };
        self.state.need_save_position = false;
        out
    }

    /// Ends the session: the position is kept for the next one, and saved where a book is open
    /// and its log file could be opened.
    pub fn finish(&mut self, opened: bool) -> (out: Option<Vec<u8>>)
        requires
            old(self)@.valid(),
        ensures
            out is Some <==> old(self)@.state.reading && old(self)@.state.ttf_file_len > 0
                && chosen_book(old(self)@) is Some && opened,
            out is Some ==> out->0@ == log_file(log_or_empty(final(self)@)),
            ({
                let v = if out is Some {
                    position_logged(old(self)@, false)
                } else {
                    old(self)@
                };
                let at = if v.state.ttf_offset <= v.state.ttf_file_len {
                    v.state.ttf_offset
                } else {
                    v.state.ttf_file_len
                };
                final(self)@ == ReadView {
                    state: ReadState {
                        retained: Retained { resume_offset: at, ..v.state.retained },
                        ..v.state
                    },
                    ..v
                }
            }),
            final(self)@.valid(),
    {
        let mut out: Option<Vec<u8>> = None;
        if self.state.reading && self.state.ttf_file_len > 0 && self.book_file().is_some()
            && opened {
            out = Some(self.log_position(false));
        }
        self.state.retained.resume_offset = if self.state.ttf_offset <= self.state.ttf_file_len {
            self.state.ttf_offset
        } else {
            self.state.ttf_file_len
        };
        out
    }

    /// Takes in whether the newly chosen font could be opened, where one was chosen. The result
    /// says whether drawn glyphs and font tables are no longer valid.
    pub fn reload_font(&mut self, opened: bool) -> (clear: bool)
        requires
            old(self)@.valid(),
        ensures
            clear == (old(self)@.state.need_reload_font && opened),
            final(self)@ == (if old(self)@.state.need_reload_font {
                let s = old(self)@.state;
                ReadView {
                    state: ReadState {
                        need_reload_font: false,
                        need_render: true,
                        ttf_end: if !opened {
                            s.ttf_end
                        } else if s.ttf_offset <= s.ttf_file_len {
                            s.ttf_offset
                        } else {
                            s.ttf_file_len
                        },
                        ..s
                    },
                    ..old(self)@
                }
            } else {
                old(self)@
            }),
            final(self)@.valid(),
    {
        if !self.state.need_reload_font {
            return false;
        }
        self.state.need_reload_font = false;
        if opened {
            self.state.ttf_end = if self.state.ttf_offset <= self.state.ttf_file_len {
                self.state.ttf_offset
            } else {
                self.state.ttf_file_len
            };
        }
        self.state.need_render = true;
        opened
    }

    /// Takes the bookmark at `line` out of the log, where there is one; gives the bytes that the
    /// log is then written as.
    fn remove_bookmark(&mut self, line: u32) -> (out: Option<(Vec<u8>, usize)>)
        requires
            line <= LOG_VEC_MAX,
        ensures
            out is Some <==> (old(self)@.log_vec matches Some(l) && line + 1 < l.len()),
            match out {
                Some((bytes, left)) => {
                    &&& final(self)@ == (ReadView {
                        log_vec: Some(old(self)@.log_vec->0.remove(line + 1)),
                        ..old(self)@
                    })
                    &&& bytes@ == log_file(final(self)@.log_vec->0)
                    &&& left == final(self)@.log_vec->0.len()
                },
                None => final(self)@ == old(self)@,
            },
    {
        match self.log_vec.take() {
            Some(l) => {
                let mut lv = l;
                let n: usize = log_len(&lv);
                let mut out: Option<(Vec<u8>, usize)> = None;
                if (line as usize) + 1 < n {
                    let _ = log_remove(&mut lv, line as usize + 1);
                    out = Some((TxtReader::save_log_raw(&lv), n - 1));
                }
                self.log_vec = Some(lv);
                out
            },
            None => None,
        }
    }

    /// Deletes the selected bookmark where that is due; the result is what to write to the log
    /// file.
    pub fn delete_bookmark(&mut self) -> (out: Option<Vec<u8>>)
        requires
            old(self)@.valid(),
        ensures
            final(self)@ == (if old(self)@.state.delete_bookmark_flag {
                bookmark_deleted(old(self)@)
            } else {
                old(self)@
            }),
            out is Some <==> old(self)@.state.delete_bookmark_flag && deletable(old(self)@),
            out is Some ==> out->0@ == log_file(log_or_empty(final(self)@)),
            final(self)@.valid(),
    {
        if !self.state.delete_bookmark_flag {
            return None;
        }
        let line: u32 = match self.state.menu_state {
            MenuState::BookmarkList { bm_index, .. } => bm_index,
            _ => 0,
        };
        let removed = self.remove_bookmark(line);
        self.bookmark_preview = String::new();
        assert(self@.bookmark_preview =~= seq![]);
        match removed {
            Some((bytes, left)) => {
                self.state = self.state.delete_done(Some(left));
                Some(bytes)
            },
            None => {
                self.state = self.state.delete_done(None);
                None
            },
        }
    }

    /// Where the selected bookmark lies, so that the text there can be read.
    pub fn preview_offset(&self) -> (off: Option<u32>)
        requires
            self@.valid(),
        ensures
            off == selected_bookmark(self@),
    {
        match self.state.menu_state {
            MenuState::BookmarkList { bm_index, .. } => match &self.log_vec {
                Some(lv) => {
                    let log = log_slice(lv);
                    if bm_index as usize + 1 < log.len() {
                        Some(log[bm_index as usize + 1])
                    } else {
                        None
                    }
                },
                None => None,
            },
            _ => None,
        }
    }

    /// Takes in the bytes at the selected bookmark, where they could be read.
    pub fn load_preview(&mut self, bytes: Option<Vec<u8>>)
        requires
            old(self)@.valid(),
        ensures
            final(self)@ == (if old(self)@.state.need_load_preview {
                ReadView {
                    state: ReadState {
                        need_load_preview: false,
                        need_render: true,
                        ..old(self)@.state
                    },
                    bookmark_preview: match bytes {
                        Some(b) => preview_text(b@),
                        None => seq![],
                    },
                    ..old(self)@
                }
            } else {
                old(self)@
            }),
            final(self)@.valid(),
    {
        if !self.state.need_load_preview {
            return;
        }
        self.state.need_load_preview = false;
        self.state.need_render = true;
        let mut preview = String::new();
        if let Some(b) = bytes {
            if b.len() <= ONE_PAGE_CONTENT_LEN {
                if let Some(t) = utf8_text(b.as_slice()) {
                    preview = t.to_owned();
                }
            }
        }
        self.bookmark_preview = preview;
    }

    /// Whether the glyphs of the next page are drawn ahead, after a pass that drew the page or
    /// not.
    pub fn wants_preload(&self, did_render: bool) -> (b: bool)
        ensures
            b == (did_render && self@.state.menu_state is Closed && self@.state.reading
                && chosen_book(self@) is Some && self@.state.ttf_file_len > 0
                && self@.state.ttf_end < self@.state.ttf_file_len),
    {
        let closed: bool = match self.state.menu_state {
            MenuState::Closed => true,
            _ => false,
        };
        did_render && closed && self.state.reading && self.book_file().is_some()
            && self.state.ttf_file_len > 0 && self.state.ttf_end < self.state.ttf_file_len
    }

    /// Whether the page goes to sleep when no key is pressed: not while a menu is open.
    pub fn may_sleep(&self) -> (b: bool)
        ensures
            b == (self@.state.menu_state is Closed),
    {
        match self.state.menu_state {
            MenuState::Closed => true,
            _ => false,
        }
    }

    /// Whether the page draws the text at the current position: the caller lays it out first.
    pub fn wants_text(&self) -> (b: bool)
        requires
            self@.valid(),
        ensures
            b == (self@.state.need_render && self@.state.reading && !on_last_page(self@)),
    {
        self.state.need_render && self.state.reading && !self.at_last_page()
    }

    /// Whether the reader is on the last page of the index.
    fn at_last_page(&self) -> (b: bool)
        requires
            self@.valid(),
        ensures
            b == on_last_page(self@),
    {
        let total: usize = pages_slice(&self.ttf_page_starts).len();
        total > 0 && self.state.ttf_page_idx as usize + 1 >= total
    }

    /// Draws the list of books.
    fn draw_list(&self, c: &mut Canvas, vw: u32, vh: u32)
        requires
            self@.valid(),
            15 <= vw <= 10000,
            vh <= 10000,
        ensures
            final(c)@ == list_ops(old(c)@, self@, vw as int, vh as int),
    {
        if let Some(books) = &self.menus {
            proof {
                lemma_texts(books@);
                lemma_texts(self.book_progress@);
            }
            let mut lines: Vec<String> = Vec::new();
            lines.push("退出".to_owned());
            let mut i: usize = 0;
            while i < books.len() && lines.len() < LIST_MAX
                invariant
                    i <= books@.len(),
                    lines@.len() == i + 1,
                    i + 1 <= LIST_MAX,
                    lines@[0]@ == "退出"@,
                    forall|k: int| 1 <= k < lines@.len() ==> lines@[k]@ == books@[k - 1]@,
                decreases books@.len() - i,
            {
                lines.push(books[i].clone());
                i += 1;
            }
            let len: usize = lines.len();
            let choice: u64 = if self.state.exit_selected {
                0
            } else {
                self.state.choose_index as u64 + 1
            };
            let sel: usize = if choice < (len - 1) as u64 {
                choice as usize
            } else {
                len - 1
            };
            proof {
                lemma_texts(lines@);
                assert(texts(lines@) =~= list_lines(texts(books@), len as int));
            }
            c.add_op(DrawOp::Menu(lines, sel, Area { x: 0, y: 0, w: vw, h: vh }));
            let n: usize = self.book_progress.len();
            if n == books.len() {
                self.draw_percentages(c, sel, vw, vh);
            }
        }
    }

    /// Draws the percentages beside the books.
    fn draw_percentages(&self, c: &mut Canvas, sel: usize, vw: u32, vh: u32)
        requires
            self@.valid(),
            self.book_progress@.len() <= BOOKS_MAX,
            sel < LIST_MAX,
            15 <= vw <= 10000,
            vh <= 10000,
        ensures
            ({
                let n = self@.book_progress.len() as int;
                final(c)@ == percent_ops(
                    old(c)@,
                    self@.book_progress,
                    list_scroll(n + 1, vh as int, sel as int),
                    vw as int,
                    vh as int,
                    n,
                )
            }),
    {
        proof {
            lemma_texts(self.book_progress@);
        }
        let n: usize = self.book_progress.len();
        let content: u32 = (n as u32 + 1) * 20;
        let scroll: i32 = if content <= vh {
            0
        } else {
            let half: u32 = vh / 2;
            let most: u32 = content - vh;
            let y: u32 = sel as u32 * 20;
            if y <= half {
                0
            } else if y >= most + half {
                most as i32
            } else {
                (y - half) as i32
            }
        };
        let mut i: usize = 0;
        while i < n
            invariant
                i <= n <= BOOKS_MAX,
                n == self.book_progress@.len(),
                n == self@.book_progress.len(),
                forall|k: int|
                    0 <= k < n ==> #[trigger] self@.book_progress[k] == self.book_progress@[k]@,
                15 <= vw <= 10000,
                vh <= 10000,
                0 <= scroll <= 10000,
                c@ == percent_ops(
                    old(c)@,
                    self@.book_progress,
                    scroll as int,
                    vw as int,
                    vh as int,
                    i as int,
                ),
            decreases n - i,
        {
            let label = &self.book_progress[i];
            assert(self@.book_progress[i as int] == label@);
            let y: i32 = (i as i32 + 1) * 20 - scroll;
            if !label.as_str().is_empty() && !(y < 0 || y + 20 > vh as i32) {
                c.text(
                    label.clone(),
                    Anchor {
                        x: (vw - 15) as i32,
                        y: y + 5,
                        v: VPos::Top,
                        h: HPos::Right,
                        ink: Ink::Black,
                        face: Face::Wqy16,
                    },
                );
            }
            i += 1;
        }
    }

    /// Draws the page where that is due. `text` is how its text came out, where it was laid out.
    pub fn render(&mut self, text: TextPage, vw: u32, vh: u32) -> (c: Option<Canvas>)
        requires
            old(self)@.valid(),
            15 <= vw <= 10000,
            vh <= 10000,
            old(self)@.state.reading ==> has_room(
                old(self)@.state.menu_state,
                vw as int,
                vh as int,
            ),
            text matches TextPage::Drawn(_, consumed) ==> old(self)@.state.ttf_offset + consumed
                <= u32::MAX,
        ensures
            c is Some <==> old(self)@.state.need_render,
            c is Some ==> c->0@ == page_ops(old(self)@, text, vw as int, vh as int),
            final(self)@ == (if old(self)@.state.need_render {
                drawn(old(self)@, text)
            } else {
                old(self)@
            }),
            final(self)@.valid(),
    {
        if !self.state.need_render {
            return None;
        }
        let ghost v = self@;
        let mut c = Canvas::new();
        c.clear(Ink::White);
        assert(c@ =~= seq![Op::Clear(Ink::White)]);
        let last: bool = self.at_last_page();
        let mut end: u32 = self.state.ttf_end;
        if !self.state.reading {
            self.draw_list(&mut c, vw, vh);
        } else {
            let center = Anchor {
                x: (vw / 2) as i32,
                y: (vh / 2) as i32,
                v: VPos::Center,
                h: HPos::Center,
                ink: Ink::Black,
                face: Face::Wqy15,
            };
            if last {
                c.label("已是最后一页", center);
            } else {
                match text {
                    TextPage::NoMemory => c.label("TTF 内存不足", center),
                    TextPage::Failed => c.label("TTF 渲染失败", center),
                    TextPage::Drawn(glyphs, consumed) => {
                        end = self.state.ttf_offset + consumed;
                        c.append(glyphs);
                    },
                }
            }
            self.render_progress(&mut c, vw, vh);
            self.render_menu_overlay(&mut c, vw, vh);
        }
        self.state.need_render = false;
        self.state.ttf_end = end;
        Some(c)
    }
}

/// A bookmark that was set is found again by the reader: it is the place that the list of
/// bookmarks jumps to.
pub proof fn law_bookmark_leads_back(v: ReadView)
    requires
        v.valid(),
        log_or_empty(v).len() < LOG_VEC_MAX,
    ensures
        exists|i: int|
            1 <= i < log_or_empty(bookmark_saved(v, true)).len() && #[trigger] log_or_empty(
                bookmark_saved(v, true),
            )[i] == v.state.ttf_offset,
{
    let log = log_or_empty(v);
    let saved = log_or_empty(bookmark_saved(v, true));
    let off = v.state.ttf_offset;
    if crate::epd2in9_txt::is_bookmark(log, off) {
        let i = choose|i: int| 1 <= i < log.len() && log[i] == off;
        assert(saved[i] == off);
    } else {
        assert(saved[saved.len() - 1] == off);
    }
}

/// Deleting a bookmark keeps the last position and every other bookmark.
pub proof fn law_delete_keeps_the_rest(v: ReadView)
    requires
        v.valid(),
        deletable(v),
    ensures
        bookmark_deleted(v).log_vec->0.len() == v.log_vec->0.len() - 1,
        bookmark_deleted(v).log_vec->0[0] == v.log_vec->0[0],
        forall|i: int|
            0 <= i < v.log_vec->0.len() && i != bookmark_line(v.state) + 1
                ==> bookmark_deleted(v).log_vec->0.contains(#[trigger] v.log_vec->0[i]),
{
    let log = v.log_vec->0;
    let d = bookmark_line(v.state) + 1;
    let rest = bookmark_deleted(v).log_vec->0;
    assert forall|i: int| 0 <= i < log.len() && i != d implies rest.contains(#[trigger] log[i]) by {
        if i < d {
            assert(rest[i] == log[i]);
        } else {
            assert(rest[i - 1] == log[i]);
        }
    }
}

/// The progress of a book reads back as the hundredths that were read, rounded down.
pub proof fn law_progress_reads_back(offset: u32, total: u32)
    requires
        total > 0,
    ensures
        ({
            let t = progress_text(Some((offset, total)));
            let p = num_of(t.drop_last());
            &&& t.last() == '%'
            &&& p * total <= offset * 100 < (p + 1) * total
        }),
        progress_text(None).len() == 0,
{
    reveal_strlit("%");
    let p = offset as int * 100 / total as int;
    assert(p * total <= offset * 100 < (p + 1) * total) by (nonlinear_arith)
        requires
            total > 0,
            p == offset as int * 100 / total as int,
    ;
    assert(p >= 0) by (nonlinear_arith)
        requires
            p * total <= offset * 100 < (p + 1) * total,
            total > 0,
            offset >= 0,
    ;
    law_numbers_read_back(p as nat);
    let t = progress_text(Some((offset, total)));
    assert(t.drop_last() =~= dec(p as nat));
}

/// A new session keeps to the sizes that the menu can reach, goes on with the book that was open, and
/// takes a font by its ending, in capitals or not.
pub proof fn law_new_sessions_go_on(px: u8, gap: u8, rotate: u8, stored: Seq<char>, r: Retained)
    ensures
        ({
            let s = fresh(px, gap, rotate, stored, r).state;
            &&& 12 <= s.ttf_px <= 40 && (12 <= px <= 40 ==> s.ttf_px == px)
            &&& px < 12 ==> s.ttf_px == 12
            &&& px > 40 ==> s.ttf_px == 40
            &&& 0 <= s.line_gap <= 10 && (gap <= 10 ==> s.line_gap == gap)
            &&& gap > 10 ==> s.line_gap == 10
            &&& s.rotate < 4 && (rotate < 4 ==> s.rotate == rotate)
            &&& r.page_index matches Some(i) ==> s.reading && s.choose_index == i && s.ttf_offset
                == r.resume_offset && s.ttf_resume
            &&& r.page_index is None ==> !s.reading && s.ttf_offset == 0
            &&& !s.running && s.menu_state is Closed
        }),
{
}

/// A book is opened where it was left: where the device kept the place, there; else where its log
/// says, and never past its end.
pub proof fn law_books_open_where_they_were_left(v: ReadView, len: u32, log: Seq<u32>)
    ensures
        ({
            let s = log_read(book_opened(v, len), log).state;
            &&& s.ttf_file_len == len && s.ttf_offset <= len && s.ttf_end == s.ttf_offset
            &&& v.state.ttf_resume && v.state.ttf_offset <= len ==> s.ttf_offset == v.state.ttf_offset
            &&& !v.state.ttf_resume && log.len() > 0 && log[0] <= len ==> s.ttf_offset == log[0]
            &&& !v.state.ttf_resume && log.len() == 0 ==> s.ttf_offset == 0
            &&& !s.ttf_resume
        }),
{
}

/// The chosen line of the list of books is within what is shown of it.
pub proof fn law_chosen_book_is_shown(n: int, vh: int, sel: int)
    requires
        0 <= sel < n,
        vh >= 60,
    ensures
        0 <= list_scroll(n, vh, sel),
        list_scroll(n, vh, sel) <= sel * 20,
        sel * 20 + 20 <= list_scroll(n, vh, sel) + vh,
        n * 20 <= vh ==> list_scroll(n, vh, sel) == 0,
        n * 20 > vh ==> list_scroll(n, vh, sel) <= n * 20 - vh,
{
}

/// The first line of the list leads out, and the others are the books in their order.
pub proof fn law_list_names_the_books(books: Seq<Seq<char>>, i: int)
    requires
        1 <= i < list_len(books),
    ensures
        list_lines(books, list_len(books))[i] == books[i - 1],
        list_lines(books, list_len(books))[0] == "退出"@,
{
}

/// A file is a font by the ending of its name, in capitals or not.
pub proof fn law_fonts_are_known_by_their_ending(b: Seq<u8>)
    ensures
        ends_in_ttf(b) <==> b.len() >= 4 && b[b.len() - 4] == '.' as u8 && (b[b.len() - 3] == 't' as u8
            || b[b.len() - 3] == 'T' as u8) && (b[b.len() - 2] == 't' as u8 || b[b.len() - 2]
            == 'T' as u8) && (b[b.len() - 1] == 'f' as u8 || b[b.len() - 1] == 'F' as u8),
{
    let n = b.len() as int;
    let w = seq![46u8, 116, 116, 102];
    assert('.' as u8 == 46 && 't' as u8 == 116 && 'T' as u8 == 84 && 'f' as u8 == 102 && 'F' as u8 == 70);
    if n >= 4 {
        let e = b.skip(n - 4);
        assert(e[0] == b[n - 4] && e[1] == b[n - 3] && e[2] == b[n - 2] && e[3] == b[n - 1]);
        assert(w[0] == 46 && w[1] == 116 && w[2] == 116 && w[3] == 102);
        if same_but_case(e, w) {
            assert(lower(e[0]) == lower(w[0]));
            assert(lower(e[1]) == lower(w[1]));
            assert(lower(e[2]) == lower(w[2]));
            assert(lower(e[3]) == lower(w[3]));
        }
    }
}

/// A font in the list bears the name of its file: the long one, or the short one with its ending.
pub proof fn law_fonts_bear_their_file_name(f: FontEntry)
    ensures
        f.long matches Some(n) ==> (f.font() is Some <==> ends_in_ttf(encode_utf8(n@))),
        f.long matches Some(n) ==> f.font() is Some ==> f.font()->0 == n@,
        f.long is None ==> f.font() is Some ==> f.font()->0 == f.base@ + ".TTF"@,
{
}

/// Deleting the last line of the list chooses the one before it.
pub proof fn law_choice_stays_in_the_bookmarks(v: ReadView, i: u32)
    requires
        v.log_vec is Some,
        v.state.menu_state == (MenuState::BookmarkList { bm_index: i, deleting: true }),
        i + 1 < v.log_vec->0.len(),
        i > 0,
    ensures
        ({
            let a = bookmark_deleted(v);
            let k = a.state.menu_state->bm_index;
            &&& a.log_vec->0 == v.log_vec->0.remove(i + 1)
            &&& i + 2 == v.log_vec->0.len() ==> k == i - 1
            &&& i + 2 < v.log_vec->0.len() ==> k == i
        }),
{
}

} // verus!
