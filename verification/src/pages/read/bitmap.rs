//! Pages set in a built-in font with cells of fixed widths.
//!
//! A character of one byte takes a narrow cell, and every other a wide one. Where a page ends is
//! found without drawing it, and the same way.
use vstd::prelude::*;
#[allow(unused_imports)]
use vstd::string::*;
#[allow(unused_imports)]
use vstd::utf8::*;

use crate::draw::{Anchor, Canvas, Face, HPos, Ink, Op, VPos};
use crate::text::utf8_text;
use crate::ttf_sd::layout::{char_len, char_of, len_of_char, read_char};
use crate::ttf_sd::tables::{readable, reads, window};

verus! {

/// So many bytes before a page its predecessor is looked for first.
pub const FIRST_STEP: u32 = 3072;

/// The width of the lines, the widths of the cells, and the number of lines.
#[derive(Clone, Copy, Debug, PartialEq, Eq, Structural)]
pub struct Cells {
    pub max_w: i32,
    pub full_w: i32,
    pub half_w: i32,
    pub max_lines: u32,
}

impl Cells {
    /// The same cells on a page of so many lines.
    pub open spec fn with_lines(self, lines: u32) -> Cells {
        Cells { max_lines: lines, ..self }
    }
}

/// The width of a character's cell.
pub open spec fn cell_w(ch: char, m: Cells) -> int {
    if (ch as u32) < 0x80 {
        m.half_w as int
    } else {
        m.full_w as int
    }
}

/// The width of a character's cell.
pub fn char_width(ch: char, full_w: i32, half_w: i32) -> (w: i32)
    ensures
        w == (if (ch as u32) < 0x80 {
            half_w
        } else {
            full_w
        }),
{
    if (ch as u32) < 0x80 {
        half_w
    } else {
        full_w
    }
}

/// The length in bytes of the character at `i` and the character itself, where it ends before `n`.
pub open spec fn char_at(buf: Seq<u8>, i: int, n: int) -> Option<(int, char)> {
    let len = char_len(buf[i]) as int;
    if i + len > n {
        None
    } else {
        Some((len, char_of(buf.subrange(i, i + len))))
    }
}

/// Reads the character at `i`.
pub fn decode_char(buf: &[u8], i: usize, n: usize) -> (r: Option<(usize, char)>)
    requires
        i < n <= buf@.len(),
    ensures
        match r {
            Some((len, ch)) => char_at(buf@, i as int, n as int) == Some((len as int, ch)) && 1 <= len
                && i + len <= n,
            None => char_at(buf@, i as int, n as int) is None,
        },
{
    let len: usize = len_of_char(buf[i]);
    if len > n - i {
        return None;
    }
    Some((len, read_char(vstd::slice::slice_subrange(buf, i, i + len))))
}

/// Where a page ends that goes on with the byte `i` at the place `x` of a line. A line ends at a line
/// feed or a carriage return, which is taken, and before a character that does not fit, which is
/// not; the first character of a line always fits.
pub open spec fn page_end(buf: Seq<u8>, m: Cells, i: int, x: int, line: int) -> int
    decreases (buf.len() - i) * 2 + (if x > 0 {
        1int
    } else {
        0
    }),
{
    if i < 0 || i >= buf.len() {
        i
    } else {
        match char_at(buf, i, buf.len() as int) {
            None => i,
            Some((len, ch)) => if ch == '\n' || ch == '\r' {
                if line + 1 >= m.max_lines {
                    i + len
                } else {
                    page_end(buf, m, i + len, 0, line + 1)
                }
            } else if x + cell_w(ch, m) > m.max_w && x > 0 {
                if line + 1 >= m.max_lines {
                    i
                } else {
                    page_end(buf, m, i, 0, line + 1)
                }
            } else {
                page_end(buf, m, i + len, x + cell_w(ch, m), line)
            },
        }
    }
}

/// How many bytes of a text a page takes.
pub open spec fn page_bytes(buf: Seq<u8>, m: Cells) -> int {
    if m.max_lines == 0 {
        0
    } else {
        page_end(buf, m, 0, 0, 0)
    }
}

/// Where a page is drawn, and in which font.
#[derive(Clone, Copy, Debug, PartialEq, Eq, Structural)]
pub struct CellArea {
    pub left: i32,
    pub top: i32,
    pub line_h: i32,
    pub face: Face,
}

/// Where a character is drawn; a coordinate that its type does not hold wraps.
pub open spec fn cell_at(a: CellArea, x: int, line: int) -> Anchor {
    Anchor {
        x: (a.left + x) as i32,
        y: (a.top + line * a.line_h) as i32,
        v: VPos::Top,
        h: HPos::Left,
        ink: Ink::Black,
        face: a.face,
    }
}

/// `c` with the characters of a page from the byte `i` on; bytes that are no character leave their
/// cell empty.
pub open spec fn page_ops(
    c: Seq<Op>,
    buf: Seq<u8>,
    m: Cells,
    a: CellArea,
    i: int,
    x: int,
    line: int,
) -> Seq<Op>
    decreases (buf.len() - i) * 2 + (if x > 0 {
        1int
    } else {
        0
    }),
{
    if i < 0 || i >= buf.len() {
        c
    } else {
        match char_at(buf, i, buf.len() as int) {
            None => c,
            Some((len, ch)) => if ch == '\n' || ch == '\r' {
                if line + 1 >= m.max_lines {
                    c
                } else {
                    page_ops(c, buf, m, a, i + len, 0, line + 1)
                }
            } else if x + cell_w(ch, m) > m.max_w && x > 0 {
                if line + 1 >= m.max_lines {
                    c
                } else {
                    page_ops(c, buf, m, a, i, 0, line + 1)
                }
            } else {
                let b = buf.subrange(i, i + len);
                let drawn = if valid_utf8(b) {
                    c.push(Op::Text(decode_utf8(b), cell_at(a, x, line)))
                } else {
                    c
                };
                page_ops(drawn, buf, m, a, i + len, x + cell_w(ch, m), line)
            },
        }
    }
}

/// How far below the first line a line stands.
fn down(line: u32, line_h: i32) -> (y: i64)
    ensures
        y == line * line_h,
        -0x8000_0000_0000_0000 <= y - 0x8000_0000,
        y + 0x8000_0000 <= 0x7fff_ffff_ffff_ffff,
{
    assert(-0x8000_0000 * 0xffff_ffff <= line * line_h <= 0x7fff_ffff * 0xffff_ffff)
        by (nonlinear_arith)
        requires
            0 <= line <= 0xffff_ffff,
            -0x8000_0000 <= line_h <= 0x7fff_ffff,
    ;
    line as i64 * line_h as i64
}

/// Draws a page, and says how many bytes of the text it takes.
pub fn paginate_render_bitmap(buf: &[u8], m: Cells, a: CellArea) -> (r: (Canvas, usize))
    ensures
        r.1 == page_bytes(buf@, m),
        r.0@ == (if m.max_lines == 0 {
            seq![]
        } else {
            page_ops(seq![], buf@, m, a, 0, 0, 0)
        }),
{
    let mut c = Canvas::new();
    assert(c@ =~= seq![]);
    if m.max_lines == 0 {
        return (c, 0);
    }
    let ghost end = page_end(buf@, m, 0, 0, 0);
    let ghost ops = page_ops(seq![], buf@, m, a, 0, 0, 0);
    let n: usize = buf.len();
    let mut i: usize = 0;
    let mut x: i128 = 0;
    let mut line: u32 = 0;
    while i < n
        invariant
            n == buf@.len(),
            i <= n,
            line < m.max_lines,
            -0x8000_0000 * i <= x <= 0x8000_0000 * i,
            end == page_end(buf@, m, 0, 0, 0),
            ops == page_ops(seq![], buf@, m, a, 0, 0, 0),
            end == page_end(buf@, m, i as int, x as int, line as int),
            ops == page_ops(c@, buf@, m, a, i as int, x as int, line as int),
        decreases
            (n - i) * 2 + (if x > 0 {
                1int
            } else {
                0
            }),
    {
        match decode_char(buf, i, n) {
            None => {
                return (c, i);
            },
            Some((len, ch)) => {
                let w: i128 = char_width(ch, m.full_w, m.half_w) as i128;
                if ch == '\n' || ch == '\r' {
                    line += 1;
                    if line >= m.max_lines {
                        return (c, i + len);
                    }
                    i += len;
                    x = 0;
                } else if x + w > m.max_w as i128 && x > 0 {
                    line += 1;
                    if line >= m.max_lines {
                        return (c, i);
                    }
                    x = 0;
                } else {
                    let b = vstd::slice::slice_subrange(buf, i, i + len);
                    if let Some(s) = utf8_text(b) {
                        let y: i64 = a.top as i64 + down(line, a.line_h);
                        c.label(
                            s,
                            Anchor {
                                x: (a.left as i128 + x) as i32,
                                y: y as i32,
                                v: VPos::Top,
                                h: HPos::Left,
                                ink: Ink::Black,
                                face: a.face,
                            },
                        );
                    }
                    x += w;
                    i += len;
                }
            },
        }
    }
    (c, i)
}

/// How many bytes of the text a page takes, without drawing it.
pub fn compute_consumed_bitmap(buf: &[u8], m: Cells) -> (n: usize)
    ensures
        n == page_bytes(buf@, m),
        n <= buf@.len(),
{
    if m.max_lines == 0 {
        return 0;
    }
    let ghost end = page_end(buf@, m, 0, 0, 0);
    let n: usize = buf.len();
    let mut i: usize = 0;
    let mut x: i128 = 0;
    let mut line: u32 = 0;
    while i < n
        invariant
            n == buf@.len(),
            i <= n,
            line < m.max_lines,
            -0x8000_0000 * i <= x <= 0x8000_0000 * i,
            end == page_end(buf@, m, 0, 0, 0),
            end == page_end(buf@, m, i as int, x as int, line as int),
        decreases
            (n - i) * 2 + (if x > 0 {
                1int
            } else {
                0
            }),
    {
        match decode_char(buf, i, n) {
            None => {
                return i;
            },
            Some((len, ch)) => {
                let w: i128 = char_width(ch, m.full_w, m.half_w) as i128;
                if ch == '\n' || ch == '\r' {
                    line += 1;
                    if line >= m.max_lines {
                        return i + len;
                    }
                    i += len;
                    x = 0;
                } else if x + w > m.max_w as i128 && x > 0 {
                    line += 1;
                    if line >= m.max_lines {
                        return i;
                    }
                    x = 0;
                } else {
                    x += w;
                    i += len;
                }
            },
        }
    }
    i
}

/// A page that was drawn takes what it was found to take, and a page of a text whose first character
/// is complete takes something.
pub proof fn law_a_page_takes_text(buf: Seq<u8>, m: Cells)
    requires
        m.max_lines > 0,
        buf.len() > 0,
        char_at(buf, 0, buf.len() as int) is Some,
    ensures
        0 < page_bytes(buf, m) <= buf.len(),
{
    lemma_page_end(buf, m, 0, 0, 0);
    let (len, ch) = char_at(buf, 0, buf.len() as int)->0;
    if ch == '\n' || ch == '\r' {
        if 1 < m.max_lines {
            lemma_page_end(buf, m, len, 0, 1);
        }
    } else {
        lemma_page_end(buf, m, len, cell_w(ch, m), 0);
    }
}

proof fn lemma_page_end(buf: Seq<u8>, m: Cells, i: int, x: int, line: int)
    requires
        0 <= i <= buf.len(),
    ensures
        i <= page_end(buf, m, i, x, line) <= buf.len(),
    decreases (buf.len() - i) * 2 + (if x > 0 {
        1int
    } else {
        0
    }),
{
    if i < buf.len() {
        if let Some((len, ch)) = char_at(buf, i, buf.len() as int) {
            if ch == '\n' || ch == '\r' {
                if line + 1 < m.max_lines {
                    lemma_page_end(buf, m, i + len, 0, line + 1);
                }
            } else if x + cell_w(ch, m) > m.max_w && x > 0 {
                if line + 1 < m.max_lines {
                    lemma_page_end(buf, m, i, 0, line + 1);
                }
            } else {
                lemma_page_end(buf, m, i + len, x + cell_w(ch, m), line);
            }
        }
    }
}

/// What is left of a text is set as the text is from there on.
proof fn lemma_rest(buf: Seq<u8>, m: Cells, k: int, i: int, x: int, line: int)
    requires
        0 <= k <= i <= buf.len(),
    ensures
        page_end(buf.skip(k), m, i - k, x, line) + k == page_end(buf, m, i, x, line),
    decreases (buf.len() - i) * 2 + (if x > 0 {
        1int
    } else {
        0
    }),
{
    if i < buf.len() {
        let rest = buf.skip(k);
        let len = char_len(buf[i]) as int;
        assert(rest[i - k] == buf[i]);
        if i + len <= buf.len() {
            assert(rest.subrange(i - k, i - k + len) =~= buf.subrange(i, i + len));
        }
        if let Some((len, ch)) = char_at(buf, i, buf.len() as int) {
            if ch == '\n' || ch == '\r' {
                if line + 1 < m.max_lines {
                    lemma_rest(buf, m, k, i + len, 0, line + 1);
                }
            } else if x + cell_w(ch, m) > m.max_w && x > 0 {
                if line + 1 < m.max_lines {
                    lemma_rest(buf, m, k, i, 0, line + 1);
                }
            } else {
                lemma_rest(buf, m, k, i + len, x + cell_w(ch, m), line);
            }
        }
    }
}

/// Only the lines that are left count.
proof fn lemma_lines_left(buf: Seq<u8>, m: Cells, a: u32, b: u32, i: int, x: int, line: int)
    requires
        0 <= i <= buf.len(),
        a + b <= u32::MAX,
    ensures
        page_end(buf, m.with_lines(b), i, x, line) == page_end(
            buf,
            m.with_lines((a + b) as u32),
            i,
            x,
            line + a,
        ),
    decreases (buf.len() - i) * 2 + (if x > 0 {
        1int
    } else {
        0
    }),
{
    if i < buf.len() {
        if let Some((len, ch)) = char_at(buf, i, buf.len() as int) {
            if ch == '\n' || ch == '\r' {
                if line + 1 < b {
                    lemma_lines_left(buf, m, a, b, i + len, 0, line + 1);
                }
            } else if x + cell_w(ch, m) > m.max_w && x > 0 {
                if line + 1 < b {
                    lemma_lines_left(buf, m, a, b, i, 0, line + 1);
                }
            } else {
                lemma_lines_left(buf, m, a, b, i + len, x + cell_w(ch, m), line);
            }
        }
    }
}

/// A page with more lines goes on where the one with fewer ends.
proof fn lemma_goes_on(buf: Seq<u8>, m: Cells, a: u32, b: u32, i: int, x: int, line: int)
    requires
        0 <= i <= buf.len(),
        0 <= line < a,
        0 < b,
        a + b <= u32::MAX,
    ensures
        page_end(buf, m.with_lines((a + b) as u32), i, x, line) == page_end(
            buf,
            m.with_lines((a + b) as u32),
            page_end(buf, m.with_lines(a), i, x, line),
            0,
            a as int,
        ),
    decreases (buf.len() - i) * 2 + (if x > 0 {
        1int
    } else {
        0
    }),
{
    if i < buf.len() {
        if let Some((len, ch)) = char_at(buf, i, buf.len() as int) {
            if ch == '\n' || ch == '\r' {
                if line + 1 < a {
                    lemma_goes_on(buf, m, a, b, i + len, 0, line + 1);
                }
            } else if x + cell_w(ch, m) > m.max_w && x > 0 {
                if line + 1 < a {
                    lemma_goes_on(buf, m, a, b, i, 0, line + 1);
                }
            } else {
                lemma_goes_on(buf, m, a, b, i + len, x + cell_w(ch, m), line);
            }
        }
    }
}

/// A page of some lines and a page of some more, set from where the first ends, take together what
/// one page of all those lines takes; so no page takes less for having more lines.
pub proof fn law_pages_join(buf: Seq<u8>, m: Cells, a: u32, b: u32)
    requires
        a + b <= u32::MAX,
    ensures
        ({
            let c = page_bytes(buf, m.with_lines(a));
            let all = page_bytes(buf, m.with_lines((a + b) as u32));
            &&& 0 <= c <= all <= buf.len()
            &&& all == c + page_bytes(buf.skip(c), m.with_lines(b))
        }),
{
    let c = page_bytes(buf, m.with_lines(a));
    lemma_page_end(buf, m.with_lines(a), 0, 0, 0);
    lemma_page_end(buf.skip(c), m.with_lines(b), 0, 0, 0);
    lemma_page_end(buf, m.with_lines((a + b) as u32), 0, 0, 0);
    if a == 0 {
        assert(buf.skip(0) =~= buf);
    } else if b > 0 {
        lemma_goes_on(buf, m, a, b, 0, 0, 0);
        lemma_lines_left(buf, m, a, b, c, 0, 0);
        lemma_rest(buf, m.with_lines(b), c, c, 0, 0);
    }
}

/// The page that reaches `cur`, set page by page from `off` on, each from no more than `room` bytes
/// of the file; none where the text ends, or a page takes nothing, before it.
pub open spec fn page_before(d: Seq<u8>, room: int, m: Cells, off: int, cur: int) -> Option<int>
    decreases cur - off,
{
    if off >= cur {
        None
    } else {
        let n = page_bytes(window(d, off, room), m);
        if n <= 0 {
            None
        } else if off + n >= cur {
            Some(off)
        } else {
            page_before(d, room, m, off + n, cur)
        }
    }
}

/// The beginning of the page before `cur`: looked for from `step` bytes before it on, and from ever
/// farther; the beginning of the file where no such page is found.
pub open spec fn prev_start(d: Seq<u8>, room: int, m: Cells, cur: int, step: int) -> int
    decreases
        (if step < cur {
            cur - step
        } else {
            0
        }),
{
    let est = if cur > step {
        cur - step
    } else {
        0
    };
    match page_before(d, room, m, est, cur) {
        Some(last) => last,
        None => if est == 0 || step <= 0 {
            0
        } else {
            prev_start(d, room, m, cur, step * 2)
        },
    }
}

/// Finds the beginning of the page before `cur_start` in a file, with `room` bytes read for a page.
pub fn find_prev_start_bitmap<R: Fn(u32, usize) -> Vec<u8>>(
    read: &R,
    room: usize,
    cur_start: u32,
    m: Cells,
) -> (r: u32)
    requires
        readable(*read),
    ensures
        forall|d: Seq<u8>| #[trigger]
            reads(*read, d) ==> r == (if cur_start == 0 || m.max_lines == 0 {
                0
            } else {
                prev_start(d, room as int, m, cur_start as int, FIRST_STEP as int)
            }),
        cur_start > 0 ==> r < cur_start,
{
    if cur_start == 0 || m.max_lines == 0 {
        return 0;
    }
    let mut step: u64 = FIRST_STEP as u64;
    loop
        invariant
            readable(*read),
            0 < m.max_lines,
            0 < cur_start,
            FIRST_STEP <= step <= 0x2_0000_0000,
            forall|d: Seq<u8>| #[trigger]
                reads(*read, d) ==> prev_start(
                    d,
                    room as int,
                    m,
                    cur_start as int,
                    FIRST_STEP as int,
                ) == prev_start(d, room as int, m, cur_start as int, step as int),
        decreases 0x2_0000_0000 - step,
    {
        let est: u32 = if cur_start as u64 > step {
            (cur_start as u64 - step) as u32
        } else {
            0
        };
        if let Some(last) = walk_to(read, room, cur_start, est, m) {
            return last;
        }
        if est == 0 {
            return 0;
        }
        step = step * 2;
    }
}

/// Sets page by page up to `cur_start`.
fn walk_to<R: Fn(u32, usize) -> Vec<u8>>(
    read: &R,
    room: usize,
    cur_start: u32,
    est: u32,
    m: Cells,
) -> (r: Option<u32>)
    requires
        readable(*read),
    ensures
        forall|d: Seq<u8>| #[trigger]
            reads(*read, d) ==> match r {
                Some(v) => page_before(d, room as int, m, est as int, cur_start as int) == Some(
                    v as int,
                ),
                None => page_before(d, room as int, m, est as int, cur_start as int) is None,
            },
        r matches Some(v) ==> v < cur_start,
{
    let mut off: u32 = est;
    while off < cur_start
        invariant
            readable(*read),
            forall|d: Seq<u8>| #[trigger]
                reads(*read, d) ==> page_before(d, room as int, m, est as int, cur_start as int)
                    == page_before(d, room as int, m, off as int, cur_start as int),
        decreases cur_start - off,
    {
        let buf = read(off, room);
        let n: usize = compute_consumed_bitmap(buf.as_slice(), m);
        if n == 0 {
            return None;
        }
        if n >= (cur_start - off) as usize {
            return Some(off);
        }
        off = off + n as u32;
    }
    None
}

/// The page found before a place is before it and reaches it, unless it is the first of the file.
pub proof fn law_prev_page_reaches(d: Seq<u8>, room: int, m: Cells, cur: int, step: int)
    requires
        0 < cur,
        0 < step,
    ensures
        ({
            let p = prev_start(d, room, m, cur, step);
            &&& 0 <= p < cur
            &&& p > 0 ==> p + page_bytes(window(d, p, room), m) >= cur
        }),
    decreases
        (if step < cur {
            cur - step
        } else {
            0
        }),
{
    let est = if cur > step {
        cur - step
    } else {
        0
    };
    lemma_page_before(d, room, m, est, cur);
    if page_before(d, room, m, est, cur) is None && est != 0 {
        law_prev_page_reaches(d, room, m, cur, step * 2);
    }
}

proof fn lemma_page_before(d: Seq<u8>, room: int, m: Cells, off: int, cur: int)
    ensures
        page_before(d, room, m, off, cur) matches Some(p) ==> off <= p < cur && p + page_bytes(
            window(d, p, room),
            m,
        ) >= cur,
    decreases cur - off,
{
    if off < cur {
        let n = page_bytes(window(d, off, room), m);
        if n > 0 && off + n < cur {
            lemma_page_before(d, room, m, off + n, cur);
        }
    }
}

/// Characters of one byte are narrow, and all others wide.
pub proof fn law_narrow_characters_are_of_one_byte(ch: char, m: Cells)
    ensures
        ch as u32 <= 127 ==> cell_w(ch, m) == m.half_w,
        ch as u32 > 127 ==> cell_w(ch, m) == m.full_w,
{
}

/// The first character of a page stands in its corner, every other beside the one before it on the
/// same line or at the beginning of a later one.
pub proof fn law_first_cell_is_in_the_corner(a: CellArea, x: int, w: int, line: int)
    requires
        -0x4000_0000 <= a.left + x <= 0x4000_0000,
        -0x4000_0000 <= a.left + x + w <= 0x4000_0000,
        -0x4000_0000 <= a.top + line * a.line_h <= 0x4000_0000,
        -0x4000_0000 <= a.top + (line + 1) * a.line_h <= 0x4000_0000,
    ensures
        cell_at(a, 0, 0).x == a.left,
        cell_at(a, 0, 0).y == a.top,
        cell_at(a, x + w, line).x == cell_at(a, x, line).x + w,
        cell_at(a, x, line + 1).y == cell_at(a, x, line).y + a.line_h,
        cell_at(a, x, line + 1).x == cell_at(a, x, line).x,
{
    assert((line + 1) * a.line_h == line * a.line_h + a.line_h) by (nonlinear_arith);
    assert(0 * a.line_h == 0) by (nonlinear_arith);
}

/// A line feed or a carriage return ends a line of cells and is taken with it: a page of one line
/// ends behind the first.
pub proof fn law_line_ends_end_lines_of_cells(buf: Seq<u8>, m: Cells, i: int, x: int, line: int)
    requires
        0 <= i < buf.len(),
        buf[i] == 10 || buf[i] == 13,
    ensures
        line + 1 >= m.max_lines ==> page_end(buf, m, i, x, line) == i + 1,
        line + 1 < m.max_lines ==> page_end(buf, m, i, x, line) == page_end(buf, m, i + 1, 0, line + 1),
{
    let b = buf.subrange(i, i + 1);
    let c = b[0] as char;
    let t = seq![c];
    assert(is_ascii_chars(t));
    is_ascii_chars_encode_utf8(t);
    assert(encode_utf8(t) =~= b);
    encode_utf8_valid_utf8(t);
    encode_utf8_decode_utf8(t);
}

/// A character goes to the next line of cells where it would reach over the edge, unless it is the
/// first of its line.
pub proof fn law_cells_wrap_at_the_edge(buf: Seq<u8>, m: Cells, i: int, x: int, line: int)
    requires
        0 <= i < buf.len(),
        32 <= buf[i] < 128,
    ensures
        x > 0 && x + m.half_w > m.max_w && line + 1 < m.max_lines ==> page_end(buf, m, i, x, line)
            == page_end(buf, m, i, 0, line + 1),
        x > 0 && x + m.half_w > m.max_w && line + 1 >= m.max_lines ==> page_end(buf, m, i, x, line) == i,
        x <= 0 || x + m.half_w <= m.max_w ==> page_end(buf, m, i, x, line) == page_end(
            buf,
            m,
            i + 1,
            x + m.half_w,
            line,
        ),
{
    let b = buf.subrange(i, i + 1);
    let c = b[0] as char;
    let t = seq![c];
    assert(is_ascii_chars(t));
    is_ascii_chars_encode_utf8(t);
    assert(encode_utf8(t) =~= b);
    encode_utf8_valid_utf8(t);
    encode_utf8_decode_utf8(t);
}

} // verus!
