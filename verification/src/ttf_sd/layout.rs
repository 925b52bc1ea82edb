//! Setting a page of text: where each glyph goes, and how much text the page takes.
use vstd::prelude::*;
#[allow(unused_imports)]
use vstd::slice::*;
#[allow(unused_imports)]
use vstd::string::*;
#[allow(unused_imports)]
use vstd::utf8::*;

use crate::draw::{Canvas, Op};
use crate::text::{lemma_encode_join, utf8_text};
use crate::ttf_sd::glyphs::{glyph_ops, ws_after, TtfWs, WsView};
use crate::ttf_sd::lookup::{glyph_of, width_of};
use crate::ttf_sd::tables::{readable, reads, CacheView, FontInfo, TableCache};

verus! {

/// How much of a book is read for one page, in bytes.
pub const BOOK_BUF_MAX: usize = 2048;

/// How many glyphs are cached ahead before others get a turn.
pub const PRELOAD_CHUNK: u32 = 8;

/// The widest a glyph can be, in pixels.
pub const ADVANCE_MAX: i32 = 0x1000_0000;

/// How many bytes a character takes that begins with the byte `b`.
pub open spec fn char_len(b: u8) -> int {
    if b < 0xC0 {
        1
    } else if b < 0xE0 {
        2
    } else if b < 0xF0 {
        3
    } else {
        4
    }
}

/// The character that the bytes encode; the replacement character where they encode none.
pub open spec fn char_of(b: Seq<u8>) -> char {
    if valid_utf8(b) {
        decode_utf8(b)[0]
    } else {
        '\u{FFFD}'
    }
}

/// What the setting of a page depends on, beside the pen: the text, the font, how wide a glyph of
/// some width in font units is in pixels, and the text area.
pub struct Setting {
    pub text: Seq<u8>,
    pub tables: CacheView,
    pub data: Seq<u8>,
    pub fi: FontInfo,
    pub pixels: spec_fn(u16) -> i32,
    pub left: int,
    pub max_w: int,
    pub line_h: int,
    pub max_lines: int,
}

/// Where the next character goes, and which it is.
#[derive(Clone, Copy, Debug, PartialEq, Eq, Structural)]
pub struct Pen {
    /// The byte of the text that comes next.
    pub i: usize,
    pub x: i32,
    pub y: i32,
    pub line: u32,
}

/// What came next in the text.
#[derive(Clone, Copy, Debug, PartialEq, Eq, Structural)]
pub enum Placed {
    /// A glyph at this place.
    Glyph(u16, i32, i32),
    /// The end of a line.
    Newline,
    /// The end of the page or of the text.
    End,
}

/// The pen at the beginning of the next line.
pub open spec fn next_line(s: Setting, p: Pen) -> Pen {
    Pen {
        x: s.left as i32,
        y: (p.y + s.line_h) as i32,
        line: (p.line + 1) as u32,
        ..p
    }
}

/// The pen after the next character, and what it was. A glyph that would reach beyond the text
/// area goes to the next line; after the last line the page ends.
pub open spec fn placed(s: Setting, p: Pen) -> (Pen, Placed) {
    let n = char_len(s.text[p.i as int]);
    if p.i >= s.text.len() || p.i + n > s.text.len() {
        (p, Placed::End)
    } else {
        let ch = char_of(s.text.subrange(p.i as int, p.i + n));
        let on = Pen { i: (p.i + n) as usize, ..p };
        if ch == '\n' || ch == '\r' {
            if p.line + 1 >= s.max_lines {
                (Pen { line: (p.line + 1) as u32, ..on }, Placed::End)
            } else {
                (next_line(s, on), Placed::Newline)
            }
        } else {
            let gid = glyph_of(s.tables, s.fi, ch) as u16;
            let w = (s.pixels)(width_of(s.tables, s.data, s.fi, gid as int) as u16);
            if p.x + w <= s.left + s.max_w {
                (Pen { x: (p.x + w) as i32, ..on }, Placed::Glyph(gid, p.x, p.y))
            } else if p.line + 1 >= s.max_lines {
                (Pen { line: (p.line + 1) as u32, ..p }, Placed::End)
            } else {
                let q = next_line(s, p);
                (
                    Pen { i: on.i, x: (q.x + w) as i32, ..q },
                    Placed::Glyph(gid, q.x, q.y),
                )
            }
        }
    }
}

/// `c` with the rest of the page from the pen on; the text taken, and the kept glyphs after it.
pub open spec fn page_from(s: Setting, p: Pen, c: Seq<Op>, ws: WsView, scale: int) -> (
    int,
    Seq<Op>,
    WsView,
)
    decreases s.text.len() - p.i,
{
    let (q, what) = placed(s, p);
    match what {
        Placed::End => (q.i as int, c, ws),
        Placed::Newline => if q.i > p.i {
            page_from(s, q, c, ws, scale)
        } else {
            (q.i as int, c, ws)
        },
        Placed::Glyph(gid, x, y) => if q.i > p.i {
            page_from(
                s,
                q,
                glyph_ops(c, ws, s.data, s.fi, gid, scale, x as int, y as int),
                ws_after(ws, s.data, s.fi, gid, scale),
                scale,
            )
        } else {
            (q.i as int, c, ws)
        },
    }
}

/// The kept glyphs after up to `n` more of the page were cached ahead, with the pen after them
/// and whether the page ended.
pub open spec fn cached_from(s: Setting, p: Pen, ws: WsView, scale: int, n: int) -> (
    Pen,
    WsView,
    bool,
)
    decreases s.text.len() - p.i,
{
    let (q, what) = placed(s, p);
    if n <= 0 {
        (p, ws, false)
    } else {
        match what {
            Placed::End => (q, ws, true),
            Placed::Newline => if q.i > p.i {
                cached_from(s, q, ws, scale, n)
            } else {
                (q, ws, true)
            },
            Placed::Glyph(gid, _, _) => if q.i > p.i {
                cached_from(s, q, ws_after(ws, s.data, s.fi, gid, scale), scale, n - 1)
            } else {
                (q, ws, true)
            },
        }
    }
}

/// `read` reads from a file that holds `d`, and `pixels` computes `f`.
pub open spec fn world<R: Fn(u32, usize) -> Vec<u8>, A: Fn(u16) -> i32>(
    read: R,
    pixels: A,
    d: Seq<u8>,
    f: spec_fn(u16) -> i32,
) -> bool {
    &&& reads(read, d)
    &&& forall|a: u16, r: i32| #[trigger] call_ensures(pixels, (a,), r) ==> r == f(a)
}

/// `pixels` can be called with any width, and gives a width that can be drawn.
pub open spec fn measurable<A: Fn(u16) -> i32>(pixels: A) -> bool {
    &&& forall|a: u16| call_requires(pixels, (a,))
    &&& forall|a: u16, r: i32| #[trigger]
        call_ensures(pixels, (a,), r) ==> 0 <= r <= ADVANCE_MAX
}

/// The text area: where it begins, how wide it is, and its lines.
#[derive(Clone, Copy, Debug, PartialEq, Eq, Structural)]
pub struct TextArea {
    pub left: i32,
    pub top: i32,
    pub max_w: i32,
    pub line_h: i32,
    pub max_lines: u32,
}

impl TextArea {
    /// The numbers hold every place in the area, one glyph beyond its right edge and one below
    /// and above its lines.
    pub open spec fn on_panel(self) -> bool {
        &&& self.left + ADVANCE_MAX + ADVANCE_MAX <= i32::MAX
        &&& i32::MIN <= self.left + self.max_w
        &&& self.left + self.max_w + ADVANCE_MAX <= i32::MAX
        &&& self.max_lines > 0 ==> self.has_height(self.top as int) && self.has_height(
            self.top + (self.max_lines - 1) * self.line_h,
        )
    }

    /// The numbers hold the height of a line, and what is drawn below and above it.
    pub open spec fn has_height(self, y: int) -> bool {
        i32::MIN <= y - 0x8000 && y + 0x8000 <= i32::MAX
    }

    /// The pen at the beginning of the page.
    pub open spec fn start(self) -> Pen {
        Pen { i: 0, x: self.left, y: self.top, line: 0 }
    }

    /// The pen is in the area.
    pub open spec fn holds(self, p: Pen) -> bool {
        &&& self.left <= p.x <= self.left + (if self.max_w >= ADVANCE_MAX {
            self.max_w
        } else {
            ADVANCE_MAX
        })
        &&& p.line < self.max_lines
        &&& p.y == self.top + p.line * self.line_h
    }
}

/// The setting of a page.
pub open spec fn setting(
    area: TextArea,
    text: Seq<u8>,
    tables: CacheView,
    d: Seq<u8>,
    fi: FontInfo,
    f: spec_fn(u16) -> i32,
) -> Setting {
    Setting {
        text,
        tables,
        data: d,
        fi,
        pixels: f,
        left: area.left as int,
        max_w: area.max_w as int,
        line_h: area.line_h as int,
        max_lines: area.max_lines as int,
    }
}

/// The character that the bytes encode.
pub(crate) fn read_char(b: &[u8]) -> (c: char)
    requires
        b@.len() > 0,
    ensures
        c == char_of(b@),
{
    match utf8_text(b) {
        Some(s) => {
            proof {
                assert(decode_utf8(b@).len() > 0) by {
                    reveal_with_fuel(decode_utf8, 2);
                }
            }
            s.get_char(0)
        },
        None => '\u{FFFD}',
    }
}

/// How many bytes a character takes that begins with the byte `b`.
pub(crate) fn len_of_char(b: u8) -> (n: usize)
    ensures
        n == char_len(b),
{
    if b < 0xC0 {
        1
    } else if b < 0xE0 {
        2
    } else if b < 0xF0 {
        3
    } else {
        4
    }
}

/// Every line stands between the first and the last.
proof fn lemma_line_height(a: TextArea, line: int)
    requires
        a.on_panel(),
        0 <= line < a.max_lines,
    ensures
        a.has_height(a.top + line * a.line_h),
{
    let h = a.line_h as int;
    let m = a.max_lines - 1;
    if h >= 0 {
        assert(0 <= line * h <= m * h) by (nonlinear_arith)
            requires
                0 <= line <= m,
                h >= 0,
        ;
    } else {
        assert(m * h <= line * h <= 0) by (nonlinear_arith)
            requires
                0 <= line <= m,
                h < 0,
        ;
    }
}

/// Places the next character.
fn place_next<R: Fn(u32, usize) -> Vec<u8>, A: Fn(u16) -> i32>(
    read: &R,
    pixels: &A,
    tables: &TableCache,
    fi: &FontInfo,
    text: &[u8],
    area: &TextArea,
    p: Pen,
) -> (r: (Pen, Placed))
    requires
        readable(*read),
        measurable(*pixels),
        tables@.valid(),
        area.on_panel(),
        area.holds(p),
    ensures
        !(r.1 is End) ==> area.holds(r.0) && p.i < r.0.i <= text@.len(),
        r.0.i >= p.i,
        p.i <= text@.len() ==> r.0.i <= text@.len(),
        r.1 matches Placed::Glyph(_, x, y) ==> area.has_height(y as int),
        forall|d: Seq<u8>, f: spec_fn(u16) -> i32| #[trigger]
            world(*read, *pixels, d, f) ==> r == placed(
                setting(*area, text@, tables@, d, *fi, f),
                p,
            ),
{
    let len: usize = text.len();
    if p.i >= len {
        return (p, Placed::End);
    }
    let n: usize = len_of_char(text[p.i]);
    if n > len - p.i {
        return (p, Placed::End);
    }
    let ch: char = read_char(slice_subrange(text, p.i, p.i + n));
    let mut q: Pen = p;
    proof {
        lemma_line_height(*area, p.line as int);
        if p.line + 1 < area.max_lines {
            lemma_line_height(*area, p.line + 1);
        }
        let l = p.line as int;
        let h = area.line_h as int;
        assert((l + 1) * h == l * h + h) by (nonlinear_arith);
    }
    if ch == '\n' || ch == '\r' {
        q.i = p.i + n;
        q.line = p.line + 1;
        if q.line >= area.max_lines {
            return (q, Placed::End);
        }
        q.x = area.left;
        q.y = p.y + area.line_h;
        return (q, Placed::Newline);
    }
    let gid: u16 = tables.char_to_gid(fi, ch);
    let units: u16 = tables.advance(read, fi, gid);
    let w: i32 = pixels(units);
    if p.x + w > area.left + area.max_w {
        q.line = p.line + 1;
        if q.line >= area.max_lines {
            return (q, Placed::End);
        }
        q.x = area.left;
        q.y = p.y + area.line_h;
    }
    let (x, y): (i32, i32) = (q.x, q.y);
    q.x = x + w;
    q.i = p.i + n;
    (q, Placed::Glyph(gid, x, y))
}

/// Sets and draws a page of text: gives how many bytes of the text it takes.
pub fn paginate_render<R: Fn(u32, usize) -> Vec<u8>, A: Fn(u16) -> i32>(
    read: &R,
    pixels: &A,
    fi: &FontInfo,
    ws: &mut TtfWs,
    c: &mut Canvas,
    text: &[u8],
    scale: i32,
    area: &TextArea,
) -> (consumed: usize)
    requires
        readable(*read),
        measurable(*pixels),
        old(ws)@.valid(),
        area.on_panel(),
    ensures
        final(ws)@.valid(),
        consumed <= text@.len(),
        area.max_lines == 0 ==> consumed == 0 && final(c)@ == old(c)@ && final(ws)@ == old(ws)@,
        forall|d: Seq<u8>, f: spec_fn(u16) -> i32| #[trigger]
            world(*read, *pixels, d, f) && area.max_lines > 0 ==> (consumed as int, final(c)@, final(ws)@) == page_from(
                setting(*area, text@, old(ws)@.tables, d, *fi, f),
                area.start(),
                old(c)@,
                old(ws)@,
                scale as int,
            ),
{
    if area.max_lines == 0 {
        return 0;
    }
    let mut p = Pen { i: 0, x: area.left, y: area.top, line: 0 };
    loop
        invariant
            readable(*read),
            measurable(*pixels),
            ws@.valid(),
            area.on_panel(),
            area.max_lines > 0,
            area.holds(p),
            p.i <= text@.len(),
            forall|d: Seq<u8>, f: spec_fn(u16) -> i32| #[trigger]
                world(*read, *pixels, d, f) ==> ws@.tables == old(ws)@.tables,
            forall|d: Seq<u8>, f: spec_fn(u16) -> i32| #[trigger]
                world(*read, *pixels, d, f) ==> page_from(
                    setting(*area, text@, old(ws)@.tables, d, *fi, f),
                    area.start(),
                    old(c)@,
                    old(ws)@,
                    scale as int,
                ) == page_from(
                    setting(*area, text@, old(ws)@.tables, d, *fi, f),
                    p,
                    c@,
                    ws@,
                    scale as int,
                ),
        decreases text@.len() - p.i,
    {
        let (q, what) = place_next(read, pixels, &ws.tables, fi, text, area, p);
        match what {
            Placed::End => {
                return q.i;
            },
            Placed::Newline => {},
            Placed::Glyph(gid, x, y) => {
                ws.draw_glyph(read, fi, gid, scale, c, x, y);
            },
        }
        p = q;
    }
}

/// Caches the next glyphs of a page ahead without drawing them, a few at a time; says whether the
/// page ended.
pub fn preload_glyphs<R: Fn(u32, usize) -> Vec<u8>, A: Fn(u16) -> i32>(
    read: &R,
    pixels: &A,
    fi: &FontInfo,
    ws: &mut TtfWs,
    text: &[u8],
    scale: i32,
    area: &TextArea,
    pen: &mut Pen,
) -> (done: bool)
    requires
        readable(*read),
        measurable(*pixels),
        old(ws)@.valid(),
        area.on_panel(),
        area.holds(*old(pen)),
        old(pen).i <= text@.len(),
    ensures
        final(ws)@.valid(),
        !done ==> area.holds(*final(pen)) && final(pen).i <= text@.len(),
        forall|d: Seq<u8>, f: spec_fn(u16) -> i32| #[trigger]
            world(*read, *pixels, d, f) ==> (*final(pen), final(ws)@, done) == cached_from(
                setting(*area, text@, old(ws)@.tables, d, *fi, f),
                *old(pen),
                old(ws)@,
                scale as int,
                PRELOAD_CHUNK as int,
            ),
{
    let mut n: u32 = PRELOAD_CHUNK;
    while n > 0
        invariant
            n <= PRELOAD_CHUNK,
            readable(*read),
            measurable(*pixels),
            ws@.valid(),
            area.on_panel(),
            area.holds(*pen),
            pen.i <= text@.len(),
            forall|d: Seq<u8>, f: spec_fn(u16) -> i32| #[trigger]
                world(*read, *pixels, d, f) ==> ws@.tables == old(ws)@.tables,
            forall|d: Seq<u8>, f: spec_fn(u16) -> i32| #[trigger]
                world(*read, *pixels, d, f) ==> cached_from(
                    setting(*area, text@, old(ws)@.tables, d, *fi, f),
                    *old(pen),
                    old(ws)@,
                    scale as int,
                    PRELOAD_CHUNK as int,
                ) == cached_from(
                    setting(*area, text@, old(ws)@.tables, d, *fi, f),
                    *pen,
                    ws@,
                    scale as int,
                    n as int,
                ),
        decreases text@.len() - pen.i,
    {
        let (q, what) = place_next(read, pixels, &ws.tables, fi, text, area, *pen);
        match what {
            Placed::End => {
                *pen = q;
                return true;
            },
            Placed::Newline => {},
            Placed::Glyph(gid, _, _) => {
                ws.preload_glyph(read, fi, gid, scale);
                n -= 1;
            },
        }
        *pen = q;
    }
    false
}

/// Caching a page ahead leaves the same glyphs behind as drawing it, and ends at the same place.
pub proof fn law_preloading_caches_what_drawing_does(
    s: Setting,
    p: Pen,
    c: Seq<Op>,
    ws: WsView,
    scale: int,
    n: int,
)
    requires
        n > s.text.len() - p.i,
        n > 0,
    ensures
        cached_from(s, p, ws, scale, n).2,
        cached_from(s, p, ws, scale, n).1 == page_from(s, p, c, ws, scale).2,
        cached_from(s, p, ws, scale, n).0.i == page_from(s, p, c, ws, scale).0,
    decreases s.text.len() - p.i,
{
    let (q, what) = placed(s, p);
    if q.i > p.i {
        match what {
            Placed::End => {},
            Placed::Newline => {
                law_preloading_caches_what_drawing_does(s, q, c, ws, scale, n);
            },
            Placed::Glyph(gid, x, y) => {
                law_preloading_caches_what_drawing_does(
                    s,
                    q,
                    glyph_ops(c, ws, s.data, s.fi, gid, scale, x as int, y as int),
                    ws_after(ws, s.data, s.fi, gid, scale),
                    scale,
                    n - 1,
                );
            },
        }
    }
}

/// A page takes some of the text that is left, as long as no glyph is wider than the text area
/// and the text does not break off within a character.
pub proof fn law_a_page_takes_text(s: Setting, p: Pen, c: Seq<Op>, ws: WsView, scale: int)
    requires
        p.i < s.text.len() <= usize::MAX,
        p.i + char_len(s.text[p.i as int]) <= s.text.len(),
        p.x == s.left,
        forall|a: u16| #[trigger] (s.pixels)(a) <= s.max_w,
    ensures
        page_from(s, p, c, ws, scale).0 > p.i,
{
    let (q, what) = placed(s, p);
    lemma_page_goes_on(s, q, c, ws, scale);
    if let Placed::Glyph(gid, x, y) = what {
        lemma_page_goes_on(
            s,
            q,
            glyph_ops(c, ws, s.data, s.fi, gid, scale, x as int, y as int),
            ws_after(ws, s.data, s.fi, gid, scale),
            scale,
        );
    }
}

proof fn lemma_page_goes_on(s: Setting, p: Pen, c: Seq<Op>, ws: WsView, scale: int)
    requires
        s.text.len() <= usize::MAX,
    ensures
        page_from(s, p, c, ws, scale).0 >= p.i,
    decreases s.text.len() - p.i,
{
    let (q, what) = placed(s, p);
    if q.i > p.i {
        match what {
            Placed::End => {},
            Placed::Newline => {
                lemma_page_goes_on(s, q, c, ws, scale);
            },
            Placed::Glyph(gid, x, y) => {
                lemma_page_goes_on(
                    s,
                    q,
                    glyph_ops(c, ws, s.data, s.fi, gid, scale, x as int, y as int),
                    ws_after(ws, s.data, s.fi, gid, scale),
                    scale,
                );
            },
        }
    }
}

/// A glyph stands where the pen was, on the same line, where it reaches no further than the text
/// area; else at the beginning of the next line. The pen goes on by its width, and by one character
/// of the text.
pub proof fn law_glyphs_stand_in_a_row(s: Setting, p: Pen)
    requires
        s.text.len() <= usize::MAX,
        -0x4000_0000 <= s.left <= 0x4000_0000,
        -0x4000_0000 <= s.line_h <= 0x4000_0000,
        -0x4000_0000 <= p.x <= 0x4000_0000,
        -0x4000_0000 <= p.y < 0x4000_0000,
        forall|a: u16| 0 <= #[trigger] (s.pixels)(a) < 0x2000_0000,
        p.line < u32::MAX,
    ensures
        placed(s, p).1 matches Placed::Glyph(gid, x, y) ==> {
            let q = placed(s, p).0;
            &&& x == p.x && y == p.y && q.line == p.line || x == s.left && y == p.y + s.line_h
                && q.line == p.line + 1
            &&& q.x == x + (s.pixels)(width_of(s.tables, s.data, s.fi, gid as int) as u16)
            &&& q.y == y
            &&& q.x <= s.left + s.max_w || x == s.left && q.line == p.line + 1
            &&& q.line == p.line + 1 ==> p.x + (s.pixels)(
                width_of(s.tables, s.data, s.fi, gid as int) as u16,
            ) > s.left + s.max_w && q.line < s.max_lines
            &&& p.i < q.i <= p.i + 4
        },
        placed(s, p).1 is Newline ==> {
            let q = placed(s, p).0;
            &&& q.x == s.left && q.y == p.y + s.line_h && q.line == p.line + 1 < s.max_lines
            &&& q.i == p.i + 1 && (s.text[p.i as int] == 10 || s.text[p.i as int] == 13)
        },
{
    if placed(s, p).1 is Newline {
        lemma_line_end(s.text.subrange(p.i as int, p.i + char_len(s.text[p.i as int])));
    }
}

/// A line ends with one byte.
proof fn lemma_line_end(b: Seq<u8>)
    requires
        b.len() > 0,
        b.len() == char_len(b[0]),
        char_of(b) == '\n' || char_of(b) == '\r',
    ensures
        b.len() == 1,
        b[0] == char_of(b) as int,
{
    let c = decode_utf8(b);
    decode_utf8_encode_utf8(b);
    assert(c.len() > 0) by {
        reveal_with_fuel(decode_utf8, 2);
    }
    assert(c =~= seq![c[0]] + c.drop_first());
    lemma_encode_join(seq![c[0]], c.drop_first());
    assert(is_ascii_chars(seq![c[0]]));
    is_ascii_chars_encode_utf8(seq![c[0]]);
    assert(encode_utf8(c)[0] == c[0] as u8);
}

/// A line feed and a carriage return end the line, and are taken; on the last line they end the page.
pub proof fn law_line_ends_end_the_line(s: Setting, p: Pen)
    requires
        p.i < s.text.len() <= usize::MAX,
        s.text[p.i as int] == 10 || s.text[p.i as int] == 13,
    ensures
        p.line + 1 < s.max_lines ==> placed(s, p).1 is Newline,
        p.line + 1 >= s.max_lines ==> placed(s, p).1 is End,
        placed(s, p).0.i == p.i + 1,
{
    let b = s.text.subrange(p.i as int, p.i + 1);
    lemma_one_byte(b);
}

/// One byte of the first half of its range is a character.
proof fn lemma_one_byte(b: Seq<u8>)
    requires
        b.len() == 1,
        b[0] < 0x80,
    ensures
        char_of(b) as int == b[0],
{
    let c = b[0] as char;
    let t = seq![c];
    assert(is_ascii_chars(t));
    is_ascii_chars_encode_utf8(t);
    assert(encode_utf8(t) =~= b);
    encode_utf8_valid_utf8(t);
    encode_utf8_decode_utf8(t);
}

/// The end of the text ends the page, and so does a character that breaks off there; neither is taken.
pub proof fn law_text_ends_the_page(s: Setting, p: Pen)
    requires
        p.i >= s.text.len() || p.i + char_len(s.text[p.i as int]) > s.text.len(),
    ensures
        placed(s, p) == (p, Placed::End),
{
}

/// A page begins in the corner of its area, on its first line, with the first byte of its text.
pub proof fn law_pages_begin_in_the_corner(a: TextArea)
    ensures
        a.start().x == a.left && a.start().y == a.top,
        a.start().line == 0 && a.start().i == 0,
{
}

/// How long a character is, its first byte tells: those of one byte and stray ones are one, and others
/// as long as they have leading ones.
pub proof fn law_first_byte_tells_the_length(b: u8)
    ensures
        b < 0b1000_0000 ==> char_len(b) == 1,
        0b1000_0000 <= b < 0b1100_0000 ==> char_len(b) == 1,
        0b1100_0000 <= b < 0b1110_0000 ==> char_len(b) == 2,
        0b1110_0000 <= b < 0b1111_0000 ==> char_len(b) == 3,
        0b1111_0000 <= b ==> char_len(b) == 4,
{
}

} // verus!
