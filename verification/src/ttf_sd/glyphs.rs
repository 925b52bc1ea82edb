//! Glyphs drawn into bitmaps, and a cache of the last ones.
use vstd::prelude::*;

use crate::bits::row_bytes;
use crate::draw::{Area, Canvas, DrawOp, Op};
use crate::ttf_sd::lookup::place_of;
use crate::ttf_sd::outline::{
    edges, flatten_outline, outline_in, parse_outline, scale_by, Outline, OutlineView, GLYF_BUF_MAX,
};
use crate::ttf_sd::raster::{fill_bitmap, floor_256, picture};
use crate::ttf_sd::tables::{
    font_info, forgotten, readable, reads, tables_kept, window, zeros, CacheView, FontInfo, TableCache,
};

verus! {

/// How many glyphs are cached: enough for the different ones of a full page.
pub const GC_N: usize = 96;

/// The largest cached bitmap, in bytes.
pub const GC_BMP_BYTES: usize = 72;

/// A cached glyph: its size, how far below the top of the line it begins, and its bitmap.
pub struct Slot {
    pub gid: u16,
    pub w: u8,
    pub h: u8,
    pub yoff: i16,
    pub bmp: Vec<u8>,
}

/// A cached glyph as plain values.
pub struct SlotView {
    pub gid: u16,
    pub w: u8,
    pub h: u8,
    pub yoff: i16,
    pub bmp: Seq<u8>,
}

impl View for Slot {
    type V = SlotView;

    open spec fn view(&self) -> SlotView {
        SlotView { gid: self.gid, w: self.w, h: self.h, yoff: self.yoff, bmp: self.bmp@ }
    }
}

/// What is kept while a book is read: font tables, the last glyph read, and drawn glyphs.
pub struct TtfWs {
    pub tables: TableCache,
    pub glyf_buf: Vec<u8>,
    pub slots: Vec<Slot>,
    /// The slot that is replaced next.
    pub gc_next: usize,
    pub fi: Option<FontInfo>,
}

/// The kept data as plain values.
pub struct WsView {
    pub tables: CacheView,
    pub glyf_buf: Seq<u8>,
    pub slots: Seq<SlotView>,
    pub gc_next: int,
    pub fi: Option<FontInfo>,
}

/// The slots as plain values.
pub open spec fn slot_views(s: Seq<Slot>) -> Seq<SlotView> {
    Seq::new(s.len(), |i: int| s[i]@)
}

impl View for TtfWs {
    type V = WsView;

    open spec fn view(&self) -> WsView {
        WsView {
            tables: self.tables@,
            glyf_buf: self.glyf_buf@,
            slots: slot_views(self.slots@),
            gc_next: self.gc_next as int,
            fi: self.fi,
        }
    }
}

impl WsView {
    /// The buffers and the cache have their sizes, and no table is kept of no font.
    pub open spec fn valid(self) -> bool {
        &&& self.tables.valid()
        &&& self.glyf_buf.len() == GLYF_BUF_MAX
        &&& self.slots.len() == GC_N
        &&& 0 <= self.gc_next < GC_N
        &&& self.fi is None ==> self.tables.empty()
    }
}

/// An unused slot.
pub open spec fn empty_slot() -> SlotView {
    SlotView { gid: 0, w: 0, h: 0, yoff: 0, bmp: Seq::new(GC_BMP_BYTES as nat, |i: int| 0u8) }
}

/// The first slot from the `i`-th on that holds the glyph, or the number of slots.
pub open spec fn slot_from(slots: Seq<SlotView>, gid: u16, i: int) -> int
    decreases slots.len() - i,
{
    if 0 <= i < slots.len() && slots[i].gid != gid {
        slot_from(slots, gid, i + 1)
    } else {
        i
    }
}

/// The slot that holds a glyph.
pub open spec fn slot_of(slots: Seq<SlotView>, gid: u16) -> Option<int> {
    let i = slot_from(slots, gid, 0);
    if i < slots.len() {
        Some(i)
    } else {
        None
    }
}

/// The cache after a glyph was stored: it takes the place of the one stored longest ago.
pub open spec fn stored(ws: WsView, slot: SlotView) -> WsView {
    WsView {
        slots: ws.slots.update(ws.gc_next, slot),
        gc_next: (ws.gc_next + 1) % (GC_N as int),
        ..ws
    }
}

/// A buffer after up to `n` bytes at `o` were read into it; where the file ends first, what was
/// there before stays.
pub open spec fn read_over(buf: Seq<u8>, data: Seq<u8>, o: int, n: int) -> Seq<u8> {
    Seq::new(
        buf.len(),
        |i: int|
            if i < n && o + i < data.len() {
                data[o + i]
            } else {
                buf[i]
            },
    )
}

/// How long a glyph is, nought where it ends before it begins.
pub open spec fn glyph_len(p: (int, int)) -> int {
    if p.1 >= p.0 {
        p.1 - p.0
    } else {
        0
    }
}

/// The buffer after a glyph was read into it, where it has a length that fits.
pub open spec fn glyph_read(ws: WsView, data: Seq<u8>, fi: FontInfo, gid: int) -> Seq<u8> {
    let p = place_of(ws.tables, data, fi, gid);
    let n = glyph_len(p);
    if n == 0 || n > GLYF_BUF_MAX {
        ws.glyf_buf
    } else {
        read_over(ws.glyf_buf, data, fi.glyf_off + p.0, n)
    }
}

/// The outline of a glyph.
pub open spec fn glyph_outline(ws: WsView, data: Seq<u8>, fi: FontInfo, gid: int) -> Option<
    OutlineView,
> {
    let n = glyph_len(place_of(ws.tables, data, fi, gid));
    if n == 0 || n > GLYF_BUF_MAX {
        None
    } else {
        outline_in(glyph_read(ws, data, fi, gid))
    }
}

/// So many font units in pixels at a scale, rounded down; a length that thirty-two bits do not hold
/// in 256ths of a pixel wraps.
pub open spec fn pixels_of(units: int, scale: int) -> int {
    (units * scale) as i32 as int / 256
}

/// The width in pixels of an outline at a scale.
pub open spec fn pixel_width(o: OutlineView, scale: int) -> int {
    pixels_of(o.x_max - o.x_min, scale) + 1
}

/// The height in pixels of an outline at a scale.
pub open spec fn pixel_height(o: OutlineView, scale: int) -> int {
    pixels_of(o.y_max - o.y_min, scale) + 1
}

/// How far below the top of the line an outline begins, so that all stand on one base line; as far
/// as sixteen bits hold it.
pub open spec fn drop_of(o: OutlineView, fi: FontInfo, scale: int) -> i16 {
    pixels_of(fi.ascent - o.y_max, scale) as i16
}

/// An outline has an area at a scale, and memory can hold its bitmap.
pub open spec fn can_draw(o: OutlineView, scale: int) -> bool {
    let w = pixel_width(o, scale);
    let h = pixel_height(o, scale);
    w > 0 && h > 0 && h * row_bytes(w) <= usize::MAX
}

/// The bitmap of an outline is small enough to be cached.
pub open spec fn can_cache(o: OutlineView, scale: int) -> bool {
    can_draw(o, scale) && pixel_height(o, scale) * row_bytes(pixel_width(o, scale)) <= GC_BMP_BYTES
}

/// The slot of an outline.
pub open spec fn slot_for(o: OutlineView, fi: FontInfo, gid: u16, scale: int) -> SlotView {
    let w = pixel_width(o, scale);
    let h = pixel_height(o, scale);
    SlotView {
        gid,
        w: (w % 256) as u8,
        h: h as u8,
        yoff: drop_of(o, fi, scale),
        bmp: picture(edges(o, scale), w, h, GC_BMP_BYTES as int),
    }
}

/// The cached bitmap of a slot, drawn where the pen stands.
pub open spec fn slot_op(s: SlotView, x: int, y: int) -> Op {
    Op::Bits(Area { x: x as i32, y: (y + s.yoff) as i32, w: s.w as u32, h: s.h as u32 }, s.bmp)
}

/// A bitmap too large for the cache, drawn where the pen stands.
pub open spec fn large_op(o: OutlineView, fi: FontInfo, scale: int, x: int, y: int) -> Op {
    let w = pixel_width(o, scale);
    let h = pixel_height(o, scale);
    Op::Bits(
        Area { x: x as i32, y: (y + drop_of(o, fi, scale)) as i32, w: w as u32, h: h as u32 },
        picture(edges(o, scale), w, h, h * row_bytes(w)),
    )
}

/// The kept data after a glyph was asked for: it is cached where it can be.
pub open spec fn ws_after(ws: WsView, data: Seq<u8>, fi: FontInfo, gid: u16, scale: int) -> WsView {
    if slot_of(ws.slots, gid) is Some {
        ws
    } else {
        let read = WsView { glyf_buf: glyph_read(ws, data, fi, gid as int), ..ws };
        match glyph_outline(ws, data, fi, gid as int) {
            Some(o) => if can_cache(o, scale) {
                stored(read, slot_for(o, fi, gid, scale))
            } else {
                read
            },
            None => read,
        }
    }
}

/// `c` with a glyph drawn where the pen stands: from the cache where it is there, and otherwise
/// from its outline. A glyph without an outline leaves nothing.
pub open spec fn glyph_ops(
    c: Seq<Op>,
    ws: WsView,
    data: Seq<u8>,
    fi: FontInfo,
    gid: u16,
    scale: int,
    x: int,
    y: int,
) -> Seq<Op> {
    match slot_of(ws.slots, gid) {
        Some(i) => c.push(slot_op(ws.slots[i], x, y)),
        None => match glyph_outline(ws, data, fi, gid as int) {
            Some(o) => if can_cache(o, scale) {
                c.push(slot_op(slot_for(o, fi, gid, scale), x, y))
            } else if can_draw(o, scale) {
                c.push(large_op(o, fi, scale, x, y))
            } else {
                c
            },
            None => c,
        },
    }
}

/// The slot after the one found is the one looked for.
proof fn lemma_slot_from(slots: Seq<SlotView>, gid: u16, i: int)
    requires
        0 <= i <= slots.len(),
    ensures
        i <= slot_from(slots, gid, i) <= slots.len(),
        slot_from(slots, gid, i) < slots.len() ==> slots[slot_from(slots, gid, i)].gid == gid,
        forall|j: int| i <= j < slot_from(slots, gid, i) ==> slots[j].gid != gid,
    decreases slots.len() - i,
{
    if i < slots.len() && slots[i].gid != gid {
        lemma_slot_from(slots, gid, i + 1);
    }
}

/// A glyph that was just stored is found in the cache, and drawing it again draws the same.
pub proof fn law_stored_glyph_is_found(ws: WsView, slot: SlotView)
    requires
        ws.valid(),
        slot_of(ws.slots, slot.gid) is None,
    ensures
        slot_of(stored(ws, slot).slots, slot.gid) == Some(ws.gc_next),
        stored(ws, slot).slots[ws.gc_next] == slot,
{
    let s = stored(ws, slot).slots;
    lemma_slot_from(ws.slots, slot.gid, 0);
    lemma_slot_from(s, slot.gid, 0);
    let i = slot_from(s, slot.gid, 0);
    assert(forall|j: int| 0 <= j < ws.slots.len() ==> ws.slots[j].gid != slot.gid);
    assert(s[ws.gc_next].gid == slot.gid);
    if i != ws.gc_next {
        if i < s.len() {
            assert(s[i].gid == slot.gid);
            assert(s[i] == ws.slots[i]);
        } else {
            assert(s[ws.gc_next].gid != slot.gid);
        }
    }
}

/// A glyph is forgotten only after as many others were stored as the cache holds.
pub proof fn law_cache_replaces_the_oldest(ws: WsView, added: Seq<SlotView>, i: int)
    requires
        ws.valid(),
        added.len() < GC_N,
        0 <= i < GC_N,
        i == (ws.gc_next + GC_N - 1) % (GC_N as int),
    ensures
        all_stored(ws, added).slots[i] == ws.slots[i],
    decreases added.len(),
{
    lemma_all_stored(ws, added);
    lemma_untouched(ws, added, i);
}

/// The cache after several glyphs were stored.
pub open spec fn all_stored(ws: WsView, added: Seq<SlotView>) -> WsView
    decreases added.len(),
{
    if added.len() == 0 {
        ws
    } else {
        stored(all_stored(ws, added.drop_last()), added.last())
    }
}

proof fn lemma_all_stored(ws: WsView, added: Seq<SlotView>)
    requires
        ws.valid(),
    ensures
        all_stored(ws, added).valid(),
        all_stored(ws, added).gc_next == (ws.gc_next + added.len()) % (GC_N as int),
    decreases added.len(),
{
    if added.len() > 0 {
        lemma_all_stored(ws, added.drop_last());
    }
}

proof fn lemma_untouched(ws: WsView, added: Seq<SlotView>, i: int)
    requires
        ws.valid(),
        added.len() < GC_N,
        0 <= i < GC_N,
        i == (ws.gc_next + GC_N - 1) % (GC_N as int),
    ensures
        all_stored(ws, added).slots[i] == ws.slots[i],
    decreases added.len(),
{
    if added.len() > 0 {
        let b = added.drop_last();
        lemma_untouched(ws, b, i);
        lemma_all_stored(ws, b);
        let at = all_stored(ws, b).gc_next;
        assert(at == (ws.gc_next + b.len()) % (GC_N as int));
        assert(at != i);
    }
}

/// So many font units in pixels at a scale.
fn scaled_pixels(units: i32, scale: i32) -> (p: i32)
    ensures
        p == pixels_of(units as int, scale as int),
        -0x80_0000 <= p < 0x80_0000,
{
    floor_256(scale_by(units, scale) as i64) as i32
}

/// A glyph ready to be drawn.
pub enum Drawn {
    /// It has a slot in the cache.
    Cached(usize),
    /// It is too large for the cache.
    Large(u32, u32, i16, Vec<u8>),
    /// There is nothing to draw.
    Nothing,
}

impl TtfWs {
    /// An empty slot.
    fn new_slot() -> (s: Slot)
        ensures
            s@ == empty_slot(),
    {
        Slot { gid: 0, w: 0, h: 0, yoff: 0, bmp: zeros(GC_BMP_BYTES) }
    }

    /// Everything empty.
    pub fn alloc_ws() -> (ws: TtfWs)
        ensures
            ws@.valid(),
            ws@.glyf_buf == Seq::new(GLYF_BUF_MAX as nat, |i: int| 0u8),
            ws@.slots == Seq::new(GC_N as nat, |i: int| empty_slot()),
            ws@.gc_next == 0,
            ws@.fi is None,
            ws@.tables.empty(),
    {
        let mut slots: Vec<Slot> = Vec::new();
        while slots.len() < GC_N
            invariant
                slots@.len() <= GC_N,
                forall|i: int| 0 <= i < slots@.len() ==> (#[trigger] slots@[i])@ == empty_slot(),
            decreases GC_N - slots@.len(),
        {
            slots.push(Self::new_slot());
        }
        let ws = TtfWs {
            tables: TableCache::new(),
            glyf_buf: zeros(GLYF_BUF_MAX),
            slots,
            gc_next: 0,
            fi: None,
        };
        assert(ws@.slots =~= Seq::new(GC_N as nat, |i: int| empty_slot()));
        ws
    }

    /// Empties the cache of drawn glyphs, and forgets the font and its tables where another one is
    /// opened.
    pub fn cache_clear(&mut self, other_font: bool)
        requires
            old(self)@.valid(),
        ensures
            final(self)@ == (WsView {
                slots: Seq::new(GC_N as nat, |i: int| empty_slot()),
                gc_next: 0,
                fi: if other_font {
                    None
                } else {
                    old(self)@.fi
                },
                tables: if other_font {
                    forgotten(old(self)@.tables)
                } else {
                    old(self)@.tables
                },
                ..old(self)@
            }),
            final(self)@.valid(),
    {
        let mut slots: Vec<Slot> = Vec::new();
        while slots.len() < GC_N
            invariant
                slots@.len() <= GC_N,
                forall|i: int| 0 <= i < slots@.len() ==> (#[trigger] slots@[i])@ == empty_slot(),
            decreases GC_N - slots@.len(),
        {
            slots.push(Self::new_slot());
        }
        assert(slot_views(slots@) =~= Seq::new(GC_N as nat, |i: int| empty_slot()));
        self.slots = slots;
        self.gc_next = 0;
        if other_font {
            self.fi = None;
            self.tables.forget();
        }
    }

    /// What the font says of itself: read once, then remembered. Once it is known the file is not
    /// read again: nothing is asked of `read` then, so it may not even be callable.
    pub fn open_font<R: Fn(u32, usize) -> Vec<u8>>(&mut self, read: &R) -> (fi: Option<FontInfo>)
        requires
            old(self)@.fi is None ==> readable(*read),
            old(self)@.valid(),
        ensures
            final(self)@.valid(),
            final(self)@.fi == fi,
            old(self)@.fi is Some ==> fi == old(self)@.fi && final(self)@ == old(self)@,
            fi is None ==> final(self)@ == old(self)@,
            old(self)@.fi is None ==> forall|d: Seq<u8>| #[trigger]
                reads(*read, d) ==> fi == font_info(d) && (fi is Some ==> final(self)@ == (WsView {
                    tables: tables_kept(old(self)@.tables, d, fi->0),
                    fi,
                    ..old(self)@
                })),
    {
        if let Some(fi) = self.fi {
            return Some(fi);
        }
        let fi = self.tables.parse_font_info(read);
        if fi.is_some() {
            self.fi = fi;
        }
        fi
    }

    /// The slot that holds a glyph.
    pub fn cache_lookup(&self, gid: u16) -> (s: Option<usize>)
        requires
            self@.valid(),
        ensures
            s is Some <==> slot_of(self@.slots, gid) is Some,
            s is Some ==> s->0 == slot_of(self@.slots, gid)->0 && s->0 < GC_N,
    {
        let mut i: usize = 0;
        while i < self.slots.len()
            invariant
                i <= self.slots@.len(),
                self@.slots.len() == self.slots@.len(),
                self.slots@.len() == GC_N,
                slot_from(self@.slots, gid, 0) == slot_from(self@.slots, gid, i as int),
            decreases self.slots@.len() - i,
        {
            assert(self@.slots[i as int] == self.slots@[i as int]@);
            if self.slots[i].gid == gid {
                return Some(i);
            }
            i += 1;
        }
        None
    }

    /// Stores a glyph in place of the one stored longest ago.
    pub fn cache_store(&mut self, slot: Slot) -> (i: usize)
        requires
            old(self)@.valid(),
        ensures
            final(self)@ == stored(old(self)@, slot@),
            i == old(self)@.gc_next,
            final(self)@.valid(),
    {
        let i: usize = self.gc_next;
        self.gc_next = (i + 1) % GC_N;
        self.slots.set(i, slot);
        assert(self@.slots =~= old(self)@.slots.update(i as int, slot@));
        i
    }

    /// Reads the outline of a glyph.
    fn parse_glyph<R: Fn(u32, usize) -> Vec<u8>>(&mut self, read: &R, fi: &FontInfo, gid: u16) -> (o: Option<
        Outline,
    >)
        requires
            readable(*read),
            old(self)@.valid(),
        ensures
            final(self)@.valid(),
            o matches Some(o) ==> o.well_formed(),
            final(self)@ == (WsView { glyf_buf: final(self)@.glyf_buf, ..old(self)@ }),
            forall|d: Seq<u8>| #[trigger]
                reads(*read, d) ==> {
                    &&& final(self)@.glyf_buf == glyph_read(old(self)@, d, *fi, gid as int)
                    &&& match o {
                        Some(o) => glyph_outline(old(self)@, d, *fi, gid as int) == Some(o@),
                        None => glyph_outline(old(self)@, d, *fi, gid as int) is None,
                    }
                },
    {
        let (a, b): (u32, u32) = self.tables.glyph_place(read, fi, gid);
        let n: u32 = if b >= a {
            b - a
        } else {
            0
        };
        if n == 0 || n as usize > GLYF_BUF_MAX {
            return None;
        }
        let at: u64 = fi.glyf_off as u64 + a as u64;
        let got: Vec<u8> = if at <= u32::MAX as u64 {
            read(at as u32, n as usize)
        } else {
            Vec::new()
        };
        let ghost before = self.glyf_buf@;
        let mut k: usize = 0;
        while k < n as usize && k < got.len()
            invariant
                k <= n <= GLYF_BUF_MAX,
                k <= got@.len(),
                self.glyf_buf@.len() == GLYF_BUF_MAX,
                before.len() == GLYF_BUF_MAX,
                forall|i: int|
                    0 <= i < GLYF_BUF_MAX ==> self.glyf_buf@[i] == (if i < k {
                        got@[i]
                    } else {
                        before[i]
                    }),
                *self == (TtfWs { glyf_buf: self.glyf_buf, ..*old(self) }),
            decreases n - k,
        {
            let x: u8 = got[k];
            self.glyf_buf.set(k, x);
            k += 1;
        }
        proof {
            assert forall|d: Seq<u8>| #[trigger] reads(*read, d) implies self.glyf_buf@
                == glyph_read(old(self)@, d, *fi, gid as int) by {
                if at <= u32::MAX {
                    assert(got@ == window(d, at as int, n as int));
                }
                assert(self.glyf_buf@ =~= read_over(before, d, at as int, n as int));
            }
        }
        parse_outline(&self.glyf_buf)
    }

    /// Makes a glyph ready to be drawn, and caches it where it can be.
    fn prepare<R: Fn(u32, usize) -> Vec<u8>>(
        &mut self,
        read: &R,
        fi: &FontInfo,
        gid: u16,
        scale: i32,
    ) -> (r: Drawn)
        requires
            readable(*read),
            old(self)@.valid(),
        ensures
            final(self)@.valid(),
            r matches Drawn::Cached(i) ==> i < GC_N,
            forall|d: Seq<u8>, c: Seq<Op>, x: int, y: int|
                #![trigger reads(*read, d), glyph_ops(c, old(self)@, d, *fi, gid, scale as int, x, y)]
                reads(*read, d) ==> glyph_ops(c, old(self)@, d, *fi, gid, scale as int, x, y) == (
                match r {
                    Drawn::Cached(i) => c.push(slot_op(final(self)@.slots[i as int], x, y)),
                    Drawn::Large(w, h, drop, bmp) => c.push(
                        Op::Bits(Area { x: x as i32, y: (y + drop) as i32, w, h }, bmp@),
                    ),
                    Drawn::Nothing => c,
                }),
            forall|d: Seq<u8>| #[trigger]
                reads(*read, d) ==> final(self)@ == ws_after(
                    old(self)@,
                    d,
                    *fi,
                    gid,
                    scale as int,
                ),
    {
        if let Some(i) = self.cache_lookup(gid) {
            return Drawn::Cached(i);
        }
        let o = match self.parse_glyph(read, fi, gid) {
            Some(o) => o,
            None => {
                return Drawn::Nothing;
            },
        };
        let segs = flatten_outline(&o, scale);
        let drop: i16 = scaled_pixels(fi.ascent as i32 - o.y_max as i32, scale) as i16;
        let w: i32 = scaled_pixels(o.x_max as i32 - o.x_min as i32, scale) + 1;
        let h: i32 = scaled_pixels(o.y_max as i32 - o.y_min as i32, scale) + 1;
        if w <= 0 || h <= 0 {
            return Drawn::Nothing;
        }
        let (w, h): (u32, u32) = (w as u32, h as u32);
        let rb: u32 = (w + 7) / 8;
        assert(0 <= h * rb <= 0x80_0000 * 0x80_0000) by (nonlinear_arith)
            requires
                0 <= h <= 0x80_0000,
                0 <= rb <= 0x80_0000,
        ;
        let size: u64 = h as u64 * rb as u64;
        if size > usize::MAX as u64 {
            return Drawn::Nothing;
        }
        if size <= GC_BMP_BYTES as u64 {
            assert(h <= 72) by (nonlinear_arith)
                requires
                    h * rb <= 72,
                    rb >= 1,
                    h >= 0,
            ;
            let bmp = fill_bitmap(&segs, w, h, GC_BMP_BYTES);
            let slot = Slot {
                gid,
                w: (w % 256) as u8,
                h: h as u8,
                yoff: drop,
                bmp,
            };
            let i: usize = self.cache_store(slot);
            Drawn::Cached(i)
        } else {
            let bmp = fill_bitmap(&segs, w, h, 0);
            Drawn::Large(w, h, drop, bmp)
        }
    }

    /// Draws a glyph where the pen stands.
    pub fn draw_glyph<R: Fn(u32, usize) -> Vec<u8>>(
        &mut self,
        read: &R,
        fi: &FontInfo,
        gid: u16,
        scale: i32,
        c: &mut Canvas,
        x: i32,
        y: i32,
    )
        requires
            readable(*read),
            old(self)@.valid(),
            i32::MIN <= y - 0x8000,
            y + 0x8000 <= i32::MAX,
        ensures
            final(self)@.valid(),
            forall|d: Seq<u8>| #[trigger]
                reads(*read, d) ==> {
                    &&& final(c)@ == glyph_ops(
                        old(c)@,
                        old(self)@,
                        d,
                        *fi,
                        gid,
                        scale as int,
                        x as int,
                        y as int,
                    )
                    &&& final(self)@ == ws_after(old(self)@, d, *fi, gid, scale as int)
                },
    {
        let r = self.prepare(read, fi, gid, scale);
        let ghost before = c@;
        match r {
            Drawn::Cached(i) => {
                let s = &self.slots[i];
                assert(self@.slots[i as int] == s@);
                let mut bmp: Vec<u8> = Vec::new();
                let mut k: usize = 0;
                while k < s.bmp.len()
                    invariant
                        k <= s.bmp@.len(),
                        bmp@ =~= s.bmp@.take(k as int),
                    decreases s.bmp@.len() - k,
                {
                    bmp.push(s.bmp[k]);
                    k += 1;
                }
                assert(bmp@ =~= s.bmp@);
                c.add_op(
                    DrawOp::Bits(
                        Area { x, y: y + s.yoff as i32, w: s.w as u32, h: s.h as u32 },
                        bmp,
                    ),
                );
                assert(c@ == before.push(slot_op(self@.slots[i as int], x as int, y as int)));
            },
            Drawn::Large(w, h, drop, bmp) => {
                c.add_op(DrawOp::Bits(Area { x, y: y + drop as i32, w, h }, bmp));
            },
            Drawn::Nothing => {},
        }
        proof {
            assert forall|d: Seq<u8>| #[trigger] reads(*read, d) implies c@ == glyph_ops(
                before,
                old(self)@,
                d,
                *fi,
                gid,
                scale as int,
                x as int,
                y as int,
            ) by {}
        }
    }

    /// Caches a glyph without drawing it.
    pub fn preload_glyph<R: Fn(u32, usize) -> Vec<u8>>(
        &mut self,
        read: &R,
        fi: &FontInfo,
        gid: u16,
        scale: i32,
    )
        requires
            readable(*read),
            old(self)@.valid(),
        ensures
            final(self)@.valid(),
            forall|d: Seq<u8>| #[trigger]
                reads(*read, d) ==> final(self)@ == ws_after(
                    old(self)@,
                    d,
                    *fi,
                    gid,
                    scale as int,
                ),
    {
        let _ = self.prepare(read, fi, gid, scale);
    }
}

/// A glyph has as many pixels as its units take at the scale, begun ones too; and all glyphs of a
/// line stand on one base line: what is left above a glyph is what its top falls short of the
/// font's height.
pub proof fn law_glyphs_have_their_size(o: OutlineView, fi: FontInfo, scale: int)
    requires
        0 <= scale,
        0 <= (o.x_max - o.x_min) * scale <= 0x7fff_ffff,
        0 <= (o.y_max - o.y_min) * scale <= 0x7fff_ffff,
        -0x80_0000 <= (fi.ascent - o.y_max) * scale < 0x80_0000,
    ensures
        256 * (pixel_width(o, scale) - 1) <= (o.x_max - o.x_min) * scale < 256 * pixel_width(o, scale),
        256 * (pixel_height(o, scale) - 1) <= (o.y_max - o.y_min) * scale < 256 * pixel_height(o, scale),
        256 * drop_of(o, fi, scale) <= (fi.ascent - o.y_max) * scale < 256 * (drop_of(o, fi, scale) + 1),
{
}

/// A glyph that is not cached yet is drawn where the pen stands, as far below the top of the line as
/// its top falls short, in its own size, and with its own picture.
pub proof fn law_glyphs_are_drawn_at_the_pen(
    c: Seq<Op>,
    ws: WsView,
    data: Seq<u8>,
    fi: FontInfo,
    gid: u16,
    scale: int,
    x: i32,
    y: i32,
    o: OutlineView,
)
    requires
        slot_of(ws.slots, gid) is None,
        glyph_outline(ws, data, fi, gid as int) == Some(o),
        can_draw(o, scale),
        pixel_width(o, scale) < 256,
        pixel_height(o, scale) < 256,
        i32::MIN <= y - 0x8000,
        y + 0x8000 <= i32::MAX,
    ensures
        ({
            let r = glyph_ops(c, ws, data, fi, gid, scale, x as int, y as int);
            &&& r.len() == c.len() + 1
            &&& r.drop_last() == c
            &&& r.last() matches Op::Bits(a, bmp) && {
                &&& a.x == x
                &&& a.y == y + drop_of(o, fi, scale)
                &&& a.w == pixel_width(o, scale)
                &&& a.h == pixel_height(o, scale)
                &&& bmp == picture(
                    edges(o, scale),
                    pixel_width(o, scale),
                    pixel_height(o, scale),
                    bmp.len() as int,
                )
            }
        }),
{
    let r = glyph_ops(c, ws, data, fi, gid, scale, x as int, y as int);
    assert(r.drop_last() =~= c);
    if can_cache(o, scale) {
        let w = pixel_width(o, scale);
        let h = pixel_height(o, scale);
        assert(w % 256 == w);
    }
}

/// A glyph is read from its place among the glyphs of the font.
pub proof fn law_glyphs_are_read_from_their_place(
    ws: WsView,
    data: Seq<u8>,
    fi: FontInfo,
    gid: int,
    i: int,
)
    requires
        ws.valid(),
        ({
            let p = place_of(ws.tables, data, fi, gid);
            &&& 0 <= p.0 && 0 <= i < p.1 - p.0 <= GLYF_BUF_MAX
            &&& fi.glyf_off + p.1 <= data.len()
        }),
    ensures
        glyph_read(ws, data, fi, gid)[i] == data[fi.glyf_off + place_of(ws.tables, data, fi, gid).0 + i],
{
}

/// A glyph that is asked for is in the cache afterwards where it is small enough; one that was there
/// changes nothing, and one too large is not cached.
pub proof fn law_small_glyphs_are_cached(
    ws: WsView,
    data: Seq<u8>,
    fi: FontInfo,
    gid: u16,
    scale: int,
)
    requires
        ws.valid(),
    ensures
        slot_of(ws.slots, gid) is Some ==> ws_after(ws, data, fi, gid, scale) == ws,
        slot_of(ws.slots, gid) is None ==> ({
            let a = ws_after(ws, data, fi, gid, scale);
            let o = glyph_outline(ws, data, fi, gid as int);
            &&& o matches Some(o) ==> can_cache(o, scale) ==> slot_of(a.slots, gid) is Some
                && a.slots[slot_of(a.slots, gid)->0] == slot_for(o, fi, gid, scale)
            &&& o matches Some(o) ==> !can_cache(o, scale) ==> a.slots == ws.slots
            &&& o is None ==> a.slots == ws.slots
            &&& a.tables == ws.tables && a.fi == ws.fi
        }),
{
    if slot_of(ws.slots, gid) is None {
        if let Some(o) = glyph_outline(ws, data, fi, gid as int) {
            if can_cache(o, scale) {
                let read = WsView { glyf_buf: glyph_read(ws, data, fi, gid as int), ..ws };
                assert(read.valid());
                law_stored_glyph_is_found(read, slot_for(o, fi, gid, scale));
            }
        }
    }
}

/// A glyph that takes no bytes has no outline, and one that takes too many is not drawn.
pub proof fn law_empty_glyphs_have_no_outline(ws: WsView, data: Seq<u8>, fi: FontInfo, gid: int)
    ensures
        ({
            let p = place_of(ws.tables, data, fi, gid);
            &&& p.1 <= p.0 ==> glyph_outline(ws, data, fi, gid) is None
            &&& p.1 - p.0 > 1024 ==> glyph_outline(ws, data, fi, gid) is None
            &&& 0 < p.1 - p.0 <= 1024 ==> glyph_outline(ws, data, fi, gid) == outline_in(
                glyph_read(ws, data, fi, gid),
            )
        }),
{
}

/// A bitmap of up to seventy-two bytes is cached, and with its own size.
pub proof fn law_bitmaps_are_cached_up_to_their_size(o: OutlineView, fi: FontInfo, gid: u16, scale: int)
    requires
        can_draw(o, scale),
    ensures
        can_cache(o, scale) <==> pixel_height(o, scale) * row_bytes(pixel_width(o, scale)) <= 72,
        pixel_width(o, scale) < 256 && pixel_height(o, scale) < 256 ==> ({
            let s = slot_for(o, fi, gid, scale);
            &&& s.gid == gid
            &&& s.w == pixel_width(o, scale)
            &&& s.h == pixel_height(o, scale)
            &&& s.yoff == drop_of(o, fi, scale)
            &&& s.bmp.len() == 72
        }),
{
}

} // verus!
