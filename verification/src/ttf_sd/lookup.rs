//! Finding the glyph of a character, its width and its place in the file.
use vstd::prelude::*;

use crate::ttf_sd::glyphs::WsView;
use crate::ttf_sd::outline::signed16;
use crate::ttf_sd::tables::{
    byte, kept, num16, num32, readable, reads, tables_kept, u16_at, u32_at, CacheView, FontInfo,
    TableCache,
};

verus! {

/// Two bytes of a kept table.
fn table16(t: &Vec<u8>, o: u64) -> (v: u16)
    requires
        o <= 0x1_0000_0000_0000,
    ensures
        v == num16(t@, o as int),
{
    let n: u64 = t.len() as u64;
    let hi: u8 = if o < n {
        t[o as usize]
    } else {
        0
    };
    let lo: u8 = if o + 1 < n {
        t[(o + 1) as usize]
    } else {
        0
    };
    (hi as u16) * 256 + lo as u16
}

/// Four bytes of a kept table.
fn table32(t: &Vec<u8>, o: u64) -> (v: u32)
    requires
        o <= 0x8000_0000_0000,
    ensures
        v == num32(t@, o as int),
{
    (table16(t, o) as u32) * 65536 + table16(t, o + 2) as u32
}

/// A group of a format 12 map: its first and last character, and the glyph of the first.
pub open spec fn group(m: Seq<u8>, i: int) -> (int, int, int) {
    let g = 16 + 12 * i;
    (num32(m, g), num32(m, g + 4), num32(m, g + 8))
}

/// The glyph of `c` by halving the groups from `lo` to `hi`.
pub open spec fn group_search(m: Seq<u8>, c: int, lo: int, hi: int) -> int
    decreases hi - lo + 1,
{
    if lo > hi || lo < 0 {
        0
    } else {
        let k = (lo + hi) / 2;
        let (st, en, sg) = group(m, k);
        if c < st {
            group_search(m, c, lo, k - 1)
        } else if c > en {
            group_search(m, c, k + 1, hi)
        } else {
            (sg + c - st) % 65536
        }
    }
}

/// The groups of a map ascend and do not overlap.
pub open spec fn groups_ascend(m: Seq<u8>, n: int) -> bool {
    &&& forall|i: int| 0 <= i < n ==> (#[trigger] group(m, i)).0 <= group(m, i).1
    &&& forall|i: int, j: int|
        0 <= i < j < n ==> (#[trigger] group(m, i)).1 < (#[trigger] group(m, j)).0
}

/// In an ordered map every character of a group has its glyph, and the others have none.
pub proof fn law_ordered_groups_are_found(m: Seq<u8>, c: int, lo: int, hi: int, n: int)
    requires
        groups_ascend(m, n),
        0 <= lo,
        hi < n,
    ensures
        forall|i: int|
            lo <= i <= hi && (#[trigger] group(m, i)).0 <= c <= group(m, i).1 ==> group_search(
                m,
                c,
                lo,
                hi,
            ) == (group(m, i).2 + c - group(m, i).0) % 65536,
        (forall|i: int| lo <= i <= hi ==> !((#[trigger] group(m, i)).0 <= c <= group(m, i).1))
            ==> group_search(m, c, lo, hi) == 0,
    decreases hi - lo + 1,
{
    if lo <= hi {
        let k = (lo + hi) / 2;
        let g = group(m, k);
        if c < g.0 {
            law_ordered_groups_are_found(m, c, lo, k - 1, n);
            assert forall|i: int| lo <= i <= hi && (#[trigger] group(m, i)).0 <= c <= group(m, i).1 implies i <= k - 1 by {
                if i > k {
                    assert(group(m, k).1 < group(m, i).0);
                }
            }
        } else if c > g.1 {
            law_ordered_groups_are_found(m, c, k + 1, hi, n);
            assert forall|i: int| lo <= i <= hi && (#[trigger] group(m, i)).0 <= c <= group(m, i).1 implies i >= k + 1 by {
                if i < k {
                    assert(group(m, i).1 < group(m, k).0);
                }
            }
        } else {
            assert forall|i: int| lo <= i <= hi && (#[trigger] group(m, i)).0 <= c <= group(m, i).1 implies i == k by {
                if i < k {
                    assert(group(m, i).1 < group(m, k).0);
                } else if i > k {
                    assert(group(m, k).1 < group(m, i).0);
                }
            }
        }
    }
}

/// The first segment of a format 4 map, from the `i`-th on, that ends at `c` or after it.
pub open spec fn segment_of(m: Seq<u8>, n: int, c: int, i: int) -> int
    decreases n - i,
{
    if 0 <= i < n && num16(m, 14 + 2 * i) < c {
        segment_of(m, n, c, i + 1)
    } else {
        i
    }
}

/// The glyph of `c` in a format 4 map.
pub open spec fn segment_search(m: Seq<u8>, c: int) -> int {
    let n = num16(m, 6) / 2;
    let starts = 14 + 2 * n + 2;
    let deltas = starts + 2 * n;
    let ranges = deltas + 2 * n;
    let i = segment_of(m, n, c, 0);
    let start = num16(m, starts + 2 * i);
    let delta = signed16(num16(m, deltas + 2 * i));
    let range = num16(m, ranges + 2 * i);
    if i >= n || start > c {
        0
    } else if range == 0 {
        (c + delta) % 65536
    } else {
        let gid = num16(m, ranges + 2 * i + range + 2 * (c - start));
        if gid == 0 {
            0
        } else {
            (gid + delta) % 65536
        }
    }
}

/// The glyph of a character; nought where the font has none.
pub open spec fn glyph_of(c: CacheView, fi: FontInfo, ch: char) -> int {
    if fi.cmap_fmt == 12 {
        group_search(c.cmap, ch as int, 0, num32(c.cmap, 12) - 1)
    } else if fi.cmap_fmt == 4 {
        segment_search(c.cmap, ch as int)
    } else {
        0
    }
}

/// The entry of the widths that a glyph has: those beyond the last share it.
pub open spec fn width_entry(fi: FontInfo, gid: int) -> int {
    if gid < fi.num_h_metrics {
        gid
    } else {
        fi.num_h_metrics - 1
    }
}

/// The width of a glyph in font units, out of the kept table where it is there.
pub open spec fn width_of(c: CacheView, data: Seq<u8>, fi: FontInfo, gid: int) -> int {
    let o = 4 * width_entry(fi, gid);
    if fi.num_h_metrics == 0 {
        0
    } else if c.hmtx_len > 0 && o + 2 <= c.hmtx_len {
        num16(c.hmtx, o)
    } else {
        num16(data, fi.hmtx_off + o)
    }
}

/// Where a glyph begins and ends in the table of glyphs, out of the kept table where it is there.
pub open spec fn place_of(c: CacheView, data: Seq<u8>, fi: FontInfo, gid: int) -> (int, int) {
    if fi.loc_fmt == 1 {
        if c.loca_len > 0 && 4 * gid + 8 <= c.loca_len {
            (num32(c.loca, 4 * gid), num32(c.loca, 4 * gid + 4))
        } else {
            (num32(data, fi.loca_off + 4 * gid), num32(data, fi.loca_off + 4 * gid + 4))
        }
    } else {
        if c.loca_len > 0 && 2 * gid + 4 <= c.loca_len {
            (num16(c.loca, 2 * gid) * 2, num16(c.loca, 2 * gid + 2) * 2)
        } else {
            (num16(data, fi.loca_off + 2 * gid) * 2, num16(data, fi.loca_off + 2 * gid + 2) * 2)
        }
    }
}

/// Keeping tables in memory changes no width and no place: whatever was kept before, what is
/// looked up once a font was opened is what its file says.
pub proof fn law_kept_tables_tell_the_file(ws: WsView, data: Seq<u8>, fi: FontInfo, gid: int)
    requires
        ws.valid(),
        ws.fi is None,
        gid >= 0,
    ensures
        fi.num_h_metrics > 0 ==> width_of(tables_kept(ws.tables, data, fi), data, fi, gid)
            == num16(data, fi.hmtx_off + 4 * width_entry(fi, gid)),
        place_of(tables_kept(ws.tables, data, fi), data, fi, gid) == (if fi.loc_fmt == 1 {
            (num32(data, fi.loca_off + 4 * gid), num32(data, fi.loca_off + 4 * gid + 4))
        } else {
            (num16(data, fi.loca_off + 2 * gid) * 2, num16(data, fi.loca_off + 2 * gid + 2) * 2)
        }),
{
    let k = tables_kept(ws.tables, data, fi);
    assert forall|i: int| 0 <= i < k.hmtx_len implies byte(k.hmtx, i) == byte(
        data,
        fi.hmtx_off + i,
    ) by {}
    assert forall|i: int| 0 <= i < k.loca_len implies byte(k.loca, i) == byte(
        data,
        fi.loca_off + i,
    ) by {}
}

/// The sixteen low bits of a sum.
fn low_bits(v: i64) -> (r: u16)
    requires
        -32768 <= v <= 0x20_0000,
    ensures
        r == v as int % 65536,
{
    if v < 0 {
        (v + 65536) as u16
    } else {
        (v % 65536) as u16
    }
}

impl TableCache {
    /// The glyph of `c` in a format 12 map.
    fn search_groups(&self, c: u32) -> (gid: u16)
        ensures
            gid == group_search(self@.cmap, c as int, 0, num32(self@.cmap, 12) - 1),
    {
        let n: u32 = table32(&self.cmap_cache, 12);
        let mut lo: i64 = 0;
        let mut hi: i64 = n as i64 - 1;
        while lo <= hi
            invariant
                0 <= lo <= 0x1_0000_0000,
                -1 <= hi < 0x1_0000_0000,
                group_search(self@.cmap, c as int, 0, num32(self@.cmap, 12) - 1) == group_search(
                    self@.cmap,
                    c as int,
                    lo as int,
                    hi as int,
                ),
            decreases hi - lo + 1,
        {
            let k: i64 = (lo + hi) / 2;
            let g: u64 = 16 + 12 * k as u64;
            let st: u32 = table32(&self.cmap_cache, g);
            let en: u32 = table32(&self.cmap_cache, g + 4);
            let sg: u32 = table32(&self.cmap_cache, g + 8);
            if c < st {
                hi = k - 1;
            } else if c > en {
                lo = k + 1;
            } else {
                return ((sg as u64 + c as u64 - st as u64) % 65536) as u16;
            }
        }
        0
    }

    /// The glyph of `c` in a format 4 map.
    fn search_segments(&self, c: u32) -> (gid: u16)
        requires
            c <= 0x10_ffff,
        ensures
            gid == segment_search(self@.cmap, c as int),
    {
        let t = &self.cmap_cache;
        let n: u64 = table16(t, 6) as u64 / 2;
        let mut i: u64 = 0;
        while i < n && (table16(t, 14 + 2 * i) as u32) < c
            invariant
                i <= n <= 0x8000,
                t@ == self@.cmap,
                segment_of(t@, n as int, c as int, 0) == segment_of(
                    t@,
                    n as int,
                    c as int,
                    i as int,
                ),
            decreases n - i,
        {
            i += 1;
        }
        if i >= n {
            return 0;
        }
        let starts: u64 = 14 + 2 * n + 2;
        let deltas: u64 = starts + 2 * n;
        let ranges: u64 = deltas + 2 * n;
        let start: u32 = table16(t, starts + 2 * i) as u32;
        if start > c {
            return 0;
        }
        let raw: u16 = table16(t, deltas + 2 * i);
        let delta: i64 = if raw < 32768 {
            raw as i64
        } else {
            raw as i64 - 65536
        };
        let range: u16 = table16(t, ranges + 2 * i);
        if range == 0 {
            return low_bits(c as i64 + delta);
        }
        let gid: u16 = table16(t, ranges + 2 * i + range as u64 + 2 * (c - start) as u64);
        if gid == 0 {
            0
        } else {
            low_bits(gid as i64 + delta)
        }
    }

    /// The glyph of a character.
    pub fn char_to_gid(&self, fi: &FontInfo, ch: char) -> (gid: u16)
        ensures
            gid == glyph_of(self@, *fi, ch),
    {
        let c: u32 = ch as u32;
        if fi.cmap_fmt == 12 {
            self.search_groups(c)
        } else if fi.cmap_fmt == 4 {
            self.search_segments(c)
        } else {
            0
        }
    }

    /// The width of a glyph in font units.
    pub fn advance<R: Fn(u32, usize) -> Vec<u8>>(&self, read: &R, fi: &FontInfo, gid: u16) -> (w: u16)
        requires
            readable(*read),
            self@.valid(),
        ensures
            forall|d: Seq<u8>| #[trigger]
                reads(*read, d) ==> w == width_of(self@, d, *fi, gid as int),
    {
        let idx: u64 = if gid < fi.num_h_metrics {
            gid as u64
        } else if fi.num_h_metrics > 0 {
            fi.num_h_metrics as u64 - 1
        } else {
            return 0;
        };
        let o: u64 = idx * 4;
        if self.hmtx_len > 0 && o + 2 <= self.hmtx_len as u64 {
            table16(&self.hmtx_cache, o)
        } else {
            u16_at(read, fi.hmtx_off as u64 + o)
        }
    }

    /// Where a glyph begins and ends in the table of glyphs.
    pub fn glyph_place<R: Fn(u32, usize) -> Vec<u8>>(&self, read: &R, fi: &FontInfo, gid: u16) -> (p: (
        u32,
        u32,
    ))
        requires
            readable(*read),
            self@.valid(),
        ensures
            forall|d: Seq<u8>| #[trigger]
                reads(*read, d) ==> (p.0 as int, p.1 as int) == place_of(
                    self@,
                    d,
                    *fi,
                    gid as int,
                ),
    {
        if fi.loc_fmt == 1 {
            let o: u64 = gid as u64 * 4;
            if self.loca_len > 0 && o + 8 <= self.loca_len as u64 {
                (table32(&self.loca_cache, o), table32(&self.loca_cache, o + 4))
            } else {
                (
                    u32_at(read, fi.loca_off as u64 + o),
                    u32_at(read, fi.loca_off as u64 + o + 4),
                )
            }
        } else {
            let o: u64 = gid as u64 * 2;
            if self.loca_len > 0 && o + 4 <= self.loca_len as u64 {
                (
                    table16(&self.loca_cache, o) as u32 * 2,
                    table16(&self.loca_cache, o + 2) as u32 * 2,
                )
            } else {
                (
                    u16_at(read, fi.loca_off as u64 + o) as u32 * 2,
                    u16_at(read, fi.loca_off as u64 + o + 2) as u32 * 2,
                )
            }
        }
    }
}

proof fn lemma_segment_of(m: Seq<u8>, n: int, c: int, i: int, k: int)
    requires
        0 <= i <= k < n,
        forall|j: int| i <= j < k ==> #[trigger] num16(m, 14 + 2 * j) < c,
        num16(m, 14 + 2 * k) >= c,
    ensures
        segment_of(m, n, c, i) == k,
    decreases k - i,
{
    if i < k {
        assert(num16(m, 14 + 2 * i) < c);
        lemma_segment_of(m, n, c, i + 1, k);
    }
}

proof fn lemma_no_segment(m: Seq<u8>, n: int, c: int, i: int)
    requires
        0 <= i <= n,
        forall|j: int| i <= j < n ==> #[trigger] num16(m, 14 + 2 * j) < c,
    ensures
        segment_of(m, n, c, i) == n,
    decreases n - i,
{
    if i < n {
        assert(num16(m, 14 + 2 * i) < c);
        lemma_no_segment(m, n, c, i + 1);
    }
}

/// In a map of segments a character belongs to the first segment that does not end before it. Where
/// that segment begins after it, it has no glyph; where the segment has no list, its glyph is as
/// far on as the segment says, going round at 65536; and otherwise the list tells.
pub proof fn law_characters_are_found_in_their_segment(m: Seq<u8>, c: int, n: int, k: int)
    requires
        n == num16(m, 6) / 2,
        0 <= k < n,
        0 <= c,
        forall|j: int| 0 <= j < k ==> #[trigger] num16(m, 14 + 2 * j) < c,
        num16(m, 14 + 2 * k) >= c,
    ensures
        ({
            let start = num16(m, 16 + 2 * n + 2 * k);
            let delta = num16(m, 16 + 4 * n + 2 * k);
            let list = num16(m, 16 + 6 * n + 2 * k);
            let listed = num16(m, 16 + 6 * n + 2 * k + list + 2 * (c - start));
            let gid = segment_search(m, c);
            &&& 0 <= gid < 65536
            &&& start > c ==> gid == 0
            &&& start <= c && list == 0 ==> (gid - c - delta) % 65536 == 0
            &&& start <= c && list != 0 && listed == 0 ==> gid == 0
            &&& start <= c && list != 0 && listed != 0 ==> (gid - listed - delta) % 65536 == 0
        }),
{
    lemma_segment_of(m, n, c, 0, k);
}

/// A character behind the last segment has no glyph.
pub proof fn law_characters_behind_the_last_segment_have_none(m: Seq<u8>, c: int)
    requires
        forall|j: int| 0 <= j < num16(m, 6) / 2 ==> #[trigger] num16(m, 14 + 2 * j) < c,
    ensures
        segment_search(m, c) == 0,
{
    lemma_no_segment(m, num16(m, 6) / 2, c, 0);
}

/// A glyph ends where the next one begins, and places in two bytes count twice.
pub proof fn law_glyphs_follow_one_another(c: CacheView, data: Seq<u8>, fi: FontInfo, gid: int)
    requires
        gid >= 0,
        c.loca_len == 0,
    ensures
        place_of(c, data, fi, gid).1 == place_of(c, data, fi, gid + 1).0,
        fi.loc_fmt != 1 ==> place_of(c, data, fi, gid).0 % 2 == 0,
        fi.loc_fmt == 1 ==> place_of(c, data, fi, 0).0 == num32(data, fi.loca_off as int),
        fi.loc_fmt != 1 ==> place_of(c, data, fi, 0).0 == 2 * num16(data, fi.loca_off as int),
{
}

/// Every glyph from the last one with a width of its own on is as wide as that one.
pub proof fn law_last_width_goes_on(c: CacheView, data: Seq<u8>, fi: FontInfo, gid: int)
    requires
        fi.num_h_metrics > 0,
        gid >= fi.num_h_metrics - 1,
    ensures
        width_of(c, data, fi, gid) == width_of(c, data, fi, fi.num_h_metrics - 1),
        c.hmtx_len == 0 ==> width_of(c, data, fi, 0) == num16(data, fi.hmtx_off as int),
{
}

/// A font is read by the form of its map: in groups, in segments, or not at all.
pub proof fn law_maps_are_read_by_their_form(c: CacheView, fi: FontInfo, ch: char)
    ensures
        fi.cmap_fmt == 12 ==> glyph_of(c, fi, ch) == group_search(
            c.cmap,
            ch as int,
            0,
            num32(c.cmap, 12) - 1,
        ),
        fi.cmap_fmt == 4 ==> glyph_of(c, fi, ch) == segment_search(c.cmap, ch as int),
        fi.cmap_fmt != 12 && fi.cmap_fmt != 4 ==> glyph_of(c, fi, ch) == 0,
{
}

/// A group of a map is three numbers of four bytes: its first and its last character, and the glyph of
/// the first.
pub proof fn law_groups_are_of_their_bytes(m: Seq<u8>, i: int)
    requires
        0 <= i,
        28 + 12 * i <= m.len(),
    ensures
        group(m, i).0 == m[16 + 12 * i] * 16777216 + m[17 + 12 * i] * 65536 + m[18 + 12 * i] * 256 + m[19
            + 12 * i],
        group(m, i).1 == m[20 + 12 * i] * 16777216 + m[21 + 12 * i] * 65536 + m[22 + 12 * i] * 256 + m[23
            + 12 * i],
        group(m, i).2 == m[24 + 12 * i] * 16777216 + m[25 + 12 * i] * 65536 + m[26 + 12 * i] * 256 + m[27
            + 12 * i],
{
}

} // verus!
