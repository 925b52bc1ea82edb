//! The tables of a font file.
//!
//! The file is read through a function that gives up to so many bytes from an offset on. What is
//! found is stated for every file that the function reads from.
use vstd::prelude::*;

use crate::ttf_sd::outline::{signed16, to_signed16};

verus! {

/// The function `read` reads from a file that holds `data`: from an offset on it gives as many
/// bytes as are asked for, or as there are, and past the end of the file none. Every call stands for
/// itself: where an earlier one left the file does not count.
pub open spec fn reads<R: Fn(u32, usize) -> Vec<u8>>(read: R, data: Seq<u8>) -> bool {
    &&& data.len() <= u32::MAX
    &&& forall|o: u32, n: usize, out: Vec<u8>|
        #[trigger] call_ensures(read, (o, n), out) ==> out@ == window(data, o as int, n as int)
}

/// The function `read` can be called with any offset and length.
pub open spec fn readable<R: Fn(u32, usize) -> Vec<u8>>(read: R) -> bool {
    forall|o: u32, n: usize| call_requires(read, (o, n))
}

/// Up to `n` bytes of `data` from `o` on.
pub open spec fn window(data: Seq<u8>, o: int, n: int) -> Seq<u8> {
    if o >= data.len() {
        seq![]
    } else if o + n <= data.len() {
        data.subrange(o, o + n)
    } else {
        data.skip(o)
    }
}

/// The byte at `i`, nought beyond the end.
pub open spec fn byte(data: Seq<u8>, i: int) -> u8 {
    if 0 <= i < data.len() {
        data[i]
    } else {
        0
    }
}

/// The number in the two bytes at `o`, the more significant first.
pub open spec fn num16(data: Seq<u8>, o: int) -> int {
    byte(data, o) * 256 + byte(data, o + 1)
}

/// The number in the four bytes at `o`, the most significant first.
pub open spec fn num32(data: Seq<u8>, o: int) -> int {
    num16(data, o) * 65536 + num16(data, o + 2)
}

/// Reads two bytes at `o`.
pub fn u16_at<R: Fn(u32, usize) -> Vec<u8>>(read: &R, o: u64) -> (v: u16)
    requires
        readable(*read),
    ensures
        forall|d: Seq<u8>| #[trigger] reads(*read, d) ==> v == num16(d, o as int),
{
    if o > u32::MAX as u64 {
        return 0;
    }
    let b = read(o as u32, 2);
    let hi: u8 = if b.len() > 0 {
        b[0]
    } else {
        0
    };
    let lo: u8 = if b.len() > 1 {
        b[1]
    } else {
        0
    };
    (hi as u16) * 256 + lo as u16
}

/// Reads four bytes at `o`.
pub fn u32_at<R: Fn(u32, usize) -> Vec<u8>>(read: &R, o: u64) -> (v: u32)
    requires
        readable(*read),
        o <= 0x1_0000_0000_0000,
    ensures
        forall|d: Seq<u8>| #[trigger] reads(*read, d) ==> v == num32(d, o as int),
{
    if o > u32::MAX as u64 {
        return 0;
    }
    let b = read(o as u32, 4);
    let b0: u8 = if b.len() > 0 {
        b[0]
    } else {
        0
    };
    let b1: u8 = if b.len() > 1 {
        b[1]
    } else {
        0
    };
    let b2: u8 = if b.len() > 2 {
        b[2]
    } else {
        0
    };
    let b3: u8 = if b.len() > 3 {
        b[3]
    } else {
        0
    };
    (b0 as u32) * 0x1000000 + (b1 as u32) * 0x10000 + (b2 as u32) * 0x100 + b3 as u32
}

/// How many bytes of the character map, the glyph widths and the glyph places are kept.
pub const CMAP_CACHE_MAX: usize = 2048;

pub const HMTX_CACHE_MAX: usize = 1024;

pub const LOCA_CACHE_MAX: usize = 1024;

/// Where the tables of a font lie, and its measures.
#[derive(Clone, Copy, Debug, PartialEq, Eq, Structural)]
pub struct FontInfo {
    pub units_per_em: u16,
    pub loc_fmt: i16,
    pub num_glyphs: u32,
    pub num_h_metrics: u16,
    pub loca_off: u32,
    pub glyf_off: u32,
    pub hmtx_off: u32,
    pub cmap_sub: u32,
    pub cmap_fmt: u16,
    pub ascent: i16,
    pub descent: i16,
}

/// Tables that are kept in memory, each with the number of its bytes that are valid.
pub struct TableCache {
    pub cmap_cache: Vec<u8>,
    pub cmap_len: u32,
    pub hmtx_cache: Vec<u8>,
    pub hmtx_len: u32,
    pub loca_cache: Vec<u8>,
    pub loca_len: u32,
}

/// The kept tables as plain values.
pub struct CacheView {
    pub cmap: Seq<u8>,
    pub cmap_len: u32,
    pub hmtx: Seq<u8>,
    pub hmtx_len: u32,
    pub loca: Seq<u8>,
    pub loca_len: u32,
}

impl View for TableCache {
    type V = CacheView;

    open spec fn view(&self) -> CacheView {
        CacheView {
            cmap: self.cmap_cache@,
            cmap_len: self.cmap_len,
            hmtx: self.hmtx_cache@,
            hmtx_len: self.hmtx_len,
            loca: self.loca_cache@,
            loca_len: self.loca_len,
        }
    }
}

impl CacheView {
    /// The buffers have their sizes, and no more of them is valid than there is.
    pub open spec fn valid(self) -> bool {
        &&& self.cmap.len() == CMAP_CACHE_MAX
        &&& self.hmtx.len() == HMTX_CACHE_MAX
        &&& self.loca.len() == LOCA_CACHE_MAX
        &&& self.cmap_len <= CMAP_CACHE_MAX
        &&& self.hmtx_len <= HMTX_CACHE_MAX
        &&& self.loca_len <= LOCA_CACHE_MAX
    }

    /// No byte of a table is kept.
    pub open spec fn empty(self) -> bool {
        &&& self.cmap_len == 0
        &&& self.hmtx_len == 0
        &&& self.loca_len == 0
    }
}

/// The kept tables once none of them is valid.
pub open spec fn forgotten(c: CacheView) -> CacheView {
    CacheView { cmap_len: 0, hmtx_len: 0, loca_len: 0, ..c }
}

/// The tables that the directory of a font names.
#[derive(Clone, Copy, Debug, PartialEq, Eq, Structural)]
pub struct Directory {
    pub loca: u32,
    pub glyf: u32,
    pub hmtx: u32,
    pub cmap: u32,
    pub head: u32,
    pub maxp: u32,
    pub hhea: u32,
}

/// The four letters of a table's name as one number.
pub open spec fn tag_num(t: Seq<u8>) -> int {
    t[0] * 0x1000000 + t[1] * 0x10000 + t[2] * 0x100 + t[3]
}

pub const TAG_LOCA: u32 = 0x6c6f6361;

pub const TAG_GLYF: u32 = 0x676c7966;

pub const TAG_HMTX: u32 = 0x686d7478;

pub const TAG_CMAP: u32 = 0x636d6170;

pub const TAG_HEAD: u32 = 0x68656164;

pub const TAG_MAXP: u32 = 0x6d617870;

pub const TAG_HHEA: u32 = 0x68686561;

/// The directory with the table named `tag` at `off`.
pub open spec fn with_table(d: Directory, tag: int, off: u32) -> Directory {
    if tag == TAG_LOCA {
        Directory { loca: off, ..d }
    } else if tag == TAG_GLYF {
        Directory { glyf: off, ..d }
    } else if tag == TAG_HMTX {
        Directory { hmtx: off, ..d }
    } else if tag == TAG_CMAP {
        Directory { cmap: off, ..d }
    } else if tag == TAG_HEAD {
        Directory { head: off, ..d }
    } else if tag == TAG_MAXP {
        Directory { maxp: off, ..d }
    } else if tag == TAG_HHEA {
        Directory { hhea: off, ..d }
    } else {
        d
    }
}

/// Four bytes at `o`; where the file ends first, those of `prev` stay.
pub open spec fn overlaid(prev: Seq<u8>, data: Seq<u8>, o: int) -> Seq<u8> {
    Seq::new(
        4,
        |k: int|
            if o + k < data.len() {
                data[o + k]
            } else {
                prev[k]
            },
    )
}

/// The name in the `n`-th entry of the directory, from the first on.
pub open spec fn tag_at(data: Seq<u8>, n: int) -> Seq<u8>
    decreases n + 1,
{
    if n < 0 {
        seq![0u8, 0, 0, 0]
    } else {
        overlaid(tag_at(data, n - 1), data, 12 + 16 * n)
    }
}

/// The tables that the first `n` entries of the directory name; a later entry wins.
pub open spec fn directory(data: Seq<u8>, n: int) -> Directory
    decreases n,
{
    if n <= 0 {
        Directory { loca: 0, glyf: 0, hmtx: 0, cmap: 0, head: 0, maxp: 0, hhea: 0 }
    } else {
        with_table(
            directory(data, n - 1),
            tag_num(tag_at(data, n - 1)),
            num32(data, 12 + 16 * (n - 1) + 8) as u32,
        )
    }
}

/// The character map at the entry `i` of the list at `cmap`: how well it suits, where it lies and
/// its format. Only Unicode maps suit, and those of format 12 best.
pub open spec fn map_entry(data: Seq<u8>, cmap: int, i: int) -> Option<(int, int, int)> {
    let rec = cmap + 4 + 8 * i;
    let pid = num16(data, rec);
    let eid = num16(data, rec + 2);
    let at = cmap + num32(data, rec + 4);
    let fmt = num16(data, at);
    if at <= u32::MAX && (pid == 0 || (pid == 3 && (eid == 1 || eid == 10))) {
        Some(
            (
                if fmt == 12 {
                    2int
                } else {
                    1
                },
                at,
                fmt,
            ),
        )
    } else {
        None
    }
}

/// The best of the first `n` character maps; the first of equals.
pub open spec fn best_map(data: Seq<u8>, cmap: int, n: int) -> Option<(int, int, int)>
    decreases n,
{
    if n <= 0 {
        None
    } else {
        let before = best_map(data, cmap, n - 1);
        match (before, map_entry(data, cmap, n - 1)) {
            (None, e) => e,
            (Some(b), Some(e)) => if e.0 > b.0 {
                Some(e)
            } else {
                Some(b)
            },
            (Some(b), None) => Some(b),
        }
    }
}

/// What a font file says of itself: nothing where it has no head, no glyphs or no Unicode map.
pub open spec fn font_info(data: Seq<u8>) -> Option<FontInfo> {
    let d = directory(data, num16(data, 4));
    let best = best_map(data, d.cmap as int, num16(data, d.cmap + 2));
    if d.head == 0 || d.glyf == 0 || best is None {
        None
    } else {
        Some(
            FontInfo {
                units_per_em: num16(data, d.head + 18) as u16,
                loc_fmt: signed16(num16(data, d.head + 50)) as i16,
                num_glyphs: num16(data, d.maxp + 4) as u32,
                num_h_metrics: num16(data, d.hhea + 34) as u16,
                loca_off: d.loca,
                glyf_off: d.glyf,
                hmtx_off: d.hmtx,
                cmap_sub: best->Some_0.1 as u32,
                cmap_fmt: best->Some_0.2 as u16,
                ascent: signed16(num16(data, d.hhea + 4)) as i16,
                descent: signed16(num16(data, d.hhea + 6)) as i16,
            },
        )
    }
}

/// How many bytes the chosen character map, the widths and the glyph places take.
pub open spec fn cmap_size(data: Seq<u8>, fi: FontInfo) -> int {
    if fi.cmap_fmt == 12 {
        num32(data, fi.cmap_sub + 4)
    } else {
        num16(data, fi.cmap_sub + 2)
    }
}

pub open spec fn hmtx_size(fi: FontInfo) -> int {
    fi.num_h_metrics * 4
}

pub open spec fn loca_size(fi: FontInfo) -> int {
    if fi.loc_fmt == 1 {
        (fi.num_glyphs + 1) * 4
    } else {
        (fi.num_glyphs + 1) * 2
    }
}

/// A kept table after `size` bytes at `o` were read into it; unchanged where they do not fit.
pub open spec fn kept(old_bytes: Seq<u8>, data: Seq<u8>, o: int, size: int) -> Seq<u8> {
    if 0 < size <= old_bytes.len() {
        Seq::new(
            old_bytes.len(),
            |i: int|
                if i < size {
                    byte(data, o + i)
                } else {
                    old_bytes[i]
                },
        )
    } else {
        old_bytes
    }
}

/// The number of valid bytes of a kept table after `size` bytes were to be read into it.
pub open spec fn kept_len(old_len: u32, room: int, size: int) -> u32 {
    if 0 < size <= room {
        size as u32
    } else {
        old_len
    }
}

/// The kept tables after those of a font were read.
pub open spec fn tables_kept(c: CacheView, data: Seq<u8>, fi: FontInfo) -> CacheView {
    let cs = cmap_size(data, fi);
    let hs = hmtx_size(fi);
    let ls = loca_size(fi);
    CacheView {
        cmap: kept(c.cmap, data, fi.cmap_sub as int, cs),
        cmap_len: kept_len(c.cmap_len, CMAP_CACHE_MAX as int, cs),
        hmtx: kept(c.hmtx, data, fi.hmtx_off as int, hs),
        hmtx_len: kept_len(c.hmtx_len, HMTX_CACHE_MAX as int, hs),
        loca: kept(c.loca, data, fi.loca_off as int, ls),
        loca_len: kept_len(c.loca_len, LOCA_CACHE_MAX as int, ls),
    }
}

/// Fills a buffer with noughts.
pub fn zeros(n: usize) -> (v: Vec<u8>)
    ensures
        v@ == Seq::new(n as nat, |i: int| 0u8),
{
    let mut v: Vec<u8> = Vec::new();
    while v.len() < n
        invariant
            v@.len() <= n,
            forall|i: int| 0 <= i < v@.len() ==> v@[i] == 0,
        decreases n - v@.len(),
    {
        v.push(0);
    }
    assert(v@ =~= Seq::new(n as nat, |i: int| 0u8));
    v
}

/// Reads the directory of a font.
fn read_directory<R: Fn(u32, usize) -> Vec<u8>>(read: &R) -> (dir: Directory)
    requires
        readable(*read),
    ensures
        forall|d: Seq<u8>| #[trigger] reads(*read, d) ==> dir == directory(d, num16(d, 4)),
{
    let n: u16 = u16_at(read, 4);
    let mut dir = Directory { loca: 0, glyf: 0, hmtx: 0, cmap: 0, head: 0, maxp: 0, hhea: 0 };
    let mut tag: Vec<u8> = zeros(4);
    let mut i: u16 = 0;
    proof {
        assert forall|d: Seq<u8>| #[trigger] reads(*read, d) implies tag@ == tag_at(d, -1) by {
            assert(tag@ =~= tag_at(d, -1));
        }
    }
    while i < n
        invariant
            i <= n,
            readable(*read),
            tag@.len() == 4,
            forall|d: Seq<u8>| #[trigger] reads(*read, d) ==> tag@ == tag_at(d, i - 1),
            forall|d: Seq<u8>| #[trigger] reads(*read, d) ==> dir == directory(d, i as int),
        decreases n - i,
    {
        let off: u32 = 12 + 16 * i as u32;
        let b = read(off, 4);
        let ghost prev = tag@;
        let mut k: usize = 0;
        while k < 4 && k < b.len()
            invariant
                k <= 4,
                k <= b@.len(),
                tag@.len() == 4,
                prev.len() == 4,
                forall|j: int|
                    0 <= j < 4 ==> tag@[j] == (if j < k {
                        b@[j]
                    } else {
                        prev[j]
                    }),
            decreases 4 - k,
        {
            let x: u8 = b[k];
            tag.set(k, x);
            k += 1;
        }
        proof {
            assert forall|d: Seq<u8>| #[trigger] reads(*read, d) implies tag@ == tag_at(
                d,
                i as int,
            ) by {
                assert(b@ == window(d, off as int, 4));
                assert(tag@ =~= overlaid(prev, d, off as int));
            }
        }
        let at: u32 = u32_at(read, off as u64 + 8);
        let name: u32 = (tag[0] as u32) * 0x1000000 + (tag[1] as u32) * 0x10000 + (tag[2] as u32)
            * 0x100 + tag[3] as u32;
        if name == TAG_LOCA {
            dir.loca = at;
        } else if name == TAG_GLYF {
            dir.glyf = at;
        } else if name == TAG_HMTX {
            dir.hmtx = at;
        } else if name == TAG_CMAP {
            dir.cmap = at;
        } else if name == TAG_HEAD {
            dir.head = at;
        } else if name == TAG_MAXP {
            dir.maxp = at;
        } else if name == TAG_HHEA {
            dir.hhea = at;
        }
        i += 1;
    }
    dir
}

/// Chooses the best character map of the list at `cmap`.
fn choose_map<R: Fn(u32, usize) -> Vec<u8>>(read: &R, cmap: u32) -> (best: Option<(u8, u32, u16)>)
    requires
        readable(*read),
    ensures
        forall|d: Seq<u8>| #[trigger]
            reads(*read, d) ==> as_ints(best) == best_map(d, cmap as int, num16(d, cmap + 2)),
{
    let n: u16 = u16_at(read, cmap as u64 + 2);
    let mut best: Option<(u8, u32, u16)> = None;
    let mut i: u16 = 0;
    while i < n
        invariant
            i <= n,
            readable(*read),
            forall|d: Seq<u8>| #[trigger]
                reads(*read, d) ==> as_ints(best) == best_map(d, cmap as int, i as int),
        decreases n - i,
    {
        let rec: u64 = cmap as u64 + 4 + 8 * i as u64;
        let pid: u16 = u16_at(read, rec);
        let eid: u16 = u16_at(read, rec + 2);
        let so: u32 = u32_at(read, rec + 4);
        let at: u64 = cmap as u64 + so as u64;
        let fmt: u16 = u16_at(read, at);
        if at <= u32::MAX as u64 && (pid == 0 || (pid == 3 && (eid == 1 || eid == 10))) {
            let score: u8 = if fmt == 12 {
                2
            } else {
                1
            };
            let better: bool = match best {
                None => true,
                Some(b) => score > b.0,
            };
            if better {
                best = Some((score, at as u32, fmt));
            }
        }
        i += 1;
    }
    best
}

/// A chosen character map as plain numbers.
pub open spec fn as_ints(m: Option<(u8, u32, u16)>) -> Option<(int, int, int)> {
    match m {
        Some((a, b, c)) => Some((a as int, b as int, c as int)),
        None => None,
    }
}

/// Reads `size` bytes at `o` into a kept table, 512 at a time, where they fit.
fn keep_table<R: Fn(u32, usize) -> Vec<u8>>(read: &R, o: u32, size: u64, table: &mut Vec<u8>) -> (fits:
    bool)
    requires
        readable(*read),
        old(table)@.len() <= 4096,
    ensures
        fits == (0 < size <= old(table)@.len()),
        final(table)@.len() == old(table)@.len(),
        !fits ==> final(table)@ == old(table)@,
        forall|d: Seq<u8>| #[trigger]
            reads(*read, d) ==> final(table)@ == kept(old(table)@, d, o as int, size as int),
{
    if size == 0 || size > table.len() as u64 {
        return false;
    }
    let size: usize = size as usize;
    let mut done: usize = 0;
    while done < size
        invariant
            readable(*read),
            done <= size <= table@.len() <= 4096,
            table@.len() == old(table)@.len(),
            forall|d: Seq<u8>, i: int|
                #![trigger reads(*read, d), table@[i]]
                reads(*read, d) && 0 <= i < table@.len() ==> table@[i] == (if i < done {
                    byte(d, o + i)
                } else {
                    old(table)@[i]
                }),
        decreases size - done,
    {
        let n: usize = if size - done < 512 {
            size - done
        } else {
            512
        };
        let at: u64 = o as u64 + done as u64;
        let b: Vec<u8> = if at <= u32::MAX as u64 {
            read(at as u32, n)
        } else {
            Vec::new()
        };
        let ghost before = table@;
        let mut k: usize = 0;
        while k < n
            invariant
                k <= n,
                done + n <= table@.len() <= 4096,
                table@.len() == before.len(),
                forall|i: int|
                    0 <= i < table@.len() ==> table@[i] == (if done <= i < done + k {
                        byte(b@, i - done)
                    } else {
                        before[i]
                    }),
            decreases n - k,
        {
            let x: u8 = if k < b.len() {
                b[k]
            } else {
                0
            };
            table.set(done + k, x);
            k += 1;
        }
        proof {
            assert forall|d: Seq<u8>, i: int|
                #![trigger reads(*read, d), table@[i]]
                reads(*read, d) && 0 <= i < table@.len() implies table@[i] == (if i < done + n {
                byte(d, o + i)
            } else {
                old(table)@[i]
            }) by {
                assert(before[i] == (if i < done {
                    byte(d, o + i)
                } else {
                    old(table)@[i]
                }));
                if done <= i < done + n {
                    if at <= u32::MAX {
                        assert(b@ == window(d, at as int, n as int));
                    }
                }
            }
        }
        done += n;
    }
    proof {
        assert forall|d: Seq<u8>| #[trigger] reads(*read, d) implies table@ == kept(
            old(table)@,
            d,
            o as int,
            size as int,
        ) by {
            assert(table@ =~= kept(old(table)@, d, o as int, size as int));
        }
    }
    true
}

impl TableCache {
    /// Nothing kept.
    pub fn new() -> (c: TableCache)
        ensures
            c@.valid(),
            c@.cmap == Seq::new(CMAP_CACHE_MAX as nat, |i: int| 0u8),
            c@.hmtx == Seq::new(HMTX_CACHE_MAX as nat, |i: int| 0u8),
            c@.loca == Seq::new(LOCA_CACHE_MAX as nat, |i: int| 0u8),
            c@.empty(),
    {
        TableCache {
            cmap_cache: zeros(CMAP_CACHE_MAX),
            cmap_len: 0,
            hmtx_cache: zeros(HMTX_CACHE_MAX),
            hmtx_len: 0,
            loca_cache: zeros(LOCA_CACHE_MAX),
            loca_len: 0,
        }
    }

    /// Lets the kept tables go.
    pub fn forget(&mut self)
        ensures
            final(self)@ == forgotten(old(self)@),
    {
        self.cmap_len = 0;
        self.hmtx_len = 0;
        self.loca_len = 0;
    }

    /// Reads what a font file says of itself, and keeps the tables that fit into memory.
    pub fn parse_font_info<R: Fn(u32, usize) -> Vec<u8>>(&mut self, read: &R) -> (fi: Option<
        FontInfo,
    >)
        requires
            readable(*read),
            old(self)@.valid(),
        ensures
            final(self)@.valid(),
            fi is None ==> final(self)@ == old(self)@,
            forall|d: Seq<u8>| #[trigger]
                reads(*read, d) ==> fi == font_info(d) && (fi is Some ==> final(self)@
                    == tables_kept(old(self)@, d, fi->0)),
    {
        let dir = read_directory(read);
        if dir.head == 0 || dir.glyf == 0 {
            return None;
        }
        let units_per_em: u16 = u16_at(read, dir.head as u64 + 18);
        let loc_fmt: i16 = to_signed16(u16_at(read, dir.head as u64 + 50));
        let num_glyphs: u32 = u16_at(read, dir.maxp as u64 + 4) as u32;
        let ascent: i16 = to_signed16(u16_at(read, dir.hhea as u64 + 4));
        let descent: i16 = to_signed16(u16_at(read, dir.hhea as u64 + 6));
        let num_h_metrics: u16 = u16_at(read, dir.hhea as u64 + 34);
        let (cmap_sub, cmap_fmt): (u32, u16) = match choose_map(read, dir.cmap) {
            Some((_, s, f)) => (s, f),
            None => {
                return None;
            },
        };
        let fi = FontInfo {
            units_per_em,
            loc_fmt,
            num_glyphs,
            num_h_metrics,
            loca_off: dir.loca,
            glyf_off: dir.glyf,
            hmtx_off: dir.hmtx,
            cmap_sub,
            cmap_fmt,
            ascent,
            descent,
        };
        let cmap_size: u64 = if cmap_fmt == 12 {
            u32_at(read, cmap_sub as u64 + 4) as u64
        } else {
            u16_at(read, cmap_sub as u64 + 2) as u64
        };
        if keep_table(read, cmap_sub, cmap_size, &mut self.cmap_cache) {
            self.cmap_len = cmap_size as u32;
        }
        let hmtx_size: u64 = num_h_metrics as u64 * 4;
        if keep_table(read, dir.hmtx, hmtx_size, &mut self.hmtx_cache) {
            self.hmtx_len = hmtx_size as u32;
        }
        let loca_size: u64 = if loc_fmt == 1 {
            (num_glyphs as u64 + 1) * 4
        } else {
            (num_glyphs as u64 + 1) * 2
        };
        if keep_table(read, dir.loca, loca_size, &mut self.loca_cache) {
            self.loca_len = loca_size as u32;
        }
        Some(fi)
    }
}

/// Four bytes spell four letters.
pub open spec fn letters(data: Seq<u8>, at: int, a: char, b: char, c: char, d: char) -> bool {
    &&& data[at] as int == a as int
    &&& data[at + 1] as int == b as int
    &&& data[at + 2] as int == c as int
    &&& data[at + 3] as int == d as int
}

/// No record behind the `k`-th of `n` has its tag.
pub open spec fn last_of_its_tag(data: Seq<u8>, k: int, n: int) -> bool {
    forall|j: int|
        k < j < n ==> !#[trigger] same_tag(data, 12 + 16 * k, 12 + 16 * j)
}

/// The same four bytes stand in two places.
pub open spec fn same_tag(data: Seq<u8>, p: int, q: int) -> bool {
    &&& data[p] == data[q]
    &&& data[p + 1] == data[q + 1]
    &&& data[p + 2] == data[q + 2]
    &&& data[p + 3] == data[q + 3]
}

proof fn lemma_tag(data: Seq<u8>, n: int)
    requires
        0 <= n,
        12 + 16 * n + 16 <= data.len(),
    ensures
        tag_num(tag_at(data, n)) == data[12 + 16 * n] * 0x1000000 + data[12 + 16 * n + 1] * 0x10000
            + data[12 + 16 * n + 2] * 0x100 + data[12 + 16 * n + 3],
{
}

/// A table of a font lies where the record with its name says, the last one where several bear it.
#[verifier::rlimit(50)]
pub proof fn law_tables_are_found_by_name(data: Seq<u8>, k: int, n: int)
    requires
        0 <= k < n,
        12 + 16 * n <= data.len(),
    ensures
        letters(data, 12 + 16 * k, 'l', 'o', 'c', 'a') && last_of_its_tag(data, k, n) ==> directory(data, n).loca
            == num32(data, 12 + 16 * k + 8),
        letters(data, 12 + 16 * k, 'g', 'l', 'y', 'f') && last_of_its_tag(data, k, n) ==> directory(data, n).glyf
            == num32(data, 12 + 16 * k + 8),
        letters(data, 12 + 16 * k, 'h', 'm', 't', 'x') && last_of_its_tag(data, k, n) ==> directory(data, n).hmtx
            == num32(data, 12 + 16 * k + 8),
        letters(data, 12 + 16 * k, 'c', 'm', 'a', 'p') && last_of_its_tag(data, k, n) ==> directory(data, n).cmap
            == num32(data, 12 + 16 * k + 8),
        letters(data, 12 + 16 * k, 'h', 'e', 'a', 'd') && last_of_its_tag(data, k, n) ==> directory(data, n).head
            == num32(data, 12 + 16 * k + 8),
        letters(data, 12 + 16 * k, 'm', 'a', 'x', 'p') && last_of_its_tag(data, k, n) ==> directory(data, n).maxp
            == num32(data, 12 + 16 * k + 8),
        letters(data, 12 + 16 * k, 'h', 'h', 'e', 'a') && last_of_its_tag(data, k, n) ==> directory(data, n).hhea
            == num32(data, 12 + 16 * k + 8),
    decreases n,
{
    lemma_tag(data, n - 1);
    lemma_tag(data, k);
    if k < n - 1 {
        law_tables_are_found_by_name(data, k, n - 1);
        if last_of_its_tag(data, k, n) {
            assert(!same_tag(data, 12 + 16 * k, 12 + 16 * (n - 1)));
        }
    }
}

/// What a font says of itself stands in its tables: the units of its square and the size of its
/// places in `head`, its glyphs in `maxp`, and its heights and widths in `hhea`, each with the more
/// significant byte first.
pub proof fn law_font_tells_its_tables(data: Seq<u8>, fi: FontInfo)
    requires
        font_info(data) == Some(fi),
    ensures
        ({
            let d = directory(data, byte(data, 4) * 256 + byte(data, 5));
            &&& d.head > 0 && d.glyf > 0
            &&& fi.units_per_em == byte(data, d.head + 18) * 256 + byte(data, d.head + 19)
            &&& fi.num_glyphs == byte(data, d.maxp + 4) * 256 + byte(data, d.maxp + 5)
            &&& fi.num_h_metrics == byte(data, d.hhea + 34) * 256 + byte(data, d.hhea + 35)
            &&& (fi.loc_fmt - byte(data, d.head + 50) * 256 - byte(data, d.head + 51)) % 65536 == 0
            &&& (fi.ascent - byte(data, d.hhea + 4) * 256 - byte(data, d.hhea + 5)) % 65536 == 0
            &&& (fi.descent - byte(data, d.hhea + 6) * 256 - byte(data, d.hhea + 7)) % 65536 == 0
            &&& fi.glyf_off == d.glyf && fi.loca_off == d.loca && fi.hmtx_off == d.hmtx
        }),
{
}

/// A map of characters that a font may be read with: one of all characters, or one of Windows for
/// the first plane or for all.
pub open spec fn usable_map(data: Seq<u8>, cmap: int, i: int) -> bool {
    let p = cmap + 4 + 8 * i;
    let platform = byte(data, p) * 256 + byte(data, p + 1);
    let encoding = byte(data, p + 2) * 256 + byte(data, p + 3);
    platform == 0 || (platform == 3 && (encoding == 1 || encoding == 10))
}

/// The chosen map is a usable one, and in groups where any usable one is.
#[verifier::rlimit(50)]
pub proof fn law_best_map_is_usable(data: Seq<u8>, cmap: int, n: int)
    requires
        forall|i: int| 0 <= i < n ==> cmap + #[trigger] num32(data, cmap + 4 + 8 * i + 4) <= u32::MAX,
    ensures
        best_map(data, cmap, n) matches Some(b) ==> exists|i: int|
            0 <= i < n && usable_map(data, cmap, i) && b.1 == cmap + #[trigger] num32(
                data,
                cmap + 4 + 8 * i + 4,
            ) && b.2 == num16(data, b.1),
        best_map(data, cmap, n) is None ==> forall|i: int| 0 <= i < n ==> !#[trigger] usable_map(data, cmap, i),
        best_map(data, cmap, n) matches Some(b) ==> b.2 != 12 ==> forall|i: int|
            0 <= i < n && usable_map(data, cmap, i) ==> num16(
                data,
                cmap + #[trigger] num32(data, cmap + 4 + 8 * i + 4),
            ) != 12,
        best_map(data, cmap, n) matches Some(b) ==> (b.0 == 2 <==> b.2 == 12) && (b.0 == 1 || b.0 == 2),
    decreases n,
{
    if n > 0 {
        law_best_map_is_usable(data, cmap, n - 1);
        let i = n - 1;
        assert(cmap + num32(data, cmap + 4 + 8 * i + 4) <= u32::MAX);
        assert(usable_map(data, cmap, i) <==> map_entry(data, cmap, i) is Some);
    }
}

/// Numbers of a font have their most significant byte first, and what lies past the end of the file
/// counts as nought.
pub proof fn law_numbers_are_of_their_bytes(data: Seq<u8>, o: int)
    requires
        0 <= o,
    ensures
        o + 2 <= data.len() ==> num16(data, o) == data[o] * 256 + data[o + 1],
        o + 4 <= data.len() ==> num32(data, o) == data[o] * 16777216 + data[o + 1] * 65536 + data[o + 2]
            * 256 + data[o + 3],
        o >= data.len() ==> num16(data, o) == 0 && num32(data, o) == 0,
        0 <= num16(data, o) < 65536,
        0 <= num32(data, o) < 0x1_0000_0000,
{
}

/// Up to so many bytes are read from an offset on: those of the file that lie there, as many as are
/// asked for where there are so many, and else all that there are.
pub proof fn law_windows_show_the_file(data: Seq<u8>, o: int, n: int, i: int)
    requires
        0 <= o,
        0 <= n,
    ensures
        o + n <= data.len() ==> window(data, o, n).len() == n,
        o <= data.len() < o + n ==> window(data, o, n).len() == data.len() - o,
        o > data.len() ==> window(data, o, n).len() == 0,
        0 <= i < window(data, o, n).len() ==> window(data, o, n)[i] == data[o + i],
{
}

/// A kept table holds the bytes of the file, as many as it has; one that does not fit is not kept.
pub proof fn law_kept_tables_hold_the_file(c: CacheView, data: Seq<u8>, fi: FontInfo, i: int)
    requires
        c.valid(),
        0 <= i,
    ensures
        ({
            let k = tables_kept(c, data, fi);
            let n = if fi.cmap_fmt == 12 {
                num32(data, fi.cmap_sub + 4)
            } else {
                num16(data, fi.cmap_sub + 2)
            };
            &&& 0 < n <= 2048 ==> k.cmap_len == n && (i < n ==> k.cmap[i] == byte(data, fi.cmap_sub + i))
            &&& n > 2048 ==> k.cmap_len == c.cmap_len && k.cmap == c.cmap
            &&& 0 < 4 * fi.num_h_metrics <= 1024 ==> k.hmtx_len == 4 * fi.num_h_metrics && (i < 4
                * fi.num_h_metrics ==> k.hmtx[i] == byte(data, fi.hmtx_off + i))
            &&& fi.loc_fmt == 1 && 4 * (fi.num_glyphs + 1) <= 1024 ==> k.loca_len == 4 * (fi.num_glyphs
                + 1) && (i < k.loca_len ==> k.loca[i] == byte(data, fi.loca_off + i))
            &&& fi.loc_fmt != 1 && 2 * (fi.num_glyphs + 1) <= 1024 ==> k.loca_len == 2 * (fi.num_glyphs
                + 1) && (i < k.loca_len ==> k.loca[i] == byte(data, fi.loca_off + i))
        }),
{
}

} // verus!
