//! Filling an outline: a pixel is black where an odd number of outline edges lies to its left.
//!
//! Coordinates are fixed-point numbers with eight fractional bits.
use vstd::prelude::*;

use crate::bits::{
    bit_of, is_pixel, law_pixels_are_binary_digits, lemma_clear_bit, lemma_place_in, lit,
    pad_clear, row_bytes, set_pixel,
};

verus! {

/// How many crossings of one row with the outline are looked at.
pub const MAX_CROSS: usize = 160;

/// An edge of an outline.
#[derive(Clone, Copy, Debug, PartialEq, Eq, Structural)]
pub struct Seg {
    pub x0: i32,
    pub y0: i32,
    pub x1: i32,
    pub y1: i32,
}

impl Seg {
    /// The edge crosses the height `yc`.
    pub open spec fn crosses(self, yc: int) -> bool {
        (self.y0 <= yc < self.y1) || (self.y1 <= yc < self.y0)
    }

    /// The pixel column in which the edge crosses the height `yc`: how far along the edge the
    /// crossing lies is rounded to a 256th.
    pub open spec fn column(self, yc: int) -> int {
        let t = if self.y1 > self.y0 {
            (yc - self.y0) * 256 / (self.y1 - self.y0)
        } else {
            (self.y0 - yc) * 256 / (self.y0 - self.y1)
        };
        (self.x0 + t * (self.x1 - self.x0) / 256) / 256
    }
}

/// The height of the middle of the pixel row `y`.
pub open spec fn row_middle(y: int) -> int {
    y * 256 + 128
}

/// The columns in which the first `n` edges cross the row `y`, in the order of the edges, up to
/// the largest number that is looked at.
pub open spec fn columns(segs: Seq<Seg>, n: int, y: int) -> Seq<int>
    decreases n,
{
    if n <= 0 {
        seq![]
    } else {
        let before = columns(segs, n - 1, y);
        if segs[n - 1].crosses(row_middle(y)) && before.len() < MAX_CROSS {
            before.push(segs[n - 1].column(row_middle(y)))
        } else {
            before
        }
    }
}

/// How many of the columns lie at or to the left of `x`.
pub open spec fn at_or_left(cols: Seq<int>, x: int) -> nat
    decreases cols.len(),
{
    if cols.len() == 0 {
        0
    } else {
        at_or_left(cols.drop_last(), x) + (if cols.last() <= x {
            1nat
        } else {
            0nat
        })
    }
}

/// The pixel in column `x` of a row is black: an odd number of crossings lies at it or to its
/// left, and one to its right closes the span.
pub open spec fn inside(cols: Seq<int>, x: int) -> bool {
    at_or_left(cols, x) % 2 == 1 && at_or_left(cols, x) < cols.len()
}

/// `bmp` shows the outline `segs` in `w` times `h` pixels, and nothing beyond them.
pub open spec fn shows(bmp: Seq<u8>, segs: Seq<Seg>, w: int, h: int) -> bool {
    &&& bmp.len() >= h * row_bytes(w)
    &&& forall|x: int, y: int|
        0 <= x < w && 0 <= y < h ==> #[trigger] lit(bmp, w, x, y) == inside(
            columns(segs, segs.len() as int, y),
            x,
        )
}

/// The byte whose bits from the left are these.
pub open spec fn pack(a: bool, b: bool, c: bool, d: bool, e: bool, f: bool, g: bool, h: bool) -> u8 {
    let n = (if a {
        128int
    } else {
        0
    }) + (if b {
        64int
    } else {
        0
    }) + (if c {
        32int
    } else {
        0
    }) + (if d {
        16int
    } else {
        0
    }) + (if e {
        8int
    } else {
        0
    }) + (if f {
        4int
    } else {
        0
    }) + (if g {
        2int
    } else {
        0
    }) + (if h {
        1int
    } else {
        0
    });
    n as u8
}

/// The bit `k` of the byte `i` of a picture of the outline is black.
pub open spec fn black(segs: Seq<Seg>, w: int, h: int, i: int, k: int) -> bool {
    is_pixel(w, h, i, k) && inside(
        columns(segs, segs.len() as int, i / row_bytes(w)),
        (i % row_bytes(w)) * 8 + k,
    )
}

/// The picture of an outline in `w` times `h` pixels, eight to a byte from the left, each row
/// filled up to a byte, in `len` bytes.
pub open spec fn picture(segs: Seq<Seg>, w: int, h: int, len: int) -> Seq<u8> {
    Seq::new(
        len as nat,
        |i: int|
            pack(
                black(segs, w, h, i, 0),
                black(segs, w, h, i, 1),
                black(segs, w, h, i, 2),
                black(segs, w, h, i, 3),
                black(segs, w, h, i, 4),
                black(segs, w, h, i, 5),
                black(segs, w, h, i, 6),
                black(segs, w, h, i, 7),
            ),
    )
}

/// A byte is the sum of its bits.
proof fn lemma_pack(b: u8)
    ensures
        b == pack(
            bit_of(b, 0),
            bit_of(b, 1),
            bit_of(b, 2),
            bit_of(b, 3),
            bit_of(b, 4),
            bit_of(b, 5),
            bit_of(b, 6),
            bit_of(b, 7),
        ),
{
    assert(b == (if b & (0x80u8 >> 0u8) != 0 {
        128u8
    } else {
        0
    }) | (if b & (0x80u8 >> 1u8) != 0 {
        64u8
    } else {
        0
    }) | (if b & (0x80u8 >> 2u8) != 0 {
        32u8
    } else {
        0
    }) | (if b & (0x80u8 >> 3u8) != 0 {
        16u8
    } else {
        0
    }) | (if b & (0x80u8 >> 4u8) != 0 {
        8u8
    } else {
        0
    }) | (if b & (0x80u8 >> 5u8) != 0 {
        4u8
    } else {
        0
    }) | (if b & (0x80u8 >> 6u8) != 0 {
        2u8
    } else {
        0
    }) | (if b & (0x80u8 >> 7u8) != 0 {
        1u8
    } else {
        0
    })) by (bit_vector);
    let b0: u8 = if b & (0x80u8 >> 0u8) != 0 {
        128
    } else {
        0
    };
    let b1: u8 = if b & (0x80u8 >> 1u8) != 0 {
        64
    } else {
        0
    };
    let b2: u8 = if b & (0x80u8 >> 2u8) != 0 {
        32
    } else {
        0
    };
    let b3: u8 = if b & (0x80u8 >> 3u8) != 0 {
        16
    } else {
        0
    };
    let b4: u8 = if b & (0x80u8 >> 4u8) != 0 {
        8
    } else {
        0
    };
    let b5: u8 = if b & (0x80u8 >> 5u8) != 0 {
        4
    } else {
        0
    };
    let b6: u8 = if b & (0x80u8 >> 6u8) != 0 {
        2
    } else {
        0
    };
    let b7: u8 = if b & (0x80u8 >> 7u8) != 0 {
        1
    } else {
        0
    };
    assert(b0 | b1 | b2 | b3 | b4 | b5 | b6 | b7 == b0 + b1 + b2 + b3 + b4 + b5 + b6 + b7)
        by (bit_vector)
        requires
            b0 == 0 || b0 == 128,
            b1 == 0 || b1 == 64,
            b2 == 0 || b2 == 32,
            b3 == 0 || b3 == 16,
            b4 == 0 || b4 == 8,
            b5 == 0 || b5 == 4,
            b6 == 0 || b6 == 2,
            b7 == 0 || b7 == 1,
    ;
}

/// A bitmap that shows an outline, with nothing beside it, is the picture of the outline.
proof fn lemma_is_picture(bmp: Seq<u8>, segs: Seq<Seg>, w: int, h: int)
    requires
        w >= 0,
        h >= 0,
        shows(bmp, segs, w, h),
        pad_clear(bmp, w, h),
    ensures
        bmp == picture(segs, w, h, bmp.len() as int),
{
    let rb = row_bytes(w);
    assert forall|i: int, k: int| 0 <= i < bmp.len() && 0 <= k < 8 implies #[trigger] bit_of(
        bmp[i],
        k,
    ) == black(segs, w, h, i, k) by {
        if is_pixel(w, h, i, k) {
            let y = i / rb;
            let x = (i % rb) * 8 + k;
            assert(rb > 0) by (nonlinear_arith)
                requires
                    0 <= i < h * rb,
                    h >= 0,
                    rb >= 0,
            ;
            assert(0 <= i % rb < rb && 0 <= y < h && y * rb + i % rb == i) by (nonlinear_arith)
                requires
                    0 <= i < h * rb,
                    rb > 0,
                    y == i / rb,
            ;
            assert(x / 8 == i % rb && x % 8 == k);
            assert(lit(bmp, w, x, y) == bit_of(bmp[y * rb + x / 8], x % 8));
        }
    }
    assert forall|i: int| 0 <= i < bmp.len() implies bmp[i] == picture(
        segs,
        w,
        h,
        bmp.len() as int,
    )[i] by {
        lemma_pack(bmp[i]);
        assert(bit_of(bmp[i], 0) == black(segs, w, h, i, 0));
        assert(bit_of(bmp[i], 1) == black(segs, w, h, i, 1));
        assert(bit_of(bmp[i], 2) == black(segs, w, h, i, 2));
        assert(bit_of(bmp[i], 3) == black(segs, w, h, i, 3));
        assert(bit_of(bmp[i], 4) == black(segs, w, h, i, 4));
        assert(bit_of(bmp[i], 5) == black(segs, w, h, i, 5));
        assert(bit_of(bmp[i], 6) == black(segs, w, h, i, 6));
        assert(bit_of(bmp[i], 7) == black(segs, w, h, i, 7));
    }
    assert(bmp =~= picture(segs, w, h, bmp.len() as int));
}

proof fn lemma_at_or_left_append(a: Seq<int>, b: Seq<int>, x: int)
    ensures
        at_or_left(a + b, x) == at_or_left(a, x) + at_or_left(b, x),
    decreases b.len(),
{
    if b.len() == 0 {
        assert(a + b =~= a);
    } else {
        assert((a + b).drop_last() =~= a + b.drop_last());
        lemma_at_or_left_append(a, b.drop_last(), x);
    }
}

proof fn lemma_at_or_left_swap(s: Seq<int>, j: int, x: int)
    requires
        1 <= j < s.len(),
    ensures
        at_or_left(s.update(j - 1, s[j]).update(j, s[j - 1]), x) == at_or_left(s, x),
{
    let t = s.update(j - 1, s[j]).update(j, s[j - 1]);
    let a = s.take(j - 1);
    let c = s.skip(j + 1);
    let m = seq![s[j - 1], s[j]];
    let n = seq![s[j], s[j - 1]];
    assert(s =~= a + m + c);
    assert(t =~= a + n + c);
    lemma_at_or_left_append(a, m, x);
    lemma_at_or_left_append(a, n, x);
    lemma_at_or_left_append(a + m, c, x);
    lemma_at_or_left_append(a + n, c, x);
    assert(m.drop_last() =~= seq![s[j - 1]]);
    assert(n.drop_last() =~= seq![s[j]]);
    assert(seq![s[j]].drop_last() =~= Seq::<int>::empty());
    assert(seq![s[j - 1]].drop_last() =~= Seq::<int>::empty());
    reveal_with_fuel(at_or_left, 3);
}

/// The columns as mathematical integers.
pub open spec fn ints(s: Seq<i32>) -> Seq<int> {
    Seq::new(s.len(), |i: int| s[i] as int)
}

/// `s` ascends from `lo` up to but not including `hi`.
pub open spec fn ascends(s: Seq<i32>, lo: int, hi: int) -> bool {
    forall|a: int, b: int| lo <= a <= b < hi ==> s[a] <= s[b]
}

proof fn lemma_at_or_left_bounds(s: Seq<int>, x: int)
    ensures
        at_or_left(s, x) <= s.len(),
    decreases s.len(),
{
    if s.len() > 0 {
        lemma_at_or_left_bounds(s.drop_last(), x);
    }
}

/// In ascending columns, those at or left of `x` come first.
proof fn lemma_at_or_left_sorted(s: Seq<i32>, n: int, x: int)
    requires
        0 <= n <= s.len(),
        ascends(s, 0, s.len() as int),
        forall|k: int| 0 <= k < n ==> s[k] <= x,
        n < s.len() ==> s[n] > x,
    ensures
        at_or_left(ints(s), x) == n,
    decreases s.len(),
{
    if s.len() > 0 {
        let t = s.drop_last();
        assert(ints(s).drop_last() =~= ints(t));
        if n < s.len() {
            assert(s[n] <= s[s.len() - 1]);
            lemma_at_or_left_sorted(t, n, x);
        } else {
            lemma_at_or_left_sorted(t, n - 1, x);
        }
    }
}

/// Sorts the columns of a row.
fn sort_columns(cols: &mut Vec<i32>)
    ensures
        final(cols)@.len() == old(cols)@.len(),
        ascends(final(cols)@, 0, final(cols)@.len() as int),
        forall|x: int|
            #[trigger] at_or_left(ints(final(cols)@), x) == at_or_left(ints(old(cols)@), x),
{
    let n: usize = cols.len();
    let mut i: usize = 1;
    while i < n
        invariant
            1 <= i,
            n == cols@.len(),
            n == old(cols)@.len(),
            n > 0 ==> i <= n,
            n > 0 ==> ascends(cols@, 0, i as int),
            forall|x: int|
                #[trigger] at_or_left(ints(cols@), x) == at_or_left(ints(old(cols)@), x),
        decreases n - i,
    {
        let mut j: usize = i;
        while j > 0
            invariant_except_break
                ascends(cols@, 0, j as int),
                ascends(cols@, j as int, i + 1),
                forall|a: int, b: int| 0 <= a < j && j < b <= i ==> cols@[a] <= cols@[b],
            invariant
                0 <= j <= i < n,
                n == cols@.len(),
                forall|x: int|
                    #[trigger] at_or_left(ints(cols@), x) == at_or_left(ints(old(cols)@), x),
            ensures
                ascends(cols@, 0, i + 1),
            decreases j,
        {
            let a: i32 = cols[j - 1];
            let b: i32 = cols[j];
            if a > b {
                let ghost before = cols@;
                cols.set(j - 1, b);
                cols.set(j, a);
                proof {
                    let ib = ints(before);
                    assert(ints(cols@) =~= ib.update(j - 1, ib[j as int]).update(
                        j as int,
                        ib[j - 1],
                    ));
                    assert forall|x: int| #[trigger]
                        at_or_left(ints(cols@), x) == at_or_left(ints(old(cols)@), x) by {
                        lemma_at_or_left_swap(ib, j as int, x);
                        assert(at_or_left(ints(before), x) == at_or_left(ints(old(cols)@), x));
                    }
                }
                j -= 1;
            } else {
                break;
            }
        }
        i += 1;
    }
}

/// The largest whole number not above `n` divided by 256.
pub fn floor_256(n: i64) -> (q: i64)
    requires
        n > -0x7fff_ffff_ffff_ff00,
    ensures
        q == n as int / 256,
{
    if n >= 0 {
        n / 256
    } else {
        -((-n + 255) / 256)
    }
}

proof fn lemma_along(num: int, den: int)
    requires
        0 <= num <= den,
        den > 0,
    ensures
        0 <= num * 256 / den <= 256,
{
    assert(0 <= num * 256 / den <= 256) by (nonlinear_arith)
        requires
            0 <= num <= den,
            den > 0,
    ;
}

/// A crossing lies between the ends of the edge.
proof fn lemma_between(t: int, dx: int)
    requires
        0 <= t <= 256,
        -0xffff_ffff <= dx <= 0xffff_ffff,
    ensures
        dx >= 0 ==> 0 <= t * dx / 256 <= dx,
        dx <= 0 ==> dx <= t * dx / 256 <= 0,
        -0x100_0000_0000 <= t * dx <= 0x100_0000_0000,
{
    if dx >= 0 {
        assert(0 <= t * dx <= 256 * dx) by (nonlinear_arith)
            requires
                0 <= t <= 256,
                dx >= 0,
        ;
    } else {
        assert(256 * dx <= t * dx <= 0) by (nonlinear_arith)
            requires
                0 <= t <= 256,
                dx < 0,
        ;
    }
}

/// The pixel column in which an edge crosses the height `yc`.
fn crossing(s: &Seg, yc: i64) -> (c: i32)
    requires
        s.crosses(yc as int),
    ensures
        c == s.column(yc as int),
{
    let t: i64 = if s.y1 > s.y0 {
        proof {
            lemma_along(yc - s.y0, s.y1 - s.y0);
        }
        (yc - s.y0 as i64) * 256 / (s.y1 as i64 - s.y0 as i64)
    } else {
        proof {
            lemma_along(s.y0 - yc, s.y0 - s.y1);
        }
        (s.y0 as i64 - yc) * 256 / (s.y0 as i64 - s.y1 as i64)
    };
    let dx: i64 = s.x1 as i64 - s.x0 as i64;
    proof {
        lemma_between(t as int, dx as int);
    }
    floor_256(s.x0 as i64 + floor_256(t * dx)) as i32
}

/// The columns in which the outline crosses the row `y`, ascending.
fn row_crossings(segs: &Vec<Seg>, y: u32) -> (cols: Vec<i32>)
    ensures
        cols@.len() == columns(segs@, segs@.len() as int, y as int).len(),
        ascends(cols@, 0, cols@.len() as int),
        forall|x: int|
            #[trigger] at_or_left(ints(cols@), x) == at_or_left(
                columns(segs@, segs@.len() as int, y as int),
                x,
            ),
{
    let yc: i64 = y as i64 * 256 + 128;
    let mut cols: Vec<i32> = Vec::new();
    let mut s: usize = 0;
    assert(ints(cols@) =~= columns(segs@, 0, y as int));
    while s < segs.len()
        invariant
            s <= segs@.len(),
            yc == row_middle(y as int),
            ints(cols@) == columns(segs@, s as int, y as int),
        decreases segs@.len() - s,
    {
        let seg = segs[s];
        let (y0, y1): (i64, i64) = (seg.y0 as i64, seg.y1 as i64);
        if (y0 <= yc && yc < y1) || (y1 <= yc && yc < y0) {
            if cols.len() < MAX_CROSS {
                let ghost before = cols@;
                let c: i32 = crossing(&seg, yc);
                cols.push(c);
                assert(ints(cols@) =~= ints(before).push(c as int));
            }
        }
        s += 1;
    }
    let ghost unsorted = cols@;
    assert(ints(unsorted) == columns(segs@, segs@.len() as int, y as int));
    sort_columns(&mut cols);
    cols
}

/// Blackens the pixels `from` up to but not including `to` of the row `y`.
fn fill_span(bmp: &mut Vec<u8>, w: u32, h: u32, y: u32, from: u32, to: u32)
    requires
        to <= w,
        y < h,
        old(bmp)@.len() >= h * row_bytes(w as int),
        pad_clear(old(bmp)@, w as int, h as int),
    ensures
        final(bmp)@.len() == old(bmp)@.len(),
        pad_clear(final(bmp)@, w as int, h as int),
        forall|x2: int, y2: int|
            0 <= x2 < w && 0 <= y2 < h ==> #[trigger] lit(final(bmp)@, w as int, x2, y2) == ((y2 == y
                && from <= x2 < to) || lit(old(bmp)@, w as int, x2, y2)),
{
    let mut x: u32 = from;
    while x < to
        invariant
            from <= x,
            x <= to || x == from,
            to <= w,
            y < h,
            bmp@.len() == old(bmp)@.len(),
            bmp@.len() >= h * row_bytes(w as int),
            pad_clear(bmp@, w as int, h as int),
            forall|x2: int, y2: int|
                0 <= x2 < w && 0 <= y2 < h ==> #[trigger] lit(bmp@, w as int, x2, y2) == ((y2 == y
                    && from <= x2 < x) || lit(old(bmp)@, w as int, x2, y2)),
        decreases to - x,
    {
        set_pixel(bmp, w, h, x, y);
        x += 1;
    }
}

/// In ascending columns, a pixel is inside where a span of two neighbours covers it.
proof fn lemma_inside(s: Seq<i32>, k: int, x: int)
    requires
        ascends(s, 0, s.len() as int),
        0 <= k,
        k + 1 < s.len(),
        k % 2 == 0,
        s[k] <= x < s[k + 1],
    ensures
        inside(ints(s), x),
        at_or_left(ints(s), x) == k + 1,
{
    assert forall|j: int| 0 <= j < k + 1 implies s[j] <= x by {
        assert(s[j] <= s[k]);
    }
    lemma_at_or_left_sorted(s, k + 1, x);
}

proof fn lemma_spans(s: Seq<i32>, x: int, n: int)
    requires
        ascends(s, 0, s.len() as int),
        n == at_or_left(ints(s), x),
    ensures
        0 <= n <= s.len(),
        forall|k: int| 0 <= k < n ==> s[k] <= x,
        n < s.len() ==> s[n] > x,
    decreases s.len(),
{
    lemma_at_or_left_bounds(ints(s), x);
    if s.len() > 0 {
        let t = s.drop_last();
        assert(ints(s).drop_last() =~= ints(t));
        let last = s[s.len() - 1];
        if last <= x {
            assert forall|k: int| 0 <= k < s.len() implies s[k] <= x by {
                assert(s[k] <= last);
            }
            lemma_at_or_left_sorted(s, s.len() as int, x);
        } else {
            lemma_spans(t, x, n);
            assert forall|k: int| 0 <= k < n implies s[k] <= x by {
                assert(t[k] == s[k]);
            }
            if n < t.len() {
                assert(s[n] == t[n]);
            }
        }
    }
}

/// Fills the row `y` of a bitmap.
fn fill_row(bmp: &mut Vec<u8>, segs: &Vec<Seg>, w: u32, h: u32, y: u32)
    requires
        y < h,
        old(bmp)@.len() >= h * row_bytes(w as int),
        pad_clear(old(bmp)@, w as int, h as int),
        forall|x: int| 0 <= x < w ==> !#[trigger] lit(old(bmp)@, w as int, x, y as int),
    ensures
        final(bmp)@.len() == old(bmp)@.len(),
        pad_clear(final(bmp)@, w as int, h as int),
        forall|x: int, y2: int|
            0 <= x < w && 0 <= y2 < h ==> #[trigger] lit(final(bmp)@, w as int, x, y2) == (if y2
                == y {
                inside(columns(segs@, segs@.len() as int, y as int), x)
            } else {
                lit(old(bmp)@, w as int, x, y2)
            }),
{
    let cols = row_crossings(segs, y);
    let ghost all = columns(segs@, segs@.len() as int, y as int);
    let n: usize = cols.len();
    let mut k: usize = 0;
    while k + 1 < n
        invariant
            n == cols@.len(),
            n <= MAX_CROSS + 1 || n == all.len(),
            n == all.len(),
            k % 2 == 0,
            k <= n,
            y < h,
            bmp@.len() == old(bmp)@.len(),
            bmp@.len() >= h * row_bytes(w as int),
            pad_clear(bmp@, w as int, h as int),
            ascends(cols@, 0, cols@.len() as int),
            forall|x: int| #[trigger] at_or_left(ints(cols@), x) == at_or_left(all, x),
            forall|x: int| 0 <= x < w ==> !#[trigger] lit(old(bmp)@, w as int, x, y as int),
            forall|x: int, y2: int|
                0 <= x < w && 0 <= y2 < h ==> #[trigger] lit(bmp@, w as int, x, y2) == (if y2 == y {
                    inside(all, x) && at_or_left(all, x) <= k
                } else {
                    lit(old(bmp)@, w as int, x, y2)
                }),
        decreases n - k,
    {
        let a: i32 = cols[k];
        let b: i32 = cols[k + 1];
        let from: u32 = if a > 0 {
            a as u32
        } else {
            0
        };
        let to: u32 = if b <= 0 {
            0
        } else if (b as u32) < w {
            b as u32
        } else {
            w
        };
        let ghost before = bmp@;
        fill_span(bmp, w, h, y, from, to);
        proof {
            assert forall|x: int, y2: int| 0 <= x < w && 0 <= y2 < h implies #[trigger] lit(
                bmp@,
                w as int,
                x,
                y2,
            ) == (if y2 == y {
                inside(all, x) && at_or_left(all, x) <= k + 2
            } else {
                lit(old(bmp)@, w as int, x, y2)
            }) by {
                assert(lit(bmp@, w as int, x, y2) == ((y2 == y && from <= x < to) || lit(
                    before,
                    w as int,
                    x,
                    y2,
                )));
                assert(at_or_left(ints(cols@), x) == at_or_left(all, x));
                if y2 == y {
                    if a <= x < b {
                        lemma_inside(cols@, k as int, x);
                    } else if inside(all, x) && at_or_left(all, x) <= k + 2 {
                        let m = at_or_left(all, x) as int;
                        lemma_spans(cols@, x, m);
                        if m > k {
                            assert(m == k + 1);
                            assert(false);
                        }
                    }
                }
            }
        }
        k += 2;
    }
    proof {
        assert forall|x: int, y2: int| 0 <= x < w && 0 <= y2 < h implies #[trigger] lit(
            bmp@,
            w as int,
            x,
            y2,
        ) == (if y2 == y {
            inside(all, x)
        } else {
            lit(old(bmp)@, w as int, x, y2)
        }) by {
            assert(at_or_left(ints(cols@), x) == at_or_left(all, x));
            if inside(all, x) {
                assert(at_or_left(all, x) <= k);
            }
        }
    }
}

/// How many bytes the rows of a bitmap take.
fn bytes_of(w: u32, h: u32) -> (n: usize)
    requires
        h * row_bytes(w as int) <= usize::MAX,
    ensures
        n == h * row_bytes(w as int),
{
    let rb: u64 = (w as u64 + 7) / 8;
    assert(0 <= h * rb <= 0xffff_ffff * 0x2000_0000) by (nonlinear_arith)
        requires
            0 <= h <= 0xffff_ffff,
            0 <= rb <= 0x2000_0000,
    ;
    (h as u64 * rb) as usize
}

/// The outline in a new bitmap of `w` times `h` pixels, with `size` bytes or as many more as it
/// takes.
pub fn fill_bitmap(segs: &Vec<Seg>, w: u32, h: u32, size: usize) -> (bmp: Vec<u8>)
    requires
        h * row_bytes(w as int) <= usize::MAX,
    ensures
        shows(bmp@, segs@, w as int, h as int),
        bmp@ == picture(segs@, w as int, h as int, bmp@.len() as int),
        bmp@.len() == (if size >= h * row_bytes(w as int) {
            size as int
        } else {
            h * row_bytes(w as int)
        }),
{
    let need: usize = bytes_of(w, h);
    let len: usize = if size >= need {
        size
    } else {
        need
    };
    let mut bmp: Vec<u8> = Vec::new();
    let mut i: usize = 0;
    while i < len
        invariant
            i <= len,
            bmp@.len() == i,
            forall|k: int| 0 <= k < i ==> bmp@[k] == 0,
        decreases len - i,
    {
        bmp.push(0);
        i += 1;
    }
    proof {
        assert forall|x: int, y: int| 0 <= x < w && 0 <= y < h implies !#[trigger] lit(
            bmp@,
            w as int,
            x,
            y,
        ) by {
            lemma_place_in(w as int, h as int, x, y);
            lemma_clear_bit((x % 8) as u8);
        }
        assert forall|i: int, k: int| 0 <= i < bmp@.len() && 0 <= k < 8 implies !#[trigger] bit_of(
            bmp@[i],
            k,
        ) by {
            lemma_clear_bit(k as u8);
        }
    }
    let mut y: u32 = 0;
    while y < h
        invariant
            y <= h,
            bmp@.len() == len,
            len >= h * row_bytes(w as int),
            pad_clear(bmp@, w as int, h as int),
            forall|x: int, y2: int|
                0 <= x < w && 0 <= y2 < h ==> #[trigger] lit(bmp@, w as int, x, y2) == (y2 < y
                    && inside(columns(segs@, segs@.len() as int, y2), x)),
        decreases h - y,
    {
        fill_row(&mut bmp, segs, w, h, y);
        y += 1;
    }
    proof {
        lemma_is_picture(bmp@, segs@, w as int, h as int);
    }
    bmp
}

/// A row that the outline crosses in no column, or whose columns all lie to the right, stays
/// white to their left.
pub proof fn law_nothing_left_of_the_outline(cols: Seq<int>, x: int)
    requires
        forall|i: int| 0 <= i < cols.len() ==> #[trigger] cols[i] > x,
    ensures
        !inside(cols, x),
    decreases cols.len(),
{
    lemma_none_left(cols, x);
}

proof fn lemma_none_left(cols: Seq<int>, x: int)
    requires
        forall|i: int| 0 <= i < cols.len() ==> #[trigger] cols[i] > x,
    ensures
        at_or_left(cols, x) == 0,
    decreases cols.len(),
{
    if cols.len() > 0 {
        assert(cols.last() == cols[cols.len() - 1]);
        lemma_none_left(cols.drop_last(), x);
    }
}

proof fn lemma_all_left(cols: Seq<int>, x: int)
    requires
        forall|i: int| 0 <= i < cols.len() ==> #[trigger] cols[i] <= x,
    ensures
        at_or_left(cols, x) == cols.len(),
    decreases cols.len(),
{
    if cols.len() > 0 {
        assert(cols.last() == cols[cols.len() - 1]);
        lemma_all_left(cols.drop_last(), x);
    }
}

/// Right of the last crossing a row stays white.
pub proof fn law_nothing_right_of_the_outline(cols: Seq<int>, x: int)
    requires
        forall|i: int| 0 <= i < cols.len() ==> #[trigger] cols[i] <= x,
    ensures
        !inside(cols, x),
{
    lemma_all_left(cols, x);
}

/// An edge that is moved by whole pixels is crossed as many pixels further on: to the right, and
/// further down.
pub proof fn law_moved_edges_are_crossed_beside(s: Seg, t: Seg, yc: int, right: int, down: int)
    requires
        t.x0 == s.x0 + 256 * right,
        t.x1 == s.x1 + 256 * right,
        t.y0 == s.y0 + 256 * down,
        t.y1 == s.y1 + 256 * down,
        s.crosses(yc),
    ensures
        t.crosses(yc + 256 * down),
        t.column(yc + 256 * down) == s.column(yc) + right,
        row_middle(down + 1) == row_middle(down) + 256,
        row_middle(0) == 128,
{
    assert(t.x1 - t.x0 == s.x1 - s.x0);
}

/// A crossing lies on its edge: at the beginning of the edge where it begins, on the edge throughout
/// where it is upright, never outside of its ends, and the further along the further down.
pub proof fn law_crossings_lie_on_their_edge(s: Seg, a: int, b: int)
    requires
        s.crosses(a),
        s.crosses(b),
    ensures
        a == s.y0 ==> s.column(a) == s.x0 as int / 256,
        s.x0 == s.x1 ==> s.column(a) == s.x0 as int / 256,
        s.x0 <= s.x1 ==> s.x0 as int / 256 <= s.column(a) <= s.x1 as int / 256,
        s.x1 <= s.x0 ==> s.x1 as int / 256 <= s.column(a) <= s.x0 as int / 256,
        a <= b && (s.y0 < s.y1) == (s.x0 <= s.x1) ==> s.column(a) <= s.column(b),
        a <= b && (s.y0 < s.y1) == (s.x1 <= s.x0) ==> s.column(b) <= s.column(a),
{
    let dx = s.x1 - s.x0;
    let t = part_along(s, a);
    let u = part_along(s, b);
    lemma_part_along(s, a);
    lemma_part_along(s, b);
    lemma_between(t, dx);
    lemma_between(u, dx);
    if a == s.y0 {
        assert(t == 0) by (nonlinear_arith)
            requires
                t == 0int * 256 / (s.y1 - s.y0) || t == 0int * 256 / (s.y0 - s.y1),
                s.y0 != s.y1,
        ;
        assert(t * dx == 0) by (nonlinear_arith)
            requires
                t == 0,
        ;
    }
    if dx == 0 {
        assert(t * dx == 0) by (nonlinear_arith)
            requires
                dx == 0,
        ;
    }
    if a <= b {
        if s.y0 < s.y1 {
            lemma_further(a - s.y0, b - s.y0, s.y1 - s.y0);
            lemma_in_step(t, u, dx);
        } else {
            lemma_further(s.y0 - b, s.y0 - a, s.y0 - s.y1);
            lemma_in_step(u, t, dx);
        }
    }
}

/// How far along an edge a height lies, in 256ths.
spec fn part_along(s: Seg, yc: int) -> int {
    if s.y1 > s.y0 {
        (yc - s.y0) * 256 / (s.y1 - s.y0)
    } else {
        (s.y0 - yc) * 256 / (s.y0 - s.y1)
    }
}

proof fn lemma_part_along(s: Seg, yc: int)
    requires
        s.crosses(yc),
    ensures
        0 <= part_along(s, yc) <= 256,
        s.column(yc) == (s.x0 + part_along(s, yc) * (s.x1 - s.x0) / 256) / 256,
{
    if s.y1 > s.y0 {
        lemma_along(yc - s.y0, s.y1 - s.y0);
    } else {
        lemma_along(s.y0 - yc, s.y0 - s.y1);
    }
}

proof fn lemma_further(a: int, b: int, n: int)
    requires
        0 <= a <= b,
        n > 0,
    ensures
        a * 256 / n <= b * 256 / n,
{
    assert(a * 256 / n <= b * 256 / n) by (nonlinear_arith)
        requires
            0 <= a <= b,
            n > 0,
    ;
}

proof fn lemma_in_step(t: int, u: int, dx: int)
    requires
        t <= u,
    ensures
        dx >= 0 ==> t * dx / 256 <= u * dx / 256,
        dx <= 0 ==> u * dx / 256 <= t * dx / 256,
{
    if dx >= 0 {
        assert(t * dx <= u * dx) by (nonlinear_arith)
            requires
                t <= u,
                dx >= 0,
        ;
    }
    if dx <= 0 {
        assert(u * dx <= t * dx) by (nonlinear_arith)
            requires
                t <= u,
                dx <= 0,
        ;
    }
}

/// A row is black from every first crossing up to the second, from every third up to the fourth, and
/// so on; in between it is white.
pub proof fn law_rows_are_filled_between_crossings(s: Seq<i32>, x: int)
    requires
        forall|i: int, j: int| 0 <= i <= j < s.len() ==> s[i] <= s[j],
    ensures
        inside(ints(s), x) <==> exists|k: int|
            0 <= k && 2 * k + 1 < s.len() && #[trigger] s[2 * k] <= x < s[2 * k + 1],
{
    assert(ascends(s, 0, s.len() as int));
    let n = at_or_left(ints(s), x) as int;
    lemma_spans(s, x, n);
    if inside(ints(s), x) {
        let k = (n - 1) / 2;
        assert(2 * k == n - 1);
        assert(s[2 * k] <= x < s[2 * k + 1]);
    }
    assert forall|k: int| 0 <= k && 2 * k + 1 < s.len() && #[trigger] s[2 * k] <= x < s[2 * k + 1] implies inside(
        ints(s),
        x,
    ) by {
        lemma_inside(s, 2 * k, x);
    }
}

/// Which crossings a row has does not depend on their order.
pub proof fn law_order_of_crossings_does_not_count(a: Seq<int>, j: int, x: int)
    requires
        0 < j < a.len(),
    ensures
        inside(a.update(j - 1, a[j]).update(j, a[j - 1]), x) == inside(a, x),
{
    lemma_at_or_left_swap(a, j, x);
}

/// The crossings of a row are those of every edge that reaches over its middle, and of no other, as
/// long as there are not too many.
#[verifier::rlimit(50)]
pub proof fn law_every_crossing_counts(segs: Seq<Seg>, n: int, y: int)
    requires
        0 <= n <= segs.len(),
        columns(segs, n, y).len() < MAX_CROSS,
    ensures
        forall|i: int|
            0 <= i < n && ((#[trigger] segs[i]).y0 <= 256 * y + 128) != (segs[i].y1 <= 256 * y + 128)
                ==> columns(segs, n, y).contains(segs[i].column(256 * y + 128)),
        forall|c: int| #[trigger]
            columns(segs, n, y).contains(c) ==> exists|i: int|
                0 <= i < n && c == (#[trigger] segs[i]).column(256 * y + 128),
    decreases n,
{
    if n > 0 {
        let before = columns(segs, n - 1, y);
        let all = columns(segs, n, y);
        law_every_crossing_counts(segs, n - 1, y);
        let last = segs[n - 1];
        let c0 = last.column(256 * y + 128);
        if last.crosses(256 * y + 128) {
            assert(all == before.push(c0));
            assert(all[before.len() as int] == c0);
        } else {
            assert(all == before);
        }
        assert forall|i: int|
            0 <= i < n && ((#[trigger] segs[i]).y0 <= 256 * y + 128) != (segs[i].y1 <= 256 * y + 128) implies all.contains(
            segs[i].column(256 * y + 128),
        ) by {
            if i < n - 1 {
                let c = segs[i].column(256 * y + 128);
                assert(before.contains(c));
                let k = choose|k: int| 0 <= k < before.len() && before[k] == c;
                assert(all[k] == c);
            }
        }
        assert forall|c: int| #[trigger] all.contains(c) implies exists|i: int|
            0 <= i < n && c == (#[trigger] segs[i]).column(256 * y + 128) by {
            let k = choose|k: int| 0 <= k < all.len() && all[k] == c;
            if k < before.len() {
                assert(before[k] == c);
                assert(before.contains(c));
                let i = choose|i: int|
                    0 <= i < n - 1 && c == (#[trigger] segs[i]).column(256 * y + 128);
                assert(segs[i].column(256 * y + 128) == c);
            } else {
                assert(segs[n - 1].column(256 * y + 128) == c);
            }
        }
    }
}

#[verifier::rlimit(50)]
proof fn lemma_unpack(a: bool, b: bool, c: bool, d: bool, e: bool, f: bool, g: bool, h: bool)
    ensures
        ({
            let p = pack(a, b, c, d, e, f, g, h);
            &&& bit_of(p, 0) == a
            &&& bit_of(p, 1) == b
            &&& bit_of(p, 2) == c
            &&& bit_of(p, 3) == d
            &&& bit_of(p, 4) == e
            &&& bit_of(p, 5) == f
            &&& bit_of(p, 6) == g
            &&& bit_of(p, 7) == h
        }),
{
    law_pixels_are_binary_digits(pack(a, b, c, d, e, f, g, h));
}

/// The bitmap of an outline is black at a pixel where the row is filled there, and nowhere else: a
/// pixel lies between an odd crossing and the next.
pub proof fn law_bitmap_shows_the_outline(segs: Seq<Seg>, w: int, h: int, len: int, x: int, y: int)
    requires
        0 <= x < w,
        0 <= y < h,
        h * row_bytes(w) <= len,
    ensures
        lit(picture(segs, w, h, len), w, x, y) == inside(columns(segs, segs.len() as int, y), x),
{
    let rb = row_bytes(w);
    let i = y * rb + x / 8;
    lemma_place_in(w, h, x, y);
    assert(i / rb == y && i % rb == x / 8) by (nonlinear_arith)
        requires
            i == y * rb + x / 8,
            0 <= x / 8 < rb,
            0 <= y,
    ;
    let k = x % 8;
    assert((i % rb) * 8 + k == x);
    assert(is_pixel(w, h, i, k));
    lemma_unpack(
        black(segs, w, h, i, 0),
        black(segs, w, h, i, 1),
        black(segs, w, h, i, 2),
        black(segs, w, h, i, 3),
        black(segs, w, h, i, 4),
        black(segs, w, h, i, 5),
        black(segs, w, h, i, 6),
        black(segs, w, h, i, 7),
    );
}

} // verus!
