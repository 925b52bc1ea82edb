//! Bitmaps: eight pixels to a byte from the left, each row filled up to a byte.
use vstd::prelude::*;

verus! {

/// How many bytes a row of `w` pixels takes.
pub open spec fn row_bytes(w: int) -> int {
    (w + 7) / 8
}

/// The bit of a byte that stands for its pixel `k` from the left.
pub open spec fn bit_of(b: u8, k: int) -> bool {
    b & (0x80u8 >> (k as u8)) != 0
}

/// The pixel at `x`, `y` of a bitmap of width `w` is black.
pub open spec fn lit(bmp: Seq<u8>, w: int, x: int, y: int) -> bool {
    bit_of(bmp[y * row_bytes(w) + x / 8], x % 8)
}

/// The byte and bit of a bitmap belong to a pixel.
pub open spec fn is_pixel(w: int, h: int, i: int, k: int) -> bool {
    &&& 0 <= i < h * row_bytes(w)
    &&& (i % row_bytes(w)) * 8 + k < w
}

/// No bit is set that belongs to no pixel.
pub open spec fn pad_clear(bmp: Seq<u8>, w: int, h: int) -> bool {
    forall|i: int, k: int|
        0 <= i < bmp.len() && 0 <= k < 8 && !is_pixel(w, h, i, k) ==> !#[trigger] bit_of(bmp[i], k)
}

pub proof fn lemma_set_bit(b: u8, m: u8, k: u8)
    requires
        m < 8,
        k < 8,
    ensures
        ((b | (0x80u8 >> m)) & (0x80u8 >> k) != 0) == (k == m || b & (0x80u8 >> k) != 0),
{
    assert(((b | (0x80u8 >> m)) & (0x80u8 >> k) != 0) == (k == m || b & (0x80u8 >> k) != 0))
        by (bit_vector)
        requires
            m < 8,
            k < 8,
    ;
}

pub proof fn lemma_clear_bit(k: u8)
    ensures
        0u8 & (0x80u8 >> k) == 0,
{
    assert(0u8 & (0x80u8 >> k) == 0) by (bit_vector);
}

/// Pixels in different places have different bits.
pub proof fn lemma_places(rb: int, w: int, x: int, y: int, x2: int, y2: int)
    requires
        rb == row_bytes(w),
        0 <= x < w,
        0 <= x2 < w,
        0 <= y,
        0 <= y2,
    ensures
        0 <= x / 8 < rb,
        y * rb + x / 8 == y2 * rb + x2 / 8 ==> y == y2 && x / 8 == x2 / 8,
        x / 8 == x2 / 8 && x % 8 == x2 % 8 ==> x == x2,
{
    let a = x / 8;
    let b = x2 / 8;
    assert(0 <= a < rb && 0 <= b < rb);
    if y * rb + a == y2 * rb + b {
        if y < y2 {
            assert((y2 - y) * rb >= rb) by (nonlinear_arith)
                requires
                    y2 - y >= 1,
                    rb > 0,
            ;
            assert((y2 - y) * rb == y2 * rb - y * rb) by (nonlinear_arith);
        } else if y > y2 {
            assert((y - y2) * rb >= rb) by (nonlinear_arith)
                requires
                    y - y2 >= 1,
                    rb > 0,
            ;
            assert((y - y2) * rb == y * rb - y2 * rb) by (nonlinear_arith);
        }
    }
}

/// Where a pixel's byte lies in a bitmap.
pub proof fn lemma_place_in(w: int, h: int, x: int, y: int)
    requires
        0 <= x < w,
        0 <= y < h,
    ensures
        0 <= y * row_bytes(w) + x / 8 < h * row_bytes(w),
        0 <= y * row_bytes(w),
{
    let rb = row_bytes(w);
    assert(y * rb + rb <= h * rb) by (nonlinear_arith)
        requires
            y + 1 <= h,
            rb >= 0,
    ;
    assert(0 <= y * rb) by (nonlinear_arith)
        requires
            y >= 0,
            rb >= 0,
    ;
}

pub proof fn lemma_unset_bit(b: u8, m: u8, k: u8)
    requires
        m < 8,
        k < 8,
    ensures
        ((b & !(0x80u8 >> m)) & (0x80u8 >> k) != 0) == (k != m && b & (0x80u8 >> k) != 0),
{
    assert(((b & !(0x80u8 >> m)) & (0x80u8 >> k) != 0) == (k != m && b & (0x80u8 >> k) != 0))
        by (bit_vector)
        requires
            m < 8,
            k < 8,
    ;
}

/// Where a pixel's byte lies.
fn place_of(len: usize, w: u32, h: u32, x: u32, y: u32) -> (idx: usize)
    requires
        x < w,
        y < h,
        len >= h * row_bytes(w as int),
    ensures
        idx == y * row_bytes(w as int) + x as int / 8,
        idx < len,
{
    proof {
        lemma_place_in(w as int, h as int, x as int, y as int);
        let rb = row_bytes(w as int);
        assert(y * rb <= h * rb) by (nonlinear_arith)
            requires
                y <= h,
                rb >= 0,
        ;
        assert(rb <= h * rb) by (nonlinear_arith)
            requires
                h >= 1,
                rb >= 0,
        ;
    }
    let rb: usize = ((w as u64 + 7) / 8) as usize;
    y as usize * rb + (x / 8) as usize
}

/// Blackens one pixel.
pub fn set_pixel(bmp: &mut Vec<u8>, w: u32, h: u32, x: u32, y: u32)
    requires
        x < w,
        y < h,
        old(bmp)@.len() >= h * row_bytes(w as int),
    ensures
        final(bmp)@.len() == old(bmp)@.len(),
        pad_clear(old(bmp)@, w as int, h as int) ==> pad_clear(final(bmp)@, w as int, h as int),
        forall|i: int|
            h * row_bytes(w as int) <= i < old(bmp)@.len() ==> #[trigger] final(bmp)@[i] == old(
                bmp,
            )@[i],
        forall|x2: int, y2: int|
            0 <= x2 < w && 0 <= y2 < h ==> #[trigger] lit(final(bmp)@, w as int, x2, y2) == ((x2 == x
                && y2 == y) || lit(old(bmp)@, w as int, x2, y2)),
{
    let idx: usize = place_of(bmp.len(), w, h, x, y);
    let ghost rb = row_bytes(w as int);
    let m: u8 = (x % 8) as u8;
    let b: u8 = bmp[idx];
    let c: u8 = b | (0x80u8 >> m);
    let ghost before = bmp@;
    bmp.set(idx, c);
    proof {
        lemma_place_in(w as int, h as int, x as int, y as int);
        assert forall|x2: int, y2: int| 0 <= x2 < w && 0 <= y2 < h implies #[trigger] lit(
            bmp@,
            w as int,
            x2,
            y2,
        ) == ((x2 == x && y2 == y) || lit(before, w as int, x2, y2)) by {
            lemma_place_in(w as int, h as int, x2, y2);
            lemma_places(rb, w as int, x as int, y as int, x2, y2);
            lemma_set_bit(b, m, (x2 % 8) as u8);
        }
        if pad_clear(before, w as int, h as int) {
            assert forall|i: int, k: int|
                0 <= i < bmp@.len() && 0 <= k < 8 && !is_pixel(w as int, h as int, i, k) implies !#[trigger] bit_of(
                bmp@[i],
                k,
            ) by {
                assert(!bit_of(before[i], k));
                if i == idx {
                    lemma_set_bit(b, m, k as u8);
                    if k == m {
                        let q = (x / 8) as int;
                        assert((y * rb + q) % rb == q) by (nonlinear_arith)
                            requires
                                0 <= q < rb,
                                0 <= y,
                        ;
                        assert(false);
                    }
                }
            }
        }
    }
}

/// Whitens one pixel.
pub fn clear_pixel(bmp: &mut Vec<u8>, w: u32, h: u32, x: u32, y: u32)
    requires
        x < w,
        y < h,
        old(bmp)@.len() >= h * row_bytes(w as int),
    ensures
        final(bmp)@.len() == old(bmp)@.len(),
        forall|x2: int, y2: int|
            0 <= x2 < w && 0 <= y2 < h ==> #[trigger] lit(final(bmp)@, w as int, x2, y2) == (!(x2
                == x && y2 == y) && lit(old(bmp)@, w as int, x2, y2)),
{
    let idx: usize = place_of(bmp.len(), w, h, x, y);
    let ghost rb = row_bytes(w as int);
    let m: u8 = (x % 8) as u8;
    let b: u8 = bmp[idx];
    let c: u8 = b & !(0x80u8 >> m);
    let ghost before = bmp@;
    bmp.set(idx, c);
    proof {
        lemma_place_in(w as int, h as int, x as int, y as int);
        assert forall|x2: int, y2: int| 0 <= x2 < w && 0 <= y2 < h implies #[trigger] lit(
            bmp@,
            w as int,
            x2,
            y2,
        ) == (!(x2 == x && y2 == y) && lit(before, w as int, x2, y2)) by {
            lemma_place_in(w as int, h as int, x2, y2);
            lemma_places(rb, w as int, x as int, y as int, x2, y2);
            lemma_unset_bit(b, m, (x2 % 8) as u8);
        }
    }
}

/// The pixels of a byte from the left are its binary digits, the most significant first.
pub proof fn law_pixels_are_binary_digits(b: u8)
    ensures
        bit_of(b, 0) <==> b / 128 == 1,
        bit_of(b, 1) <==> b / 64 % 2 == 1,
        bit_of(b, 2) <==> b / 32 % 2 == 1,
        bit_of(b, 3) <==> b / 16 % 2 == 1,
        bit_of(b, 4) <==> b / 8 % 2 == 1,
        bit_of(b, 5) <==> b / 4 % 2 == 1,
        bit_of(b, 6) <==> b / 2 % 2 == 1,
        bit_of(b, 7) <==> b % 2 == 1,
{
    assert((b & (0x80u8 >> 0u8) != 0) == (b / 128 == 1)) by (bit_vector);
    assert((b & (0x80u8 >> 1u8) != 0) == (b / 64 % 2 == 1)) by (bit_vector);
    assert((b & (0x80u8 >> 2u8) != 0) == (b / 32 % 2 == 1)) by (bit_vector);
    assert((b & (0x80u8 >> 3u8) != 0) == (b / 16 % 2 == 1)) by (bit_vector);
    assert((b & (0x80u8 >> 4u8) != 0) == (b / 8 % 2 == 1)) by (bit_vector);
    assert((b & (0x80u8 >> 5u8) != 0) == (b / 4 % 2 == 1)) by (bit_vector);
    assert((b & (0x80u8 >> 6u8) != 0) == (b / 2 % 2 == 1)) by (bit_vector);
    assert((b & (0x80u8 >> 7u8) != 0) == (b % 2 == 1)) by (bit_vector);
}

/// The pixels of a row follow one another from the left, and each row begins with the byte behind the
/// row before: a row takes no more bytes than its pixels need.
pub proof fn law_rows_follow_one_another(bmp: Seq<u8>, w: int, x: int, y: int)
    requires
        0 <= x < w,
        0 <= y,
    ensures
        y == 0 ==> lit(bmp, w, x, y) == bit_of(bmp[x / 8], x % 8),
        y > 0 ==> lit(bmp, w, x, y) == lit(bmp.skip(row_bytes(w)), w, x, y - 1) || bmp.len() <= y
            * row_bytes(w) + x / 8,
        8 * (row_bytes(w) - 1) < w <= 8 * row_bytes(w),
{
    let rb = row_bytes(w);
    assert(y * rb == (y - 1) * rb + rb) by (nonlinear_arith);
    assert(0 * rb == 0);
    if y > 0 {
        assert(0 <= (y - 1) * rb) by (nonlinear_arith)
            requires
                y >= 1,
                rb >= 0,
        ;
    }
}

} // verus!
