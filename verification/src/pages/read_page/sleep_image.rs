//! The picture that the reader shows in sleep, in a bitmap without gaps between its rows.
use vstd::prelude::*;
#[allow(unused_imports)]
use vstd::string::*;

use crate::bits::{bit_of, lemma_clear_bit, lemma_place_in, lit, row_bytes, set_pixel};
use crate::display::{message_ops, sleep_message};
use crate::draw::{Canvas, DrawOp, Ink, Op};
use crate::flash_sleep::{
    bmp_dark, bmp_info, is_dark, lemma_info_sound, scale, source_y, BmpInfo, SLEEP_IMG_H, SLEEP_IMG_W,
};

verus! {

/// How many pixels the picture has.
pub const PIXELS: u32 = 120000;

/// How many bytes the picture takes.
pub const SLEEP_BUF_SIZE: usize = 15000;

/// The largest file that is read.
pub const FILE_MAX: usize = 30000;

/// The pixel `i` of the picture, counted row by row, is black.
pub open spec fn black(pixels: Seq<u8>, i: int) -> bool {
    lit(pixels, PIXELS as int, i, 0)
}

/// What the pixel `i` shows of a file: nothing where the file is empty, too large or no picture.
pub open spec fn shows(raw: Seq<u8>, i: int) -> bool {
    &&& 0 < raw.len() <= FILE_MAX
    &&& bmp_info(raw) matches Some(info) && bmp_dark(raw, info, 300, 400, i % 300, i / 300)
}

/// A white picture.
pub fn alloc_sleep_image() -> (v: Vec<u8>)
    ensures
        v@.len() == SLEEP_BUF_SIZE,
        forall|i: int| 0 <= i < SLEEP_BUF_SIZE ==> v@[i] == 0,
{
    let mut v: Vec<u8> = Vec::new();
    while v.len() < SLEEP_BUF_SIZE
        invariant
            v@.len() <= SLEEP_BUF_SIZE,
            forall|i: int| 0 <= i < v@.len() ==> v@[i] == 0,
        decreases SLEEP_BUF_SIZE - v@.len(),
    {
        v.push(0);
    }
    v
}

/// The picture in a file, scaled to the panel.
pub fn load_sleep_image(raw: &[u8]) -> (pixels: Vec<u8>)
    ensures
        pixels@.len() == SLEEP_BUF_SIZE,
        forall|i: int| 0 <= i < PIXELS ==> #[trigger] black(pixels@, i) == shows(raw@, i),
{
    let mut pixels = alloc_sleep_image();
    proof {
        assert(row_bytes(PIXELS as int) == SLEEP_BUF_SIZE);
        assert forall|i: int| 0 <= i < PIXELS implies !#[trigger] black(pixels@, i) by {
            lemma_place_in(PIXELS as int, 1, i, 0);
            lemma_clear_bit((i % 8) as u8);
        }
    }
    if raw.len() == 0 || raw.len() > FILE_MAX {
        return pixels;
    }
    let info = match BmpInfo::parse(raw) {
        Some(info) => info,
        None => {
            return pixels;
        },
    };
    proof {
        lemma_info_sound(raw@);
    }
    let mut i: u32 = 0;
    while i < PIXELS
        invariant
            i <= PIXELS,
            info.sound(),
            bmp_info(raw@) == Some(info),
            0 < raw@.len() <= FILE_MAX,
            pixels@.len() == SLEEP_BUF_SIZE,
            row_bytes(PIXELS as int) == SLEEP_BUF_SIZE,
            forall|j: int|
                0 <= j < PIXELS ==> #[trigger] black(pixels@, j) == (j < i && shows(raw@, j)),
        decreases PIXELS - i,
    {
        let dy: u32 = i / SLEEP_IMG_W;
        let dx: u32 = i % SLEEP_IMG_W;
        let y: u32 = scale(dy, info.bmp_h, SLEEP_IMG_H);
        let src_y: u32 = if info.top_down {
            y
        } else {
            info.bmp_h - 1 - y
        };
        assert(src_y * info.src_row_stride <= 0x8000_0000 * 0xffff_ffff) by (nonlinear_arith)
            requires
                0 <= src_y <= 0x8000_0000,
                0 <= info.src_row_stride <= 0xffff_ffff,
        ;
        let start: u64 = info.pixel_offset as u64 + src_y as u64 * info.src_row_stride as u64;
        let sx: u32 = scale(dx, info.bmp_w, SLEEP_IMG_W);
        assert(src_y == source_y(info, dy as int, 400));
        if is_dark(raw, start, info.bpp, sx) {
            assert(shows(raw@, i as int));
            let ghost before = pixels@;
            set_pixel(&mut pixels, PIXELS, 1, i, 0);
            assert forall|j: int| 0 <= j < PIXELS implies #[trigger] black(pixels@, j) == (j == i
                || black(before, j)) by {
                assert(lit(pixels@, PIXELS as int, j, 0) == ((j == i && 0int == 0) || lit(
                    before,
                    PIXELS as int,
                    j,
                    0,
                )));
            }
        } else {
            assert(!shows(raw@, i as int));
        }
        i += 1;
    }
    pixels
}

/// `c` with a dot for each black one of the first `n` pixels.
pub open spec fn dot_ops(c: Seq<Op>, pixels: Seq<u8>, n: int) -> Seq<Op>
    decreases n,
{
    if n <= 0 {
        c
    } else {
        let before = dot_ops(c, pixels, n - 1);
        let i = n - 1;
        if black(pixels, i) {
            before.push(Op::Dot((i % 300) as i32, (i / 300) as i32))
        } else {
            before
        }
    }
}

/// Draws what is shown in sleep: the picture where one was loaded, and otherwise a word.
pub fn sleep_renderer(pixels: &Option<Vec<u8>>, w: u32, h: u32) -> (c: Canvas)
    requires
        w <= 0x4000_0000,
        h <= 0x4000_0000,
        pixels matches Some(p) ==> p@.len() == SLEEP_BUF_SIZE,
    ensures
        c@ == (match *pixels {
            Some(p) => dot_ops(seq![Op::Clear(Ink::White)], p@, PIXELS as int),
            None => seq![Op::Clear(Ink::White)] + message_ops(
                seq![],
                "睡眠中"@,
                w as int / 2,
                h as int / 2,
            ),
        }),
{
    let mut c = Canvas::new();
    c.clear(Ink::White);
    assert(c@ =~= seq![Op::Clear(Ink::White)]);
    match pixels {
        Some(p) => {
            let mut i: u32 = 0;
            while i < PIXELS
                invariant
                    i <= PIXELS,
                    p@.len() == SLEEP_BUF_SIZE,
                    c@ == dot_ops(seq![Op::Clear(Ink::White)], p@, i as int),
                decreases PIXELS - i,
            {
                let k: u8 = (i % 8) as u8;
                assert(row_bytes(PIXELS as int) == SLEEP_BUF_SIZE);
                assert(black(p@, i as int) == bit_of(p@[i as int / 8], i as int % 8));
                if p[(i / 8) as usize] & (0x80u8 >> k) != 0 {
                    c.add_op(DrawOp::Dot((i % 300) as i32, (i / 300) as i32));
                }
                i += 1;
            }
        },
        None => {
            c.append(sleep_message(false, w, h));
        },
    }
    c
}

/// A dot is drawn for every black pixel and no other, where it lies: three hundred to a row.
pub proof fn law_dots_lie_where_the_pixels_do(c: Seq<Op>, pixels: Seq<u8>, n: int, x: int, y: int)
    requires
        0 <= x < 300,
        0 <= y < 400,
        300 * y + x < n <= 120000,
        forall|i: int| 0 <= i < c.len() ==> !(#[trigger] c[i] is Dot),
    ensures
        dot_ops(c, pixels, n).contains(Op::Dot(x as i32, y as i32)) <==> black(pixels, 300 * y + x),
    decreases n,
{
    let i = n - 1;
    let d = Op::Dot(x as i32, y as i32);
    let before = dot_ops(c, pixels, i);
    let all = dot_ops(c, pixels, n);
    let e = Op::Dot((i % 300) as i32, (i / 300) as i32);
    if 300 * y + x < i {
        law_dots_lie_where_the_pixels_do(c, pixels, n - 1, x, y);
        assert(e != d);
        if before.contains(d) {
            let k = choose|k: int| 0 <= k < before.len() && before[k] == d;
            assert(all[k] == d);
        }
        if all.contains(d) {
            let k = choose|k: int| 0 <= k < all.len() && all[k] == d;
            assert(before[k] == d);
        }
    } else {
        assert(i == 300 * y + x);
        assert(e == d);
        lemma_later_dots(c, pixels, i, d, i);
        if black(pixels, i) {
            assert(all[before.len() as int] == d);
        }
    }
}

proof fn lemma_later_dots(c: Seq<Op>, pixels: Seq<u8>, n: int, d: Op, at: int)
    requires
        0 <= n <= at < 120000,
        d == Op::Dot((at % 300) as i32, (at / 300) as i32),
        forall|i: int| 0 <= i < c.len() ==> !(#[trigger] c[i] is Dot),
    ensures
        !dot_ops(c, pixels, n).contains(d),
    decreases n,
{
    if n > 0 {
        lemma_later_dots(c, pixels, n - 1, d, at);
        let before = dot_ops(c, pixels, n - 1);
        let all = dot_ops(c, pixels, n);
        if all.contains(d) {
            let k = choose|k: int| 0 <= k < all.len() && all[k] == d;
            if k < before.len() {
                assert(before[k] == d);
            } else {
                let i = n - 1;
                assert(i % 300 == at % 300 && i / 300 == at / 300);
                assert(i == at);
            }
        }
    } else if c.contains(d) {
        let k = choose|k: int| 0 <= k < c.len() && c[k] == d;
        assert(c[k] is Dot);
    }
}

} // verus!
