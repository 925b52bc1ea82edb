//! The picture shown while the device sleeps: pictures in the BMP format, and where the chosen one
//! is kept in flash.
use vstd::prelude::*;

use crate::bits::{bit_of, lemma_clear_bit, lemma_place_in, lit, pad_clear, row_bytes, set_pixel};
use crate::draw::{Area, Canvas, DrawOp, Op};

verus! {

/// Where in flash the picture is kept.
pub const STORAGE_OFFSET: u32 = 0x310000;

/// What a kept picture begins with.
pub const SLEEP_IMAGE_MAGIC: u32 = 0x534C4550;

/// How many bytes lie before the pixels of a kept picture.
pub const HEADER_SIZE: u32 = 8;

pub const SLEEP_IMG_W: u32 = 300;

pub const SLEEP_IMG_H: u32 = 400;

/// How many bytes a row of the kept picture takes.
pub const ROW_BYTES: u32 = 38;

/// How many bytes the header of a BMP file takes.
pub const BMP_HEADER: usize = 54;

/// What a BMP file says of itself.
#[derive(Clone, Copy, Debug, PartialEq, Eq, Structural)]
pub struct BmpInfo {
    pub pixel_offset: usize,
    pub bmp_w: u32,
    pub bmp_h: u32,
    pub bpp: u32,
    pub top_down: bool,
    pub src_row_stride: usize,
}

/// Something to write to flash, and what to report where that fails.
#[derive(Debug)]
pub struct FlashWrite {
    pub offset: u32,
    pub data: Vec<u8>,
    pub failure: &'static str,
}

/// Where a write to flash goes and what it puts there; what is reported stands beside it.
pub struct WriteView {
    pub offset: int,
    pub data: Seq<u8>,
}

impl View for FlashWrite {
    type V = WriteView;

    open spec fn view(&self) -> WriteView {
        WriteView { offset: self.offset as int, data: self.data@ }
    }
}

/// The number in two bytes at `o`, the less significant first.
pub open spec fn le16(b: Seq<u8>, o: int) -> int {
    b[o] + b[o + 1] * 0x100
}

/// The number in four bytes at `o`, the least significant first.
pub open spec fn le32(b: Seq<u8>, o: int) -> int {
    b[o] + b[o + 1] * 0x100 + b[o + 2] * 0x10000 + b[o + 3] * 0x1000000
}

/// The four bytes of a number, the least significant first.
pub open spec fn le32_bytes(n: u32) -> Seq<u8> {
    seq![
        (n % 256) as u8,
        ((n / 0x100) % 256) as u8,
        ((n / 0x10000) % 256) as u8,
        (n / 0x1000000) as u8,
    ]
}

/// The number in four bytes.
fn read_le32(b: &[u8], o: usize) -> (n: u32)
    requires
        o + 3 < b@.len(),
        o < 0x1000,
    ensures
        n == le32(b@, o as int),
{
    b[o] as u32 + b[o + 1] as u32 * 0x100 + b[o + 2] as u32 * 0x10000 + b[o + 3] as u32 * 0x1000000
}

/// The four bytes of a number.
fn write_le32(v: &mut Vec<u8>, n: u32)
    ensures
        final(v)@ == old(v)@ + le32_bytes(n),
{
    v.push((n % 256) as u8);
    v.push(((n / 0x100) % 256) as u8);
    v.push(((n / 0x10000) % 256) as u8);
    v.push((n / 0x1000000) as u8);
    assert(v@ =~= old(v)@ + le32_bytes(n));
}

/// The bytes of a number spell that number.
pub proof fn lemma_le32(n: u32)
    ensures
        le32(le32_bytes(n), 0) == n,
        le32_bytes(n).len() == 4,
{
}

/// How many bytes a source row of `w` pixels takes.
pub open spec fn source_row(w: int, bpp: int) -> int {
    if bpp == 1 {
        (w + 7) / 8
    } else if bpp == 24 {
        w * 3
    } else {
        w * 4
    }
}

/// `n` rounded up to a multiple of four.
pub open spec fn round_4(n: int) -> int {
    (n + 3) / 4 * 4
}

/// The height of a picture as it is stored: a negative one means that the top row comes first.
pub open spec fn height_of(raw: int) -> int {
    if raw >= 0x8000_0000 {
        0x1_0000_0000 - raw
    } else {
        raw
    }
}

/// What the header of a BMP file says: nothing where it is none, is empty, or has a number of
/// colours or a row length that is not supported.
pub open spec fn bmp_info(h: Seq<u8>) -> Option<BmpInfo> {
    let w = le32(h, 18);
    let height = height_of(le32(h, 22));
    let bpp = le16(h, 28);
    let stride = round_4(source_row(w, bpp));
    if h.len() < BMP_HEADER || h[0] != 0x42 || h[1] != 0x4D || w == 0 || height == 0 || !(bpp == 1
        || bpp == 24 || bpp == 32) || stride > u32::MAX {
        None
    } else {
        Some(
            BmpInfo {
                pixel_offset: le32(h, 10) as usize,
                bmp_w: w as u32,
                bmp_h: height as u32,
                bpp: bpp as u32,
                top_down: le32(h, 22) >= 0x8000_0000,
                src_row_stride: stride as usize,
            },
        )
    }
}

/// The brightness of a pixel, out of 255.
pub open spec fn luma(r: int, g: int, b: int) -> int {
    (r * 299 + g * 587 + b * 114) / 1000
}

/// The pixel `sx` of the row at `start` is dark. What lies beyond the data is light, and so is
/// everything in a format that is not supported.
pub open spec fn dark(data: Seq<u8>, start: int, bpp: int, sx: int) -> bool {
    if bpp == 1 {
        start + sx / 8 < data.len() && !bit_of(data[start + sx / 8], sx % 8)
    } else if bpp == 24 || bpp == 32 {
        let px = start + sx * (if bpp == 24 {
            3int
        } else {
            4
        });
        px + 2 < data.len() && luma(data[px + 2] as int, data[px + 1] as int, data[px] as int) < 128
    } else {
        false
    }
}

/// The source column that is shown in column `dx` out of `tw`.
pub open spec fn source_x(info: BmpInfo, dx: int, tw: int) -> int {
    dx * info.bmp_w / tw
}

/// The source row, in the order in which rows are stored, that is shown in row `dy` out of `th`.
pub open spec fn source_y(info: BmpInfo, dy: int, th: int) -> int {
    let y = dy * info.bmp_h / th;
    if info.top_down {
        y
    } else {
        info.bmp_h - 1 - y
    }
}

/// The pixel at `dx`, `dy` of a BMP file, scaled to `tw` times `th`, is dark.
pub open spec fn bmp_dark(raw: Seq<u8>, info: BmpInfo, tw: int, th: int, dx: int, dy: int) -> bool {
    dark(
        raw,
        info.pixel_offset + source_y(info, dy, th) * info.src_row_stride,
        info.bpp as int,
        source_x(info, dx, tw),
    )
}

/// `out` is the picture in the BMP file `raw`, scaled to `tw` times `th`: a set bit for each dark
/// pixel and no other.
pub open spec fn is_bmp_picture(out: Seq<u8>, raw: Seq<u8>, info: BmpInfo, tw: int, th: int) -> bool {
    &&& out.len() == row_bytes(tw) * th
    &&& pad_clear(out, tw, th)
    &&& forall|x: int, y: int|
        0 <= x < tw && 0 <= y < th ==> #[trigger] lit(out, tw, x, y) == bmp_dark(
            raw,
            info,
            tw,
            th,
            x,
            y,
        )
}

/// Whether the pixel `sx` of the row at `start` is dark.
pub(crate) fn is_dark(data: &[u8], start: u64, bpp: u32, sx: u32) -> (d: bool)
    requires
        start <= 0xC000_0000_0000_0000,
    ensures
        d == dark(data@, start as int, bpp as int, sx as int),
{
    let len: u64 = data.len() as u64;
    if bpp == 1 {
        let i: u64 = start + (sx / 8) as u64;
        let k: u8 = (sx % 8) as u8;
        i < len && data[i as usize] & (0x80u8 >> k) == 0
    } else if bpp == 24 || bpp == 32 {
        let px: u64 = start + sx as u64 * (if bpp == 24 {
            3
        } else {
            4
        });
        if px + 2 < len {
            let b: u32 = data[px as usize] as u32;
            let g: u32 = data[(px + 1) as usize] as u32;
            let r: u32 = data[(px + 2) as usize] as u32;
            (r * 299 + g * 587 + b * 114) / 1000 < 128
        } else {
            false
        }
    } else {
        false
    }
}

/// `a` times `b` divided by `n`, for `a` below `n`.
pub(crate) fn scale(a: u32, b: u32, n: u32) -> (r: u32)
    requires
        a < n,
    ensures
        r == a * b / (n as int),
        b > 0 ==> r < b,
{
    assert(a * b <= 0xffff_ffff * 0xffff_ffff) by (nonlinear_arith)
        requires
            0 <= a <= 0xffff_ffff,
            0 <= b <= 0xffff_ffff,
    ;
    assert(b > 0 ==> a * b / (n as int) < b) by (nonlinear_arith)
        requires
            0 <= a < n,
            0 <= b,
    ;
    assert(b == 0 ==> a * b / (n as int) == 0) by (nonlinear_arith)
        requires
            0 <= a < n,
    ;
    (a as u64 * b as u64 / n as u64) as u32
}

impl BmpInfo {
    /// What the header of a BMP file says.
    pub fn parse(header: &[u8]) -> (info: Option<BmpInfo>)
        ensures
            info == bmp_info(header@),
    {
        if header.len() < BMP_HEADER || header[0] != 0x42 || header[1] != 0x4D {
            return None;
        }
        let pixel_offset: u32 = read_le32(header, 10);
        let bmp_w: u32 = read_le32(header, 18);
        let raw: u32 = read_le32(header, 22);
        let bpp: u32 = header[28] as u32 + header[29] as u32 * 0x100;
        let top_down: bool = raw >= 0x8000_0000;
        let bmp_h: u32 = if top_down {
            (0x1_0000_0000u64 - raw as u64) as u32
        } else {
            raw
        };
        if bmp_w == 0 || bmp_h == 0 || (bpp != 1 && bpp != 24 && bpp != 32) {
            return None;
        }
        let src_row_bytes: u64 = if bpp == 1 {
            (bmp_w as u64 + 7) / 8
        } else if bpp == 24 {
            bmp_w as u64 * 3
        } else {
            bmp_w as u64 * 4
        };
        let stride: u64 = (src_row_bytes + 3) / 4 * 4;
        if stride > u32::MAX as u64 {
            return None;
        }
        Some(
            BmpInfo {
                pixel_offset: pixel_offset as usize,
                bmp_w,
                bmp_h,
                bpp,
                top_down,
                src_row_stride: stride as usize,
            },
        )
    }

    /// The numbers are those that a header can say.
    pub open spec fn sound(self) -> bool {
        &&& self.pixel_offset <= u32::MAX
        &&& self.src_row_stride <= u32::MAX
        &&& 0 < self.bmp_w
        &&& 0 < self.bmp_h <= 0x8000_0000
        &&& self.bpp == 1 || self.bpp == 24 || self.bpp == 32
        &&& source_row(self.bmp_w as int, self.bpp as int) <= self.src_row_stride
    }
}

/// What a header says is sound.
pub proof fn lemma_info_sound(h: Seq<u8>)
    ensures
        bmp_info(h) matches Some(i) ==> i.sound(),
{
}

/// A bitmap of noughts.
fn blank(n: usize) -> (v: Vec<u8>)
    ensures
        v@.len() == n,
        forall|i: int| 0 <= i < n ==> v@[i] == 0,
{
    let mut v: Vec<u8> = Vec::new();
    while v.len() < n
        invariant
            v@.len() <= n,
            forall|i: int| 0 <= i < v@.len() ==> v@[i] == 0,
        decreases n - v@.len(),
    {
        v.push(0);
    }
    v
}

proof fn lemma_blank(v: Seq<u8>, w: int, h: int)
    requires
        w >= 0,
        h >= 0,
        v.len() >= h * row_bytes(w),
        forall|i: int| 0 <= i < v.len() ==> v[i] == 0,
    ensures
        pad_clear(v, w, h),
        forall|x: int, y: int| 0 <= x < w && 0 <= y < h ==> !#[trigger] lit(v, w, x, y),
{
    assert forall|i: int, k: int| 0 <= i < v.len() && 0 <= k < 8 implies !#[trigger] bit_of(
        v[i],
        k,
    ) by {
        lemma_clear_bit(k as u8);
    }
    assert forall|x: int, y: int| 0 <= x < w && 0 <= y < h implies !#[trigger] lit(v, w, x, y) by {
        lemma_place_in(w, h, x, y);
        lemma_clear_bit((x % 8) as u8);
    }
}

/// Draws the picture in a BMP file into a blank bitmap.
fn convert(raw: &[u8], info: &BmpInfo, target_w: u32, target_h: u32, out: &mut Vec<u8>)
    requires
        info.sound(),
        old(out)@.len() == row_bytes(target_w as int) * target_h,
        forall|i: int| 0 <= i < old(out)@.len() ==> old(out)@[i] == 0,
    ensures
        is_bmp_picture(final(out)@, raw@, *info, target_w as int, target_h as int),
{
    proof {
        assert(row_bytes(target_w as int) * target_h == target_h * row_bytes(target_w as int))
            by (nonlinear_arith);
        lemma_blank(out@, target_w as int, target_h as int);
    }
    let mut dy: u32 = 0;
    while dy < target_h
        invariant
            dy <= target_h,
            info.sound(),
            out@.len() == row_bytes(target_w as int) * target_h,
            out@.len() == target_h * row_bytes(target_w as int),
            pad_clear(out@, target_w as int, target_h as int),
            forall|x: int, y: int|
                0 <= x < target_w && 0 <= y < target_h ==> #[trigger] lit(
                    out@,
                    target_w as int,
                    x,
                    y,
                ) == (y < dy && bmp_dark(
                    raw@,
                    *info,
                    target_w as int,
                    target_h as int,
                    x,
                    y,
                )),
        decreases target_h - dy,
    {
        let y: u32 = scale(dy, info.bmp_h, target_h);
        let src_y: u32 = if info.top_down {
            y
        } else {
            info.bmp_h - 1 - y
        };
        assert(src_y * info.src_row_stride <= 0x8000_0000 * 0xffff_ffff) by (nonlinear_arith)
            requires
                0 <= src_y <= 0x8000_0000,
                0 <= info.src_row_stride <= 0xffff_ffff,
        ;
        let start: u64 = info.pixel_offset as u64 + src_y as u64 * info.src_row_stride as u64;
        let ghost before = out@;
        let mut dx: u32 = 0;
        while dx < target_w
            invariant
                dx <= target_w,
                dy < target_h,
                start <= 0xC000_0000_0000_0000,
                start == info.pixel_offset + source_y(*info, dy as int, target_h as int)
                    * info.src_row_stride,
                out@.len() == before.len(),
                out@.len() == target_h * row_bytes(target_w as int),
                pad_clear(out@, target_w as int, target_h as int),
                forall|x: int, y: int|
                    0 <= x < target_w && 0 <= y < target_h ==> #[trigger] lit(
                        before,
                        target_w as int,
                        x,
                        y,
                    ) == (y < dy && bmp_dark(
                        raw@,
                        *info,
                        target_w as int,
                        target_h as int,
                        x,
                        y,
                    )),
                forall|x: int, y: int|
                    0 <= x < target_w && 0 <= y < target_h ==> #[trigger] lit(
                        out@,
                        target_w as int,
                        x,
                        y,
                    ) == ((y < dy || (y == dy && x < dx)) && bmp_dark(
                        raw@,
                        *info,
                        target_w as int,
                        target_h as int,
                        x,
                        y,
                    )),
            decreases target_w - dx,
        {
            let sx: u32 = scale(dx, info.bmp_w, target_w);
            if is_dark(raw, start, info.bpp, sx) {
                set_pixel(out, target_w, target_h, dx, dy);
            }
            dx += 1;
        }
        dy += 1;
    }
}

/// The picture in a BMP file as one bit a pixel, scaled to a size; nothing where the file is not
/// valid or not supported.
pub fn bmp_to_pixels(raw_bmp: &[u8], target_w: u32, target_h: u32) -> (r: Option<Vec<u8>>)
    requires
        row_bytes(target_w as int) * target_h <= usize::MAX,
    ensures
        r is Some <==> bmp_info(raw_bmp@) is Some,
        r matches Some(p) ==> is_bmp_picture(
            p@,
            raw_bmp@,
            bmp_info(raw_bmp@)->0,
            target_w as int,
            target_h as int,
        ),
{
    let info = match BmpInfo::parse(raw_bmp) {
        Some(i) => i,
        None => {
            return None;
        },
    };
    proof {
        lemma_info_sound(raw_bmp@);
        assert(0 <= row_bytes(target_w as int) * target_h) by (nonlinear_arith)
            requires
                0 <= row_bytes(target_w as int),
                0 <= target_h,
        ;
    }
    let row: usize = ((target_w as u64 + 7) / 8) as usize;
    let mut pixels = blank(row * target_h as usize);
    convert(raw_bmp, &info, target_w, target_h, &mut pixels);
    Some(pixels)
}

/// The picture in a BMP file as one bit a pixel, scaled to a size, in a given buffer. Refused,
/// with the buffer unchanged, where the buffer has another size or the file is not valid or not
/// supported.
pub fn bmp_to_pixels_buf(raw_bmp: &[u8], target_w: u32, target_h: u32, out: &mut Vec<u8>) -> (ok:
    bool)
    requires
        row_bytes(target_w as int) * target_h <= usize::MAX,
    ensures
        ok == (old(out)@.len() == row_bytes(target_w as int) * target_h && bmp_info(
            raw_bmp@,
        ) is Some),
        !ok ==> final(out)@ == old(out)@,
        ok ==> is_bmp_picture(
            final(out)@,
            raw_bmp@,
            bmp_info(raw_bmp@)->0,
            target_w as int,
            target_h as int,
        ),
{
    proof {
        assert(0 <= row_bytes(target_w as int) * target_h) by (nonlinear_arith)
            requires
                0 <= row_bytes(target_w as int),
                0 <= target_h,
        ;
    }
    let row: usize = ((target_w as u64 + 7) / 8) as usize;
    if out.len() != row * target_h as usize {
        return false;
    }
    let info = match BmpInfo::parse(raw_bmp) {
        Some(i) => i,
        None => {
            return false;
        },
    };
    proof {
        lemma_info_sound(raw_bmp@);
    }
    let mut i: usize = 0;
    while i < out.len()
        invariant
            i <= out@.len(),
            out@.len() == old(out)@.len(),
            forall|k: int| 0 <= k < i ==> out@[k] == 0,
        decreases out@.len() - i,
    {
        out.set(i, 0);
        i += 1;
    }
    convert(raw_bmp, &info, target_w, target_h, out);
    true
}

/// One source row as one bit a pixel, scaled to a width. The bytes of `out` beyond the row stay.
pub fn convert_bmp_row(src_row: &[u8], bpp: u32, bmp_w: u32, target_w: u32, out: &mut Vec<u8>)
    requires
        old(out)@.len() >= row_bytes(target_w as int),
    ensures
        final(out)@.len() == old(out)@.len(),
        forall|x: int|
            0 <= x < target_w ==> #[trigger] lit(final(out)@, target_w as int, x, 0) == dark(
                src_row@,
                0,
                bpp as int,
                x * bmp_w / (target_w as int),
            ),
        pad_clear(final(out)@.take(row_bytes(target_w as int)), target_w as int, 1),
        forall|i: int|
            row_bytes(target_w as int) <= i < old(out)@.len() ==> final(out)@[i] == old(out)@[i],
{
    let n: usize = ((target_w as u64 + 7) / 8) as usize;
    let mut row = blank(n);
    proof {
        lemma_blank(row@, target_w as int, 1);
    }
    let mut dx: u32 = 0;
    while dx < target_w
        invariant
            dx <= target_w,
            row@.len() == row_bytes(target_w as int),
            pad_clear(row@, target_w as int, 1),
            forall|x: int, y: int|
                0 <= x < target_w && 0 <= y < 1 ==> #[trigger] lit(row@, target_w as int, x, y) == (x
                    < dx && dark(src_row@, 0, bpp as int, x * bmp_w / (target_w as int))),
        decreases target_w - dx,
    {
        let sx: u32 = scale(dx, bmp_w, target_w);
        if is_dark(src_row, 0, bpp, sx) {
            set_pixel(&mut row, target_w, 1, dx, 0);
        }
        dx += 1;
    }
    let mut i: usize = 0;
    while i < n
        invariant
            i <= n,
            n == row@.len(),
            n == row_bytes(target_w as int),
            out@.len() == old(out)@.len(),
            n <= out@.len(),
            forall|k: int|
                0 <= k < out@.len() ==> out@[k] == (if k < i {
                    row@[k]
                } else {
                    old(out)@[k]
                }),
        decreases n - i,
    {
        let b: u8 = row[i];
        out.set(i, b);
        i += 1;
    }
    proof {
        assert(out@.take(n as int) =~= row@);
        assert forall|x: int| 0 <= x < target_w implies #[trigger] lit(
            out@,
            target_w as int,
            x,
            0,
        ) == dark(src_row@, 0, bpp as int, x * bmp_w / (target_w as int)) by {
            assert(lit(row@, target_w as int, x, 0) == dark(
                src_row@,
                0,
                bpp as int,
                x * bmp_w / (target_w as int),
            ));
            assert(0 <= x / 8 < n);
        }
    }
}

/// The bytes that were read begin a kept picture.
pub open spec fn begins_image(b: Option<Seq<u8>>) -> bool {
    b matches Some(b) && b.len() >= 4 && le32(b, 0) == SLEEP_IMAGE_MAGIC
}

/// Some bytes, where they could be read.
pub open spec fn opt_bytes(b: Option<Vec<u8>>) -> Option<Seq<u8>> {
    match b {
        Some(b) => Some(b@),
        None => None,
    }
}

/// Whether flash holds a picture, by the bytes at its place, where they could be read.
pub fn has_sleep_image(bytes: &Option<Vec<u8>>) -> (b: bool)
    ensures
        b == begins_image(opt_bytes(*bytes)),
{
    match bytes {
        Some(b) => b.len() >= 4 && read_le32(b.as_slice(), 0) == SLEEP_IMAGE_MAGIC,
        None => false,
    }
}

/// The size of the picture in flash, by the header at its place, where it could be read.
pub fn get_sleep_image_size(header: &Option<Vec<u8>>) -> (size: Option<u32>)
    requires
        header matches Some(h) ==> h@.len() == HEADER_SIZE,
    ensures
        size == (if begins_image(opt_bytes(*header)) {
            Some(le32(header->0@, 4) as u32)
        } else {
            None
        }),
{
    match header {
        Some(h) => {
            if read_le32(h.as_slice(), 0) != SLEEP_IMAGE_MAGIC {
                return None;
            }
            Some(read_le32(h.as_slice(), 4))
        },
        None => None,
    }
}

/// The header that marks no picture.
pub open spec fn no_header() -> Seq<u8> {
    Seq::new(8, |i: int| 0u8)
}

/// The header of a picture whose pixels take `size` bytes.
pub open spec fn image_header(size: u32) -> Seq<u8> {
    le32_bytes(SLEEP_IMAGE_MAGIC) + le32_bytes(size)
}

/// Marks that flash holds no picture.
pub fn delete_sleep_image() -> (w: FlashWrite)
    ensures
        w@ == (WriteView { offset: STORAGE_OFFSET as int, data: no_header() }),
        w.failure@ == "flash write failed"@,
{
    let data = blank(8);
    assert(data@ =~= no_header());
    FlashWrite { offset: STORAGE_OFFSET, data, failure: "flash write failed" }
}

/// Marks that flash holds no picture, before a new one is written.
pub fn begin_sleep_image_write() -> (w: FlashWrite)
    ensures
        w@ == (WriteView { offset: STORAGE_OFFSET as int, data: no_header() }),
        w.failure@ == "flash write failed"@,
{
    delete_sleep_image()
}

/// Where a row of the kept picture lies.
pub open spec fn row_offset(row: int) -> int {
    STORAGE_OFFSET + HEADER_SIZE + row * ROW_BYTES
}

/// Writes one row of pixels.
pub fn write_sleep_pixel_row(row_index: u32, pixel_row: Vec<u8>) -> (w: FlashWrite)
    requires
        row_offset(row_index as int) <= u32::MAX,
    ensures
        w@ == (WriteView { offset: row_offset(row_index as int), data: pixel_row@ }),
        w.failure@ == "flash write failed"@,
{
    let offset: u32 = STORAGE_OFFSET + HEADER_SIZE + row_index * ROW_BYTES;
    FlashWrite { offset, data: pixel_row, failure: "flash write failed" }
}

/// The header of a picture whose pixels take `size` bytes.
fn make_header(size: u32) -> (data: Vec<u8>)
    ensures
        data@ == image_header(size),
{
    let mut data: Vec<u8> = Vec::new();
    write_le32(&mut data, SLEEP_IMAGE_MAGIC);
    write_le32(&mut data, size);
    assert(data@ =~= image_header(size));
    data
}

/// Marks that flash holds a picture, once all of it was written.
pub fn finish_sleep_image_write() -> (w: FlashWrite)
    ensures
        w@ == (WriteView { offset: STORAGE_OFFSET as int, data: image_header(15200) }),
        w.failure@ == "flash write header failed"@,
{
    FlashWrite {
        offset: STORAGE_OFFSET,
        data: make_header(ROW_BYTES * SLEEP_IMG_H),
        failure: "flash write header failed",
    }
}

/// Keeps the picture in a BMP file: what to write to flash, in order. The mark of the old picture
/// goes first and that of the new one comes last, so that no half of a picture is ever marked.
pub fn save_sleep_image(raw_bmp: &[u8]) -> (r: Result<Vec<FlashWrite>, &'static str>)
    ensures
        r is Ok <==> bmp_info(raw_bmp@) is Some,
        r matches Err(e) ==> e@ == "invalid BMP"@,
        r matches Ok(w) ==> {
            &&& w@.len() == 3
            &&& w@[0]@ == (WriteView { offset: STORAGE_OFFSET as int, data: no_header() })
            &&& w@[1]@.offset == STORAGE_OFFSET + HEADER_SIZE
            &&& is_bmp_picture(
                w@[1]@.data,
                raw_bmp@,
                bmp_info(raw_bmp@)->0,
                SLEEP_IMG_W as int,
                SLEEP_IMG_H as int,
            )
            &&& w@[2]@ == (WriteView { offset: STORAGE_OFFSET as int, data: image_header(15200) })
            &&& w@[0].failure@ == "flash write failed"@
            &&& w@[1].failure@ == "flash write pixels failed"@
            &&& w@[2].failure@ == "flash write header failed"@
        },
{
    let pixels = match bmp_to_pixels(raw_bmp, SLEEP_IMG_W, SLEEP_IMG_H) {
        Some(p) => p,
        None => {
            return Err("invalid BMP");
        },
    };
    let size: u32 = pixels.len() as u32;
    let mut writes: Vec<FlashWrite> = Vec::new();
    writes.push(begin_sleep_image_write());
    writes.push(
        FlashWrite {
            offset: STORAGE_OFFSET + HEADER_SIZE,
            data: pixels,
            failure: "flash write pixels failed",
        },
    );
    writes.push(
        FlashWrite {
            offset: STORAGE_OFFSET,
            data: make_header(size),
            failure: "flash write header failed",
        },
    );
    Ok(writes)
}

/// Flash memory after a write.
pub open spec fn written(flash: spec_fn(int) -> u8, w: WriteView) -> spec_fn(int) -> u8 {
    |a: int|
        if w.offset <= a < w.offset + w.data.len() {
            w.data[a - w.offset]
        } else {
            flash(a)
        }
}

/// Flash memory after several writes, in order.
pub open spec fn all_written(flash: spec_fn(int) -> u8, ws: Seq<WriteView>) -> spec_fn(int) -> u8
    decreases ws.len(),
{
    if ws.len() == 0 {
        flash
    } else {
        written(all_written(flash, ws.drop_last()), ws.last())
    }
}

/// `n` bytes of flash memory from `o` on.
pub open spec fn flash_at(flash: spec_fn(int) -> u8, o: int, n: int) -> Seq<u8> {
    Seq::new(n as nat, |i: int| flash(o + i))
}

/// Flash memory holds a marked picture.
pub open spec fn holds_image(flash: spec_fn(int) -> u8) -> bool {
    begins_image(Some(flash_at(flash, STORAGE_OFFSET as int, 4)))
}

/// The write touches nothing of the mark.
pub open spec fn beside_mark(w: WriteView) -> bool {
    w.offset >= STORAGE_OFFSET + HEADER_SIZE
}

/// The way in which a picture is written: the mark is taken away, the pixels follow in any number
/// of writes beside it, and the mark comes last.
pub open spec fn image_writes(ws: Seq<WriteView>, size: u32) -> bool {
    &&& ws.len() >= 2
    &&& ws[0] == (WriteView { offset: STORAGE_OFFSET as int, data: no_header() })
    &&& ws.last() == (WriteView { offset: STORAGE_OFFSET as int, data: image_header(size) })
    &&& forall|i: int| 1 <= i < ws.len() - 1 ==> beside_mark(#[trigger] ws[i])
}

proof fn lemma_no_mark(flash: spec_fn(int) -> u8, ws: Seq<WriteView>, size: u32, k: int)
    requires
        image_writes(ws, size),
        1 <= k < ws.len(),
    ensures
        forall|a: int|
            STORAGE_OFFSET <= a < STORAGE_OFFSET + 8 ==> #[trigger] all_written(flash, ws.take(k))(a)
                == 0,
    decreases k,
{
    let t = ws.take(k);
    assert(t.last() == ws[k - 1]);
    assert(t.drop_last() =~= ws.take(k - 1));
    if k > 1 {
        lemma_no_mark(flash, ws, size, k - 1);
        assert(beside_mark(ws[k - 1]));
    }
    let before = all_written(flash, t.drop_last());
    assert(all_written(flash, t) == written(before, t.last()));
    assert forall|a: int| STORAGE_OFFSET <= a < STORAGE_OFFSET + 8 implies #[trigger] all_written(
        flash,
        ws.take(k),
    )(a) == 0 by {
        if k > 1 {
            assert(all_written(flash, ws.take(k - 1))(a) == 0);
        }
    }
}

/// While a picture is being written, from the first write up to the last but one, flash holds no
/// marked picture; after the last it does. So a loss of power never leaves half a picture.
pub proof fn law_no_half_picture(flash: spec_fn(int) -> u8, ws: Seq<WriteView>, size: u32, k: int)
    requires
        image_writes(ws, size),
        1 <= k <= ws.len(),
    ensures
        holds_image(all_written(flash, ws.take(k))) <==> k == ws.len(),
{
    let mem = all_written(flash, ws.take(k));
    let b = flash_at(mem, STORAGE_OFFSET as int, 4);
    if k < ws.len() {
        lemma_no_mark(flash, ws, size, k);
        assert(mem(STORAGE_OFFSET as int) == 0);
        assert(b[0] == mem(STORAGE_OFFSET as int));
        assert(mem(STORAGE_OFFSET + 1) == 0 && mem(STORAGE_OFFSET + 2) == 0 && mem(
            STORAGE_OFFSET + 3,
        ) == 0);
        assert(le32(b, 0) == 0);
    } else {
        lemma_le32(SLEEP_IMAGE_MAGIC);
        assert(ws.take(k) =~= ws);
        assert(mem == written(all_written(flash, ws.drop_last()), ws.last()));
        let h = image_header(size);
        assert(mem(STORAGE_OFFSET + 0) == h[0]);
        assert(mem(STORAGE_OFFSET + 1) == h[1]);
        assert(mem(STORAGE_OFFSET + 2) == h[2]);
        assert(mem(STORAGE_OFFSET + 3) == h[3]);
        assert(b =~= le32_bytes(SLEEP_IMAGE_MAGIC));
    }
}

/// Draws a row of pixels.
pub fn draw_pixel_row(c: &mut Canvas, row: Vec<u8>, y: i32, width: u32)
    ensures
        final(c)@ == old(c)@.push(Op::Bits(Area { x: 0, y, w: width, h: 1 }, row@)),
{
    c.add_op(DrawOp::Bits(Area { x: 0, y, w: width, h: 1 }, row));
}

/// Draws a picture of one bit a pixel.
pub fn draw_pixels(c: &mut Canvas, pixels: Vec<u8>, width: u32, height: u32)
    ensures
        final(c)@ == old(c)@.push(Op::Bits(Area { x: 0, y: 0, w: width, h: height }, pixels@)),
{
    c.add_op(DrawOp::Bits(Area { x: 0, y: 0, w: width, h: height }, pixels));
}

/// `c` with the first `n` rows of the kept picture, up to the first that could not be read.
pub open spec fn sleep_rows(c: Seq<Op>, rows: Seq<Option<Vec<u8>>>, n: int) -> Seq<Op>
    decreases n,
{
    if n <= 0 {
        c
    } else {
        let before = sleep_rows(c, rows, n - 1);
        if all_read(rows, n) {
            before.push(
                Op::Bits(Area { x: 0, y: (n - 1) as i32, w: SLEEP_IMG_W, h: 1 }, rows[n - 1]->0@),
            )
        } else {
            before
        }
    }
}

/// The first `n` rows could be read.
pub open spec fn all_read(rows: Seq<Option<Vec<u8>>>, n: int) -> bool {
    forall|i: int| 0 <= i < n ==> #[trigger] rows[i] is Some
}

/// Draws the picture for sleep: the kept one where flash holds one, or else the one that the
/// device comes with. Refused where a row of the kept one cannot be read.
pub fn draw_sleep_image(
    c: &mut Canvas,
    header: &Option<Vec<u8>>,
    rows: &Vec<Option<Vec<u8>>>,
    standard: Vec<u8>,
) -> (ok: bool)
    requires
        rows@.len() == SLEEP_IMG_H,
    ensures
        ok == (!begins_image(opt_bytes(*header)) || all_read(rows@, SLEEP_IMG_H as int)),
        final(c)@ == (if begins_image(opt_bytes(*header)) {
            sleep_rows(old(c)@, rows@, SLEEP_IMG_H as int)
        } else {
            old(c)@.push(
                Op::Bits(Area { x: 0, y: 0, w: SLEEP_IMG_W, h: SLEEP_IMG_H }, standard@),
            )
        }),
{
    if !has_sleep_image(header) {
        draw_pixels(c, standard, SLEEP_IMG_W, SLEEP_IMG_H);
        return true;
    }
    let mut y: u32 = 0;
    while y < SLEEP_IMG_H
        invariant
            y <= SLEEP_IMG_H,
            rows@.len() == SLEEP_IMG_H,
            all_read(rows@, y as int),
            c@ == sleep_rows(old(c)@, rows@, y as int),
            begins_image(opt_bytes(*header)),
        decreases SLEEP_IMG_H - y,
    {
        match &rows[y as usize] {
            Some(row) => {
                let mut copy: Vec<u8> = Vec::new();
                let mut k: usize = 0;
                while k < row.len()
                    invariant
                        k <= row@.len(),
                        copy@ =~= row@.take(k as int),
                    decreases row@.len() - k,
                {
                    copy.push(row[k]);
                    k += 1;
                }
                assert(copy@ =~= row@);
                draw_pixel_row(c, copy, y as i32, SLEEP_IMG_W);
            },
            None => {
                proof {
                    lemma_rows_stop(old(c)@, rows@, y as int, SLEEP_IMG_H as int);
                    assert(!all_read(rows@, SLEEP_IMG_H as int)) by {
                        assert(rows@[y as int] is None);
                    }
                }
                return false;
            },
        }
        y += 1;
    }
    true
}

proof fn lemma_rows_stop(c: Seq<Op>, rows: Seq<Option<Vec<u8>>>, k: int, n: int)
    requires
        0 <= k < n,
        k < rows.len(),
        rows[k] is None,
    ensures
        sleep_rows(c, rows, n) == sleep_rows(c, rows, k),
    decreases n - k,
{
    assert(!all_read(rows, n)) by {
        assert(rows[k] is None);
    }
    if k < n - 1 {
        lemma_rows_stop(c, rows, k, n - 1);
    }
}

/// A picture stands upright whichever way its rows are stored: row `dy` of the panel shows the row
/// of the picture that covers it, counted from the top. Of a file that stores the top row first,
/// that is the stored row of this number; of one that stores the bottom row first, the one as far
/// from the end. Columns are never mirrored.
pub proof fn law_pictures_stand_upright(info: BmpInfo, dx: int, dy: int, tw: int, th: int)
    requires
        0 <= dx < tw,
        0 <= dy < th,
        info.bmp_w > 0,
        info.bmp_h > 0,
    ensures
        ({
            let y = source_y(info, dy, th);
            let top = if info.top_down {
                y
            } else {
                info.bmp_h - 1 - y
            };
            &&& 0 <= y < info.bmp_h
            &&& top * th <= dy * info.bmp_h < (top + 1) * th
        }),
        0 <= source_x(info, dx, tw) < info.bmp_w,
        source_x(info, dx, tw) * tw <= dx * info.bmp_w < (source_x(info, dx, tw) + 1) * tw,
{
    lemma_covering(dx, info.bmp_w as int, tw);
    lemma_covering(dy, info.bmp_h as int, th);
}

/// What `k` out of `n` covers of `size`.
pub proof fn lemma_covering(k: int, size: int, n: int)
    requires
        0 <= k < n,
        size > 0,
    ensures
        0 <= k * size / n < size,
        k * size / n * n <= k * size < (k * size / n + 1) * n,
{
    let q = k * size / n;
    assert(q * n <= k * size < q * n + n) by (nonlinear_arith)
        requires
            n > 0,
            q == k * size / n,
    ;
    assert((q + 1) * n == q * n + n) by (nonlinear_arith);
    assert(0 <= q < size) by (nonlinear_arith)
        requires
            0 <= k < n,
            size > 0,
            q * n <= k * size < q * n + n,
    ;
}

/// The header of a BMP file is read as the format has it: the width and the height are signed
/// numbers with the least significant byte first, and a height below nought says that the top row
/// comes first. Every stored row begins four bytes apart or a multiple of that, with no more behind
/// its pixels than that takes.
pub proof fn law_header_is_as_stored(h: Seq<u8>)
    requires
        bmp_info(h) is Some,
    ensures
        ({
            let i = bmp_info(h)->0;
            let high = h[22] + h[23] * 256 + h[24] * 65536 + h[25] * 16777216;
            &&& i.bmp_w == h[18] + h[19] * 256 + h[20] * 65536 + h[21] * 16777216
            &&& i.top_down <==> h[25] >= 128
            &&& i.top_down ==> i.bmp_h + high == 0x1_0000_0000
            &&& !i.top_down ==> i.bmp_h == high
            &&& i.bpp == h[28] + h[29] * 256
            &&& i.pixel_offset == h[10] + h[11] * 256 + h[12] * 65536 + h[13] * 16777216
            &&& i.src_row_stride % 4 == 0
            &&& i.bmp_w * i.bpp <= i.src_row_stride * 8 < i.bmp_w * i.bpp + 32
            &&& h[0] == 'B' as u8 && h[1] == 'M' as u8
        }),
{
    let i = bmp_info(h)->0;
    assert('B' as u8 == 0x42 && 'M' as u8 == 0x4D);
    let w = i.bmp_w as int;
    let p = i.bpp as int;
    assert(p == 1 ==> w * p == w) by (nonlinear_arith);
    assert(p == 24 ==> w * p == 24 * w) by (nonlinear_arith);
    assert(p == 32 ==> w * p == 32 * w) by (nonlinear_arith);
}

/// A pixel is dark where its colour is: darker colours are dark with every brighter one that is
/// dark, black is dark and white is not, and green weighs more than red and red more than blue.
pub proof fn law_darkness_follows_brightness(r: int, g: int, b: int, r2: int, g2: int, b2: int)
    requires
        0 <= r <= r2 <= 255,
        0 <= g <= g2 <= 255,
        0 <= b <= b2 <= 255,
    ensures
        0 <= luma(r, g, b) <= luma(r2, g2, b2) <= 255,
        luma(0, 0, 0) == 0,
        luma(255, 255, 255) == 255,
        r == g == b ==> luma(r, g, b) == r,
        luma(0, 0, r) <= luma(r, 0, 0) <= luma(0, r, 0),
        r >= 100 ==> luma(0, 0, r) < luma(r, 0, 0) < luma(0, r, 0),
{
}

/// A dark pixel of a picture in two colours is a digit of nought; of one in full colour, a colour
/// stored as blue, green and red whose brightness is in the lower half. Beyond the data all is light.
pub proof fn law_dark_pixels_are_as_stored(data: Seq<u8>, start: int, sx: int)
    requires
        start >= 0,
        sx >= 0,
    ensures
        start + 3 * sx + 2 < data.len() ==> (dark(data, start, 24, sx) <==> data[start + 3 * sx + 2]
            * 299 + data[start + 3 * sx + 1] * 587 + data[start + 3 * sx] * 114 < 128000),
        start + 4 * sx + 2 < data.len() ==> (dark(data, start, 32, sx) <==> data[start + 4 * sx + 2]
            * 299 + data[start + 4 * sx + 1] * 587 + data[start + 4 * sx] * 114 < 128000),
        start + 3 * sx + 2 >= data.len() ==> !dark(data, start, 24, sx),
        start + 4 * sx + 2 >= data.len() ==> !dark(data, start, 32, sx),
        start + sx / 8 >= data.len() ==> !dark(data, start, 1, sx),
        start + sx / 8 < data.len() ==> (dark(data, start, 1, sx) <==> !bit_of(
            data[start + sx / 8],
            sx % 8,
        )),
{
}

/// The rows of a kept picture follow one another behind its header, and all of them take what the
/// header says: four hundred rows of three hundred pixels, eight to a byte.
pub proof fn law_kept_rows_follow_one_another(row: int)
    ensures
        row_offset(0) == STORAGE_OFFSET + 8,
        row_offset(row + 1) == row_offset(row) + (300 + 7) / 8,
        row_offset(400) == STORAGE_OFFSET + 8 + 15200,
        le32(image_header(15200), 4) == row_offset(400) - row_offset(0),
        image_header(15200).len() == 8,
{
    lemma_le32(15200);
    let h = image_header(15200);
    assert(h.skip(4) =~= le32_bytes(15200));
    assert(h[4] == le32_bytes(15200)[0]);
    assert(h[5] == le32_bytes(15200)[1]);
    assert(h[6] == le32_bytes(15200)[2]);
    assert(h[7] == le32_bytes(15200)[3]);
    assert((row + 1) * ROW_BYTES == row * ROW_BYTES + ROW_BYTES) by (nonlinear_arith);
}

/// The rows of a kept picture are shown one below the other from the top, as far as they could be
/// read.
pub proof fn law_kept_rows_are_shown_in_order(c: Seq<Op>, rows: Seq<Option<Vec<u8>>>, n: int, y: int)
    requires
        0 <= y < n <= rows.len() <= 400,
        all_read(rows, n),
    ensures
        sleep_rows(c, rows, n).len() == c.len() + n,
        sleep_rows(c, rows, n)[c.len() + y] == Op::Bits(
            Area { x: 0, y: y as i32, w: 300, h: 1 },
            rows[y]->0@,
        ),
    decreases n,
{
    assert(all_read(rows, n - 1));
    if y < n - 1 {
        law_kept_rows_are_shown_in_order(c, rows, n - 1, y);
    } else if n > 1 {
        law_kept_rows_are_shown_in_order(c, rows, n - 1, 0);
    } else {
        assert(sleep_rows(c, rows, 0) == c);
    }
}

} // verus!
