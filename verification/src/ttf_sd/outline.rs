//! The outline of a glyph: how it is stored in the font, and how its curves become edges.
use vstd::prelude::*;

use crate::ttf_sd::raster::{floor_256, Seg};

verus! {

/// A glyph with more points, contours or edges than this is not drawn in full.
pub const MAX_PTS: usize = 400;

pub const MAX_CONTOURS: usize = 64;

pub const MAX_SEGS: usize = 512;

/// The size of the buffer that glyphs are read into.
pub const GLYF_BUF_MAX: usize = 1024;

/// The number in two bytes, the more significant first.
pub open spec fn be16(b: Seq<u8>, i: int) -> int {
    b[i] * 256 + b[i + 1]
}

/// A 16-bit number taken as signed.
pub open spec fn signed16(n: int) -> int {
    if n < 32768 {
        n
    } else {
        n - 65536
    }
}

/// The number in two bytes.
pub fn read_be16(b: &Vec<u8>, i: usize) -> (n: u16)
    requires
        i + 1 < b.len(),
    ensures
        n == be16(b@, i as int),
{
    (b[i] as u16) * 256 + b[i + 1] as u16
}

/// A 16-bit number taken as signed.
pub fn to_signed16(n: u16) -> (s: i16)
    ensures
        s == signed16(n as int),
{
    if n < 32768 {
        n as i16
    } else {
        (n as i32 - 65536) as i16
    }
}

/// The outline of a glyph in font units.
pub struct Outline {
    pub x_min: i16,
    pub y_min: i16,
    pub x_max: i16,
    pub y_max: i16,
    /// The last point of each contour.
    pub ends: Vec<u16>,
    /// The flags of the points; the lowest bit is set for points on the curve.
    pub flags: Vec<u8>,
    pub xs: Vec<i32>,
    pub ys: Vec<i32>,
}

/// The outline of a glyph as plain values.
pub struct OutlineView {
    pub x_min: int,
    pub y_min: int,
    pub x_max: int,
    pub y_max: int,
    pub ends: Seq<u16>,
    pub flags: Seq<u8>,
    pub xs: Seq<int>,
    pub ys: Seq<int>,
}

/// Some numbers as mathematical integers.
pub open spec fn int_seq(s: Seq<i32>) -> Seq<int> {
    Seq::new(s.len(), |i: int| s[i] as int)
}

impl View for Outline {
    type V = OutlineView;

    open spec fn view(&self) -> OutlineView {
        OutlineView {
            x_min: self.x_min as int,
            y_min: self.y_min as int,
            x_max: self.x_max as int,
            y_max: self.y_max as int,
            ends: self.ends@,
            flags: self.flags@,
            xs: int_seq(self.xs@),
            ys: int_seq(self.ys@),
        }
    }
}

/// The flags of `npt` points from the byte `p` on, after `got`, and where they end. A flag can say
/// how often it is repeated. Nothing where the buffer ends first.
pub open spec fn flag_run(b: Seq<u8>, p: int, got: Seq<u8>, npt: int) -> Option<(Seq<u8>, int)>
    decreases npt - got.len(),
{
    if got.len() >= npt {
        Some((got, p))
    } else if !(0 <= p < b.len()) {
        None
    } else if b[p] & 0x08 != 0 {
        if p + 1 >= b.len() {
            None
        } else {
            let room = npt - got.len() - 1;
            let n = if b[p + 1] < room {
                b[p + 1] as int
            } else {
                room
            };
            flag_run(b, p + 2, got.push(b[p]) + Seq::new(n as nat, |i: int| b[p]), npt)
        }
    } else {
        flag_run(b, p + 1, got.push(b[p]), npt)
    }
}

/// The coordinates of the points from the `i`-th on, each stored as a difference from the one
/// before: in one byte with a sign of its own (`short`), not at all, or in two bytes.
pub open spec fn coord_run(
    b: Seq<u8>,
    p: int,
    flags: Seq<u8>,
    got: Seq<int>,
    cur: int,
    short: u8,
    same: u8,
) -> Option<(Seq<int>, int)>
    decreases flags.len() - got.len(),
{
    let i = got.len() as int;
    if i >= flags.len() {
        Some((got, p))
    } else if flags[i] & short != 0 {
        if !(0 <= p < b.len()) {
            None
        } else {
            let next = if flags[i] & same != 0 {
                cur + b[p]
            } else {
                cur - b[p]
            };
            coord_run(b, p + 1, flags, got.push(next), next, short, same)
        }
    } else if flags[i] & same == 0 {
        if !(0 <= p && p + 1 < b.len()) {
            None
        } else {
            let next = cur + signed16(be16(b, p));
            coord_run(b, p + 2, flags, got.push(next), next, short, same)
        }
    } else {
        coord_run(b, p, flags, got.push(cur), cur, short, same)
    }
}

/// The coordinates are no larger than the differences of all points can add up to.
pub open spec fn moderate(cs: Seq<i32>) -> bool {
    forall|i: int| 0 <= i < cs.len() ==> -0x100_0000 <= #[trigger] cs[i] <= 0x100_0000
}

/// The last points of the first `nc` contours.
pub open spec fn contour_ends(b: Seq<u8>, nc: int) -> Seq<u16> {
    Seq::new(nc as nat, |i: int| be16(b, 10 + 2 * i) as u16)
}

/// The outline that a glyph buffer holds: none for a compound or empty glyph, for one with too
/// many parts, and for one that runs out of the buffer.
pub open spec fn outline_in(b: Seq<u8>) -> Option<OutlineView> {
    let nc = signed16(be16(b, 0));
    let ends = contour_ends(b, nc);
    let npt = ends[nc - 1] + 1;
    let instr = 10 + 2 * nc;
    if nc <= 0 || nc > MAX_CONTOURS || npt > MAX_PTS {
        None
    } else {
        match flag_run(b, instr + 2 + be16(b, instr), seq![], npt) {
            None => None,
            Some((flags, p)) => match coord_run(b, p, flags, seq![], 0, 0x02, 0x10) {
                None => None,
                Some((xs, p)) => match coord_run(b, p, flags, seq![], 0, 0x04, 0x20) {
                    None => None,
                    Some((ys, _)) => Some(
                        OutlineView {
                            x_min: signed16(be16(b, 2)),
                            y_min: signed16(be16(b, 4)),
                            x_max: signed16(be16(b, 6)),
                            y_max: signed16(be16(b, 8)),
                            ends,
                            flags,
                            xs,
                            ys,
                        },
                    ),
                },
            },
        }
    }
}

/// Reads the flags of `npt` points.
fn read_flags(b: &Vec<u8>, start: usize, npt: usize) -> (r: Option<(Vec<u8>, usize)>)
    requires
        b@.len() == GLYF_BUF_MAX,
        start <= 0x2_0000,
        npt <= MAX_PTS,
    ensures
        match r {
            Some((flags, p)) => flag_run(b@, start as int, seq![], npt as int) == Some(
                (flags@, p as int),
            ) && flags@.len() == npt && p <= 0x4_0000,
            None => flag_run(b@, start as int, seq![], npt as int) is None,
        },
{
    let mut flags: Vec<u8> = Vec::new();
    let mut p: usize = start;
    let ghost want = flag_run(b@, start as int, seq![], npt as int);
    assert(flags@ =~= seq![]);
    while flags.len() < npt
        invariant
            b@.len() == GLYF_BUF_MAX,
            flags@.len() <= npt <= MAX_PTS,
            p <= 0x2_0000 + 2 * flags@.len(),
            want == flag_run(b@, start as int, seq![], npt as int),
            want == flag_run(b@, p as int, flags@, npt as int),
        decreases npt - flags@.len(),
    {
        if p >= b.len() {
            return None;
        }
        let fl: u8 = b[p];
        let ghost before = flags@;
        flags.push(fl);
        if fl & 0x08 != 0 {
            if p + 1 >= b.len() {
                return None;
            }
            let rep: usize = b[p + 1] as usize;
            let room: usize = npt - flags.len();
            let n: usize = if rep < room {
                rep
            } else {
                room
            };
            let mut k: usize = 0;
            while k < n
                invariant
                    k <= n,
                    before.len() + 1 + n <= npt <= MAX_PTS,
                    flags@ =~= before.push(fl) + Seq::new(k as nat, |i: int| fl),
                decreases n - k,
            {
                flags.push(fl);
                k += 1;
            }
            p += 2;
            assert(flags@ =~= before.push(b@[p - 2]) + Seq::new(n as nat, |i: int| b@[p - 2]));
        } else {
            p += 1;
        }
    }
    Some((flags, p))
}

/// Reads one coordinate of each point.
fn read_coords(b: &Vec<u8>, start: usize, flags: &Vec<u8>, short: u8, same: u8) -> (r: Option<
    (Vec<i32>, usize),
>)
    requires
        b@.len() == GLYF_BUF_MAX,
        start <= 0x8_0000,
        flags@.len() <= MAX_PTS,
    ensures
        match r {
            Some((cs, p)) => coord_run(b@, start as int, flags@, seq![], 0, short, same) == Some(
                (int_seq(cs@), p as int),
            ) && cs@.len() == flags@.len() && p <= start + 2 * MAX_PTS && moderate(cs@),
            None => coord_run(b@, start as int, flags@, seq![], 0, short, same) is None,
        },
{
    let mut cs: Vec<i32> = Vec::new();
    let mut p: usize = start;
    let mut cur: i32 = 0;
    let ghost want = coord_run(b@, start as int, flags@, seq![], 0, short, same);
    assert(int_seq(cs@) =~= seq![]);
    while cs.len() < flags.len()
        invariant
            b@.len() == GLYF_BUF_MAX,
            cs@.len() <= flags@.len() <= MAX_PTS,
            start <= 0x8_0000,
            p <= start + 2 * cs@.len(),
            -32768 * cs@.len() <= cur <= 32768 * cs@.len(),
            moderate(cs@),
            want == coord_run(b@, start as int, flags@, seq![], 0, short, same),
            want == coord_run(b@, p as int, flags@, int_seq(cs@), cur as int, short, same),
        decreases flags@.len() - cs@.len(),
    {
        let ghost before = cs@;
        let fl: u8 = flags[cs.len()];
        if fl & short != 0 {
            if p >= b.len() {
                return None;
            }
            let d: i32 = b[p] as i32;
            cur = if fl & same != 0 {
                cur + d
            } else {
                cur - d
            };
            p += 1;
        } else if fl & same == 0 {
            if p + 1 >= b.len() {
                return None;
            }
            cur += to_signed16(read_be16(b, p)) as i32;
            p += 2;
        }
        cs.push(cur);
        assert(int_seq(cs@) =~= int_seq(before).push(cur as int));
    }
    Some((cs, p))
}

/// The outline that a glyph buffer holds.
pub fn parse_outline(b: &Vec<u8>) -> (o: Option<Outline>)
    requires
        b@.len() == GLYF_BUF_MAX,
    ensures
        match o {
            Some(o) => outline_in(b@) == Some(o@) && o.well_formed(),
            None => outline_in(b@) is None,
        },
{
    let nc: i16 = to_signed16(read_be16(b, 0));
    if nc <= 0 || nc > 64 {
        return None;
    }
    let nc: usize = nc as usize;
    let mut ends: Vec<u16> = Vec::new();
    while ends.len() < nc
        invariant
            ends@.len() <= nc <= MAX_CONTOURS,
            b@.len() == GLYF_BUF_MAX,
            forall|i: int| 0 <= i < ends@.len() ==> ends@[i] == be16(b@, 10 + 2 * i),
        decreases nc - ends@.len(),
    {
        ends.push(read_be16(b, 10 + ends.len() * 2));
    }
    assert(ends@ =~= contour_ends(b@, nc as int));
    let npt: usize = ends[nc - 1] as usize + 1;
    if npt > MAX_PTS {
        return None;
    }
    let instr: usize = 10 + nc * 2;
    let start: usize = instr + 2 + read_be16(b, instr) as usize;
    let (flags, p) = match read_flags(b, start, npt) {
        Some(r) => r,
        None => {
            return None;
        },
    };
    let (xs, p) = match read_coords(b, p, &flags, 0x02, 0x10) {
        Some(r) => r,
        None => {
            return None;
        },
    };
    let (ys, _p) = match read_coords(b, p, &flags, 0x04, 0x20) {
        Some(r) => r,
        None => {
            return None;
        },
    };
    Some(
        Outline {
            x_min: to_signed16(read_be16(b, 2)),
            y_min: to_signed16(read_be16(b, 4)),
            x_max: to_signed16(read_be16(b, 6)),
            y_max: to_signed16(read_be16(b, 8)),
            ends,
            flags,
            xs,
            ys,
        },
    )
}

impl Outline {
    /// Every point has a flag and two coordinates, which are no larger than their differences
    /// can add up to.
    pub open spec fn well_formed(self) -> bool {
        &&& moderate(self.xs@)
        &&& moderate(self.ys@)
        &&& self.flags@.len() == self.xs@.len()
        &&& self.flags@.len() == self.ys@.len()
        &&& self.flags@.len() <= MAX_PTS
        &&& self.ends@.len() <= MAX_CONTOURS
    }
}

/// A point in pixels, with eight fractional bits.
#[derive(Clone, Copy, Debug, PartialEq, Eq, Structural)]
pub struct Pt {
    pub x: i32,
    pub y: i32,
}

/// The point `i` of an outline, measured from its upper left corner and scaled.
pub open spec fn scaled(o: OutlineView, i: int, scale: int) -> (int, int) {
    ((o.xs[i] - o.x_min) * scale, (o.y_max - o.ys[i]) * scale)
}

/// The scaled points of an outline; a coordinate that thirty-two bits do not hold wraps.
pub open spec fn points(o: OutlineView, scale: int) -> Seq<Pt> {
    Seq::new(
        o.xs.len(),
        |i: int| Pt { x: scaled(o, i, scale).0 as i32, y: scaled(o, i, scale).1 as i32 },
    )
}

/// `n` times `scale`, as far as thirty-two bits hold it.
pub(crate) fn scale_by(n: i32, scale: i32) -> (r: i32)
    ensures
        r == (n * scale) as i32,
{
    assert(-0x8000_0000 * 0x8000_0000 <= n * scale <= 0x8000_0000 * 0x8000_0000)
        by (nonlinear_arith)
        requires
            -0x8000_0000 <= n <= 0x7fff_ffff,
            -0x8000_0000 <= scale <= 0x7fff_ffff,
    ;
    (n as i64 * scale as i64) as i32
}

/// The scaled points of an outline.
fn scale_points(o: &Outline, scale: i32) -> (pts: Vec<Pt>)
    requires
        o.well_formed(),
    ensures
        pts@ == points(o@, scale as int),
{
    let mut pts: Vec<Pt> = Vec::new();
    while pts.len() < o.xs.len()
        invariant
            o.well_formed(),
            pts@.len() <= o.xs@.len(),
            forall|i: int|
                0 <= i < pts@.len() ==> #[trigger] pts@[i] == points(o@, scale as int)[i],
        decreases o.xs@.len() - pts@.len(),
    {
        let i: usize = pts.len();
        let x: i32 = scale_by(o.xs[i] - o.x_min as i32, scale);
        let y: i32 = scale_by(o.y_max as i32 - o.ys[i], scale);
        assert(scaled(o@, i as int, scale as int) == (
            (o.xs@[i as int] - o.x_min) * scale,
            (o.y_max - o.ys@[i as int]) * scale,
        ));
        pts.push(Pt { x, y });
    }
    assert(pts@ =~= points(o@, scale as int));
    pts
}

/// `segs` with one more edge, unless there are too many.
pub open spec fn with_seg(segs: Seq<Seg>, a: Pt, b: Pt) -> Seq<Seg> {
    if segs.len() < MAX_SEGS {
        segs.push(Seg { x0: a.x, y0: a.y, x1: b.x, y1: b.y })
    } else {
        segs
    }
}

/// The weights, in 256ths, of the three points of a curve at the end of its `k`-th sixth.
pub open spec fn weights(k: int) -> (int, int, int) {
    if k == 0 {
        (178, 71, 7)
    } else if k == 1 {
        (114, 114, 28)
    } else if k == 2 {
        (64, 128, 64)
    } else if k == 3 {
        (28, 114, 114)
    } else if k == 4 {
        (7, 71, 178)
    } else {
        (0, 0, 256)
    }
}

/// A coordinate of a curve at the end of its `k`-th sixth.
pub open spec fn curve_at(k: int, a: int, b: int, c: int) -> int {
    (weights(k).0 * a + weights(k).1 * b + weights(k).2 * c) / 256
}

/// The point of a curve at the end of its `k`-th sixth, or its start.
pub open spec fn curve_pt(k: int, a: Pt, b: Pt, c: Pt) -> Pt {
    if k < 0 {
        a
    } else {
        Pt {
            x: curve_at(k, a.x as int, b.x as int, c.x as int) as i32,
            y: curve_at(k, a.y as int, b.y as int, c.y as int) as i32,
        }
    }
}

/// `segs` with the first `n` of the six edges that stand for the curve from `a` to `c`, drawn
/// towards `b`.
pub open spec fn with_curve(segs: Seq<Seg>, a: Pt, b: Pt, c: Pt, n: int) -> Seq<Seg>
    decreases n,
{
    if n <= 0 {
        segs
    } else {
        with_seg(
            with_curve(segs, a, b, c, n - 1),
            curve_pt(n - 2, a, b, c),
            curve_pt(n - 1, a, b, c),
        )
    }
}

/// The weights of a curve's points add up to one, so the curve stays among them, and it ends
/// where its last point is.
pub proof fn law_curve_stays_among_its_points(k: int, a: int, b: int, c: int, lo: int, hi: int)
    requires
        lo <= a <= hi,
        lo <= b <= hi,
        lo <= c <= hi,
    ensures
        lo <= curve_at(k, a, b, c) <= hi,
        curve_at(5, a, b, c) == c,
{
    let w = weights(k);
    assert(w.0 + w.1 + w.2 == 256);
    assert(w.0 * lo <= w.0 * a <= w.0 * hi) by (nonlinear_arith)
        requires
            0 <= w.0,
            lo <= a <= hi,
    ;
    assert(w.1 * lo <= w.1 * b <= w.1 * hi) by (nonlinear_arith)
        requires
            0 <= w.1,
            lo <= b <= hi,
    ;
    assert(w.2 * lo <= w.2 * c <= w.2 * hi) by (nonlinear_arith)
        requires
            0 <= w.2,
            lo <= c <= hi,
    ;
    assert(w.0 * lo + w.1 * lo + w.2 * lo == (w.0 + w.1 + w.2) * lo) by (nonlinear_arith);
    assert(w.0 * hi + w.1 * hi + w.2 * hi == (w.0 + w.1 + w.2) * hi) by (nonlinear_arith);
    assert(0 * a + 0 * b + 256 * c == 256 * c) by (nonlinear_arith);
    assert(weights(5).0 * a + weights(5).1 * b + weights(5).2 * c == 256 * c);
}

/// Adds an edge.
fn seg_push(segs: &mut Vec<Seg>, a: Pt, b: Pt)
    ensures
        final(segs)@ == with_seg(old(segs)@, a, b),
{
    if segs.len() < MAX_SEGS {
        segs.push(Seg { x0: a.x, y0: a.y, x1: b.x, y1: b.y });
    }
}

/// The largest whole number not above half of `n`.
fn floor_half(n: i64) -> (q: i64)
    requires
        n > -0x7fff_ffff_ffff_fff0,
    ensures
        q == n as int / 2,
{
    if n >= 0 {
        n / 2
    } else {
        -((-n + 1) / 2)
    }
}

/// A coordinate of a curve at the end of its `k`-th sixth.
fn curve_coord(k: u8, a: i32, b: i32, c: i32) -> (r: i32)
    requires
        k < 6,
    ensures
        r == curve_at(k as int, a as int, b as int, c as int),
{
    let (u, v, w): (i64, i64, i64) = if k == 0 {
        (178, 71, 7)
    } else if k == 1 {
        (114, 114, 28)
    } else if k == 2 {
        (64, 128, 64)
    } else if k == 3 {
        (28, 114, 114)
    } else if k == 4 {
        (7, 71, 178)
    } else {
        (0, 0, 256)
    };
    proof {
        law_curve_stays_among_its_points(
            k as int,
            a as int,
            b as int,
            c as int,
            -0x8000_0000,
            0x7fff_ffff,
        );
        assert(-256 * 0x8000_0000 <= u * a <= 256 * 0x8000_0000) by (nonlinear_arith)
            requires
                0 <= u <= 256,
                -0x8000_0000 <= a <= 0x7fff_ffff,
        ;
        assert(-256 * 0x8000_0000 <= v * b <= 256 * 0x8000_0000) by (nonlinear_arith)
            requires
                0 <= v <= 256,
                -0x8000_0000 <= b <= 0x7fff_ffff,
        ;
        assert(-256 * 0x8000_0000 <= w * c <= 256 * 0x8000_0000) by (nonlinear_arith)
            requires
                0 <= w <= 256,
                -0x8000_0000 <= c <= 0x7fff_ffff,
        ;
    }
    floor_256(u * a as i64 + v * b as i64 + w * c as i64) as i32
}

/// Adds the six edges that stand for a curve.
fn seg_quad(segs: &mut Vec<Seg>, a: Pt, b: Pt, c: Pt)
    ensures
        final(segs)@ == with_curve(old(segs)@, a, b, c, 6),
{
    let mut cur: Pt = a;
    let mut k: u8 = 0;
    while k < 6
        invariant
            k <= 6,
            cur == curve_pt(k - 1, a, b, c),
            segs@ == with_curve(old(segs)@, a, b, c, k as int),
        decreases 6 - k,
    {
        let end = Pt { x: curve_coord(k, a.x, b.x, c.x), y: curve_coord(k, a.y, b.y, c.y) };
        seg_push(segs, cur, end);
        cur = end;
        k += 1;
    }
}

/// The point halfway between two.
pub open spec fn halfway(a: Pt, b: Pt) -> Pt {
    Pt { x: ((a.x + b.x) / 2) as i32, y: ((a.y + b.y) / 2) as i32 }
}

fn midpoint(a: Pt, b: Pt) -> (m: Pt)
    ensures
        m == halfway(a, b),
{
    Pt {
        x: floor_half(a.x as i64 + b.x as i64) as i32,
        y: floor_half(a.y as i64 + b.y as i64) as i32,
    }
}

/// A flag marks a point on the curve.
pub open spec fn on_curve(f: u8) -> bool {
    f & 1 != 0
}

/// The first point on the curve from the `i`-th of a contour on, or the number of points.
pub open spec fn first_on(flags: Seq<u8>, i: int) -> int
    decreases flags.len() - i,
{
    if 0 <= i < flags.len() && !on_curve(flags[i]) {
        first_on(flags, i + 1)
    } else {
        i
    }
}

/// `segs` with the curves around the first `n` points of a contour that has none on the curve:
/// each curve runs from halfway before its point to halfway after it.
pub open spec fn off_contour(segs: Seq<Seg>, pts: Seq<Pt>, n: int) -> Seq<Seg>
    decreases n,
{
    let len = pts.len() as int;
    if n <= 0 {
        segs
    } else {
        let k = n - 1;
        with_curve(
            off_contour(segs, pts, n - 1),
            if k == 0 {
                halfway(pts[len - 1], pts[0])
            } else {
                halfway(pts[k - 1], pts[k])
            },
            pts[k],
            halfway(pts[k], pts[(k + 1) % len]),
            6,
        )
    }
}

/// `segs` with the rest of a contour from its `k`-th point after `start`, where the pen is at
/// `cur`. A point off the curve pulls the curve towards it; between two such points the curve
/// passes halfway. The contour is closed at the end.
pub open spec fn on_contour(
    segs: Seq<Seg>,
    pts: Seq<Pt>,
    flags: Seq<u8>,
    start: int,
    k: int,
    cur: Pt,
) -> Seq<Seg>
    decreases pts.len() - k,
{
    let n = pts.len() as int;
    let here = (start + k) % n;
    let next = (start + k + 1) % n;
    if k >= n {
        if cur != pts[start] {
            with_seg(segs, cur, pts[start])
        } else {
            segs
        }
    } else if on_curve(flags[here]) {
        on_contour(with_seg(segs, cur, pts[here]), pts, flags, start, k + 1, pts[here])
    } else if k + 1 < n && on_curve(flags[next]) {
        on_contour(
            with_curve(segs, cur, pts[here], pts[next], 6),
            pts,
            flags,
            start,
            k + 2,
            pts[next],
        )
    } else {
        let end = halfway(pts[here], pts[next]);
        on_contour(with_curve(segs, cur, pts[here], end, 6), pts, flags, start, k + 1, end)
    }
}

/// `segs` with the edges of one contour.
pub open spec fn contour(segs: Seq<Seg>, pts: Seq<Pt>, flags: Seq<u8>) -> Seq<Seg> {
    let start = first_on(flags, 0);
    if start == pts.len() {
        off_contour(segs, pts, pts.len() as int)
    } else {
        on_contour(segs, pts, flags, start, 1, pts[start])
    }
}

/// The points of the contour from `s` to `e`.
pub open spec fn part<T>(all: Seq<T>, s: int, e: int) -> Seq<T> {
    all.subrange(s, e + 1)
}

/// Adds the edges of a contour that has no point on the curve.
fn flatten_off(segs: &mut Vec<Seg>, pts: &Vec<Pt>)
    requires
        0 < pts@.len() <= MAX_PTS,
    ensures
        final(segs)@ == off_contour(old(segs)@, pts@, pts@.len() as int),
{
    let n: usize = pts.len();
    let mut cur: Pt = midpoint(pts[n - 1], pts[0]);
    let mut k: usize = 0;
    while k < n
        invariant
            k <= n,
            n == pts@.len(),
            0 < n <= MAX_PTS,
            cur == (if k == 0 {
                halfway(pts@[n - 1], pts@[0])
            } else {
                halfway(pts@[k - 1], pts@[k as int % n as int])
            }),
            segs@ == off_contour(old(segs)@, pts@, k as int),
        decreases n - k,
    {
        let next: usize = (k + 1) % n;
        let end: Pt = midpoint(pts[k], pts[next]);
        assert(k as int % n as int == k) by (nonlinear_arith)
            requires
                0 <= k < n,
        ;
        seg_quad(segs, cur, pts[k], end);
        cur = end;
        k += 1;
    }
}

/// Adds the edges of a contour from its point `start`, which lies on the curve.
fn flatten_on(segs: &mut Vec<Seg>, pts: &Vec<Pt>, flags: &Vec<u8>, start: usize)
    requires
        start < pts@.len() <= MAX_PTS,
        flags@.len() == pts@.len(),
    ensures
        final(segs)@ == on_contour(
            old(segs)@,
            pts@,
            flags@,
            start as int,
            1,
            pts@[start as int],
        ),
{
    let n: usize = pts.len();
    let v0: Pt = pts[start];
    let mut cur: Pt = v0;
    let mut k: usize = 1;
    let ghost want = on_contour(segs@, pts@, flags@, start as int, 1, v0);
    while k < n
        invariant
            1 <= k <= n + 1,
            n == pts@.len(),
            n <= MAX_PTS,
            start < n,
            flags@.len() == n,
            want == on_contour(segs@, pts@, flags@, start as int, k as int, cur),
        decreases n + 2 - k,
    {
        let here: usize = (start + k) % n;
        let next: usize = (start + k + 1) % n;
        if flags[here] & 1 != 0 {
            let p: Pt = pts[here];
            seg_push(segs, cur, p);
            cur = p;
            k += 1;
        } else if k + 1 < n && flags[next] & 1 != 0 {
            let end: Pt = pts[next];
            seg_quad(segs, cur, pts[here], end);
            cur = end;
            k += 2;
        } else {
            let end: Pt = midpoint(pts[here], pts[next]);
            seg_quad(segs, cur, pts[here], end);
            cur = end;
            k += 1;
        }
    }
    if cur.x != v0.x || cur.y != v0.y {
        seg_push(segs, cur, v0);
    }
}

/// Adds the edges of one contour.
fn flatten_contour(segs: &mut Vec<Seg>, pts: &Vec<Pt>, flags: &Vec<u8>)
    requires
        0 < pts@.len() <= MAX_PTS,
        flags@.len() == pts@.len(),
    ensures
        final(segs)@ == contour(old(segs)@, pts@, flags@),
{
    let n: usize = pts.len();
    let mut start: usize = 0;
    while start < n && flags[start] & 1 == 0
        invariant
            start <= n,
            n == flags@.len(),
            first_on(flags@, 0) == first_on(flags@, start as int),
        decreases n - start,
    {
        start += 1;
    }
    if start == n {
        flatten_off(segs, pts);
    } else {
        flatten_on(segs, pts, flags, start);
    }
}

/// `segs` with the contours from the `ci`-th on, which begins at the point `si`. One without points
/// adds nothing; one that ends beyond the points, or further back, ends the outline.
pub open spec fn contours(
    segs: Seq<Seg>,
    pts: Seq<Pt>,
    flags: Seq<u8>,
    ends: Seq<u16>,
    ci: int,
    si: int,
) -> Seq<Seg>
    decreases ends.len() - ci,
{
    if !(0 <= ci < ends.len()) || ends[ci] >= pts.len() || ends[ci] + 1 < si {
        segs
    } else if ends[ci] + 1 == si {
        contours(segs, pts, flags, ends, ci + 1, si)
    } else {
        contours(
            contour(segs, part(pts, si, ends[ci] as int), part(flags, si, ends[ci] as int)),
            pts,
            flags,
            ends,
            ci + 1,
            ends[ci] + 1,
        )
    }
}

/// The edges of an outline at a scale.
pub open spec fn edges(o: OutlineView, scale: int) -> Seq<Seg> {
    contours(seq![], points(o, scale), o.flags, o.ends, 0, 0)
}

/// A part of a list.
fn copy_pts(v: &Vec<Pt>, s: usize, e: usize) -> (r: Vec<Pt>)
    requires
        s <= e < v@.len(),
    ensures
        r@ == part(v@, s as int, e as int),
{
    let n: usize = v.len();
    let mut r: Vec<Pt> = Vec::new();
    let mut i: usize = s;
    while i <= e
        invariant
            s <= i <= e + 1,
            e < n,
            n == v@.len(),
            r@ =~= v@.subrange(s as int, i as int),
        decreases e + 1 - i,
    {
        r.push(v[i]);
        i += 1;
    }
    r
}

/// A part of a list.
fn copy_flags(v: &Vec<u8>, s: usize, e: usize) -> (r: Vec<u8>)
    requires
        s <= e < v@.len(),
    ensures
        r@ == part(v@, s as int, e as int),
{
    let n: usize = v.len();
    let mut r: Vec<u8> = Vec::new();
    let mut i: usize = s;
    while i <= e
        invariant
            s <= i <= e + 1,
            e < n,
            n == v@.len(),
            r@ =~= v@.subrange(s as int, i as int),
        decreases e + 1 - i,
    {
        r.push(v[i]);
        i += 1;
    }
    r
}

/// The edges of an outline at a scale.
pub fn flatten_outline(o: &Outline, scale: i32) -> (segs: Vec<Seg>)
    requires
        o.well_formed(),
    ensures
        segs@ == edges(o@, scale as int),
{
    let pts = scale_points(o, scale);
    let mut segs: Vec<Seg> = Vec::new();
    let mut ci: usize = 0;
    let mut si: usize = 0;
    let ghost want = edges(o@, scale as int);
    assert(segs@ =~= seq![]);
    while ci < o.ends.len()
        invariant_except_break
            want == contours(segs@, pts@, o.flags@, o.ends@, ci as int, si as int),
        invariant
            o.well_formed(),
            ci <= o.ends@.len(),
            si <= 0x1_0000,
            pts@.len() == o.flags@.len(),
        ensures
            want == segs@,
        decreases o.ends@.len() - ci,
    {
        let ei: usize = o.ends[ci] as usize;
        if ei >= pts.len() || ei + 1 < si {
            break;
        }
        if ei + 1 > si {
            let p = copy_pts(&pts, si, ei);
            let f = copy_flags(&o.flags, si, ei);
            flatten_contour(&mut segs, &p, &f);
        }
        si = ei + 1;
        ci += 1;
    }
    segs
}

/// How many bytes a step of a point takes: one, two, or none where the coordinate stays.
pub open spec fn step_size(flag: u8, short: u8, same: u8) -> int {
    if flag & short != 0 {
        1
    } else if flag & same != 0 {
        0
    } else {
        2
    }
}

/// How many bytes the steps of the first `k` points take.
pub open spec fn steps_size(flags: Seq<u8>, k: int, short: u8, same: u8) -> int
    decreases k,
{
    if k <= 0 {
        0
    } else {
        steps_size(flags, k - 1, short, same) + step_size(flags[k - 1], short, same)
    }
}

/// A step is the one that is stored at the byte `p`: one of one byte leads up where the flag says so,
/// and down where it does not; one of two bytes carries its sign; and without either the coordinate
/// stays.
pub open spec fn step_stored(b: Seq<u8>, p: int, flag: u8, step: int, short: u8, same: u8) -> bool {
    &&& flag & short != 0 && flag & same != 0 ==> step == b[p]
    &&& flag & short != 0 && flag & same == 0 ==> step == -(b[p] as int)
    &&& flag & short == 0 && flag & same != 0 ==> step == 0
    &&& flag & short == 0 && flag & same == 0 ==> -32768 <= step < 32768 && (step - b[p] * 256 - b[p
        + 1]) % 65536 == 0
}

/// The step that leads to the point `i`: from the point before, or from nought.
pub open spec fn step_to(cs: Seq<int>, i: int) -> int {
    if i == 0 {
        cs[0]
    } else {
        cs[i] - cs[i - 1]
    }
}

/// The steps to the first `n` points are those that are stored from the byte `at` on.
pub open spec fn steps_stored(
    b: Seq<u8>,
    at: int,
    flags: Seq<u8>,
    cs: Seq<int>,
    n: int,
    short: u8,
    same: u8,
) -> bool {
    forall|i: int|
        0 <= i < n ==> step_stored(
            b,
            at + steps_size(flags, i, short, same),
            flags[i],
            #[trigger] step_to(cs, i),
            short,
            same,
        )
}

#[verifier::rlimit(50)]
proof fn lemma_coords(
    b: Seq<u8>,
    p: int,
    flags: Seq<u8>,
    got: Seq<int>,
    cur: int,
    short: u8,
    same: u8,
    at: int,
)
    requires
        got.len() <= flags.len(),
        p == at + steps_size(flags, got.len() as int, short, same),
        cur == (if got.len() == 0 {
            0
        } else {
            got.last()
        }),
        steps_stored(b, at, flags, got, got.len() as int, short, same),
        coord_run(b, p, flags, got, cur, short, same) is Some,
    ensures
        ({
            let r = coord_run(b, p, flags, got, cur, short, same)->0;
            &&& r.0.len() == flags.len()
            &&& steps_stored(b, at, flags, r.0, flags.len() as int, short, same)
            &&& r.1 == at + steps_size(flags, flags.len() as int, short, same)
        }),
    decreases flags.len() - got.len(),
{
    let i = got.len() as int;
    if i < flags.len() {
        let next = if flags[i] & short != 0 {
            if flags[i] & same != 0 {
                cur + b[p]
            } else {
                cur - b[p]
            }
        } else if flags[i] & same == 0 {
            cur + signed16(be16(b, p))
        } else {
            cur
        };
        let more = got.push(next);
        assert(step_to(more, i) == next - cur);
        assert(step_stored(b, p, flags[i], next - cur, short, same));
        assert forall|j: int| 0 <= j < more.len() implies step_stored(
            b,
            at + steps_size(flags, j, short, same),
            flags[j],
            #[trigger] step_to(more, j),
            short,
            same,
        ) by {
            if j < i {
                assert(step_to(more, j) == step_to(got, j));
            }
        }
        lemma_coords(
            b,
            p + step_size(flags[i], short, same),
            flags,
            more,
            next,
            short,
            same,
            at,
        );
    }
}

/// The flags are those that are stored from the byte `p` up to `end`: each byte is the flag of a
/// point, and where it says so the next byte tells how many more points share it.
pub open spec fn flags_stored(b: Seq<u8>, p: int, flags: Seq<u8>, end: int) -> bool
    decreases flags.len(),
{
    if flags.len() == 0 {
        p == end
    } else if b[p] & 0x08 == 0 {
        flags[0] == b[p] && flags_stored(b, p + 1, flags.skip(1), end)
    } else {
        let n = shared(b[p + 1] as int, flags.len() - 1);
        &&& forall|k: int| 0 <= k <= n ==> #[trigger] flags[k] == b[p]
        &&& flags_stored(b, p + 2, flags.skip(n + 1), end)
    }
}

/// How many of the points that are left share a flag that is to be repeated so often.
pub open spec fn shared(often: int, left: int) -> int {
    if often <= left {
        often
    } else {
        left
    }
}

#[verifier::rlimit(50)]
proof fn lemma_flags(b: Seq<u8>, p: int, got: Seq<u8>, npt: int)
    requires
        got.len() <= npt,
    ensures
        flag_run(b, p, got, npt) matches Some(r) ==> r.0.len() == npt && r.0.take(got.len() as int)
            == got && flags_stored(b, p, r.0.skip(got.len() as int), r.1),
    decreases npt - got.len(),
{
    assert(got.take(got.len() as int) =~= got);
    if got.len() >= npt {
        assert(got.skip(got.len() as int) =~= seq![]);
    } else if 0 <= p < b.len() {
        let g = got.len() as int;
        if b[p] & 0x08 != 0 {
            if p + 1 < b.len() {
                let room = npt - g - 1;
                let n = if b[p + 1] < room {
                    b[p + 1] as int
                } else {
                    room
                };
                let more = got.push(b[p]) + Seq::new(n as nat, |i: int| b[p]);
                lemma_flags(b, p + 2, more, npt);
                if let Some(r) = flag_run(b, p + 2, more, npt) {
                    let f = r.0.skip(g);
                    assert(r.0.take(g) =~= r.0.take(more.len() as int).take(g));
                    assert(more.take(g) =~= got);
                    assert(f.skip(n + 1) =~= r.0.skip(more.len() as int));
                    assert forall|k: int| 0 <= k <= n implies #[trigger] f[k] == b[p] by {
                        assert(f[k] == r.0.take(more.len() as int)[g + k]);
                    }
                    assert(flags_stored(b, p + 2, f.skip(n + 1), r.1));
                    assert(flags_stored(b, p, f, r.1));
                }
            }
        } else {
            let more = got.push(b[p]);
            lemma_flags(b, p + 1, more, npt);
            if let Some(r) = flag_run(b, p + 1, more, npt) {
                let f = r.0.skip(g);
                assert(r.0.take(g) =~= r.0.take(more.len() as int).take(g));
                assert(more.take(g) =~= got);
                assert(f.skip(1) =~= r.0.skip(more.len() as int));
                assert(f[0] == r.0.take(more.len() as int)[g]);
                assert(flags_stored(b, p, f, r.1));
            }
        }
    }
}

/// The points of an outline are stored with their flags up to the byte `at`, and then their steps.
pub open spec fn points_stored(b: Seq<u8>, o: OutlineView, at: int) -> bool {
    let n = o.ends.len() as int;
    let program = b[10 + 2 * n] * 256 + b[11 + 2 * n];
    &&& flags_stored(b, 12 + 2 * n + program, o.flags, at)
    &&& steps_stored(b, at, o.flags, o.xs, o.flags.len() as int, 0x02, 0x10)
    &&& steps_stored(
        b,
        at + steps_size(o.flags, o.flags.len() as int, 0x02, 0x10),
        o.flags,
        o.ys,
        o.flags.len() as int,
        0x04,
        0x20,
    )
}

/// An outline is what the glyph stores: first how many contours there are, then its bounds, the last
/// point of each contour, a program that is passed over, the flags of the points, all steps to the
/// right and all steps upwards.
#[verifier::rlimit(50)]
pub proof fn law_outline_is_as_stored(b: Seq<u8>, o: OutlineView)
    requires
        outline_in(b) == Some(o),
    ensures
        o.ends.len() == b[0] * 256 + b[1],
        forall|i: int|
            0 <= i < o.ends.len() ==> #[trigger] o.ends[i] == b[10 + 2 * i] * 256 + b[11 + 2 * i],
        o.ends.len() > 0,
        o.flags.len() == o.ends.last() + 1,
        o.xs.len() == o.flags.len(),
        o.ys.len() == o.flags.len(),
        -32768 <= o.x_min < 32768 && (o.x_min - b[2] * 256 - b[3]) % 65536 == 0,
        -32768 <= o.y_min < 32768 && (o.y_min - b[4] * 256 - b[5]) % 65536 == 0,
        -32768 <= o.x_max < 32768 && (o.x_max - b[6] * 256 - b[7]) % 65536 == 0,
        -32768 <= o.y_max < 32768 && (o.y_max - b[8] * 256 - b[9]) % 65536 == 0,
        exists|at: int| points_stored(b, o, at),
{
    let n = o.ends.len() as int;
    let nc = signed16(be16(b, 0));
    assert(o.ends == contour_ends(b, nc));
    assert(n == nc);
    let from = 12 + 2 * n + be16(b, 10 + 2 * n);
    let npt = o.ends.last() + 1;
    lemma_flags(b, from, seq![], npt);
    let at = flag_run(b, from, seq![], npt)->Some_0.1;
    assert(o.flags.skip(0) =~= o.flags);
    lemma_coords(b, at, o.flags, seq![], 0, 0x02, 0x10, at);
    let p = at + steps_size(o.flags, o.flags.len() as int, 0x02, 0x10);
    lemma_coords(b, p, o.flags, seq![], 0, 0x04, 0x20, p);
    assert(points_stored(b, o, at));
}

/// The weights of a curve are those of a curve of the second degree, to the nearest 256th: at the
/// end of its sixths the first point counts with the square of what is left, the last with the
/// square of what lies behind, and the one between with twice the product.
pub proof fn law_weights_are_of_the_second_degree(k: int)
    requires
        0 <= k <= 5,
    ensures
        weights(k).0 + weights(k).1 + weights(k).2 == 256,
        -18 <= 36 * weights(k).0 - 256 * ((5 - k) * (5 - k)) <= 18,
        -18 <= 36 * weights(k).1 - 256 * (2 * ((k + 1) * (5 - k))) <= 18,
        -18 <= 36 * weights(k).2 - 256 * ((k + 1) * (k + 1)) <= 18,
{
    lemma_squares(k);
}

proof fn lemma_squares(k: int)
    by (nonlinear_arith)
    requires
        k == 0 || k == 1 || k == 2 || k == 3 || k == 4 || k == 5,
    ensures
        (5 - k) * (5 - k) == (if k == 0 {
            25int
        } else if k == 1 {
            16
        } else if k == 2 {
            9
        } else if k == 3 {
            4
        } else if k == 4 {
            1
        } else {
            0
        }),
        (k + 1) * (5 - k) == (if k == 0 {
            5int
        } else if k == 1 {
            8
        } else if k == 2 {
            9
        } else if k == 3 {
            8
        } else if k == 4 {
            5
        } else {
            0
        }),
        (k + 1) * (k + 1) == (if k == 0 {
            1int
        } else if k == 1 {
            4
        } else if k == 2 {
            9
        } else if k == 3 {
            16
        } else if k == 4 {
            25
        } else {
            36
        }),
{
}

/// A curve begins at its first point and ends at its last, and drawn backwards it passes through the
/// same points.
pub proof fn law_curves_join_their_points(a: Pt, b: Pt, c: Pt, k: int)
    requires
        0 <= k <= 4,
    ensures
        curve_pt(-1, a, b, c) == a,
        curve_pt(5, a, b, c) == c,
        curve_at(k, a.x as int, b.x as int, c.x as int) == curve_at(
            4 - k,
            c.x as int,
            b.x as int,
            a.x as int,
        ),
{
    assert(0 * (a.x as int) + 0 * (b.x as int) + 256 * (c.x as int) == 256 * (c.x as int))
        by (nonlinear_arith);
    assert(0 * (a.y as int) + 0 * (b.y as int) + 256 * (c.y as int) == 256 * (c.y as int))
        by (nonlinear_arith);
}

/// The edges from the `from`-th on are joined end to end, and the last one ends at `end`.
pub open spec fn joined(segs: Seq<Seg>, from: int, start: Pt, end: Pt) -> bool {
    &&& from <= segs.len()
    &&& from == segs.len() ==> start == end
    &&& from < segs.len() ==> {
        &&& segs[from].x0 == start.x && segs[from].y0 == start.y
        &&& segs.last().x1 == end.x && segs.last().y1 == end.y
    }
    &&& forall|i: int|
        from <= i < segs.len() - 1 ==> (#[trigger] segs[i]).x1 == segs[i + 1].x0 && segs[i].y1
            == segs[i + 1].y0
}

proof fn lemma_joined_seg(segs: Seq<Seg>, from: int, start: Pt, a: Pt, b: Pt)
    requires
        joined(segs, from, start, a),
        0 <= from,
        segs.len() < MAX_SEGS,
    ensures
        joined(with_seg(segs, a, b), from, start, b),
{
    let r = with_seg(segs, a, b);
    assert forall|i: int| from <= i < r.len() - 1 implies (#[trigger] r[i]).x1 == r[i + 1].x0
        && r[i].y1 == r[i + 1].y0 by {
        if i < segs.len() - 1 {
            assert(segs[i].x1 == segs[i + 1].x0);
        }
    }
}

proof fn lemma_joined_curve(segs: Seq<Seg>, from: int, start: Pt, a: Pt, b: Pt, c: Pt, k: int)
    requires
        joined(segs, from, start, a),
        0 <= from,
        0 <= k <= 6,
        segs.len() + k <= MAX_SEGS,
    ensures
        joined(with_curve(segs, a, b, c, k), from, start, curve_pt(k - 1, a, b, c)),
        with_curve(segs, a, b, c, k).len() == segs.len() + k,
    decreases k,
{
    if k > 0 {
        lemma_joined_curve(segs, from, start, a, b, c, k - 1);
        lemma_joined_seg(
            with_curve(segs, a, b, c, k - 1),
            from,
            start,
            curve_pt(k - 2, a, b, c),
            curve_pt(k - 1, a, b, c),
        );
    }
}

proof fn lemma_full_curve(segs: Seq<Seg>, from: int, start: Pt, a: Pt, b: Pt, c: Pt)
    requires
        joined(segs, from, start, a),
        0 <= from,
        segs.len() + 6 <= MAX_SEGS,
    ensures
        joined(with_curve(segs, a, b, c, 6), from, start, c),
        with_curve(segs, a, b, c, 6).len() == segs.len() + 6,
{
    lemma_joined_curve(segs, from, start, a, b, c, 6);
    law_curves_join_their_points(a, b, c, 0);
}

proof fn lemma_on_contour_closes(
    segs: Seq<Seg>,
    pts: Seq<Pt>,
    flags: Seq<u8>,
    start: int,
    k: int,
    cur: Pt,
    from: int,
)
    requires
        joined(segs, from, pts[start], cur),
        0 <= from,
        0 <= start < pts.len(),
        flags.len() == pts.len(),
        1 <= k,
        segs.len() + 6 * (if pts.len() >= k {
            pts.len() - k
        } else {
            0
        }) < MAX_SEGS,
    ensures
        joined(on_contour(segs, pts, flags, start, k, cur), from, pts[start], pts[start]),
    decreases pts.len() - k,
{
    let n = pts.len() as int;
    let here = (start + k) % n;
    let next = (start + k + 1) % n;
    if k >= n {
        if cur != pts[start] {
            lemma_joined_seg(segs, from, pts[start], cur, pts[start]);
        }
    } else if on_curve(flags[here]) {
        lemma_joined_seg(segs, from, pts[start], cur, pts[here]);
        lemma_on_contour_closes(
            with_seg(segs, cur, pts[here]),
            pts,
            flags,
            start,
            k + 1,
            pts[here],
            from,
        );
    } else if k + 1 < n && on_curve(flags[next]) {
        lemma_full_curve(segs, from, pts[start], cur, pts[here], pts[next]);
        lemma_on_contour_closes(
            with_curve(segs, cur, pts[here], pts[next], 6),
            pts,
            flags,
            start,
            k + 2,
            pts[next],
            from,
        );
    } else {
        let end = halfway(pts[here], pts[next]);
        lemma_full_curve(segs, from, pts[start], cur, pts[here], end);
        lemma_on_contour_closes(
            with_curve(segs, cur, pts[here], end, 6),
            pts,
            flags,
            start,
            k + 1,
            end,
            from,
        );
    }
}

proof fn lemma_off_contour_closes(segs: Seq<Seg>, pts: Seq<Pt>, n: int)
    requires
        0 < n <= pts.len(),
        segs.len() + 6 * n <= MAX_SEGS,
    ensures
        joined(
            off_contour(segs, pts, n),
            segs.len() as int,
            halfway(pts[pts.len() - 1], pts[0]),
            halfway(pts[n - 1], pts[n % (pts.len() as int)]),
        ),
        off_contour(segs, pts, n).len() == segs.len() + 6 * n,
    decreases n,
{
    let len = pts.len() as int;
    let from = segs.len() as int;
    let first = halfway(pts[len - 1], pts[0]);
    if n == 1 {
        assert(off_contour(segs, pts, 0) == segs);
        lemma_full_curve(segs, from, first, first, pts[0], halfway(pts[0], pts[1int % len]));
    } else {
        lemma_off_contour_closes(segs, pts, n - 1);
        assert((n - 1) % len == n - 1) by (nonlinear_arith)
            requires
                0 <= n - 1 < len,
        ;
        lemma_full_curve(
            off_contour(segs, pts, n - 1),
            from,
            first,
            halfway(pts[n - 2], pts[n - 1]),
            pts[n - 1],
            halfway(pts[n - 1], pts[n % len]),
        );
    }
}

/// A contour is closed: its edges are joined end to end and lead back to where they began, at a point
/// on the curve where there is one, as long as there is room for them.
pub proof fn law_contours_are_closed(segs: Seq<Seg>, pts: Seq<Pt>, flags: Seq<u8>)
    requires
        0 < pts.len(),
        flags.len() == pts.len(),
        segs.len() + 6 * pts.len() < MAX_SEGS,
    ensures
        exists|p: Pt| #[trigger]
            joined(contour(segs, pts, flags), segs.len() as int, p, p) && ((exists|i: int|
                0 <= i < flags.len() && flags[i] & 1 != 0) ==> pts.contains(p)),
{
    let start = first_on(flags, 0);
    lemma_first_on(flags, 0);
    let from = segs.len() as int;
    if start == pts.len() {
        lemma_off_contour_closes(segs, pts, pts.len() as int);
        assert(pts.len() as int % (pts.len() as int) == 0) by (nonlinear_arith)
            requires
                pts.len() > 0,
        ;
        let p = halfway(pts[pts.len() - 1], pts[0]);
        assert(joined(contour(segs, pts, flags), from, p, p));
    } else {
        lemma_on_contour_closes(segs, pts, flags, start, 1, pts[start], from);
        assert(pts.contains(pts[start]));
        assert(joined(contour(segs, pts, flags), from, pts[start], pts[start]));
    }
}

proof fn lemma_first_on(flags: Seq<u8>, i: int)
    requires
        0 <= i <= flags.len(),
    ensures
        i <= first_on(flags, i) <= flags.len(),
        forall|j: int| i <= j < first_on(flags, i) ==> flags[j] & 1 == 0,
        first_on(flags, i) < flags.len() ==> flags[first_on(flags, i)] & 1 != 0,
    decreases flags.len() - i,
{
    if i < flags.len() && !on_curve(flags[i]) {
        lemma_first_on(flags, i + 1);
    }
}

/// The points of an outline are measured from its upper left corner: to the right and downwards, each
/// font unit as many 256ths of a pixel as the scale says.
pub proof fn law_points_are_measured_from_the_corner(o: OutlineView, i: int, scale: int)
    requires
        0 <= i < o.xs.len(),
        -0x8000_0000 <= (o.xs[i] - o.x_min) * scale <= 0x7fff_ffff,
        -0x8000_0000 <= (o.y_max - o.ys[i]) * scale <= 0x7fff_ffff,
    ensures
        points(o, scale)[i].x == (o.xs[i] - o.x_min) * scale,
        points(o, scale)[i].y == (o.y_max - o.ys[i]) * scale,
        o.xs[i] == o.x_min ==> points(o, scale)[i].x == 0,
        o.ys[i] == o.y_max ==> points(o, scale)[i].y == 0,
{
    assert(o.xs[i] == o.x_min ==> (o.xs[i] - o.x_min) * scale == 0) by (nonlinear_arith);
    assert(o.ys[i] == o.y_max ==> (o.y_max - o.ys[i]) * scale == 0) by (nonlinear_arith);
}

/// The edges of an outline are those of its contours one after the other: the first takes the points
/// from the beginning on, and every other those behind the one before.
#[verifier::rlimit(50)]
pub proof fn law_contours_follow_one_another(o: OutlineView, scale: int)
    requires
        o.ends.len() >= 1,
        o.ends[0] < o.xs.len(),
        o.flags.len() == o.xs.len(),
    ensures
        ({
            let pts = points(o, scale);
            let k = o.ends[0] + 1;
            let first = contour(seq![], pts.take(k), o.flags.take(k));
            &&& o.ends.len() == 1 ==> edges(o, scale) == first
            &&& o.ends.len() == 2 && o.ends[0] < o.ends[1] < o.xs.len() ==> edges(o, scale) == contour(
                first,
                pts.subrange(k, o.ends[1] + 1),
                o.flags.subrange(k, o.ends[1] + 1),
            )
        }),
{
    let pts = points(o, scale);
    let k = o.ends[0] + 1;
    reveal_with_fuel(contours, 4);
    assert(part(pts, 0, o.ends[0] as int) =~= pts.take(k));
    assert(part(o.flags, 0, o.ends[0] as int) =~= o.flags.take(k));
}

} // verus!
