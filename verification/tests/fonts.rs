use epd_reader::draw::{Canvas, DrawOp};
use epd_reader::ttf_sd::glyphs::TtfWs;
use epd_reader::ttf_sd::layout::{paginate_render, preload_glyphs, Pen, TextArea};
use epd_reader::ttf_sd::outline::{flatten_outline, parse_outline, GLYF_BUF_MAX};
use epd_reader::ttf_sd::raster::{fill_bitmap, Seg};
use epd_reader::ttf_sd::tables::{u16_at, u32_at, FontInfo, TableCache, HMTX_CACHE_MAX};

fn be16(v: &mut Vec<u8>, n: i32) {
    v.push((n >> 8) as u8);
    v.push(n as u8);
}

fn be32(v: &mut Vec<u8>, n: u32) {
    v.extend_from_slice(&n.to_be_bytes());
}

fn square() -> Vec<u8> {
    let mut g = Vec::new();
    for n in [1, 0, 0, 8, 8, 3, 0] {
        be16(&mut g, n);
    }
    g.extend_from_slice(&[1, 1, 1, 1]);
    for n in [0, 8, 0, -8, 0, 0, 8, 0] {
        be16(&mut g, n);
    }
    g
}

fn segments() -> Vec<u8> {
    let mut cmap = Vec::new();
    for n in [0, 1, 3, 1, 0, 12] {
        be16(&mut cmap, n);
    }
    for n in [4, 32, 0, 4, 0, 0, 0] {
        be16(&mut cmap, n);
    }
    for n in [66, 0xffff, 0, 65, 0xffff, 1 - 65, 1, 0, 0] {
        be16(&mut cmap, n);
    }
    cmap
}

fn groups() -> Vec<u8> {
    let mut cmap = Vec::new();
    for n in [0, 1, 3, 10, 0, 12, 12, 0] {
        be16(&mut cmap, n);
    }
    for n in [40, 0, 2, 65, 65, 2, 0x1_f600, 0x1_f600, 1] {
        be32(&mut cmap, n);
    }
    cmap
}

fn font() -> Vec<u8> {
    font_of(segments(), &[5, 10, 12])
}

fn font_of(cmap: Vec<u8>, widths: &[i32]) -> Vec<u8> {
    let mut head = vec![0u8; 54];
    head[19] = 8;
    let mut maxp = vec![0u8; 6];
    maxp[5] = 3;
    let mut hhea = vec![0u8; 36];
    hhea[5] = 8;
    hhea[34] = (widths.len() >> 8) as u8;
    hhea[35] = widths.len() as u8;
    let mut hmtx = Vec::new();
    for w in widths {
        be16(&mut hmtx, *w);
        be16(&mut hmtx, 0);
    }
    let mut glyf = square();
    let mut loca = Vec::new();
    be16(&mut loca, 0);
    be16(&mut loca, 0);
    be16(&mut loca, glyf.len() as i32 / 2);
    let second = square();
    glyf.extend_from_slice(&second);
    be16(&mut loca, glyf.len() as i32 / 2);
    let tables: Vec<(&[u8; 4], Vec<u8>)> = vec![
        (b"cmap", cmap),
        (b"glyf", glyf),
        (b"head", head),
        (b"hhea", hhea),
        (b"hmtx", hmtx),
        (b"loca", loca),
        (b"maxp", maxp),
    ];
    let mut out = Vec::new();
    be32(&mut out, 0x0001_0000);
    be16(&mut out, tables.len() as i32);
    out.extend_from_slice(&[0; 6]);
    let mut at = 12 + 16 * tables.len();
    for (tag, t) in &tables {
        out.extend_from_slice(*tag);
        be32(&mut out, 0);
        be32(&mut out, at as u32);
        be32(&mut out, t.len() as u32);
        at += t.len();
    }
    for (_, t) in &tables {
        out.extend_from_slice(t);
    }
    out
}

fn reader(data: Vec<u8>) -> impl Fn(u32, usize) -> Vec<u8> {
    move |o: u32, n: usize| {
        let from = (o as usize).min(data.len());
        let to = (from + n).min(data.len());
        data[from..to].to_vec()
    }
}

fn opened() -> (TtfWs, FontInfo) {
    let mut ws = TtfWs::alloc_ws();
    let fi = ws.open_font(&reader(font())).unwrap();
    (ws, fi)
}

#[test]
fn numbers_of_a_file_end_with_it() {
    let read = reader(vec![1, 2, 3]);
    assert_eq!(u16_at(&read, 0), 0x0102);
    assert_eq!(u16_at(&read, 2), 0x0300);
    assert_eq!(u32_at(&read, 1), 0x0203_0000);
}

#[test]
fn a_font_tells_of_itself() {
    let (ws, fi) = opened();
    assert_eq!((fi.units_per_em, fi.num_glyphs, fi.num_h_metrics), (8, 3, 3));
    assert_eq!((fi.cmap_fmt, fi.ascent, fi.loc_fmt), (4, 8, 0));
    assert_eq!(ws.tables.char_to_gid(&fi, 'A'), 1);
    assert_eq!(ws.tables.char_to_gid(&fi, 'B'), 2);
    assert_eq!(ws.tables.char_to_gid(&fi, 'C'), 0);
    let read = reader(font());
    assert_eq!(ws.tables.advance(&read, &fi, 2), 12);
    assert_eq!(ws.tables.advance(&read, &fi, 9), 12);
    assert_eq!(ws.tables.glyph_place(&read, &fi, 1), (0, 34));
    let mut none = TableCache::new();
    assert!(none.parse_font_info(&reader(vec![0; 100])).is_none());
}

#[test]
fn a_map_of_groups_is_kept_whole() {
    let data = font_of(groups(), &[5, 10, 12]);
    let mut ws = TtfWs::alloc_ws();
    let fi = ws.open_font(&reader(data.clone())).unwrap();
    assert_eq!(fi.cmap_fmt, 12);
    assert_eq!(ws.tables.cmap_len, 40);
    let at = fi.cmap_sub as usize;
    assert_eq!(&ws.tables.cmap_cache[..40], &data[at..at + 40]);
    assert_eq!(ws.tables.char_to_gid(&fi, 'A'), 2);
    assert_eq!(ws.tables.char_to_gid(&fi, '\u{1f600}'), 1);
    assert_eq!(ws.tables.char_to_gid(&fi, 'B'), 0);
}

#[test]
fn another_font_has_its_own_tables() {
    let (mut ws, _) = opened();
    assert_eq!((ws.tables.cmap_len, ws.tables.hmtx_len, ws.tables.loca_len), (32, 12, 8));
    ws.cache_clear(true);
    assert!(ws.fi.is_none());
    assert_eq!((ws.tables.cmap_len, ws.tables.hmtx_len, ws.tables.loca_len), (0, 0, 0));
    let mut widths = vec![7; HMTX_CACHE_MAX / 4 + 1];
    widths[1] = 9;
    let read = reader(font_of(segments(), &widths));
    let fi = ws.open_font(&read).unwrap();
    assert_eq!(ws.tables.hmtx_len, 0);
    assert_eq!(ws.tables.advance(&read, &fi, 0), 7);
    assert_eq!(ws.tables.advance(&read, &fi, 1), 9);
}

#[test]
fn a_wide_outline_is_drawn() {
    let mut buf = Vec::new();
    for n in [1, 0, 0, 30000, 8, 3, 0] {
        be16(&mut buf, n);
    }
    buf.extend_from_slice(&[1, 1, 1, 1]);
    for n in [0, 30000, 0, -30000, 0, 0, 8, 0] {
        be16(&mut buf, n);
    }
    buf.resize(GLYF_BUF_MAX, 0);
    let o = parse_outline(&buf).unwrap();
    let segs = flatten_outline(&o, 256);
    assert!(segs.iter().any(|s| s.x1 == 30000 * 256));
    let bmp = fill_bitmap(&segs, 30001, 9, 0);
    let row = (30001 + 7) / 8;
    assert_eq!(bmp.len(), 9 * row);
    assert!(bmp[..row - 1].iter().all(|b| *b == 0xff));
    assert_eq!(bmp[row - 1], 0);
    let slope = [
        Seg { x0: 0, y0: 0, x1: 30000 << 8, y1: 30000 << 8 },
        Seg { x0: 30000 << 8, y0: 0, x1: 30000 << 8, y1: 30000 << 8 },
    ];
    let bmp = fill_bitmap(&slope.to_vec(), 8, 8, 8);
    assert_eq!(bmp[0], 0xff);
}

#[test]
fn an_outline_is_filled() {
    let mut buf = square();
    buf.resize(GLYF_BUF_MAX, 0);
    let o = parse_outline(&buf).unwrap();
    assert_eq!((o.x_max, o.y_max, o.ends.len(), o.xs.len()), (8, 8, 1, 4));
    let segs = flatten_outline(&o, 256);
    let bmp = fill_bitmap(&segs, 9, 9, 18);
    for y in 0..9 {
        let want = if y < 8 { [0xff, 0] } else { [0, 0] };
        assert_eq!(&bmp[y * 2..y * 2 + 2], &want);
    }
    buf[0] = 0xff;
    buf[1] = 0xff;
    assert!(parse_outline(&buf).is_none());
}

#[test]
fn a_contour_without_points_is_skipped() {
    let mut buf = Vec::new();
    for n in [3, 0, 0, 8, 8, 3, 3, 7, 0] {
        be16(&mut buf, n);
    }
    buf.extend_from_slice(&[1; 8]);
    for n in [0, 8, 0, -8, 0, 8, 0, -8] {
        be16(&mut buf, n);
    }
    for n in [0, 0, 2, 0, 2, 0, 2, 0] {
        be16(&mut buf, n);
    }
    buf.resize(GLYF_BUF_MAX, 0);
    let o = parse_outline(&buf).unwrap();
    assert_eq!(o.ends, [3, 3, 7]);
    assert_eq!(flatten_outline(&o, 256).len(), 8);
    buf[12] = 0;
    buf[13] = 1;
    let o = parse_outline(&buf).unwrap();
    assert_eq!(flatten_outline(&o, 256).len(), 4);
}

#[test]
fn a_known_font_is_not_read_again() {
    let (mut ws, fi) = opened();
    let never = |_: u32, _: usize| -> Vec<u8> { panic!("the file was read") };
    assert_eq!(ws.open_font(&never), Some(fi));
    assert_eq!(ws.fi, Some(fi));
}

#[test]
fn coordinates_beyond_the_panel_are_drawn() {
    let mut buf = Vec::new();
    for n in [1, 0, 0, 30000, 8, 3, 0] {
        be16(&mut buf, n);
    }
    buf.extend_from_slice(&[1, 1, 1, 1]);
    for n in [0, 30000, 0, -30000, 0, 0, 8, 0] {
        be16(&mut buf, n);
    }
    buf.resize(GLYF_BUF_MAX, 0);
    let o = parse_outline(&buf).unwrap();
    let segs = flatten_outline(&o, 65536);
    assert!(segs.iter().any(|s| s.x1 == 30000 * 65536));
    let bmp = fill_bitmap(&segs, 16, 2, 0);
    assert_eq!(bmp, [0xff, 0xff, 0xff, 0xff]);
}

#[test]
fn overlapping_outlines_leave_a_hole() {
    let rect = |x0: i32, y0: i32, x1: i32, y1: i32| {
        vec![
            Seg { x0, y0, x1, y1: y0 },
            Seg { x0: x1, y0, x1, y1 },
            Seg { x0: x1, y0: y1, x1: x0, y1 },
            Seg { x0, y0: y1, x1: x0, y1: y0 },
        ]
    };
    let mut segs = rect(0, 0, 8 << 8, 8 << 8);
    segs.extend(rect(2 << 8, 2 << 8, 6 << 8, 6 << 8));
    let bmp = fill_bitmap(&segs, 8, 8, 8);
    assert_eq!(bmp, [0xff, 0xff, 0b1100_0011, 0b1100_0011, 0b1100_0011, 0b1100_0011, 0xff, 0xff]);
}

#[test]
fn a_page_is_set_line_by_line() {
    let (mut ws, fi) = opened();
    let read = reader(font());
    let pixels = |a: u16| a as i32;
    let area = TextArea { left: 2, top: 3, max_w: 21, line_h: 20, max_lines: 3 };
    let mut c = Canvas::new();
    let n = paginate_render(&read, &pixels, &fi, &mut ws, &mut c, "AAB\nA\nA".as_bytes(), 256, &area);
    let places: Vec<(i32, i32)> = c
        .ops
        .iter()
        .map(|o| match o {
            DrawOp::Bits(a, _) => (a.x, a.y),
            _ => panic!("no glyph"),
        })
        .collect();
    assert_eq!(places, [(2, 3), (12, 3), (2, 23), (2, 43)]);
    assert_eq!(n, 6);
    assert!(ws.cache_lookup(1).is_some() && ws.cache_lookup(2).is_some());
    ws.cache_clear(false);
    assert!(ws.cache_lookup(1).is_none() && ws.fi.is_some());
}

#[test]
fn glyphs_are_cached_ahead() {
    let (mut ws, fi) = opened();
    let read = reader(font());
    let pixels = |a: u16| a as i32;
    let area = TextArea { left: 0, top: 0, max_w: 100, line_h: 20, max_lines: 3 };
    let mut pen = Pen { i: 0, x: 0, y: 0, line: 0 };
    while !preload_glyphs(&read, &pixels, &fi, &mut ws, b"ABAB", 256, &area, &mut pen) {}
    let slot = ws.cache_lookup(2).unwrap();
    assert_eq!((ws.slots[slot].w, ws.slots[slot].h, ws.slots[slot].yoff), (9, 9, 0));
    assert_eq!(ws.slots[slot].bmp[0], 0xff);
}
