use epd_reader::draw::{Canvas, DrawOp, Ink};
use epd_reader::event::EventType;
use epd_reader::flash_sleep::{
    begin_sleep_image_write, bmp_to_pixels, bmp_to_pixels_buf, delete_sleep_image, draw_sleep_image,
    finish_sleep_image_write, get_sleep_image_size, has_sleep_image, save_sleep_image, BmpInfo,
    SLEEP_IMAGE_MAGIC, STORAGE_OFFSET,
};
use epd_reader::pages::image_page::{show_message, ImagePage, ImageTask, WallpaperStatus};
use epd_reader::pages::read_page::sleep_image::{alloc_sleep_image, load_sleep_image, sleep_renderer};

fn bmp(w: u32, h: i32, bpp: u16, pixels: &[u8]) -> Vec<u8> {
    let mut b = vec![0u8; 54];
    b[0] = b'B';
    b[1] = b'M';
    b[10..14].copy_from_slice(&54u32.to_le_bytes());
    b[18..22].copy_from_slice(&w.to_le_bytes());
    b[22..26].copy_from_slice(&h.to_le_bytes());
    b[28..30].copy_from_slice(&bpp.to_le_bytes());
    b.extend_from_slice(pixels);
    b
}

#[test]
fn a_header_tells_of_the_picture() {
    let i = BmpInfo::parse(&bmp(3, -2, 24, &[])).unwrap();
    assert_eq!((i.bmp_w, i.bmp_h, i.bpp, i.top_down, i.src_row_stride), (3, 2, 24, true, 12));
    let i = BmpInfo::parse(&bmp(33, 2, 1, &[])).unwrap();
    assert_eq!((i.top_down, i.src_row_stride), (false, 8));
    assert!(BmpInfo::parse(&bmp(0, 2, 1, &[])).is_none());
    assert!(BmpInfo::parse(&bmp(1, 2, 8, &[])).is_none());
    assert!(BmpInfo::parse(b"BM").is_none());
}

#[test]
fn dark_pixels_become_bits() {
    let two = bmp(2, 2, 24, &[0, 0, 0, 255, 255, 255, 0, 0, 255, 255, 255, 127, 127, 127, 0, 0]);
    assert_eq!(bmp_to_pixels(&two, 2, 2).unwrap(), [0b0100_0000, 0b1000_0000]);
    let flipped = bmp(2, -2, 24, &two[54..]);
    assert_eq!(bmp_to_pixels(&flipped, 2, 2).unwrap(), [0b1000_0000, 0b0100_0000]);
    assert_eq!(bmp_to_pixels(&flipped, 4, 2).unwrap(), [0b1100_0000, 0b0011_0000]);
    let mono = bmp(8, -1, 1, &[0b1010_1010, 0, 0, 0]);
    assert_eq!(bmp_to_pixels(&mono, 8, 1).unwrap(), [0b0101_0101]);
    let mut out = vec![0xff; 1];
    assert!(bmp_to_pixels_buf(&mono, 8, 1, &mut out));
    assert_eq!(out, [0b0101_0101]);
    assert!(bmp_to_pixels(b"no", 8, 1).is_none());
}

#[test]
fn a_kept_picture_is_marked_last() {
    let w = begin_sleep_image_write();
    assert_eq!(w.offset, STORAGE_OFFSET);
    assert!(!has_sleep_image(&Some(w.data)));
    let w = finish_sleep_image_write();
    assert!(has_sleep_image(&Some(w.data.clone())));
    assert_eq!(w.data[..4], SLEEP_IMAGE_MAGIC.to_le_bytes());
    assert_eq!(get_sleep_image_size(&Some(w.data)), Some(38 * 400));
    assert!(!has_sleep_image(&Some(delete_sleep_image().data)));
    assert!(!has_sleep_image(&None));
    let mono = bmp(8, -1, 1, &[0, 0, 0, 0]);
    let writes = save_sleep_image(&mono).unwrap();
    assert!(writes.len() >= 2);
    assert!(save_sleep_image(b"no").is_err());
}

#[test]
fn the_picture_for_sleep_is_the_kept_one_or_the_standard() {
    let rows: Vec<Option<Vec<u8>>> = (0..400).map(|i| Some(vec![i as u8; 38])).collect();
    let mut c = Canvas::new();
    assert!(draw_sleep_image(&mut c, &None, &rows, vec![1; 15200]));
    assert!(matches!(&c.ops[0], DrawOp::Bits(a, b) if a.h == 400 && b[0] == 1));
    let mut c = Canvas::new();
    let header = Some(finish_sleep_image_write().data);
    assert!(draw_sleep_image(&mut c, &header, &rows, vec![]));
    assert_eq!(c.ops.len(), 400);
    let mut broken = rows;
    broken[5] = None;
    let mut c = Canvas::new();
    assert!(!draw_sleep_image(&mut c, &header, &broken, vec![]));
}

#[test]
fn the_reader_shows_its_own_picture_in_sleep() {
    assert!(alloc_sleep_image().iter().all(|b| *b == 0));
    let mono = bmp(2, -1, 1, &[0b0100_0000, 0, 0, 0]);
    let pixels = load_sleep_image(&mono);
    assert_eq!(pixels.len(), 15000);
    assert_eq!((pixels[0], pixels[18], pixels[19], pixels[37]), (0xff, 0xfc, 0, 0x0f));
    assert!(load_sleep_image(b"").iter().all(|b| *b == 0));
    assert!(load_sleep_image(&vec![b'B'; 30001]).iter().all(|b| *b == 0));
    let c = sleep_renderer(&Some(pixels), 300, 400);
    assert_eq!(c.ops.len(), 1 + 150 * 400);
    assert!(matches!(c.ops[151], DrawOp::Dot(0, 1)));
    let c = sleep_renderer(&None, 300, 400);
    assert!(matches!(&c.ops[1], DrawOp::Text(t, a) if t == "睡眠中" && a.x == 150));
}

fn reader(data: Vec<u8>) -> impl Fn(u32, usize) -> Vec<u8> {
    move |o: u32, n: usize| {
        let from = (o as usize).min(data.len());
        data[from..(from + n).min(data.len())].to_vec()
    }
}

#[test]
fn a_picture_is_drawn_into_the_panel() {
    let black = bmp(8, -1, 1, &[0, 0, 0, 0]);
    let mut buf = vec![0xffu8; 15000];
    assert!(ImagePage::draw_image_to_buffer(&reader(black.clone()), &mut buf));
    assert!(buf.iter().all(|b| *b == 0));
    let mut buf = vec![0xffu8; 15000];
    assert!(!ImagePage::draw_image_to_buffer(&reader(b"no".to_vec()), &mut buf));
    assert!(buf.iter().all(|b| *b == 0xff));
    let writes = ImagePage::save_wallpaper(&reader(black)).unwrap();
    assert!(has_sleep_image(&Some(writes.last().unwrap().data.clone())));
    assert!(ImagePage::save_wallpaper(&reader(b"no".to_vec())).is_none());
}

#[test]
fn pictures_are_listed_shown_and_set() {
    let mut p = ImagePage::new();
    p.start(vec!["a".to_string(), "b".to_string()]);
    assert_eq!(p.take_task(), ImageTask::DrawList);
    let c = p.draw_list();
    assert!(c.ops.iter().any(|o| matches!(o, DrawOp::Menu(l, _, _) if l.len() == 3)));
    p.handle_event(EventType::KeyShort(1));
    assert_eq!(p.state.choose_index, 1);
    p.handle_event(EventType::KeyShort(3));
    assert!(p.state.viewing);
    assert_eq!(p.image_file().unwrap(), "a.bmp");
    assert_eq!(p.take_task(), ImageTask::ShowLoading);
    assert_eq!(p.take_task(), ImageTask::DrawImage);
    assert_eq!(p.take_task(), ImageTask::Idle);
    assert_eq!(WallpaperStatus::Done.text(), "壁纸设置成功");
    assert_eq!(WallpaperStatus::Failed.text(), "壁纸设置失败");
    let c = show_message("处理中...");
    assert!(matches!(c.ops[0], DrawOp::Clear(Ink::White)));
}
