use epd_reader::draw::{Canvas, DrawOp, Face, Ink};
use epd_reader::epd2in9_txt::TxtReader as Log;
use epd_reader::event::EventType;
use epd_reader::pages::read::bitmap::{
    char_width, compute_consumed_bitmap, decode_char, find_prev_start_bitmap, paginate_render_bitmap,
    CellArea, Cells,
};
use epd_reader::pages::read::page::{MenuState, ReadPage, Retained};
use epd_reader::pages::read::session::TextPage;
use epd_reader::pages::read::tasks::{asks_again, open_failure, ReadTask};
use epd_reader::pages::read_page::overlay::Shown;
use epd_reader::pages::read_page::page::{accel_step, MenuState as Menu, ReadPage as Indexed};
use epd_reader::pages::read_page::session::{book_progress, find_page, PassTask};
use epd_reader::sd_mount::names::SdError;
use epd_reader::txt_reader::{nostring_limits, text_limits, PageMaker, TxtReader};

fn texts(ops: &[DrawOp]) -> Vec<String> {
    ops.iter()
        .filter_map(|o| match o {
            DrawOp::Text(t, _) => Some(t.clone()),
            _ => None,
        })
        .collect()
}

#[test]
fn a_log_is_written_and_read() {
    let mut log = Log::read_log(&[]);
    assert_eq!(log.len(), 0);
    let file = Log::save_log(&mut log, 7, false);
    assert_eq!(log.as_slice(), [7]);
    assert_eq!(Log::read_log(&file).as_slice(), [7]);
    let file = Log::save_log(&mut log, 0x0102_0304, true);
    assert!(Log::bookmarked(&log, 0x0102_0304));
    assert!(!Log::bookmarked(&log, 5));
    let again = Log::read_log(&file);
    assert_eq!(again.as_slice(), log.as_slice());
    assert_eq!(Log::save_log_raw(&again), file);
    let before = log.len();
    Log::save_log(&mut log, 0x0102_0304, true);
    assert_eq!(log.len(), before);
    for i in 0..300 {
        Log::save_log(&mut log, 1000 + i, true);
    }
    assert!(log.len() <= 100);
}

fn open_book(len: u32, page: u32) -> ReadPage {
    let mut p = ReadPage::new(16, 2, 0, "font.ttf", Retained { page_index: None, resume_offset: 0 });
    p.start(vec!["a".to_string(), "b".to_string()], vec!["font.ttf".to_string()]);
    p.handle_event(EventType::KeyShort(3));
    assert!(p.state.reading);
    p.get_page_vec(Some(len));
    p.get_log_vec(None);
    p.build_page_index(|_| page);
    p
}

#[test]
fn pages_are_turned_and_found() {
    let mut p = open_book(1000, 100);
    assert_eq!(p.ttf_page_starts.len(), 10);
    p.handle_event(EventType::KeyShort(1));
    assert_eq!((p.state.ttf_page_idx, p.state.ttf_offset), (1, 100));
    p.handle_event(EventType::KeyShort(2));
    assert_eq!(p.state.ttf_offset, 0);
    p.handle_event(EventType::KeyShort(2));
    assert_eq!(p.state.ttf_offset, 0);
    p.jump_to_offset(555);
    assert_eq!((p.state.ttf_page_idx, p.state.ttf_offset), (5, 500));
    p.jump_to_offset(5000);
    assert_eq!(p.state.ttf_page_idx, 9);
}

#[test]
fn a_bookmark_is_set_and_deleted() {
    let mut p = open_book(1000, 100);
    p.jump_to_offset(300);
    p.handle_event(EventType::KeyShort(3));
    assert!(matches!(p.state.menu_state, MenuState::Popup { menu_index: 0 }));
    p.handle_event(EventType::KeyShort(1));
    p.handle_event(EventType::KeyShort(3));
    assert!(p.state.save_bookmark_flag);
    let file = p.save_bookmark(true).unwrap();
    assert!(Log::bookmarked(&Log::read_log(&file), 300));
    p.state.menu_state = MenuState::BookmarkList { bm_index: 0, deleting: true };
    p.state.delete_bookmark_flag = true;
    assert!(p.delete_bookmark().is_some());
    assert!(!Log::bookmarked(p.log_vec.as_ref().unwrap(), 300));
}

#[test]
fn the_page_is_drawn_with_its_progress() {
    let mut p = open_book(1000, 100);
    p.state.need_render = true;
    let c = p.render(TextPage::Failed, 300, 400).unwrap();
    assert!(matches!(c.ops[0], DrawOp::Clear(Ink::White)));
    assert!(texts(&c.ops).iter().any(|t| t == "TTF 渲染失败"));
    assert!(p.render(TextPage::Failed, 300, 400).is_none());
    p.state.need_render = true;
    let c = p.render(TextPage::Drawn(Canvas::new(), 90), 300, 400).unwrap();
    assert_eq!(p.state.ttf_end, 90);
    assert_eq!(texts(&c.ops).len(), 0);
}

#[test]
fn a_pass_of_the_reader_does_what_is_due() {
    let mut p = open_book(1000, 100);
    p.state.need_render = true;
    p.state.save_bookmark_flag = true;
    assert_eq!(p.run(ReadTask::Begin, false), ReadTask::SaveBookmark);
    p.state.save_bookmark_flag = false;
    assert_eq!(p.run(ReadTask::SaveBookmark, false), ReadTask::Render);
    assert_eq!(p.run(ReadTask::Render, true), ReadTask::Preload);
    assert_eq!(p.run(ReadTask::Render, false), ReadTask::Sleep);
    assert_eq!(p.run(ReadTask::Sleep, true), ReadTask::Pause);
    p.state.menu_state = MenuState::Popup { menu_index: 0 };
    assert_eq!(p.run(ReadTask::Begin, false), ReadTask::ResetTimes);
    assert_eq!(p.run(ReadTask::Render, true), ReadTask::Pause);
    p.state.ttf_file_len = 0;
    assert_eq!(p.run(ReadTask::Begin, false), ReadTask::OpenBook);
    p.state.running = false;
    assert_eq!(p.run(ReadTask::Begin, false), ReadTask::Stop);
    assert_eq!(open_failure(SdError::OpenVolumeError), Some("读取分区失败"));
    assert_eq!(open_failure(SdError::OpenRootError), Some("打开主目录失败"));
    assert_eq!(open_failure(SdError::OpenBooksError), None);
    assert!(asks_again(false, 7) && !asks_again(false, 8) && !asks_again(true, 0));
    let s = Indexed::new(Some(0)).start();
    assert_eq!(s.run(PassTask::Begin, 1), PassTask::OpenBook);
    let s = s.get_page_vec(Some(3), false);
    assert_eq!(s.run(PassTask::Begin, 1), PassTask::ChangePage);
    assert_eq!(s.run(PassTask::ChangePage, 1), PassTask::Render);
    assert_eq!(s.run(PassTask::Render, 1), PassTask::Sleep);
    assert_eq!(s.back().run(PassTask::Begin, 1), PassTask::Stop);
}

#[test]
fn cells_are_narrow_for_single_bytes() {
    assert_eq!(char_width('a', 16, 8), 8);
    assert_eq!(char_width('中', 16, 8), 16);
    let b = "a中".as_bytes();
    assert_eq!(decode_char(b, 0, 4), Some((1, 'a')));
    assert_eq!(decode_char(b, 1, 4), Some((3, '中')));
    assert_eq!(decode_char(b, 1, 3), None);
    assert_eq!(decode_char(b, 2, 4), Some((1, '\u{FFFD}')));
}

fn cells(max_w: i32, max_lines: u32) -> Cells {
    Cells { max_w, full_w: 16, half_w: 8, max_lines }
}

#[test]
fn pages_of_cells_join() {
    let text = "ab中文\ncd\r\n三四五六ef".as_bytes();
    for a in 0..5u32 {
        let c = compute_consumed_bitmap(text, cells(32, a));
        for b in 0..5u32 {
            let rest = compute_consumed_bitmap(&text[c..], cells(32, b));
            assert_eq!(compute_consumed_bitmap(text, cells(32, a + b)), c + rest);
        }
    }
    assert_eq!(compute_consumed_bitmap(text, cells(32, 2)), 9);
    assert_eq!(compute_consumed_bitmap(text, cells(i32::MAX, u32::MAX)), text.len());
    let wide = Cells { max_w: i32::MAX, full_w: i32::MAX, half_w: i32::MAX, max_lines: u32::MAX };
    assert_eq!(compute_consumed_bitmap(b"abc", wide), 3);
    let low = CellArea { left: -5, top: 1_000_000, line_h: 100_000, face: Face::Wqy16 };
    let (c, n) = paginate_render_bitmap(b"a\nb", cells(32, 1_000_000), low);
    assert_eq!(n, 3);
    assert!(matches!(&c.ops[1], DrawOp::Text(t, a) if t == "b" && a.x == -5 && a.y == 1_100_000));
    assert!(paginate_render_bitmap(b"a", cells(32, 0), low).0.ops.is_empty());
    assert!(paginate_render_bitmap(b"", cells(32, 3), low).0.ops.is_empty());
}

#[test]
fn a_page_of_cells_takes_what_fits() {
    let text = "ab中文\ncd".as_bytes();
    assert_eq!(compute_consumed_bitmap(text, cells(32, 1)), 5);
    assert_eq!(compute_consumed_bitmap(text, cells(32, 2)), 9);
    assert_eq!(compute_consumed_bitmap(text, cells(32, 3)), text.len());
    assert_eq!(compute_consumed_bitmap(text, cells(1, 2)), 2);
    assert_eq!(compute_consumed_bitmap(text, cells(32, 0)), 0);
    assert_eq!(compute_consumed_bitmap(b"", cells(32, 3)), 0);
    let a = CellArea { left: 4, top: 2, line_h: 20, face: Face::Wqy16 };
    let (c, n) = paginate_render_bitmap(text, cells(32, 3), a);
    assert_eq!(n, text.len());
    let at: Vec<(String, i32, i32)> = c
        .ops
        .iter()
        .map(|o| match o {
            DrawOp::Text(t, a) => (t.clone(), a.x, a.y),
            _ => panic!("no text"),
        })
        .collect();
    assert_eq!(at[2], ("中".to_string(), 20, 2));
    assert_eq!(at[3], ("文".to_string(), 4, 22));
    assert_eq!(at[4], ("c".to_string(), 4, 42));
}

#[test]
fn the_page_before_is_found() {
    let data: Vec<u8> = (0..10000).map(|i| b'a' + (i % 26) as u8).collect();
    let copy = data.clone();
    let read = move |o: u32, n: usize| {
        let from = (o as usize).min(copy.len());
        copy[from..(from + n).min(copy.len())].to_vec()
    };
    let m = cells(80, 10);
    assert_eq!(find_prev_start_bitmap(&read, 2048, 0, m), 0);
    assert_eq!(find_prev_start_bitmap(&read, 2048, 100, m), 0);
    let p = find_prev_start_bitmap(&read, 2048, 5000, m);
    assert!(p < 5000 && p + 100 >= 5000);
    assert_eq!(find_prev_start_bitmap(&read, 2048, 5000, cells(80, 0)), 0);
}

#[test]
fn texts_are_cut_between_characters() {
    let b = "ab中文".as_bytes();
    assert_eq!(TxtReader::cut_full_utf8(b, 8, 100), 8);
    assert_eq!(TxtReader::cut_full_utf8(b, 8, 8), 5);
    assert_eq!(TxtReader::cut_full_utf8(b, 7, 7), 5);
    assert_eq!(TxtReader::cut_full_utf8(b, 2, 2), 2);
    assert_eq!(TxtReader::ceil_char_boundary(b, 3), 5);
    assert_eq!(TxtReader::ceil_char_boundary(b, 6), 8);
    assert_eq!(TxtReader::compute_page(b, 3), (5, true));
    assert_eq!(TxtReader::compute_page(b, 8), (8, false));
    let text = "x".repeat(70);
    let (n, pages) = TxtReader::compute_pages(text.as_bytes(), 65536 + 5, 30);
    assert_eq!((n, pages), (70, vec![35, 65, 75]));
    assert_eq!(TxtReader::get_page_content(1, &vec![35, 65]), (0, 35));
    assert_eq!(TxtReader::get_page_content(2, &vec![35, 65]), (35, 65));
    assert_eq!(TxtReader::get_page_content(3, &vec![35, 65]), (0, 0));
}

#[test]
fn a_file_is_cut_into_pages_chunk_by_chunk() {
    let text: String = "中".repeat(7999);
    let mut m = PageMaker::new();
    let l = nostring_limits();
    for chunk in text.as_bytes().chunks(2000) {
        m.feed(l, chunk, chunk.len());
    }
    m.finish(l);
    assert_eq!(m.txt.len(), 0);
    assert_eq!(*m.pages.last().unwrap() as usize, text.len());
    assert!(m.pages.windows(2).all(|w| w[0] < w[1] && w[1] % 3 == 0));
    let mut m = PageMaker::new();
    let l = text_limits();
    m.feed(l, b"\xff\xfe broken", 9);
    assert_eq!((m.txt.len(), m.end_position), (0, 9));
    m.feed(l, b"whole", 5);
    m.finish(l);
    assert_eq!(m.pages, [9 + 5 - 9]);
}

#[test]
fn an_indexed_book_is_opened_and_read() {
    let s = Indexed::new(Some(3));
    assert!(s.reading && s.change_page && s.choose_index == 3);
    let s = Indexed::new(None).start();
    let (s, _) = s.handle_event(EventType::KeyShort(1), 3, &[]);
    assert_eq!(s.choose_index, 1);
    let (s, _) = s.handle_event(EventType::KeyShort(3), 3, &[]);
    assert!(s.reading && s.kept_book == Some(1));
    assert!(s.needs_index(None, 0, 10) && s.needs_index(Some(3), 10, 10));
    assert!(s.needs_index(Some(8), 9, 10) && !s.needs_index(Some(8), 10, 10));
    let s = s.begin_index().get_page_vec(Some(5), true);
    let mut log = Log::read_log(&[]);
    Log::save_log(&mut log, 2, false);
    Log::save_log(&mut log, 4, true);
    let s = s.get_log_vec(&log);
    assert_eq!(s.page_index, log[0]);
    let (s, _) = s.handle_event(EventType::KeyShort(1), 3, &log);
    assert_eq!(s.page_index, log[0] + 1);
    let (s, read) = s.take_change();
    assert!(read && !s.change_page);
    let s = Indexed { page_index: 5, ..s };
    assert_eq!(s.handle_event(EventType::KeyShort(1), 3, &log).0.page_index, 5);
    let (s, _) = s.handle_event(EventType::KeyShort(3), 3, &log);
    assert_eq!(s.menu_state, Menu::Popup { menu_index: 0 });
    let (up, _) = s.handle_event(EventType::KeyShort(2), 3, &log);
    assert_eq!(up.menu_state, Menu::Popup { menu_index: 8 });
    assert!(!s.may_sleep());
    let (s, _) = s.handle_event(EventType::KeyLongEnd(3), 3, &log);
    assert!(!s.reading && s.kept_book.is_none());
    let (s, _) = s.handle_event(EventType::KeyLongEnd(3), 3, &log);
    assert!(!s.running);
}

#[test]
fn held_keys_skip_pages_faster() {
    let steps: Vec<u32> = [0, 4, 5, 9, 10, 19, 20, 34, 35, 1000].iter().map(|t| accel_step(*t)).collect();
    assert_eq!(steps, [1, 1, 5, 5, 10, 10, 50, 50, 100, 100]);
    let mut s = Indexed::new(Some(0)).get_page_vec(Some(60), false);
    s.menu_state = Menu::JumpInput { input_num: 0 };
    for _ in 0..12 {
        let (next, e) = s.handle_event(EventType::KeyLongIng(1), 1, &[]);
        assert_eq!(e.pause_ms, 75);
        s = next;
    }
    assert_eq!(s.menu_state, Menu::JumpInput { input_num: 50 });
    let (s, _) = s.handle_event(EventType::KeyLongIng(1), 1, &[]);
    let (s, _) = s.handle_event(EventType::KeyLongIng(1), 1, &[]);
    assert_eq!(s.menu_state, Menu::JumpInput { input_num: 60 });
    let (s, _) = s.handle_event(EventType::KeyShort(3), 1, &[]);
    assert_eq!((s.page_index, s.menu_state), (60, Menu::Closed));
}

#[test]
fn indexed_bookmarks_are_chosen_and_deleted() {
    let mut log = Log::read_log(&[0, 0, 0, 1, 0, 0, 0, 7, 0, 0, 0, 9]);
    let base = log.clone();
    let mut s = Indexed::new(Some(0)).get_page_vec(Some(20), false);
    s.menu_state = Menu::BookmarkList { bm_index: 1, deleting: false };
    s.need_load_preview = true;
    let (s2, wanted, page) = s.load_preview(&log);
    assert!(wanted && !s2.need_load_preview);
    assert_eq!(page, Some(log[2]));
    let (s3, _) = s.handle_event(EventType::KeyShort(3), 1, &log);
    assert_eq!(s3.page_index, log[2]);
    s.menu_state = Menu::BookmarkList { bm_index: 1, deleting: true };
    let (s, _) = s.handle_event(EventType::KeyShort(3), 1, &log);
    assert!(s.delete_bookmark_flag);
    let (s, file, cleared) = s.delete_bookmark(&mut log);
    assert!(cleared);
    assert_eq!(log.as_slice(), &base[..2]);
    assert_eq!(Log::read_log(&file.unwrap()).as_slice(), log.as_slice());
    assert_eq!(s.menu_state, Menu::BookmarkList { bm_index: 0, deleting: true });
    let (s, none, _) = s.delete_bookmark(&mut log);
    assert!(none.is_none());
    assert!(matches!(s.menu_state, Menu::BookmarkList { bm_index: 0, .. }));
}

#[test]
fn pages_of_an_index_have_places() {
    let idx = [0, 0, 0, 100, 0, 0, 1, 0, 0, 0, 1, 0];
    assert_eq!(find_page(&idx, 0), Some((0, 100)));
    assert_eq!(find_page(&idx, 1), Some((100, 256)));
    assert_eq!(find_page(&idx, 2), None);
    assert_eq!(find_page(&idx, 3), None);
    assert_eq!(find_page(&idx, 4), None);
    assert_eq!(find_page(&idx, 5), Some((100, 256)));
    assert_eq!(find_page(&[], 7), None);
    assert_eq!(book_progress(5, 40), "50%");
    assert_eq!(book_progress(5, 3), "");
}

#[test]
fn the_indexed_reader_draws_what_it_shows() {
    let shown = Shown {
        books: Some(vec!["a".to_string(), "b".to_string()]),
        progress: vec!["50%".to_string(), String::new()],
        indexed: "12.50".to_string(),
        content: "content".to_string(),
        preview: "preview".to_string(),
    };
    let s = Indexed::new(None).start();
    let (s, c) = s.render(&shown, &[]);
    let c = c.unwrap();
    assert!(matches!(&c.ops[1], DrawOp::Menu(l, 0, _) if l.len() == 2));
    assert_eq!(texts(&c.ops), ["50%"]);
    assert!(s.render(&shown, &[]).1.is_none());
    let s = Indexed { need_render: true, reading: true, ..s }.get_page_vec(Some(10), false);
    let c = s.render(&shown, &[]).1.unwrap();
    assert_eq!(texts(&c.ops), ["content"]);
    let last = Indexed { page_index: 10, ..s };
    assert_eq!(texts(&last.render(&shown, &[]).1.unwrap().ops), ["已是最后一页"]);
    let making = Indexed { indexing: true, ..s };
    assert_eq!(
        texts(&making.render(&shown, &[]).1.unwrap().ops),
        ["正在创建索引，\n 已创建索引进度：12.50%"]
    );
    let listed = Indexed { menu_state: Menu::BookmarkList { bm_index: 0, deleting: true }, ..s };
    let c = listed.render(&shown, &[1, 7, 9]).1.unwrap();
    assert_eq!(texts(&c.ops), ["content", "删除书签", "> 第7页 ×", "  第9页", "  取消"]);
    assert!(c.ops.iter().any(|o| matches!(o, DrawOp::ClippedText(t, _, _) if t == "preview")));
    let popup = Indexed { menu_state: Menu::Popup { menu_index: 4 }, page_index: 3, ..s };
    let t = texts(&popup.render(&shown, &[]).1.unwrap().ops);
    assert_eq!((t.len(), t[5].as_str(), t[10].as_str()), (11, "> 跳转页码", "3/10"));
}
