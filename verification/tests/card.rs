use embedded_sdmmc::ShortFileName;
use epd_reader::sd_mount::lfn::encode_utf16;
use epd_reader::sd_mount::names::{
    ends_with_ignore_case, eq_ignore_case, url_decode, DirItem, Mode, OpenPlan, SdError, SdMount,
    TimeSource,
};

fn item(lfn: Option<&str>, base: &str, ext: &str) -> DirItem {
    let short = if ext.is_empty() { base.to_string() } else { format!("{}.{}", base, ext) };
    DirItem { lfn: lfn.map(|l| l.to_string()), base: base.to_string(), ext: ext.to_string(), short }
}

#[test]
fn urls_are_decoded() {
    assert_eq!(url_decode("a+b%20c").unwrap(), "a b c");
    assert_eq!(url_decode("%E4%B8%AD%e6%96%87.txt").unwrap(), "中文.txt");
    assert_eq!(url_decode("plain").unwrap(), "plain");
    assert!(url_decode("%4").is_none());
    assert!(url_decode("%G0").is_none());
    assert!(url_decode("%0G").is_none());
    assert!(url_decode("%FF").is_none());
}

#[test]
fn names_are_compared_without_case() {
    assert!(eq_ignore_case("Book.TXT", "bOOK.txt"));
    assert!(!eq_ignore_case("Book.TX", "book.txt"));
    assert!(eq_ignore_case("书.Txt", "书.tXT"));
    assert!(!eq_ignore_case("é", "É"));
    assert!(ends_with_ignore_case("A.TxT", ".txt"));
    assert!(!ends_with_ignore_case("xt", ".txt"));
}

#[test]
fn books_are_the_text_files() {
    let long = format!("{}.txt", "a".repeat(147));
    let items = vec![
        item(Some("三体.第一部.TXT"), "BK0001~1", "TXT"),
        item(Some(".hidden.txt"), "HIDDEN", "TXT"),
        item(Some("picture.bmp"), "PICTURE", "BMP"),
        item(Some(long.as_str()), "LONG", "TXT"),
        item(None, "NOVEL", "TXT"),
        item(None, "INDEX", "IDX"),
    ];
    assert_eq!(SdMount::get_books(&items), ["三体.第一部", "NOVEL"]);
    let many: Vec<DirItem> = (0..50).map(|i| item(None, &format!("B{}", i), "TXT")).collect();
    let books = SdMount::get_books(&many);
    assert_eq!(books.len(), 40);
    assert_eq!(books[39], "B39");
}

#[test]
fn files_are_found_by_long_or_short_name() {
    let items = vec![
        item(Some("Novel.txt"), "NOVEL~1", "TXT"),
        item(None, "NOVEL", "TXT"),
        item(None, "OTHER", "TXT"),
    ];
    assert_eq!(SdMount::find_entry_by_name(&items, "novel.txt"), Some(1));
    assert_eq!(SdMount::find_entry_by_name(&items, "other.txt"), Some(2));
    assert_eq!(SdMount::find_entry_by_name(&items, "none.txt"), None);
    assert!(matches!(SdMount::open_txt_file(&items, "other"), Ok(2)));
    assert!(matches!(SdMount::open_txt_file(&items, "x"), Err(SdError::FileNotFound)));
    assert!(matches!(
        SdMount::open_file_by_name(&items, "OTHER.TXT", Mode::ReadOnly),
        Ok(OpenPlan::Entry(2))
    ));
    assert!(matches!(
        SdMount::open_file_by_name(&items, "new.txt", Mode::ReadWriteCreateOrTruncate),
        Ok(OpenPlan::Create)
    ));
    assert!(matches!(
        SdMount::open_file_by_name(&items, "new.txt", Mode::ReadWriteAppend),
        Err(SdError::FileNotFound)
    ));
}

#[test]
fn short_names_get_other_extensions() {
    assert_eq!(SdMount::derive_short_name("MYBOOK~1.TXT", "IDX").unwrap(), "MYBOOK~1.IDX");
    assert_eq!(SdMount::derive_short_name("mybook", "log").unwrap(), "MYBOOK.LOG");
    assert!(SdMount::derive_short_name("FARTOOLONG.TXT", "IDX").is_none());
    assert_eq!(SdMount::open_idx_file("A.TXT").unwrap(), "A.IDX");
    assert_eq!(SdMount::open_log_file("A.TXT").unwrap(), "A.LOG");
    assert!(matches!(SdMount::open_idx_file("A B.TXT"), Err(SdError::FileNotFound)));
    let items = vec![item(None, "A", "IDX")];
    assert!(SdMount::idx_file_exists(&items, "A.TXT"));
    assert!(!SdMount::idx_file_exists(&items, "B.TXT"));
}

#[test]
fn the_checksum_is_that_of_the_short_name() {
    for name in ["BK0001~1.TXT", "A.B", "README", "MYBOOK~1.IDX"] {
        let sfn = ShortFileName::create_from_str(name).unwrap();
        assert_eq!(SdMount::lfn_checksum(name), sfn.csum());
    }
    assert_eq!(SdMount::lfn_checksum("a.b"), SdMount::lfn_checksum("A.B"));
}

#[test]
fn entries_hold_thirteen_characters() {
    let units = encode_utf16("ab中😀");
    assert_eq!(units, "ab中😀".encode_utf16().collect::<Vec<u16>>());
    let e = SdMount::build_lfn_entry(0x41, 0x5a, &units);
    assert_eq!(e.len(), 32);
    assert_eq!((e[0], e[11], e[12], e[13], e[26], e[27]), (0x41, 0x0f, 0, 0x5a, 0, 0));
    assert_eq!(&e[1..11], &[0x61, 0, 0x62, 0, 0x2d, 0x4e, 0x3d, 0xd8, 0x00, 0xde]);
    assert_eq!(&e[14..26], &[0, 0, 255, 255, 255, 255, 255, 255, 255, 255, 255, 255]);
    let full = SdMount::build_lfn_entry(1, 0, &[0x41; 13]);
    assert_eq!(&full[28..32], &[0x41, 0, 0x41, 0]);
}

#[test]
fn generated_names_are_new() {
    let names = |l: &[&str]| l.iter().map(|s| s.to_string()).collect::<Vec<String>>();
    let make = |l: &[&str]| SdMount::generate_unique_short_name(&names(l));
    assert_eq!(make(&[]).unwrap(), "BK0001~1.TXT");
    assert_eq!(make(&["BK0009~1.TXT", "NOVEL.TXT"]).unwrap(), "BK000A~1.TXT");
    assert_eq!(make(&["BK000A~1.TXT", "BK0009~1.TXT"]).unwrap(), "BK000B~1.TXT");
    assert_eq!(make(&["BKXYZ~1.TXT", "BK~1.TXT", "BK12.TXT"]).unwrap(), "BK0001~1.TXT");
    assert!(matches!(make(&["BKFFFF~1.TXT"]), Err(SdError::FileNotFound)));
}

#[test]
fn a_long_name_is_put_before_the_short_entry() {
    let mut data: Vec<u8> = (0..512).map(|i| (i / 32) as u8).collect();
    let before = data.clone();
    let long = "abcdefghijklmnopq";
    assert!(SdMount::create_file_with_lfn(&mut data, 64, "BK0001~1.TXT", long));
    let sum = SdMount::lfn_checksum("BK0001~1.TXT");
    assert_eq!(&data[..64], &before[..64]);
    assert_eq!(data[64], 0x42);
    assert_eq!(data[96], 0x01);
    assert_eq!((data[64 + 13], data[96 + 13]), (sum, sum));
    assert_eq!(data[64 + 1], b'n');
    assert_eq!(data[96 + 1], b'a');
    assert_eq!(&data[128..512], &before[64..448]);
    let mut full = before.clone();
    assert!(!SdMount::create_file_with_lfn(&mut full, 480, "BK0001~1.TXT", long));
    assert_eq!(full, before);
}

#[test]
fn files_are_marked_with_the_beginning_of_1970() {
    let t = TimeSource.get_timestamp();
    assert_eq!((t.year_since_1970, t.zero_indexed_month, t.hours), (0, 0, 0));
}
