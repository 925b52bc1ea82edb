//! File names: how they are written, compared and derived from one another.
use vstd::prelude::*;
#[allow(unused_imports)]
use vstd::string::*;
#[allow(unused_imports)]
use vstd::utf8::*;

use crate::text::{join3, same_text, utf8_text};

verus! {

/// What can go wrong with the card.
#[derive(Clone, Copy, Debug, PartialEq, Eq, Structural)]
pub enum SdError {
    OpenVolumeError,
    OpenRootError,
    OpenBooksError,
    RootAlreadyOpen,
    FileNotFound,
}

/// The moment with which files are marked.
#[derive(Clone, Copy, Debug, PartialEq, Eq, Structural)]
pub struct Timestamp {
    pub year_since_1970: u8,
    pub zero_indexed_month: u8,
    pub zero_indexed_day: u8,
    pub hours: u8,
    pub minutes: u8,
    pub seconds: u8,
}

/// A clock that stands still.
#[derive(Clone, Copy, Debug, PartialEq, Eq, Structural)]
pub struct TimeSource;

impl TimeSource {
    /// The beginning of 1970.
    pub fn get_timestamp(&self) -> (t: Timestamp)
        ensures
            t == (Timestamp {
                year_since_1970: 0,
                zero_indexed_month: 0,
                zero_indexed_day: 0,
                hours: 0,
                minutes: 0,
                seconds: 0,
            }),
    {
        Timestamp {
            year_since_1970: 0,
            zero_indexed_month: 0,
            zero_indexed_day: 0,
            hours: 0,
            minutes: 0,
            seconds: 0,
        }
    }
}

/// The card.
pub struct SdMount;

/// How many bytes the name of a book has at most.
pub const BOOK_NAME_MAX: usize = 150;

/// How many books are listed.
pub const BOOKS_MAX: usize = 40;

/// How a file is opened.
#[derive(Clone, Copy, Debug, PartialEq, Eq, Structural)]
pub enum Mode {
    ReadOnly,
    ReadWriteAppend,
    ReadWriteTruncate,
    ReadWriteCreate,
    ReadWriteCreateOrTruncate,
    ReadWriteCreateOrAppend,
}

/// A file of a directory: its long name, if it has one, and the two parts of its short name.
pub struct DirItem {
    pub lfn: Option<String>,
    pub base: String,
    pub ext: String,
    /// The whole short name.
    pub short: String,
}

/// The text in capital letters.
pub uninterp spec fn uppercase(s: Seq<char>) -> Seq<char>;

/// `str::to_uppercase`: the text in capital letters, as Unicode maps them. The mapping itself is not
/// stated.
#[verifier::external_body]
pub(crate) fn to_uppercase(s: &str) -> (r: String)
    ensures
        r@ == uppercase(s@),
{
    s.to_uppercase()
}

/// The short name that a text is made into, as it is shown; none where it cannot be.
pub uninterp spec fn short_name_of(s: Seq<char>) -> Option<Seq<char>>;

/// A character that stands in a short name as it is.
pub open spec fn is_plain(c: char) -> bool {
    ('A' <= c && c <= 'Z') || ('0' <= c && c <= '9') || c == '~'
}

/// A text of up to eight plain characters, a dot, and up to three more.
pub open spec fn is_plain_name(s: Seq<char>) -> bool {
    exists|d: int|
        1 <= d <= 8 && d < s.len() - 1 && s.len() <= d + 4 && #[trigger] s[d] == '.' && forall|i: int|
            0 <= i < s.len() && i != d ==> is_plain(#[trigger] s[i])
}

/// `embedded_sdmmc::ShortFileName::create_from_str`: the short name that a text is made into, shown
/// as a text again. A plain name is kept as it is. Which other texts can be made into short names,
/// and into which, is not stated.
#[verifier::external_body]
pub(crate) fn create_short_name(s: &str) -> (r: Option<String>)
    ensures
        r matches Some(t) ==> short_name_of(s@) == Some(t@),
        r is None ==> short_name_of(s@) is None,
        is_plain_name(s@) ==> r is Some && r->0@ == s@,
{
    match embedded_sdmmc::ShortFileName::create_from_str(s) {
        Ok(name) => Some(format!("{}", name)),
        Err(_) => None,
    }
}

/// The value of a hexadecimal digit.
pub open spec fn hex_value(b: u8) -> Option<int> {
    if 0x30 <= b <= 0x39 {
        Some(b - 0x30)
    } else if 0x41 <= b <= 0x46 {
        Some(b - 0x41 + 10)
    } else if 0x61 <= b <= 0x66 {
        Some(b - 0x61 + 10)
    } else {
        None
    }
}

/// The bytes that a text of a URL stands for: a plus is a space, and a percent sign with two digits
/// is a byte.
pub open spec fn url_bytes(s: Seq<u8>) -> Option<Seq<u8>>
    decreases s.len(),
{
    if s.len() == 0 {
        Some(seq![])
    } else if s[0] == 0x25 {
        if s.len() < 3 || hex_value(s[1]) is None || hex_value(s[2]) is None {
            None
        } else {
            match url_bytes(s.skip(3)) {
                Some(rest) => Some(
                    seq![(hex_value(s[1])->0 * 16 + hex_value(s[2])->0) as u8] + rest,
                ),
                None => None,
            }
        }
    } else {
        match url_bytes(s.skip(1)) {
            Some(rest) => Some(
                seq![
                    if s[0] == 0x2b {
                        0x20
                    } else {
                        s[0]
                    },
                ] + rest,
            ),
            None => None,
        }
    }
}

/// The value of a hexadecimal digit.
fn hex_digit_value(b: u8) -> (r: Option<u8>)
    ensures
        match r {
            Some(v) => hex_value(b) == Some(v as int) && v < 16,
            None => hex_value(b) is None,
        },
{
    if 0x30 <= b && b <= 0x39 {
        Some(b - 0x30)
    } else if 0x41 <= b && b <= 0x46 {
        Some(b - 0x41 + 10)
    } else if 0x61 <= b && b <= 0x66 {
        Some(b - 0x61 + 10)
    } else {
        None
    }
}

/// The text that a text of a URL stands for; nothing where it is not well formed.
pub fn url_decode(input: &str) -> (r: Option<String>)
    ensures
        match r {
            Some(t) => url_bytes(encode_utf8(input@)) is Some && valid_utf8(
                url_bytes(encode_utf8(input@))->0,
            ) && t@ == decode_utf8(url_bytes(encode_utf8(input@))->0),
            None => url_bytes(encode_utf8(input@)) is None || !valid_utf8(
                url_bytes(encode_utf8(input@))->0,
            ),
        },
{
    let b = input.as_bytes();
    let mut out: Vec<u8> = Vec::new();
    let mut i: usize = 0;
    assert(b@.skip(0) =~= b@);
    while i < b.len()
        invariant
            i <= b@.len(),
            b@ == encode_utf8(input@),
            match url_bytes(b@.skip(i as int)) {
                Some(rest) => url_bytes(b@) == Some(out@ + rest),
                None => url_bytes(b@) is None,
            },
        decreases b@.len() - i,
    {
        let ghost s = b@.skip(i as int);
        if b[i] == 0x25 {
            if b.len() - i < 3 {
                return None;
            }
            match (hex_digit_value(b[i + 1]), hex_digit_value(b[i + 2])) {
                (Some(high), Some(low)) => {
                    let ghost before = out@;
                    let v: u8 = high * 16 + low;
                    out.push(v);
                    i += 3;
                    proof {
                        assert(s.skip(3) =~= b@.skip(i as int));
                        if let Some(rest) = url_bytes(b@.skip(i as int)) {
                            assert(before + (seq![v] + rest) =~= out@ + rest);
                        }
                    }
                },
                _ => {
                    return None;
                },
            }
        } else {
            let ghost before = out@;
            let v: u8 = if b[i] == 0x2b {
                0x20
            } else {
                b[i]
            };
            out.push(v);
            i += 1;
            proof {
                assert(s.skip(1) =~= b@.skip(i as int));
                if let Some(rest) = url_bytes(b@.skip(i as int)) {
                    assert(before + (seq![v] + rest) =~= out@ + rest);
                }
            }
        }
    }
    assert(b@.skip(i as int) =~= seq![]);
    assert(out@ + Seq::<u8>::empty() =~= out@);
    match utf8_text(out.as_slice()) {
        Some(t) => {
            let mut r = String::new();
            r.append(t);
            assert(r@ =~= t@);
            Some(r)
        },
        None => None,
    }
}

/// The digit of a value.
pub open spec fn hex_byte(v: int) -> u8 {
    if v < 10 {
        (0x30 + v) as u8
    } else {
        (0x41 + v - 10) as u8
    }
}

/// Bytes written as a percent sign and two digits each.
pub open spec fn percent_encoded(b: Seq<u8>) -> Seq<u8>
    decreases b.len(),
{
    if b.len() == 0 {
        seq![]
    } else {
        seq![0x25, hex_byte(b[0] as int / 16), hex_byte(b[0] as int % 16)] + percent_encoded(
            b.skip(1),
        )
    }
}

/// Bytes that were written as a percent sign and two digits each come back.
pub proof fn law_encoded_bytes_come_back(b: Seq<u8>)
    ensures
        url_bytes(percent_encoded(b)) == Some(b),
    decreases b.len(),
{
    if b.len() > 0 {
        let e = percent_encoded(b);
        law_encoded_bytes_come_back(b.skip(1));
        assert(e.skip(3) =~= percent_encoded(b.skip(1)));
        assert(hex_value(e[1]) == Some(b[0] as int / 16));
        assert(hex_value(e[2]) == Some(b[0] as int % 16));
        assert(seq![b[0]] + b.skip(1) =~= b);
    } else {
        assert(b =~= seq![]);
    }
}

/// A text without plus and percent signs stands for itself.
pub proof fn law_plain_text_is_kept(b: Seq<u8>)
    requires
        forall|i: int| 0 <= i < b.len() ==> b[i] != 0x25 && b[i] != 0x2b,
    ensures
        url_bytes(b) == Some(b),
    decreases b.len(),
{
    if b.len() > 0 {
        law_plain_text_is_kept(b.skip(1));
        assert(seq![b[0]] + b.skip(1) =~= b);
    } else {
        assert(b =~= seq![]);
    }
}

/// A character with the letters from A to Z as capitals.
pub open spec fn upper(c: char) -> char {
    if 'a' <= c && c <= 'z' {
        (c as u32 - 32) as u8 as char
    } else {
        c
    }
}

/// A character with the letters from A to Z as capitals.
pub fn ascii_upper(c: char) -> (r: char)
    ensures
        r == upper(c),
{
    if 'a' <= c && c <= 'z' {
        (c as u32 - 32) as u8 as char
    } else {
        c
    }
}

/// Two texts are the same but for the case of the letters from A to Z.
pub open spec fn same_name(a: Seq<char>, b: Seq<char>) -> bool {
    a.len() == b.len() && forall|i: int| 0 <= i < a.len() ==> upper(a[i]) == #[trigger] upper(b[i])
}

/// Whether a text ends with another but for the case of the letters from A to Z.
pub fn ends_with_ignore_case(s: &str, suffix: &str) -> (r: bool)
    ensures
        r == (s@.len() >= suffix@.len() && same_name(s@.skip(s@.len() - suffix@.len()), suffix@)),
{
    let n: usize = s.unicode_len();
    let m: usize = suffix.unicode_len();
    if n < m {
        return false;
    }
    let mut i: usize = 0;
    while i < m
        invariant
            n == s@.len(),
            m == suffix@.len(),
            i <= m <= n,
            forall|j: int| 0 <= j < i ==> upper(s@[n - m + j]) == #[trigger] upper(suffix@[j]),
        decreases m - i,
    {
        if ascii_upper(s.get_char(n - m + i)) != ascii_upper(suffix.get_char(i)) {
            assert(s@.skip(n - m)[i as int] == s@[n - m + i]);
            assert(upper(s@.skip(n - m)[i as int]) != upper(suffix@[i as int]));
            return false;
        }
        i += 1;
    }
    true
}

/// Whether two texts are the same but for the case of the letters from A to Z.
pub fn eq_ignore_case(a: &str, b: &str) -> (r: bool)
    ensures
        r == same_name(a@, b@),
{
    if a.unicode_len() != b.unicode_len() {
        return false;
    }
    assert(a@.skip(0) =~= a@);
    ends_with_ignore_case(a, b)
}

/// Where a character is found last; before the beginning where it is not.
pub open spec fn last_index(s: Seq<char>, c: char) -> int
    decreases s.len(),
{
    if s.len() == 0 {
        -1
    } else if s.last() == c {
        s.len() - 1
    } else {
        last_index(s.drop_last(), c)
    }
}

/// What is before the last dot; everything where there is none.
pub open spec fn without_extension(s: Seq<char>) -> Seq<char> {
    if last_index(s, '.') < 0 {
        s
    } else {
        s.take(last_index(s, '.'))
    }
}

/// Finds a character from the end.
fn rfind(s: &str, c: char) -> (r: Option<usize>)
    ensures
        match r {
            Some(i) => last_index(s@, c) == i && i < s@.len(),
            None => last_index(s@, c) == -1,
        },
{
    let mut n: usize = s.unicode_len();
    assert(s@.take(n as int) =~= s@);
    while n > 0
        invariant
            n <= s@.len(),
            last_index(s@, c) == last_index(s@.take(n as int), c),
        decreases n,
    {
        if s.get_char(n - 1) == c {
            return Some(n - 1);
        }
        assert(s@.take(n as int).drop_last() =~= s@.take(n - 1));
        n -= 1;
    }
    None
}

/// The name of the book that a file is, if it is one: a text file with a short name alone, or one
/// whose long name is not hidden and not too long.
pub open spec fn book_of(d: DirItem) -> Option<Seq<char>> {
    match d.lfn {
        Some(l) => {
            let hidden = l@.len() > 0 && l@[0] == '.';
            let txt = l@.len() >= 4 && same_name(l@.skip(l@.len() - 4), ".txt"@);
            if hidden || encode_utf8(l@).len() > BOOK_NAME_MAX || !txt || last_index(l@, '.') < 0 {
                None
            } else {
                Some(l@.take(last_index(l@, '.')))
            }
        },
        None => if d.ext@ == "TXT"@ {
            Some(d.base@)
        } else {
            None
        },
    }
}

/// The books among the first `n` files, no more than are listed.
pub open spec fn books_of(items: Seq<DirItem>, n: int) -> Seq<Seq<char>>
    decreases n,
{
    if n <= 0 {
        seq![]
    } else {
        let before = books_of(items, n - 1);
        match book_of(items[n - 1]) {
            Some(b) if before.len() < BOOKS_MAX => before.push(b),
            _ => before,
        }
    }
}

/// The name of the book that a file is.
fn book_name(d: &DirItem) -> (r: Option<String>)
    ensures
        match r {
            Some(b) => book_of(*d) == Some(b@),
            None => book_of(*d) is None,
        },
{
    match &d.lfn {
        Some(l) => {
            let l = l.as_str();
            let n: usize = l.unicode_len();
            if n > 0 && l.get_char(0) == '.' {
                return None;
            }
            if l.as_bytes().len() > BOOK_NAME_MAX {
                return None;
            }
            proof {
                reveal_strlit(".txt");
            }
            if !ends_with_ignore_case(l, ".txt") {
                return None;
            }
            match rfind(l, '.') {
                Some(dot) => {
                    let mut s = String::new();
                    s.append(l.substring_char(0, dot));
                    assert(s@ =~= l@.take(dot as int));
                    Some(s)
                },
                None => None,
            }
        },
        None => {
            if same_text(d.ext.as_str(), "TXT") {
                Some(d.base.clone())
            } else {
                None
            }
        },
    }
}

impl SdMount {
    /// Lists the books of a directory in its order.
    pub fn get_books(items: &Vec<DirItem>) -> (books: Vec<String>)
        ensures
            books@.len() == books_of(items@, items@.len() as int).len(),
            forall|i: int|
                0 <= i < books@.len() ==> (#[trigger] books@[i])@ == books_of(
                    items@,
                    items@.len() as int,
                )[i],
    {
        let mut books: Vec<String> = Vec::new();
        let mut k: usize = 0;
        while k < items.len()
            invariant
                k <= items@.len(),
                books@.len() == books_of(items@, k as int).len(),
                forall|i: int|
                    0 <= i < books@.len() ==> (#[trigger] books@[i])@ == books_of(items@, k as int)[i],
            decreases items@.len() - k,
        {
            if let Some(b) = book_name(&items[k]) {
                if books.len() < BOOKS_MAX {
                    books.push(b);
                }
            }
            k += 1;
        }
        books
    }
}

/// A file has the name that is looked for: by its long name but for case, or by its short name in
/// capital letters.
pub open spec fn is_named(d: DirItem, name: Seq<char>) -> bool {
    match d.lfn {
        Some(l) => same_name(l@, name),
        None => d.short@ == uppercase(name),
    }
}

/// The file at `i` has the name, and none behind it has.
pub open spec fn is_last_named(items: Seq<DirItem>, name: Seq<char>, i: int) -> bool {
    &&& 0 <= i < items.len()
    &&& is_named(items[i], name)
    &&& forall|j: int| i < j < items.len() ==> !is_named(#[trigger] items[j], name)
}

/// No file has the name.
pub open spec fn none_named(items: Seq<DirItem>, name: Seq<char>) -> bool {
    forall|j: int| 0 <= j < items.len() ==> !is_named(#[trigger] items[j], name)
}

impl SdMount {
    /// Finds a file by its name; the last where there are several.
    pub fn find_entry_by_name(items: &Vec<DirItem>, file_name: &str) -> (r: Option<usize>)
        ensures
            match r {
                Some(i) => is_last_named(items@, file_name@, i as int),
                None => none_named(items@, file_name@),
            },
    {
        let upper = to_uppercase(file_name);
        let mut k: usize = items.len();
        while k > 0
            invariant
                k <= items@.len(),
                upper@ == uppercase(file_name@),
                forall|j: int| k <= j < items@.len() ==> !is_named(#[trigger] items@[j], file_name@),
            decreases k,
        {
            let d = &items[k - 1];
            let matched = match &d.lfn {
                Some(l) => eq_ignore_case(l.as_str(), file_name),
                None => same_text(d.short.as_str(), upper.as_str()),
            };
            if matched {
                return Some(k - 1);
            }
            k -= 1;
        }
        None
    }
}

/// A short name with another extension.
pub open spec fn derived(name: Seq<char>, ext: Seq<char>) -> Seq<char> {
    without_extension(name) + "."@ + ext
}

impl SdMount {
    /// The short name with another extension, where there is such a short name.
    pub fn derive_short_name(entry_name: &str, new_ext: &str) -> (r: Option<String>)
        ensures
            r matches Some(t) ==> short_name_of(derived(entry_name@, new_ext@)) == Some(t@),
            r is None ==> short_name_of(derived(entry_name@, new_ext@)) is None,
            is_plain_name(derived(entry_name@, new_ext@)) ==> r is Some && r->0@ == derived(
                entry_name@,
                new_ext@,
            ),
    {
        let base = match rfind(entry_name, '.') {
            Some(dot) => entry_name.substring_char(0, dot),
            None => entry_name,
        };
        assert(base@ =~= without_extension(entry_name@));
        create_short_name(join3(base, ".", new_ext).as_str())
    }

    /// The file of a book's text, where it is in the directory.
    pub fn open_txt_file(items: &Vec<DirItem>, book_name: &str) -> (r: Result<usize, SdError>)
        ensures
            match r {
                Ok(i) => is_last_named(items@, book_name@ + ".txt"@, i as int),
                Err(e) => e == SdError::FileNotFound && none_named(
                    items@,
                    book_name@ + ".txt"@,
                ),
            },
    {
        let file_name = crate::text::join(book_name, ".txt");
        match Self::find_entry_by_name(items, file_name.as_str()) {
            Some(i) => Ok(i),
            None => Err(SdError::FileNotFound),
        }
    }

    /// The name of a book's index.
    pub fn open_idx_file(book_short_name: &str) -> (r: Result<String, SdError>)
        ensures
            match r {
                Ok(t) => short_name_of(derived(book_short_name@, "IDX"@)) == Some(t@),
                Err(e) => e == SdError::FileNotFound && short_name_of(
                    derived(book_short_name@, "IDX"@),
                ) is None,
            },
    {
        match Self::derive_short_name(book_short_name, "IDX") {
            Some(t) => Ok(t),
            None => Err(SdError::FileNotFound),
        }
    }

    /// The name of a book's bookmarks.
    pub fn open_log_file(book_short_name: &str) -> (r: Result<String, SdError>)
        ensures
            match r {
                Ok(t) => short_name_of(derived(book_short_name@, "LOG"@)) == Some(t@),
                Err(e) => e == SdError::FileNotFound && short_name_of(
                    derived(book_short_name@, "LOG"@),
                ) is None,
            },
    {
        match Self::derive_short_name(book_short_name, "LOG") {
            Some(t) => Ok(t),
            None => Err(SdError::FileNotFound),
        }
    }

    /// Whether a book has an index: a file with the index's short name.
    pub fn idx_file_exists(items: &Vec<DirItem>, book_short_name: &str) -> (r: bool)
        ensures
            r == (short_name_of(derived(book_short_name@, "IDX"@)) matches Some(n) && exists|i: int|
                0 <= i < items@.len() && (#[trigger] items@[i]).short@ == n),
    {
        match Self::open_idx_file(book_short_name) {
            Ok(name) => {
                let mut i: usize = 0;
                while i < items.len()
                    invariant
                        i <= items@.len(),
                        short_name_of(derived(book_short_name@, "IDX"@)) == Some(name@),
                        forall|j: int| 0 <= j < i ==> (#[trigger] items@[j]).short@ != name@,
                    decreases items@.len() - i,
                {
                    if same_text(items[i].short.as_str(), name.as_str()) {
                        return true;
                    }
                    i += 1;
                }
                false
            },
            Err(_) => false,
        }
    }

    /// A file that is there is opened; one that is not is made where the mode says so.
    pub fn open_file_by_name(items: &Vec<DirItem>, file_name: &str, mode: Mode) -> (r: Result<
        OpenPlan,
        SdError,
    >)
        ensures
            match r {
                Ok(OpenPlan::Entry(i)) => is_last_named(items@, file_name@, i as int),
                Ok(OpenPlan::Create) => makes(mode) && none_named(items@, file_name@),
                Err(e) => e == SdError::FileNotFound && !makes(mode) && none_named(
                    items@,
                    file_name@,
                ),
            },
    {
        match Self::find_entry_by_name(items, file_name) {
            Some(i) => Ok(OpenPlan::Entry(i)),
            None => match mode {
                Mode::ReadWriteCreate
                | Mode::ReadWriteCreateOrTruncate
                | Mode::ReadWriteCreateOrAppend => Ok(OpenPlan::Create),
                _ => Err(SdError::FileNotFound),
            },
        }
    }
}

/// How a file is opened by its name.
#[derive(Clone, Copy, Debug, PartialEq, Eq, Structural)]
pub enum OpenPlan {
    /// The file at this place of the directory.
    Entry(usize),
    /// The file is made under its name.
    Create,
}

/// A file that is not there is made.
pub open spec fn makes(mode: Mode) -> bool {
    mode is ReadWriteCreate || mode is ReadWriteCreateOrTruncate || mode is ReadWriteCreateOrAppend
}

/// Names that are the same but for case are so whichever comes first, and every name is the same as
/// itself.
pub proof fn law_same_name_is_symmetric(a: Seq<char>, b: Seq<char>)
    ensures
        same_name(a, a),
        same_name(a, b) == same_name(b, a),
{
    assert forall|i: int| same_name(a, b) && 0 <= i < b.len() implies upper(b[i])
        == #[trigger] upper(a[i]) by {
        assert(upper(a[i]) == upper(b[i]));
    }
    assert forall|i: int| same_name(b, a) && 0 <= i < a.len() implies upper(a[i])
        == #[trigger] upper(b[i]) by {
        assert(upper(b[i]) == upper(a[i]));
    }
}

/// The names derived from one name differ in the extension alone.
pub proof fn law_derived_names_share_the_base(name: Seq<char>, a: Seq<char>, b: Seq<char>)
    requires
        last_index(a, '.') < 0,
    ensures
        without_extension(derived(name, a)) == without_extension(name),
        derived(derived(name, a), b) == derived(name, b),
{
    reveal_strlit(".");
    let d = derived(name, a);
    let k = without_extension(name).len();
    assert(d.skip(k as int + 1) =~= a);
    lemma_last_index_behind(d, '.', k as int, a);
    assert(d.take(k as int) =~= without_extension(name));
}

proof fn lemma_last_index_behind(d: Seq<char>, c: char, k: int, a: Seq<char>)
    requires
        last_index(a, c) < 0,
        0 <= k < d.len(),
        d[k] == c,
        d.skip(k + 1) == a,
    ensures
        last_index(d, c) == k,
    decreases a.len(),
{
    if a.len() == 0 {
        assert(d.len() == k + 1);
    } else {
        assert(d.last() == a.last());
        assert(d.drop_last().skip(k + 1) =~= a.drop_last());
        lemma_last_index_behind(d.drop_last(), c, k, a.drop_last());
    }
}

proof fn lemma_last_dot(a: Seq<char>, b: Seq<char>)
    requires
        !b.contains('.'),
    ensures
        last_index(a + seq!['.'] + b, '.') == a.len(),
    decreases b.len(),
{
    let s = a + seq!['.'] + b;
    if b.len() == 0 {
        assert(s.last() == '.');
    } else {
        assert(b.last() != '.') by {
            assert(b[b.len() - 1] == b.last());
            assert(b.contains(b.last()));
        }
        assert(s.last() == b.last());
        assert(s.drop_last() =~= a + seq!['.'] + b.drop_last());
        assert(!b.drop_last().contains('.')) by {
            if b.drop_last().contains('.') {
                let i = choose|i: int| 0 <= i < b.len() - 1 && b.drop_last()[i] == '.';
                assert(b[i] == '.');
            }
        }
        lemma_last_dot(a, b.drop_last());
    }
}

/// A text file is a book by its name without the ending, in capitals or not; a hidden one, one with
/// too long a name, and any other file is none.
#[verifier::rlimit(50)]
pub proof fn law_text_files_are_books(d: DirItem, name: Seq<char>, ext: Seq<char>)
    requires
        d.lfn is Some,
        d.lfn->0@ == name + seq!['.'] + ext,
        !ext.contains('.'),
        ext.len() == 3,
    ensures
        ({
            let t = (ext[0] == 't' || ext[0] == 'T') && (ext[1] == 'x' || ext[1] == 'X') && (ext[2]
                == 't' || ext[2] == 'T');
            let long = encode_utf8(name + seq!['.'] + ext).len() > BOOK_NAME_MAX;
            let hidden = name.len() == 0 || name[0] == '.';
            &&& book_of(d) is Some <==> t && !long && !hidden
            &&& book_of(d) is Some ==> book_of(d)->0 == name
        }),
{
    reveal_strlit(".txt");
    let l = name + seq!['.'] + ext;
    lemma_last_dot(name, ext);
    assert(l.take(name.len() as int) =~= name);
    let e = l.skip(l.len() - 4);
    assert(e =~= seq!['.'] + ext);
    assert(e[0] == '.' && e[1] == ext[0] && e[2] == ext[1] && e[3] == ext[2]);
    lemma_upper_is(ext[0], 't', 'T');
    lemma_upper_is(ext[1], 'x', 'X');
    lemma_upper_is(ext[2], 't', 'T');
    assert(".txt"@[0] == '.' && ".txt"@[1] == 't' && ".txt"@[2] == 'x' && ".txt"@[3] == 't');
    if same_name(e, ".txt"@) {
        assert(upper(e[1]) == upper(".txt"@[1]));
        assert(upper(e[2]) == upper(".txt"@[2]));
        assert(upper(e[3]) == upper(".txt"@[3]));
    }
    assert(l[0] == (if name.len() == 0 {
        '.'
    } else {
        name[0]
    }));
}

proof fn lemma_upper_is(c: char, low: char, high: char)
    requires
        low == 't' && high == 'T' || low == 'x' && high == 'X',
    ensures
        upper(c) == upper(low) <==> c == low || c == high,
        upper('.') == '.',
{
    if 'a' <= c && c <= 'z' {
        assert((c as u32 - 32) as u8 as char as int == c as int - 32);
    }
    assert(upper('t') as int == 84 && upper('x') as int == 88);
}

/// Two names are the same where they differ in the case of letters from A to Z alone.
pub proof fn law_names_are_the_same_but_for_case(a: Seq<char>, b: Seq<char>)
    ensures
        same_name(a, b) <==> a.len() == b.len() && forall|i: int|
            0 <= i < a.len() ==> #[trigger] a[i] == b[i] || ('a' <= a[i] <= 'z' && a[i] as int - 32
                == b[i] as int) || ('a' <= b[i] <= 'z' && b[i] as int - 32 == a[i] as int),
{
    if same_name(a, b) {
        assert forall|i: int| 0 <= i < a.len() implies #[trigger] a[i] == b[i] || ('a' <= a[i] <= 'z'
            && a[i] as int - 32 == b[i] as int) || ('a' <= b[i] <= 'z' && b[i] as int - 32
            == a[i] as int) by {
            assert(upper(a[i]) == upper(b[i]));
            lemma_upper(a[i], b[i]);
        }
    }
    if a.len() == b.len() && forall|i: int|
        0 <= i < a.len() ==> #[trigger] a[i] == b[i] || ('a' <= a[i] <= 'z' && a[i] as int - 32
            == b[i] as int) || ('a' <= b[i] <= 'z' && b[i] as int - 32 == a[i] as int) {
        assert forall|i: int| 0 <= i < a.len() implies upper(a[i]) == #[trigger] upper(b[i]) by {
            assert(a[i] == a[i]);
            lemma_upper(a[i], b[i]);
        }
    }
}

proof fn lemma_upper(c: char, d: char)
    ensures
        upper(c) == upper(d) <==> c == d || ('a' <= c <= 'z' && c as int - 32 == d as int) || ('a' <= d
            <= 'z' && d as int - 32 == c as int),
{
    if 'a' <= c && c <= 'z' {
        assert((c as u32 - 32) as u8 as char as int == c as int - 32);
    }
    if 'a' <= d && d <= 'z' {
        assert((d as u32 - 32) as u8 as char as int == d as int - 32);
    }
}

/// In an address a plus sign stands for a space, and a percent sign with two hexadecimal digits for a
/// byte.
pub proof fn law_signs_stand_for_bytes(b: Seq<u8>)
    requires
        url_bytes(b) is Some,
    ensures
        url_bytes(seq!['+' as u8] + b) == Some(seq![' ' as u8] + url_bytes(b)->0),
        url_bytes(seq!['%' as u8, '4' as u8, '1' as u8] + b) == Some(seq!['A' as u8] + url_bytes(b)->0),
        url_bytes(seq!['%' as u8, '2' as u8, 'f' as u8] + b) == Some(seq!['/' as u8] + url_bytes(b)->0),
{
    let p = seq!['+' as u8] + b;
    let q = seq!['%' as u8, '4' as u8, '1' as u8] + b;
    let r = seq!['%' as u8, '2' as u8, 'f' as u8] + b;
    assert(p.skip(1) =~= b);
    assert(q.skip(3) =~= b);
    assert(r.skip(3) =~= b);
    assert('+' as u8 == 0x2b && ' ' as u8 == 0x20 && '%' as u8 == 0x25 && 'A' as u8 == 0x41);
    assert('4' as u8 == 0x34 && '1' as u8 == 0x31 && '2' as u8 == 0x32 && 'f' as u8 == 0x66 && '/' as u8
        == 0x2f);
}

} // verus!
