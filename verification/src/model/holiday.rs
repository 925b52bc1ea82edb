//! The public holidays of a year.
use vstd::prelude::*;
#[allow(unused_imports)]
use vstd::string::*;
#[allow(unused_imports)]
use vstd::utf8::*;

use crate::text::{
    all_digits, dec, dec_value, keep, kept, law_numbers_read_back,
    law_texts_are_read_as_their_number, law_two_digits_read_back, lemma_dec_len, lemma_encode_join,
    num_of, parse_dec, parsed, two, utf8_text,
};

verus! {

/// How many holidays are kept.
pub const HOLIDAY_MAX: usize = 40;

/// A day of a holiday, as `YYYYMMDD`, and whether it is free.
#[derive(Clone, Copy, Debug, Default, PartialEq, Eq, Structural)]
pub struct Holiday {
    pub date: u32,
    pub is_off_day: bool,
}

/// The holidays of a year.
pub struct HolidayResponse {
    pub year: u32,
    pub holidays: Vec<Holiday>,
}

/// A date in a text, and the object behind it: where the date begins and ends, and where the braces
/// of the object are.
#[derive(Clone, Copy, Debug, PartialEq, Eq, Structural)]
pub struct Entry {
    pub key: usize,
    pub key_end: usize,
    pub open: usize,
    pub close: usize,
}

/// Where `b` is first found in `s` from `i` on; the end where it is not.
pub open spec fn find_byte(s: Seq<u8>, b: u8, i: int) -> int
    decreases s.len() - i,
{
    if i >= s.len() {
        s.len() as int
    } else if s[i] == b {
        i
    } else {
        find_byte(s, b, i + 1)
    }
}

/// Where a quotation mark with `20` behind it is first found from `i` on.
pub open spec fn find_century(s: Seq<u8>, i: int) -> int
    decreases s.len() - i,
{
    if i + 2 >= s.len() {
        s.len() as int
    } else if s[i] == 0x22 && s[i + 1] == 0x32 && s[i + 2] == 0x30 {
        i
    } else {
        find_century(s, i + 1)
    }
}

/// A byte is a decimal digit.
pub open spec fn is_digit(b: u8) -> bool {
    0x30 <= b <= 0x39
}

/// The year of the first date in a text; nothing where there is none.
pub open spec fn year_of(s: Seq<u8>) -> Option<int> {
    let p = find_century(s, 0);
    if p + 5 <= s.len() && is_digit(s[p + 3]) && is_digit(s[p + 4]) {
        Some(2000 + (s[p + 3] - 0x30) * 10 + (s[p + 4] - 0x30))
    } else {
        None
    }
}

/// A quoted text is a date: ten bytes, a dash among them.
pub open spec fn is_date(s: Seq<u8>, from: int, to: int) -> bool {
    to - from == 10 && find_byte(s, 0x2d, from) < to
}

/// The dates in a text from `from` on that have an object behind them. A quotation mark that closes
/// a text also opens the next.
pub open spec fn entries(s: Seq<u8>, from: int) -> Seq<Entry>
    decreases s.len() - from,
    when 0 <= from
{
    let a = find_byte(s, 0x22, from);
    let e = find_byte(s, 0x22, a + 1);
    if a >= s.len() || e >= s.len() || a < from || e <= a {
        seq![]
    } else if is_date(s, a + 1, e) {
        let b = find_byte(s, 0x7b, e);
        let c = find_byte(s, 0x7d, b);
        if b >= s.len() || b < e {
            entries(s, e)
        } else if c >= s.len() || c < b {
            entries(s, b)
        } else {
            let entry = Entry {
                key: (a + 1) as usize,
                key_end: e as usize,
                open: b as usize,
                close: c as usize,
            };
            seq![entry] + entries(s, c)
        }
    } else {
        entries(s, e)
    }
}

/// The number of a date: what is left of it without the dashes, in no more than eight bytes.
pub open spec fn date_number(key: Seq<u8>) -> u32 {
    if valid_utf8(key) {
        match parsed(kept(decode_utf8(key), '-', 8), u32::MAX as nat) {
            Some(n) => n as u32,
            None => 0,
        }
    } else {
        0
    }
}

/// The first `n` dates whose object could be read, no more than there is room for.
pub open spec fn read_holidays(
    s: Seq<u8>,
    found: Seq<Entry>,
    off: Seq<Option<bool>>,
    n: int,
) -> Seq<Holiday>
    decreases n,
{
    if n <= 0 {
        seq![]
    } else {
        let before = read_holidays(s, found, off, n - 1);
        let e = found[n - 1];
        match off[n - 1] {
            Some(is_off_day) if before.len() < HOLIDAY_MAX => before.push(
                Holiday { date: date_number(s.subrange(e.key as int, e.key_end as int)), is_off_day },
            ),
            _ => before,
        }
    }
}

/// A byte that is found lies behind where the search began, and no such byte is before it.
pub proof fn lemma_find_byte(s: Seq<u8>, b: u8, i: int)
    requires
        0 <= i,
    ensures
        i <= s.len() ==> i <= find_byte(s, b, i) <= s.len(),
        i > s.len() ==> find_byte(s, b, i) == s.len(),
        find_byte(s, b, i) < s.len() ==> s[find_byte(s, b, i)] == b,
        forall|j: int| i <= j < find_byte(s, b, i) ==> s[j] != b,
    decreases s.len() - i,
{
    if i < s.len() && s[i] != b {
        lemma_find_byte(s, b, i + 1);
    }
}

/// Finds a byte.
fn find(s: &[u8], b: u8, from: usize) -> (p: usize)
    requires
        from <= s@.len(),
    ensures
        p == find_byte(s@, b, from as int),
        from <= p <= s@.len(),
{
    let mut i: usize = from;
    while i < s.len() && s[i] != b
        invariant
            from <= i <= s@.len(),
            find_byte(s@, b, from as int) == find_byte(s@, b, i as int),
        decreases s@.len() - i,
    {
        i += 1;
    }
    i
}

/// Reads the year of the first date.
fn read_year(s: &[u8]) -> (y: Option<u32>)
    ensures
        match y {
            Some(y) => year_of(s@) == Some(y as int),
            None => year_of(s@) is None,
        },
{
    let n: usize = s.len();
    let mut i: usize = 0;
    while n - i > 2 && !(s[i] == 0x22 && s[i + 1] == 0x32 && s[i + 2] == 0x30)
        invariant
            n == s@.len(),
            i <= n,
            find_century(s@, 0) == find_century(s@, i as int),
        decreases n - i,
    {
        i += 1;
    }
    if n - i >= 5 {
        let c: u8 = s[i + 3];
        let d: u8 = s[i + 4];
        if 0x30 <= c && c <= 0x39 && 0x30 <= d && d <= 0x39 {
            return Some(2000 + (c - 0x30) as u32 * 10 + (d - 0x30) as u32);
        }
    }
    None
}

/// The dates of a text that have an object behind them, where it is UTF-8 and names a year.
pub open spec fn found_in(s: Seq<u8>) -> Seq<Entry> {
    if valid_utf8(s) && year_of(s) is Some {
        entries(s, 0)
    } else {
        seq![]
    }
}

/// Finds the dates that have an object behind them. Each object is to be read on its own.
pub fn holiday_objects(data: &[u8]) -> (found: Vec<Entry>)
    ensures
        found@ == found_in(data@),
{
    let mut found: Vec<Entry> = Vec::new();
    if utf8_text(data).is_none() || read_year(data).is_none() {
        return found;
    }
    let n: usize = data.len();
    let mut from: usize = 0;
    let mut going: bool = true;
    while going
        invariant
            n == data@.len(),
            from <= n,
            going ==> entries(data@, 0) =~= found@ + entries(data@, from as int),
            !going ==> entries(data@, 0) =~= found@,
        decreases
            n - from,
            (if going {
                1int
            } else {
                0
            }),
    {
        let a: usize = find(data, 0x22, from);
        proof {
            lemma_find_byte(data@, 0x22, from as int);
        }
        if a >= n {
            going = false;
        } else {
            let e: usize = find(data, 0x22, a + 1);
            if e >= n {
                going = false;
            } else {
                if e - (a + 1) == 10 && find(data, 0x2d, a + 1) < e {
                    let b: usize = find(data, 0x7b, e);
                    if b >= n {
                        from = e;
                    } else {
                        let c: usize = find(data, 0x7d, b);
                        proof {
                            lemma_find_byte(data@, 0x7b, e as int);
                            lemma_find_byte(data@, 0x22, a + 1);
                        }
                        if c >= n {
                            from = b;
                        } else {
                            found.push(Entry { key: a + 1, key_end: e, open: b, close: c });
                            from = c;
                        }
                    }
                } else {
                    from = e;
                }
            }
        }
    }
    found
}

/// An entry lies in `s`, behind `from`.
pub open spec fn lies_in(e: Entry, s: Seq<u8>, from: int) -> bool {
    from <= e.key <= e.key_end <= e.open < e.close < s.len()
}

/// The entries of a text lie in it.
pub proof fn lemma_entries_lie(s: Seq<u8>, from: int)
    requires
        0 <= from <= s.len() <= usize::MAX,
    ensures
        forall|i: int|
            0 <= i < entries(s, from).len() ==> lies_in(#[trigger] entries(s, from)[i], s, from),
    decreases s.len() - from,
{
    let a = find_byte(s, 0x22, from);
    let e = find_byte(s, 0x22, a + 1);
    lemma_find_byte(s, 0x22, from);
    lemma_find_byte(s, 0x22, a + 1);
    let b = find_byte(s, 0x7b, e);
    let c = find_byte(s, 0x7d, b);
    lemma_find_byte(s, 0x7b, e);
    lemma_find_byte(s, 0x7d, b);
    if a >= s.len() || e >= s.len() {
        assert(entries(s, from) == Seq::<Entry>::empty());
    } else if !is_date(s, a + 1, e) || b >= s.len() {
        assert(entries(s, from) == entries(s, e));
        lemma_entries_lie(s, e);
    } else if c >= s.len() {
        assert(entries(s, from) == entries(s, b));
        lemma_entries_lie(s, b);
    } else {
        lemma_entries_lie(s, c);
        assert(s[b] != s[c]);
        let entry = Entry {
            key: (a + 1) as usize,
            key_end: e as usize,
            open: b as usize,
            close: c as usize,
        };
        assert(entries(s, from) == seq![entry] + entries(s, c));
        assert forall|i: int| 0 <= i < entries(s, from).len() implies lies_in(
            #[trigger] entries(s, from)[i],
            s,
            from,
        ) by {
            if i > 0 {
                assert(lies_in(entries(s, c)[i - 1], s, c));
            }
        }
    }
}

/// The number of a date.
fn read_date(key: &[u8]) -> (n: u32)
    ensures
        n == date_number(key@),
{
    match utf8_text(key) {
        Some(t) => {
            let digits = keep(t, '-', 8);
            match parse_dec(digits.as_str(), u32::MAX as u64) {
                Some(n) => n as u32,
                None => 0,
            }
        },
        None => 0,
    }
}

/// The holidays of a text: for each of its objects, `off` says whether the day is free, or that the
/// object could not be read. There are none where no object could be read.
pub fn form_json_each(data: &[u8], off: &Vec<Option<bool>>) -> (r: Option<HolidayResponse>)
    requires
        off@.len() == found_in(data@).len(),
    ensures
        ({
            let found = found_in(data@);
            let holidays = read_holidays(data@, found, off@, found.len() as int);
            match r {
                Some(r) => holidays.len() > 0 && r.holidays@ == holidays && year_of(data@) == Some(
                    r.year as int,
                ),
                None => holidays.len() == 0,
            }
        }),
{
    let found = holiday_objects(data);
    let year = read_year(data);
    let mut holidays: Vec<Holiday> = Vec::new();
    let mut i: usize = 0;
    let n: usize = data.len();
    proof {
        assert(n == data@.len());
        if found@.len() > 0 {
            lemma_entries_lie(data@, 0);
        }
    }
    while i < found.len()
        invariant
            i <= found@.len(),
            found@ == found_in(data@),
            off@.len() == found@.len(),
            holidays@ =~= read_holidays(data@, found@, off@, i as int),
            forall|j: int| 0 <= j < found@.len() ==> lies_in(#[trigger] found@[j], data@, 0),
        decreases found@.len() - i,
    {
        if let Some(is_off_day) = off[i] {
            if holidays.len() < HOLIDAY_MAX {
                let e = found[i];
                let date: u32 = read_date(
                    vstd::slice::slice_subrange(data, e.key, e.key_end),
                );
                holidays.push(Holiday { date, is_off_day });
            }
        }
        i += 1;
    }
    match year {
        Some(year) => {
            if holidays.len() == 0 {
                None
            } else {
                Some(HolidayResponse { year, holidays })
            }
        },
        None => None,
    }
}

/// No more holidays are kept than there is room for.
pub proof fn law_holidays_are_bounded(
    s: Seq<u8>,
    found: Seq<Entry>,
    off: Seq<Option<bool>>,
    n: int,
)
    ensures
        read_holidays(s, found, off, n).len() <= HOLIDAY_MAX,
    decreases n,
{
    if n > 0 {
        law_holidays_are_bounded(s, found, off, n - 1);
    }
}

/// A date as a number: what is left of it without the dashes, in no more than eight bytes.
pub open spec fn key_number(key: Seq<char>) -> u32 {
    match parsed(kept(key, '-', 8), u32::MAX as nat) {
        Some(n) => n as u32,
        None => 0,
    }
}

/// The first `n` dates, no more than there is room for.
pub open spec fn keyed_holidays(keys: Seq<String>, off: Seq<bool>, n: int) -> Seq<Holiday>
    decreases n,
{
    if n <= 0 {
        seq![]
    } else {
        let before = keyed_holidays(keys, off, n - 1);
        if before.len() < HOLIDAY_MAX {
            before.push(Holiday { date: key_number(keys[n - 1]@), is_off_day: off[n - 1] })
        } else {
            before
        }
    }
}

/// The holidays of an object that was read as a whole: its keys are the dates, and `off` says for
/// each whether the day is free. The year is not among them.
pub fn form_json(keys: &Vec<String>, off: &Vec<bool>) -> (r: HolidayResponse)
    requires
        keys@.len() == off@.len(),
    ensures
        r.year == 0,
        r.holidays@ == keyed_holidays(keys@, off@, keys@.len() as int),
{
    let mut holidays: Vec<Holiday> = Vec::new();
    let mut i: usize = 0;
    while i < keys.len()
        invariant
            i <= keys@.len(),
            keys@.len() == off@.len(),
            holidays@ =~= keyed_holidays(keys@, off@, i as int),
        decreases keys@.len() - i,
    {
        if holidays.len() < HOLIDAY_MAX {
            let digits = keep(keys[i].as_str(), '-', 8);
            let date: u32 = match parse_dec(digits.as_str(), u32::MAX as u64) {
                Some(n) => n as u32,
                None => 0,
            };
            holidays.push(Holiday { date, is_off_day: off[i] });
        }
        i += 1;
    }
    HolidayResponse { year: 0, holidays }
}

/// A holiday is kept under the number of its date: the digits of the year, the month and the day
/// without the dashes between them.
#[verifier::rlimit(50)]
pub proof fn law_dates_are_kept_as_numbers(y: nat, m: int, d: int)
    requires
        1000 <= y <= 9999,
        1 <= m <= 12,
        1 <= d <= 31,
    ensures
        key_number(dec(y) + seq!['-'] + two(m) + seq!['-'] + two(d)) == y * 10000 + m * 100 + d,
{
    law_numbers_read_back(y);
    lemma_dec_len(y);
    law_two_digits_read_back(m);
    law_two_digits_read_back(d);
    let digits = dec(y) + two(m) + two(d);
    let e = Seq::<char>::empty();
    let s1 = dec(y) + seq!['-'];
    let s2 = s1 + two(m);
    let s3 = s2 + seq!['-'];
    let s4 = s3 + two(d);
    lemma_kept_digits(e, dec(y), 8);
    assert(e + dec(y) =~= dec(y));
    lemma_kept_dash(dec(y), 8);
    lemma_kept_digits(s1, two(m), 8);
    lemma_kept_dash(s2, 8);
    lemma_kept_digits(s3, two(d), 8);
    assert(kept(e, '-', 8) =~= e);
    assert(e + dec(y) + two(m) + two(d) =~= digits);
    assert(kept(s4, '-', 8) == digits);
    let n = digits.len() as int;
    reveal_with_fuel(num_of, 6);
    reveal_with_fuel(dec_value, 6);
    assert(digits.drop_last() =~= dec(y) + two(m) + seq![two(d)[0]]);
    assert(digits.drop_last().drop_last() =~= dec(y) + two(m));
    assert((dec(y) + two(m)).drop_last() =~= dec(y) + seq![two(m)[0]]);
    assert((dec(y) + seq![two(m)[0]]).drop_last() =~= dec(y));
    assert(all_digits(digits)) by {
        assert forall|i: int| 0 <= i < digits.len() implies '0' <= #[trigger] digits[i] <= '9' by {
            if i < 4 {
                assert(digits[i] == dec(y)[i]);
            }
        }
    }
    law_texts_are_read_as_their_number(dec(y), y, u32::MAX as nat);
    assert(dec_value(dec(y)) == y);
    assert('0' <= digits[0] <= '9');
}

proof fn lemma_kept_dash(s: Seq<char>, cap: int)
    ensures
        kept(s + seq!['-'], '-', cap) == kept(s, '-', cap),
{
    assert((s + seq!['-']).drop_last() =~= s);
}

proof fn lemma_kept_digits(s: Seq<char>, t: Seq<char>, cap: int)
    requires
        forall|i: int| 0 <= i < t.len() ==> '0' <= #[trigger] t[i] <= '9',
        encode_utf8(kept(s, '-', cap)).len() + t.len() <= cap,
    ensures
        kept(s + t, '-', cap) == kept(s, '-', cap) + t,
        encode_utf8(kept(s + t, '-', cap)).len() == encode_utf8(kept(s, '-', cap)).len() + t.len(),
    decreases t.len(),
{
    if t.len() == 0 {
        assert(s + t =~= s);
        assert(kept(s, '-', cap) + t =~= kept(s, '-', cap));
    } else {
        let b = t.drop_last();
        let c = t[t.len() - 1];
        assert forall|i: int| 0 <= i < b.len() implies '0' <= #[trigger] b[i] <= '9' by {
            assert(b[i] == t[i]);
        }
        lemma_kept_digits(s, b, cap);
        assert((s + t).drop_last() =~= s + b);
        assert((s + t).last() == c);
        let k = kept(s, '-', cap);
        assert(is_ascii_chars(seq![c]));
        is_ascii_chars_encode_utf8(seq![c]);
        lemma_encode_join(k + b, seq![c]);
        assert(k + b + seq![c] =~= k + t);
    }
}

/// The year of the holidays is in this century: the two digits that follow its first mention.
pub proof fn law_year_is_its_first_mention(s: Seq<u8>, p: int)
    requires
        0 <= p,
        p + 5 <= s.len(),
        s[p] == '"' as u8 && s[p + 1] == '2' as u8 && s[p + 2] == '0' as u8,
        '0' as u8 <= s[p + 3] <= '9' as u8,
        '0' as u8 <= s[p + 4] <= '9' as u8,
        forall|i: int|
            0 <= i < p ==> !(#[trigger] s[i] == '"' as u8 && s[i + 1] == '2' as u8 && s[i + 2]
                == '0' as u8),
    ensures
        year_of(s) == Some(2000 + 10 * (s[p + 3] - '0' as u8) + (s[p + 4] - '0' as u8)),
{
    lemma_century(s, 0, p);
}

proof fn lemma_century(s: Seq<u8>, i: int, p: int)
    requires
        0 <= i <= p,
        p + 5 <= s.len(),
        s[p] == '"' as u8 && s[p + 1] == '2' as u8 && s[p + 2] == '0' as u8,
        forall|j: int|
            i <= j < p ==> !(#[trigger] s[j] == '"' as u8 && s[j + 1] == '2' as u8 && s[j + 2]
                == '0' as u8),
    ensures
        find_century(s, i) == p,
    decreases p - i,
{
    if i < p {
        assert(!(s[i] == '"' as u8 && s[i + 1] == '2' as u8 && s[i + 2] == '0' as u8));
        lemma_century(s, i + 1, p);
    }
}

proof fn lemma_find(s: Seq<u8>, b: u8, i: int, p: int)
    requires
        0 <= i <= p < s.len(),
        s[p] == b,
        forall|k: int| i <= k < p ==> s[k] != b,
    ensures
        find_byte(s, b, i) == p,
    decreases p - i,
{
    if i < p {
        lemma_find(s, b, i + 1, p);
    }
}

/// A date in quotation marks and the object in braces behind it are found, and the search goes on
/// behind them.
pub proof fn law_dated_objects_are_found(s: Seq<u8>, from: int, q: int, dash: int, open: int, close: int)
    requires
        0 <= from <= q,
        q + 11 < open < close < s.len() <= usize::MAX,
        s[q] == '"' as u8 && s[q + 11] == '"' as u8,
        forall|k: int| from <= k < q + 11 && k != q ==> s[k] != '"' as u8,
        q < dash < q + 11,
        s[dash] == '-' as u8,
        forall|k: int| q < k < dash ==> s[k] != '-' as u8,
        s[open] == '{' as u8,
        forall|k: int| q + 11 <= k < open ==> s[k] != '{' as u8,
        s[close] == '}' as u8,
        forall|k: int| open <= k < close ==> s[k] != '}' as u8,
    ensures
        entries(s, from) == seq![
            Entry {
                key: (q + 1) as usize,
                key_end: (q + 11) as usize,
                open: open as usize,
                close: close as usize,
            },
        ] + entries(s, close),
{
    assert('"' as u8 == 0x22 && '-' as u8 == 0x2d && '{' as u8 == 0x7b && '}' as u8 == 0x7d);
    lemma_find(s, 0x22, from, q);
    lemma_find(s, 0x22, q + 1, q + 11);
    lemma_find(s, 0x2d, q + 1, dash);
    lemma_find(s, 0x7b, q + 11, open);
    lemma_find(s, 0x7d, open, close);
}

/// The holidays that can be read are kept in their order, each with its date and whether it is free.
pub proof fn law_holidays_are_kept_in_order(
    s: Seq<u8>,
    found: Seq<Entry>,
    off: Seq<Option<bool>>,
    n: int,
    i: int,
)
    requires
        0 <= i < n <= found.len(),
        n <= HOLIDAY_MAX,
        off.len() == found.len(),
        forall|k: int| 0 <= k < n ==> off[k] is Some,
    ensures
        read_holidays(s, found, off, n).len() == n,
        read_holidays(s, found, off, n)[i].is_off_day == off[i]->0,
        read_holidays(s, found, off, n)[i].date == date_number(
            s.subrange(found[i].key as int, found[i].key_end as int),
        ),
    decreases n,
{
    if i < n - 1 {
        law_holidays_are_kept_in_order(s, found, off, n - 1, i);
    } else if n > 1 {
        law_holidays_are_kept_in_order(s, found, off, n - 1, 0);
    } else {
        assert(read_holidays(s, found, off, 0).len() == 0);
    }
}

/// Holidays that come with their dates are kept in their order, each with its date and whether it is
/// free, as far as there is room.
pub proof fn law_keyed_holidays_are_kept_in_order(keys: Seq<String>, off: Seq<bool>, n: int, i: int)
    requires
        0 <= i < n <= keys.len(),
        keys.len() == off.len(),
        n <= HOLIDAY_MAX,
    ensures
        keyed_holidays(keys, off, n).len() == n,
        keyed_holidays(keys, off, n)[i].date == key_number(keys[i]@),
        keyed_holidays(keys, off, n)[i].is_off_day == off[i],
    decreases n,
{
    if i < n - 1 {
        law_keyed_holidays_are_kept_in_order(keys, off, n - 1, i);
    } else if n > 1 {
        law_keyed_holidays_are_kept_in_order(keys, off, n - 1, 0);
    } else {
        assert(keyed_holidays(keys, off, 0).len() == 0);
    }
}

/// A date is read from its bytes as from its characters, and bytes that are no text are no date.
pub proof fn law_dates_are_read_from_bytes(key: Seq<char>, b: Seq<u8>)
    ensures
        date_number(encode_utf8(key)) == key_number(key),
        !valid_utf8(b) ==> date_number(b) == 0,
{
    encode_utf8_valid_utf8(key);
    encode_utf8_decode_utf8(key);
}

/// Holidays are looked for in a text that names a year, and in no other.
pub proof fn law_holidays_are_found_in_a_year(s: Seq<u8>)
    ensures
        valid_utf8(s) && year_of(s) is Some ==> found_in(s) == entries(s, 0),
        !valid_utf8(s) || year_of(s) is None ==> found_in(s).len() == 0,
{
}

} // verus!
