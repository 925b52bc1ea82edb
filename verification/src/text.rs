//! Text assembled character by character.
use vstd::prelude::*;
#[allow(unused_imports)]
use vstd::string::*;
#[allow(unused_imports)]
use vstd::utf8::*;

verus! {

/// `std::string::String::push`: appends one character to the end.
pub assume_specification[ String::push ](s: &mut String, c: char)
    ensures
        final(s)@ == old(s)@.push(c),
;

/// `core::str::from_utf8`: lends the text that the bytes encode, where they are UTF-8 throughout.
#[verifier::external_body]
pub(crate) fn utf8_text(bytes: &[u8]) -> (t: Option<&str>)
    ensures
        t is Some <==> valid_utf8(bytes@),
        t is Some ==> t->0@ == decode_utf8(bytes@),
{
    match core::str::from_utf8(bytes) {
        Ok(s) => Some(s),
        Err(_) => None,
    }
}

/// The decimal digits of `n`, most significant first.
pub open spec fn dec(n: nat) -> Seq<char>
    decreases n,
{
    if n < 10 {
        seq![digit_char(n as int)]
    } else {
        dec(n / 10).push(digit_char((n % 10) as int))
    }
}

/// The character of a single decimal digit.
pub open spec fn digit_char(d: int) -> char {
    (48 + d) as u8 as char
}

/// The character of the digit `d`.
pub fn digit(d: u8) -> (c: char)
    requires
        d < 10,
    ensures
        c == digit_char(d as int),
{
    (48 + d) as char
}

/// Appends the decimal digits of `n`.
pub fn push_dec(s: &mut String, n: u64)
    ensures
        final(s)@ == old(s)@ + dec(n as nat),
    decreases n,
{
    if n >= 10 {
        push_dec(s, n / 10);
    }
    s.push(digit((n % 10) as u8));
}

/// The decimal digits of `n`.
pub fn dec_text(n: u64) -> (s: String)
    ensures
        s@ == dec(n as nat),
{
    let mut s = String::new();
    push_dec(&mut s, n);
    assert(s@ =~= dec(n as nat));
    s
}

/// `a` followed by `b`.
pub fn join(a: &str, b: &str) -> (s: String)
    ensures
        s@ == a@ + b@,
{
    let mut s = String::new();
    s.append(a);
    s.append(b);
    assert(s@ =~= a@ + b@);
    s
}

/// `a`, `b` and `c` one after another.
pub fn join3(a: &str, b: &str, c: &str) -> (s: String)
    ensures
        s@ == a@ + b@ + c@,
{
    let mut s = join(a, b);
    s.append(c);
    s
}

/// The decimal digits of a number that may be negative.
pub open spec fn signed_dec(n: int) -> Seq<char> {
    if n < 0 {
        seq!['-'] + dec((-n) as nat)
    } else {
        dec(n as nat)
    }
}

/// The decimal digits of `n`, with a minus sign where it is negative.
pub fn signed_text(n: i64) -> (s: String)
    requires
        n > i64::MIN,
    ensures
        s@ == signed_dec(n as int),
{
    let mut s = String::new();
    if n < 0 {
        s.push('-');
        push_dec(&mut s, (-n) as u64);
    } else {
        push_dec(&mut s, n as u64);
    }
    assert(s@ =~= signed_dec(n as int));
    s
}

/// A decimal number has a digit for each power of ten in it.
pub proof fn lemma_dec_len(n: nat)
    ensures
        dec(n).len() >= 1,
        n < 10 ==> dec(n).len() == 1,
        10 <= n < 100 ==> dec(n).len() == 2,
        100 <= n < 1000 ==> dec(n).len() == 3,
        1000 <= n < 10000 ==> dec(n).len() == 4,
    decreases n,
{
    reveal_with_fuel(dec, 4);
    if n >= 10 {
        lemma_dec_len(n / 10);
    }
}

/// Whether a text holds a character.
pub fn has_char(s: &str, c: char) -> (r: bool)
    ensures
        r == s@.contains(c),
{
    let n: usize = s.unicode_len();
    let mut i: usize = 0;
    while i < n
        invariant
            n == s@.len(),
            i <= n,
            forall|k: int| 0 <= k < i ==> s@[k] != c,
        decreases n - i,
    {
        if s.get_char(i) == c {
            assert(s@[i as int] == c);
            return true;
        }
        i += 1;
    }
    false
}

/// The two digits of a number below a hundred.
pub open spec fn two(n: int) -> Seq<char> {
    seq![digit_char(n / 10), digit_char(n % 10)]
}

/// Appends the two digits of a number below a hundred.
pub fn push_two(s: &mut String, n: u64)
    requires
        n < 100,
    ensures
        final(s)@ == old(s)@ + two(n as int),
{
    s.push(digit((n / 10) as u8));
    s.push(digit((n % 10) as u8));
    assert(s@ =~= old(s)@ + two(n as int));
}

/// `s` with `t` appended, where both together take no more than `cap` bytes; else `s`.
pub open spec fn pushed(s: Seq<char>, t: Seq<char>, cap: int) -> Seq<char> {
    if encode_utf8(s).len() + encode_utf8(t).len() <= cap {
        s + t
    } else {
        s
    }
}

/// Appends a text where there is room for all of it in `cap` bytes; says whether there was.
pub fn push_within(s: &mut String, t: &str, cap: usize) -> (fits: bool)
    ensures
        final(s)@ == pushed(old(s)@, t@, cap as int),
        fits == (encode_utf8(old(s)@).len() + encode_utf8(t@).len() <= cap),
{
    let have: usize = s.as_str().as_bytes().len();
    let want: usize = t.as_bytes().len();
    if have <= cap && want <= cap - have {
        s.append(t);
        true
    } else {
        false
    }
}

/// A text written piece by piece into `cap` bytes: the first piece without room ends it. The flag
/// says that it has ended.
pub open spec fn put(w: (Seq<char>, bool), t: Seq<char>, cap: int) -> (Seq<char>, bool) {
    if !w.1 && encode_utf8(w.0).len() + encode_utf8(t).len() <= cap {
        (w.0 + t, false)
    } else {
        (w.0, true)
    }
}

/// A number written with at least two digits into `cap` bytes, its leading nought first.
pub open spec fn put_two(w: (Seq<char>, bool), n: int, cap: int) -> (Seq<char>, bool) {
    if n < 10 {
        put(put(w, "0"@, cap), dec(n as nat), cap)
    } else {
        put(w, dec(n as nat), cap)
    }
}

/// A text written piece by piece into limited room.
pub struct Limited {
    pub text: String,
    pub ended: bool,
}

impl Limited {
    /// What was written, and whether the text has ended.
    pub open spec fn written(self) -> (Seq<char>, bool) {
        (self.text@, self.ended)
    }

    /// Nothing written.
    pub fn new() -> (w: Limited)
        ensures
            w.written() == (Seq::<char>::empty(), false),
    {
        Limited { text: String::new(), ended: false }
    }

    /// Writes a piece.
    pub fn put(&mut self, t: &str, cap: usize)
        ensures
            final(self).written() == put(old(self).written(), t@, cap as int),
    {
        if self.ended {
            return;
        }
        if !push_within(&mut self.text, t, cap) {
            self.ended = true;
        }
    }

    /// Writes a number with at least two digits.
    pub fn put_two(&mut self, n: u64, cap: usize)
        ensures
            final(self).written() == put_two(old(self).written(), n as int, cap as int),
    {
        if n < 10 {
            self.put("0", cap);
        }
        self.put(dec_text(n).as_str(), cap);
    }
}

/// The first place of a character from the `i`-th on, or the length.
pub open spec fn find_from(s: Seq<char>, c: char, i: int) -> int
    decreases s.len() - i,
{
    if 0 <= i < s.len() && s[i] != c {
        find_from(s, c, i + 1)
    } else {
        i
    }
}

/// What stands before and after the first `c`; none where there is no `c`.
pub open spec fn split_at_char(s: Seq<char>, c: char) -> Option<(Seq<char>, Seq<char>)> {
    let i = find_from(s, c, 0);
    if i < s.len() {
        Some((s.take(i), s.skip(i + 1)))
    } else {
        None
    }
}

proof fn lemma_find_from(s: Seq<char>, c: char, i: int)
    requires
        0 <= i <= s.len(),
    ensures
        i <= find_from(s, c, i) <= s.len(),
        find_from(s, c, i) < s.len() ==> s[find_from(s, c, i)] == c,
        forall|k: int| i <= k < find_from(s, c, i) ==> s[k] != c,
    decreases s.len() - i,
{
    if i < s.len() && s[i] != c {
        lemma_find_from(s, c, i + 1);
    }
}

/// The parts around the first `c` do not hold the part before it twice, and put together they are
/// the whole.
pub proof fn law_split_parts(s: Seq<char>, c: char)
    ensures
        split_at_char(s, c) matches Some((a, b)) ==> a + seq![c] + b == s && !a.contains(c),
        split_at_char(s, c) is None <==> !s.contains(c),
{
    lemma_find_from(s, c, 0);
    let i = find_from(s, c, 0);
    if i < s.len() {
        assert(s.take(i) + seq![c] + s.skip(i + 1) =~= s);
        assert(s.contains(c));
    }
}

/// What stands before and after the first `c`.
pub fn split_once<'a>(s: &'a str, c: char) -> (r: Option<(&'a str, &'a str)>)
    ensures
        match r {
            Some((a, b)) => split_at_char(s@, c) == Some((a@, b@)),
            None => split_at_char(s@, c) is None,
        },
{
    let n: usize = s.unicode_len();
    let mut i: usize = 0;
    while i < n && s.get_char(i) != c
        invariant
            n == s@.len(),
            i <= n,
            find_from(s@, c, 0) == find_from(s@, c, i as int),
        decreases n - i,
    {
        i += 1;
    }
    if i < n {
        let a = s.substring_char(0, i);
        let b = s.substring_char(i + 1, n);
        assert(a@ =~= s@.take(i as int));
        assert(b@ =~= s@.skip(i + 1));
        Some((a, b))
    } else {
        None
    }
}

/// `s` without `p` at its beginning; none where it begins otherwise.
pub open spec fn without_prefix(s: Seq<char>, p: Seq<char>) -> Option<Seq<char>> {
    if p.is_prefix_of(s) {
        Some(s.skip(p.len() as int))
    } else {
        None
    }
}

/// `s` without `p` at its beginning.
pub fn strip_prefix<'a>(s: &'a str, p: &str) -> (r: Option<&'a str>)
    ensures
        match r {
            Some(t) => without_prefix(s@, p@) == Some(t@),
            None => without_prefix(s@, p@) is None,
        },
{
    let n: usize = s.unicode_len();
    let m: usize = p.unicode_len();
    if m > n {
        return None;
    }
    let mut i: usize = 0;
    while i < m
        invariant
            n == s@.len(),
            m == p@.len(),
            i <= m <= n,
            forall|k: int| 0 <= k < i ==> s@[k] == p@[k],
        decreases m - i,
    {
        if s.get_char(i) != p.get_char(i) {
            assert(s@[i as int] != p@[i as int]);
            return None;
        }
        i += 1;
    }
    let t = s.substring_char(m, n);
    proof {
        assert(p@ =~= s@.subrange(0, m as int));
        assert(t@ =~= s@.skip(m as int));
    }
    Some(t)
}

/// The number that decimal digits spell.
pub open spec fn dec_value(s: Seq<char>) -> nat
    decreases s.len(),
{
    if s.len() == 0 {
        0
    } else {
        dec_value(s.drop_last()) * 10 + (s.last() as int - 48) as nat
    }
}

/// All characters are decimal digits.
pub open spec fn all_digits(s: Seq<char>) -> bool {
    forall|i: int| 0 <= i < s.len() ==> '0' <= #[trigger] s[i] <= '9'
}

/// The number that a text spells in decimal, with a plus sign before it or none; nothing where it
/// spells none, or one above `max`.
pub open spec fn parsed(s: Seq<char>, max: nat) -> Option<nat> {
    let d = if s.len() > 0 && s[0] == '+' {
        s.skip(1)
    } else {
        s
    };
    if d.len() > 0 && all_digits(d) && dec_value(d) <= max {
        Some(dec_value(d))
    } else {
        None
    }
}

proof fn lemma_dec_value_grows(s: Seq<char>, k: int)
    requires
        0 <= k <= s.len(),
        all_digits(s),
    ensures
        dec_value(s.take(k)) <= dec_value(s),
    decreases s.len() - k,
{
    if k < s.len() {
        lemma_dec_value_grows(s, k + 1);
        assert(s.take(k + 1).drop_last() =~= s.take(k));
        assert(s.take(k + 1).last() == s[k]);
        assert('0' <= s[k] <= '9');
        let v = dec_value(s.take(k));
        assert(v <= v * 10);
    } else {
        assert(s.take(k) =~= s);
    }
}

/// The number that a text spells in decimal.
pub fn parse_dec(s: &str, max: u64) -> (r: Option<u64>)
    ensures
        match r {
            Some(n) => parsed(s@, max as nat) == Some(n as nat),
            None => parsed(s@, max as nat) is None,
        },
{
    let n: usize = s.unicode_len();
    let start: usize = if n > 0 && s.get_char(0) == '+' {
        1
    } else {
        0
    };
    let ghost d = if start == 1 {
        s@.skip(1)
    } else {
        s@
    };
    if start >= n {
        return None;
    }
    let mut v: u64 = 0;
    let mut i: usize = start;
    proof {
        assert(d.take(0) =~= seq![]);
    }
    while i < n
        invariant
            n == s@.len(),
            start <= i <= n,
            start <= 1,
            start < n,
            d == (if start == 1 {
                s@.skip(1)
            } else {
                s@
            }),
            start == 1 <==> (s@.len() > 0 && s@[0] == '+'),
            v <= max,
            v == dec_value(d.take(i - start)),
            forall|k: int| 0 <= k < i - start ==> '0' <= #[trigger] d[k] <= '9',
        decreases n - i,
    {
        let c: char = s.get_char(i);
        proof {
            assert(d[i - start] == c);
            assert(d.take(i - start + 1).drop_last() =~= d.take(i - start));
            assert(d.take(i - start + 1).last() == c);
        }
        if c < '0' || c > '9' {
            return None;
        }
        let wide: u128 = v as u128 * 10 + (c as u32 - 48) as u128;
        if wide > max as u128 {
            proof {
                if all_digits(d) {
                    lemma_dec_value_grows(d, i - start + 1);
                }
            }
            return None;
        }
        v = wide as u64;
        i += 1;
    }
    assert(d.take(n - start) =~= d);
    Some(v)
}

/// The number that a text spells in decimal, with a sign before it or none; nothing where it spells
/// none, or one that does not fit into 32 bits.
pub open spec fn int_parsed(s: Seq<char>) -> Option<int> {
    if s.len() > 0 && s[0] == '-' {
        let d = s.skip(1);
        if d.len() > 0 && all_digits(d) && dec_value(d) <= 0x8000_0000 {
            Some(-(dec_value(d) as int))
        } else {
            None
        }
    } else {
        match parsed(s, 0x7fff_ffff) {
            Some(n) => Some(n as int),
            None => None,
        }
    }
}

/// The number that a text spells in decimal, with a sign before it or none.
pub fn parse_int(s: &str) -> (r: Option<i32>)
    ensures
        match r {
            Some(n) => int_parsed(s@) == Some(n as int),
            None => int_parsed(s@) is None,
        },
{
    let n: usize = s.unicode_len();
    if n > 0 && s.get_char(0) == '-' {
        let d = s.substring_char(1, n);
        assert(d@ =~= s@.skip(1));
        if n > 1 && d.get_char(0) == '+' {
            assert(!all_digits(d@)) by {
                assert(!('0' <= d@[0] <= '9'));
            }
            return None;
        }
        match parse_dec(d, 0x8000_0000) {
            Some(v) => Some((-(v as i64)) as i32),
            None => None,
        }
    } else {
        match parse_dec(s, 0x7fff_ffff) {
            Some(v) => Some(v as i32),
            None => None,
        }
    }
}

/// `s` with each `a` replaced by `b`.
pub open spec fn replaced(s: Seq<char>, a: char, b: char) -> Seq<char> {
    Seq::new(
        s.len(),
        |i: int|
            if s[i] == a {
                b
            } else {
                s[i]
            },
    )
}

/// A text with each `a` replaced by `b`.
pub fn replace_char(s: &str, a: char, b: char) -> (r: String)
    ensures
        r@ == replaced(s@, a, b),
{
    let n: usize = s.unicode_len();
    let mut r = String::new();
    let mut i: usize = 0;
    while i < n
        invariant
            n == s@.len(),
            i <= n,
            r@ =~= replaced(s@.take(i as int), a, b),
        decreases n - i,
    {
        let c: char = s.get_char(i);
        r.push(
            if c == a {
                b
            } else {
                c
            },
        );
        i += 1;
    }
    assert(s@.take(n as int) =~= s@);
    r
}

/// Whether two texts are the same.
pub fn same_text(a: &str, b: &str) -> (r: bool)
    ensures
        r == (a@ == b@),
{
    let n: usize = a.unicode_len();
    if n != b.unicode_len() {
        return false;
    }
    let mut i: usize = 0;
    while i < n
        invariant
            n == a@.len(),
            n == b@.len(),
            i <= n,
            forall|j: int| 0 <= j < i ==> a@[j] == b@[j],
        decreases n - i,
    {
        if a.get_char(i) != b.get_char(i) {
            return false;
        }
        i += 1;
    }
    assert(a@ =~= b@);
    true
}

/// The hexadecimal digits of `n`, most significant first.
pub open spec fn hex(n: nat) -> Seq<char>
    decreases n,
{
    if n < 16 {
        seq![hex_digit(n as int)]
    } else {
        hex(n / 16).push(hex_digit((n % 16) as int))
    }
}

/// The character of a single hexadecimal digit.
pub open spec fn hex_digit(d: int) -> char {
    if d < 10 {
        (48 + d) as u8 as char
    } else {
        (97 + (d - 10)) as u8 as char
    }
}

/// The hexadecimal digits of a number.
pub fn hex_text(n: u64) -> (s: String)
    ensures
        s@ == hex(n as nat),
    decreases n,
{
    let d: u8 = (n % 16) as u8;
    let c: char = if d < 10 {
        (48 + d) as char
    } else {
        (97 + (d - 10)) as char
    };
    if n < 16 {
        let mut s = String::new();
        s.push(c);
        assert(s@ =~= seq![c]);
        s
    } else {
        let mut s = hex_text(n / 16);
        s.push(c);
        s
    }
}

/// The characters of `s` but `skip`, one by one, each where there is room for it in `cap` bytes.
pub open spec fn kept(s: Seq<char>, skip: char, cap: int) -> Seq<char>
    decreases s.len(),
{
    if s.len() == 0 {
        s
    } else if s.last() == skip {
        kept(s.drop_last(), skip, cap)
    } else {
        pushed(kept(s.drop_last(), skip, cap), seq![s.last()], cap)
    }
}

/// Keeps the characters of a text but `skip`, each where there is room for it in `cap` bytes.
pub fn keep(s: &str, skip: char, cap: usize) -> (r: String)
    ensures
        r@ == kept(s@, skip, cap as int),
{
    let n: usize = s.unicode_len();
    let mut r = String::new();
    let mut i: usize = 0;
    assert(r@ =~= s@.take(0));
    while i < n
        invariant
            n == s@.len(),
            i <= n,
            r@ == kept(s@.take(i as int), skip, cap as int),
        decreases n - i,
    {
        let c: char = s.get_char(i);
        assert(s@.take(i + 1).drop_last() =~= s@.take(i as int));
        if c != skip {
            let mut one = String::new();
            one.push(c);
            assert(one@ =~= seq![c]);
            push_within(&mut r, one.as_str(), cap);
        }
        i += 1;
    }
    assert(s@.take(n as int) =~= s@);
    r
}

/// Two texts in a row take the bytes of both.
pub proof fn lemma_encode_join(a: Seq<char>, b: Seq<char>)
    ensures
        encode_utf8(a + b) == encode_utf8(a) + encode_utf8(b),
    decreases a.len(),
{
    if a.len() == 0 {
        assert(a + b =~= b);
        assert(encode_utf8(a) =~= seq![]);
        assert(encode_utf8(a) + encode_utf8(b) =~= encode_utf8(b));
    } else {
        lemma_encode_join(a.drop_first(), b);
        assert((a + b).drop_first() =~= a.drop_first() + b);
        assert((a + b)[0] == a[0]);
        assert(encode_utf8(a + b) =~= encode_utf8(a) + encode_utf8(b));
    }
}

/// A text that fits into `cap` bytes still does after a piece was appended or left out.
pub proof fn lemma_pushed_fits(s: Seq<char>, t: Seq<char>, cap: int)
    requires
        encode_utf8(s).len() <= cap,
    ensures
        encode_utf8(pushed(s, t, cap)).len() <= cap,
        encode_utf8(put((s, false), t, cap).0).len() <= cap,
{
    lemma_encode_join(s, t);
}

/// The number that a text of decimal digits stands for: each digit counts ten times the next.
pub open spec fn num_of(t: Seq<char>) -> int
    decreases t.len(),
{
    if t.len() == 0 {
        0
    } else {
        num_of(t.drop_last()) * 10 + (t.last() as int - '0' as int)
    }
}

/// The whole number that a text stands for, with a minus sign before it or none.
pub open spec fn int_of(t: Seq<char>) -> int {
    if t.len() > 0 && t[0] == '-' {
        -num_of(t.skip(1))
    } else {
        num_of(t)
    }
}

/// The number that a text of hexadecimal digits stands for.
pub open spec fn hex_of(t: Seq<char>) -> int
    decreases t.len(),
{
    if t.len() == 0 {
        0
    } else {
        hex_of(t.drop_last()) * 16 + (if '0' <= t.last() <= '9' {
            t.last() as int - '0' as int
        } else {
            t.last() as int - 'a' as int + 10
        })
    }
}

/// A number that was written in decimal reads back: its text is digits alone, with no nought before
/// them.
pub proof fn law_numbers_read_back(n: nat)
    ensures
        num_of(dec(n)) == n,
        dec(n).len() >= 1,
        forall|i: int| 0 <= i < dec(n).len() ==> '0' <= #[trigger] dec(n)[i] <= '9',
        n > 0 ==> dec(n)[0] != '0',
    decreases n,
{
    let t = dec(n);
    reveal_with_fuel(num_of, 2);
    if n < 10 {
        assert(t.drop_last() =~= seq![]);
    } else {
        law_numbers_read_back(n / 10);
        assert(t.drop_last() =~= dec(n / 10));
        assert(t[0] == dec(n / 10)[0]);
        assert forall|i: int| 0 <= i < t.len() implies '0' <= #[trigger] t[i] <= '9' by {
            if i < t.len() - 1 {
                assert(t[i] == dec(n / 10)[i]);
            }
        }
    }
}

/// A whole number that was written in decimal reads back, and begins with a minus sign where it is
/// below nought and nowhere else.
pub proof fn law_whole_numbers_read_back(n: int)
    ensures
        int_of(signed_dec(n)) == n,
        signed_dec(n).len() >= 1,
        signed_dec(n)[0] == '-' <==> n < 0,
{
    if n < 0 {
        law_numbers_read_back((-n) as nat);
        assert(signed_dec(n).skip(1) =~= dec((-n) as nat));
    } else {
        law_numbers_read_back(n as nat);
        assert('0' <= dec(n as nat)[0] <= '9');
    }
}

/// Two digits read back.
pub proof fn law_two_digits_read_back(n: int)
    requires
        0 <= n < 100,
    ensures
        two(n).len() == 2,
        num_of(two(n)) == n,
        '0' <= two(n)[0] <= '9',
        '0' <= two(n)[1] <= '9',
{
    let t = two(n);
    reveal_with_fuel(num_of, 3);
    assert(t.drop_last() =~= seq![t[0]]);
    assert(t.drop_last().drop_last() =~= seq![]);
}

/// A number that was written in hexadecimal reads back.
pub proof fn law_hex_reads_back(n: nat)
    ensures
        hex_of(hex(n)) == n,
    decreases n,
{
    let t = hex(n);
    reveal_with_fuel(hex_of, 2);
    if n < 16 {
        assert(t.drop_last() =~= seq![]);
    } else {
        law_hex_reads_back(n / 16);
        assert(t.drop_last() =~= hex(n / 16));
    }
}

proof fn lemma_value_is_number(t: Seq<char>)
    requires
        all_digits(t),
    ensures
        dec_value(t) == num_of(t),
        num_of(t) >= 0,
    decreases t.len(),
{
    if t.len() > 0 {
        lemma_value_is_number(t.drop_last());
        assert('0' <= t[t.len() - 1] <= '9');
    }
}

/// A text is read as the number that its digits stand for, whatever it is, and not where that is too
/// large; a number that was written is read again.
pub proof fn law_texts_are_read_as_their_number(t: Seq<char>, n: nat, max: nat)
    ensures
        parsed(t, max) matches Some(v) ==> v <= max && (num_of(t) == v || t[0] == '+' && num_of(
            t.skip(1),
        ) == v),
        parsed(dec(n), max) == (if n <= max {
            Some(n)
        } else {
            None
        }),
{
    law_numbers_read_back(n);
    assert(all_digits(dec(n)));
    assert('0' <= dec(n)[0] <= '9');
    lemma_value_is_number(dec(n));
    if parsed(t, max) is Some {
        if t[0] == '+' {
            lemma_value_is_number(t.skip(1));
        } else {
            lemma_value_is_number(t);
        }
    }
}

/// A text is read as the whole number that it stands for; one of 32 bits that was written is read
/// again.
pub proof fn law_texts_are_read_as_their_whole_number(t: Seq<char>, n: int)
    ensures
        int_parsed(t) matches Some(v) ==> -0x8000_0000 <= v <= 0x7fff_ffff && (int_of(t) == v || t[0]
            == '+' && num_of(t.skip(1)) == v),
        int_parsed(signed_dec(n)) == (if -0x8000_0000 <= n <= 0x7fff_ffff {
            Some(n)
        } else {
            None
        }),
{
    law_whole_numbers_read_back(n);
    if n < 0 {
        law_numbers_read_back((-n) as nat);
        assert(signed_dec(n).skip(1) =~= dec((-n) as nat));
        assert(all_digits(dec((-n) as nat)));
        lemma_value_is_number(dec((-n) as nat));
    } else {
        law_texts_are_read_as_their_number(t, n as nat, 0x7fff_ffff);
    }
    law_texts_are_read_as_their_number(t, 0, 0x7fff_ffff);
    if t.len() > 0 && t[0] == '-' && int_parsed(t) is Some {
        lemma_value_is_number(t.skip(1));
    }
}

/// A text with room for a piece ends with the piece, and one without stays as it is; it never takes
/// more room than there is.
pub proof fn law_pieces_are_whole(s: Seq<char>, t: Seq<char>, cap: int)
    requires
        encode_utf8(s).len() <= cap,
    ensures
        encode_utf8(pushed(s, t, cap)).len() <= cap,
        pushed(s, t, cap).take(s.len() as int) == s,
        encode_utf8(s + t).len() <= cap ==> pushed(s, t, cap).skip(s.len() as int) == t,
        encode_utf8(s + t).len() > cap ==> pushed(s, t, cap).len() == s.len(),
{
    lemma_encode_join(s, t);
    assert((s + t).take(s.len() as int) =~= s);
    assert((s + t).skip(s.len() as int) =~= t);
    assert(s.take(s.len() as int) =~= s);
}

} // verus!
