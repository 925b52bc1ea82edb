//! A text cut into pages of about the same length, by its bytes.
use vstd::prelude::*;
#[allow(unused_imports)]
use vstd::utf8::*;

use crate::text::utf8_text;

verus! {

/// How many bytes are read at a time.
pub const BUFFER_LEN: usize = 2000;

/// How many bytes of a chunk are held, with those left over from the one before.
pub const UTF8_ROOM: usize = 2100;

/// How many pages one call makes at most.
pub const PAGES_ONCE: usize = 100;

/// How many pages are kept.
pub const PAGES_ROOM: usize = 500;

/// How a text is cut.
#[derive(Clone, Copy, Debug, PartialEq, Eq, Structural)]
pub struct Limits {
    /// A page has so many bytes, and the rest of the character there.
    pub low: usize,
    /// Pages are made once there is more text than this.
    pub threshold: usize,
    /// So much text is held.
    pub room: usize,
    /// A chunk that is not UTF-8 is dropped.
    pub checked: bool,
}

/// Pages of a few words.
pub fn text_limits() -> (l: Limits)
    ensures
        l == (Limits { low: 30, threshold: 7000, room: 8000, checked: true }),
{
    Limits { low: 30, threshold: 7000, room: 8000, checked: true }
}

/// Pages of a screen.
pub fn nostring_limits() -> (l: Limits)
    ensures
        l == (Limits { low: 300, threshold: 18000, room: 20100, checked: false }),
{
    Limits { low: 300, threshold: 18000, room: 20100, checked: false }
}

/// A byte that continues a character.
pub open spec fn continues(b: u8) -> bool {
    0x80 <= b < 0xc0
}

/// A byte that is a character of its own.
pub open spec fn single(b: u8) -> bool {
    b < 0x80
}

/// Where to cut so that the character that begins at `tail` or before is left out, unless it is a
/// single byte.
pub open spec fn cut_at(b: Seq<u8>, tail: int) -> int
    decreases tail,
{
    if tail <= 0 {
        0
    } else if single(b[tail]) {
        tail + 1
    } else if continues(b[tail]) {
        cut_at(b, tail - 1)
    } else {
        tail
    }
}

/// How many of the first `len` bytes hold whole characters: all at the end of a file, and otherwise
/// all before the last character of several bytes.
pub open spec fn whole_chars(b: Seq<u8>, len: int, full_len: int) -> int {
    if len < full_len {
        len
    } else {
        cut_at(b, len - 1)
    }
}

/// Where the next character begins.
pub open spec fn ceil_boundary(b: Seq<u8>, i: int) -> int
    decreases b.len() - i,
{
    if i >= b.len() {
        b.len() as int
    } else if continues(b[i]) {
        ceil_boundary(b, i + 1)
    } else {
        i
    }
}

/// The length of the first page, and whether it is full.
pub open spec fn page_len(b: Seq<u8>, low: int) -> (int, bool) {
    if b.len() > low {
        (ceil_boundary(b, low), true)
    } else {
        (b.len() as int, false)
    }
}

/// The lengths of the pages from `i` on, up to the first that is not full.
pub open spec fn page_ends(b: Seq<u8>, low: int, i: int) -> Seq<int>
    decreases b.len() - i,
{
    if i >= b.len() || low <= 0 || i < 0 {
        seq![]
    } else {
        let (n, full) = page_len(b.skip(i), low);
        if !full || n <= 0 || i + n > b.len() {
            seq![i + n]
        } else {
            seq![i + n] + page_ends(b, low, i + n)
        }
    }
}

/// Where the pages end in the file, as sixteen-bit numbers.
pub open spec fn positions(ends: Seq<int>, begin: int) -> Seq<u16> {
    Seq::new(ends.len(), |i: int| (begin % 65536 + ends[i]) as u16)
}

/// The text that no page takes.
pub open spec fn left_over(b: Seq<u8>, low: int) -> Seq<u8> {
    let ends = page_ends(b, low, 0);
    if ends.len() == 0 {
        b
    } else {
        b.skip(ends.last())
    }
}

proof fn lemma_ceil(b: Seq<u8>, i: int)
    requires
        0 <= i,
    ensures
        i <= b.len() ==> i <= ceil_boundary(b, i) <= b.len(),
        ceil_boundary(b, i) < b.len() ==> !continues(b[ceil_boundary(b, i)]),
        forall|j: int| i <= j < ceil_boundary(b, i) ==> continues(b[j]),
    decreases b.len() - i,
{
    if i < b.len() && continues(b[i]) {
        lemma_ceil(b, i + 1);
    }
}

/// The reader.
pub struct TxtReader;

impl TxtReader {
    /// Where the first bytes of a buffer can be cut between two characters.
    pub fn cut_full_utf8(buffer: &[u8], len: usize, full_len: usize) -> (n: usize)
        requires
            len <= buffer@.len(),
            0 < full_len,
        ensures
            n == whole_chars(buffer@, len as int, full_len as int),
            n <= len,
    {
        if len < full_len {
            return len;
        }
        let mut tail: usize = len - 1;
        while tail > 0
            invariant
                tail < len <= buffer@.len(),
                len >= full_len,
                cut_at(buffer@, len - 1) == cut_at(buffer@, tail as int),
            decreases tail,
        {
            let last: u8 = buffer[tail];
            if last < 0x80 {
                return tail + 1;
            }
            if last < 0xc0 {
                tail -= 1;
            } else {
                return tail;
            }
        }
        0
    }

    /// Where the next character begins.
    pub fn ceil_char_boundary(buffer: &[u8], begin_index: usize) -> (i: usize)
        requires
            begin_index <= buffer@.len(),
        ensures
            i == ceil_boundary(buffer@, begin_index as int),
            begin_index <= i <= buffer@.len(),
    {
        let mut i: usize = begin_index;
        while i < buffer.len() && 0x80 <= buffer[i] && buffer[i] < 0xc0
            invariant
                begin_index <= i <= buffer@.len(),
                ceil_boundary(buffer@, begin_index as int) == ceil_boundary(buffer@, i as int),
            decreases buffer@.len() - i,
        {
            i += 1;
        }
        i
    }

    /// The length of the first page, and whether it is full.
    pub fn compute_page(txt: &[u8], low: usize) -> (r: (usize, bool))
        ensures
            (r.0 as int, r.1) == page_len(txt@, low as int),
            r.0 <= txt@.len(),
    {
        if txt.len() > low {
            (Self::ceil_char_boundary(txt, low), true)
        } else {
            (txt.len(), false)
        }
    }

    /// Cuts a text into pages: how much of it they take, and where each ends in the file.
    pub fn compute_pages(txt: &[u8], begin_position: usize, low: usize) -> (r: (usize, Vec<u16>))
        requires
            low > 0,
            page_ends(txt@, low as int, 0).len() <= PAGES_ONCE,
            begin_position % 65536 + txt@.len() <= 65535,
        ensures
            r.0 <= txt@.len(),
            txt@.skip(r.0 as int) == left_over(txt@, low as int),
            r.1@ == positions(page_ends(txt@, low as int, 0), begin_position as int),
    {
        let begin: usize = begin_position % 65536;
        let mut pages: Vec<u16> = Vec::new();
        let mut i: usize = 0;
        let ghost all = page_ends(txt@, low as int, 0);
        let ghost mut done = Seq::<int>::empty();
        let mut going: bool = true;
        assert(txt@.skip(0) =~= txt@);
        while going && i < txt.len()
            invariant
                i <= txt@.len(),
                low > 0,
                begin == begin_position % 65536,
                begin + txt@.len() <= 65535,
                all == page_ends(txt@, low as int, 0),
                going ==> all =~= done + page_ends(txt@, low as int, i as int),
                !going ==> all =~= done,
                done.len() == 0 ==> i == 0,
                done.len() > 0 ==> i == done.last(),
                pages@ =~= positions(done, begin_position as int),
            decreases
                txt@.len() - i,
                (if going {
                    1int
                } else {
                    0
                }),
        {
            let rest = vstd::slice::slice_subrange(txt, i, txt.len());
            proof {
                assert(rest@ =~= txt@.skip(i as int));
                lemma_ceil(rest@, low as int);
            }
            let (n, full) = Self::compute_page(rest, low);
            proof {
                done = done.push(i + n);
            }
            i = i + n;
            pages.push((begin + i) as u16);
            if !full {
                going = false;
            }
        }
        proof {
            if going {
                assert(page_ends(txt@, low as int, i as int) =~= seq![]);
            }
            assert(all =~= done);
        }
        (i, pages)
    }

    /// Where a page, counted from one, begins and ends; nowhere where there is none.
    pub fn get_page_content(page_num: usize, pages: &Vec<u16>) -> (r: (u16, u16))
        requires
            page_num >= 1,
        ensures
            r == (if page_num > pages@.len() {
                (0u16, 0u16)
            } else if page_num == 1 {
                (0u16, pages@[0])
            } else {
                (pages@[page_num - 2], pages@[page_num - 1])
            }),
    {
        if page_num > pages.len() {
            (0, 0)
        } else if page_num == 1 {
            (0, pages[0])
        } else {
            (pages[page_num - 2], pages[page_num - 1])
        }
    }
}

/// A cut leaves no part of a character behind: what follows begins a character, or a character of
/// one byte is the last before it.
pub proof fn law_cut_is_between_characters(b: Seq<u8>, len: int)
    requires
        1 <= len <= b.len(),
        cut_at(b, len - 1) > 0,
    ensures
        ({
            let n = cut_at(b, len - 1);
            &&& n <= len
            &&& single(b[n - 1]) || (n < len && !continues(b[n]) && !single(b[n]))
            &&& forall|j: int| n < j < len ==> continues(b[j])
        }),
{
    lemma_cut(b, len - 1, len);
}

proof fn lemma_cut(b: Seq<u8>, tail: int, len: int)
    requires
        0 <= tail < len <= b.len(),
        cut_at(b, tail) > 0,
        forall|j: int| tail < j < len ==> continues(b[j]),
    ensures
        ({
            let n = cut_at(b, tail);
            &&& n <= len
            &&& single(b[n - 1]) || (n < len && !continues(b[n]) && !single(b[n]))
            &&& forall|j: int| n < j < len ==> continues(b[j])
        }),
    decreases tail,
{
    if tail > 0 && continues(b[tail]) {
        lemma_cut(b, tail - 1, len);
    }
}

/// The pages follow one another without a gap, and each takes something; all but the last end where
/// a character does, and take at least `low` bytes.
pub proof fn law_pages_advance(b: Seq<u8>, low: int, i: int)
    requires
        0 < low,
        0 <= i <= b.len(),
    ensures
        ({
            let ends = page_ends(b, low, i);
            &&& i < b.len() ==> ends.len() > 0
            &&& forall|k: int| 0 <= k < ends.len() ==> i < #[trigger] ends[k] <= b.len()
            &&& forall|k: int, m: int| 0 <= k < m < ends.len() ==> ends[k] < ends[m]
            &&& forall|k: int|
                0 <= k < ends.len() && #[trigger] ends[k] < b.len() ==> !continues(b[ends[k]])
            &&& ends.len() > 1 ==> ends[0] >= i + low
            &&& ends.len() <= (b.len() - i) / low + 1
        }),
    decreases b.len() - i,
{
    if i < b.len() {
        let s = b.skip(i);
        lemma_ceil(s, low);
        let (n, full) = page_len(s, low);
        assert(n > 0);
        assert(i + n < b.len() ==> !continues(b[i + n])) by {
            if i + n < b.len() {
                assert(s[n] == b[i + n]);
            }
        }
        if full {
            law_pages_advance(b, low, i + n);
            let rest = page_ends(b, low, i + n);
            let ends = page_ends(b, low, i);
            assert(ends == seq![i + n] + rest);
            assert forall|k: int| 0 <= k < ends.len() implies i < #[trigger] ends[k] <= b.len() by {
                if k > 0 {
                    assert(ends[k] == rest[k - 1]);
                }
            }
            assert forall|k: int, m: int| 0 <= k < m < ends.len() implies ends[k] < ends[m] by {
                assert(ends[m] == rest[m - 1]);
                if k > 0 {
                    assert(ends[k] == rest[k - 1]);
                }
            }
            assert forall|k: int|
                0 <= k < ends.len() && #[trigger] ends[k] < b.len() implies !continues(
                b[ends[k]],
            ) by {
                if k > 0 {
                    assert(ends[k] == rest[k - 1]);
                }
            }
            assert((b.len() - i - n) / low + 1 <= (b.len() - i) / low) by (nonlinear_arith)
                requires
                    n >= low,
                    low > 0,
                    n <= b.len() - i,
            ;
        } else {
            assert((b.len() - i) / low >= 0) by (nonlinear_arith)
                requires
                    b.len() - i >= 0,
                    low > 0,
            ;
        }
    } else {
        assert((b.len() - i) / low == 0) by (nonlinear_arith)
            requires
                b.len() - i == 0,
                low > 0,
        ;
    }
}

/// A text that is read chunk by chunk.
pub struct PageMaker {
    /// Bytes that are not text yet.
    pub utf8_buf: Vec<u8>,
    /// Text that is on no page yet.
    pub txt: Vec<u8>,
    /// Where that text begins in the file.
    pub begin_position: usize,
    /// Where that text ends in the file.
    pub end_position: usize,
    /// Where the pages end.
    pub pages: Vec<u16>,
}

/// What a text that is read chunk by chunk holds.
pub struct MakerView {
    pub utf8_buf: Seq<u8>,
    pub txt: Seq<u8>,
    pub begin: int,
    pub end: int,
    pub pages: Seq<u16>,
}

impl View for PageMaker {
    type V = MakerView;

    open spec fn view(&self) -> MakerView {
        MakerView {
            utf8_buf: self.utf8_buf@,
            txt: self.txt@,
            begin: self.begin_position as int,
            end: self.end_position as int,
            pages: self.pages@,
        }
    }
}

/// `s` with `t` behind it where there is room for all of it.
pub open spec fn extended<A>(s: Seq<A>, t: Seq<A>, room: int) -> Seq<A> {
    if s.len() + t.len() <= room {
        s + t
    } else {
        s
    }
}

/// The text with a chunk of `num_read` bytes read, before pages are made.
pub open spec fn taken(v: MakerView, l: Limits, buffer: Seq<u8>, num_read: int) -> MakerView {
    let cut = whole_chars(buffer, num_read, BUFFER_LEN as int);
    let chunk = extended(v.utf8_buf, buffer.take(cut), UTF8_ROOM as int);
    MakerView {
        utf8_buf: buffer.subrange(cut, num_read),
        txt: if l.checked && !valid_utf8(chunk) {
            v.txt
        } else {
            extended(v.txt, chunk, l.room as int)
        },
        end: v.end + chunk.len(),
        ..v
    }
}

/// The text with pages made of it, in a file of which it is the end so far.
pub open spec fn paged(v: MakerView, l: Limits) -> MakerView {
    let rest = left_over(v.txt, l.low as int);
    MakerView {
        txt: rest,
        begin: v.end - rest.len(),
        pages: extended(
            v.pages,
            positions(page_ends(v.txt, l.low as int, 0), v.begin),
            PAGES_ROOM as int,
        ),
        ..v
    }
}

/// The text with a chunk read, and pages made once there is enough.
pub open spec fn fed(v: MakerView, l: Limits, buffer: Seq<u8>, num_read: int) -> MakerView {
    let t = taken(v, l, buffer, num_read);
    if t.txt.len() > l.threshold {
        paged(t, l)
    } else {
        t
    }
}

/// Pages can be made of the text: they are not too many, and their places are numbers of sixteen
/// bits.
pub open spec fn pageable(v: MakerView, l: Limits) -> bool {
    &&& page_ends(v.txt, l.low as int, 0).len() <= PAGES_ONCE
    &&& v.begin % 65536 + v.txt.len() <= 65535
}

/// A copy of a part of some bytes.
fn copied(b: &[u8], from: usize, to: usize) -> (r: Vec<u8>)
    requires
        from <= to <= b@.len(),
    ensures
        r@ == b@.subrange(from as int, to as int),
{
    let mut r: Vec<u8> = Vec::new();
    let mut i: usize = from;
    while i < to
        invariant
            from <= i <= to <= b@.len(),
            r@ =~= b@.subrange(from as int, i as int),
        decreases to - i,
    {
        r.push(b[i]);
        i += 1;
    }
    r
}

impl PageMaker {
    /// The text lies in what was read.
    pub open spec fn valid(self, l: Limits) -> bool {
        &&& self.txt@.len() <= l.room
        &&& self.begin_position + self.txt@.len() <= self.end_position
        &&& self.utf8_buf@.len() <= BUFFER_LEN
        &&& self.pages@.len() <= PAGES_ROOM
        &&& 0 < l.low
        &&& l.room <= 0x10000
    }

    /// Nothing read.
    pub fn new() -> (m: PageMaker)
        ensures
            m@ == (MakerView {
                utf8_buf: seq![],
                txt: seq![],
                begin: 0,
                end: 0,
                pages: seq![],
            }),
    {
        let m = PageMaker {
            utf8_buf: Vec::new(),
            txt: Vec::new(),
            begin_position: 0,
            end_position: 0,
            pages: Vec::new(),
        };
        assert(m.utf8_buf@ =~= seq![]);
        assert(m.txt@ =~= seq![]);
        assert(m.pages@ =~= seq![]);
        m
    }

    /// Makes pages of the text.
    fn make_pages(&mut self, l: Limits)
        requires
            old(self).valid(l),
            pageable(old(self)@, l),
        ensures
            final(self)@ == paged(old(self)@, l),
            final(self).valid(l),
    {
        let ghost v = self@;
        let (n, pages) = TxtReader::compute_pages(
            self.txt.as_slice(),
            self.begin_position,
            l.low,
        );
        let rest = copied(self.txt.as_slice(), n, self.txt.len());
        assert(rest@ =~= v.txt.skip(n as int));
        self.begin_position = self.end_position - rest.len();
        self.txt = rest;
        if pages.len() <= PAGES_ROOM && self.pages.len() <= PAGES_ROOM - pages.len() {
            let mut more = pages;
            self.pages.append(&mut more);
        }
        assert(self@.pages =~= paged(v, l).pages);
    }

    /// Reads a chunk of `num_read` bytes.
    pub fn feed(&mut self, l: Limits, buffer: &[u8], num_read: usize)
        requires
            old(self).valid(l),
            num_read <= buffer@.len(),
            num_read <= BUFFER_LEN,
            old(self).end_position <= usize::MAX - UTF8_ROOM,
            l.checked ==> old(self).utf8_buf@.len() + whole_chars(
                buffer@,
                num_read as int,
                BUFFER_LEN as int,
            ) <= UTF8_ROOM,
            taken(old(self)@, l, buffer@, num_read as int).txt.len() > l.threshold ==> pageable(
                taken(old(self)@, l, buffer@, num_read as int),
                l,
            ),
        ensures
            final(self)@ == fed(old(self)@, l, buffer@, num_read as int),
            final(self).valid(l),
    {
        let ghost v = self@;
        let cut: usize = TxtReader::cut_full_utf8(buffer, num_read, BUFFER_LEN);
        let mut chunk: Vec<u8> = Vec::new();
        chunk.append(&mut self.utf8_buf);
        assert(chunk@ =~= v.utf8_buf);
        if chunk.len() + cut <= UTF8_ROOM {
            let mut part = copied(buffer, 0, cut);
            assert(part@ =~= buffer@.take(cut as int));
            chunk.append(&mut part);
        }
        let ghost t = taken(v, l, buffer@, num_read as int);
        assert(chunk@ =~= extended(v.utf8_buf, buffer@.take(cut as int), UTF8_ROOM as int));
        self.end_position = self.end_position + chunk.len();
        let good = !l.checked || utf8_text(chunk.as_slice()).is_some();
        if good && chunk.len() <= l.room && self.txt.len() <= l.room - chunk.len() {
            self.txt.append(&mut chunk);
        }
        assert(self.txt@ =~= t.txt);
        self.utf8_buf = copied(buffer, cut, num_read);
        assert(self.utf8_buf@ =~= t.utf8_buf);
        assert(self@ == t);
        if self.txt.len() > l.threshold {
            self.make_pages(l);
        }
    }

    /// Makes pages of what is left at the end of the file.
    pub fn finish(&mut self, l: Limits)
        requires
            old(self).valid(l),
            pageable(old(self)@, l),
        ensures
            final(self)@ == paged(old(self)@, l),
            final(self).valid(l),
    {
        self.make_pages(l);
    }
}

/// A page is as long as it is to be, and as much longer as its last character takes; the last page
/// takes what is left.
pub proof fn law_pages_have_their_length(b: Seq<u8>, low: int)
    requires
        0 < low,
        0 < b.len(),
    ensures
        b.len() <= low ==> page_len(b, low) == (b.len() as int, false),
        b.len() > low ==> page_len(b, low).1 && low <= page_len(b, low).0 <= b.len() && forall|j: int|
            low <= j < page_len(b, low).0 ==> 0x80 <= #[trigger] b[j] < 0xc0,
        b.len() > low && page_len(b, low).0 < b.len() ==> !(0x80 <= b[page_len(b, low).0] < 0xc0),
{
    if b.len() > low {
        lemma_page_boundary(b, low);
    }
}

proof fn lemma_page_boundary(b: Seq<u8>, i: int)
    requires
        0 <= i <= b.len(),
    ensures
        i <= ceil_boundary(b, i) <= b.len(),
        forall|j: int| i <= j < ceil_boundary(b, i) ==> continues(#[trigger] b[j]),
        ceil_boundary(b, i) < b.len() ==> !continues(b[ceil_boundary(b, i)]),
    decreases b.len() - i,
{
    if i < b.len() && continues(b[i]) {
        lemma_page_boundary(b, i + 1);
    }
}

/// What is read is added to the text in whole characters, behind what was left of the last one; the
/// rest waits. Where the text is checked, bytes that are none are left out, but counted.
pub proof fn law_read_bytes_are_added_whole(v: MakerView, l: Limits, buffer: Seq<u8>, n: int)
    requires
        0 < n < BUFFER_LEN,
        n <= buffer.len(),
        v.utf8_buf.len() + n <= UTF8_ROOM,
        v.txt.len() + v.utf8_buf.len() + n <= l.room,
    ensures
        ({
            let chunk = v.utf8_buf + buffer.take(n);
            let t = taken(v, l, buffer, n);
            &&& t.utf8_buf.len() == 0
            &&& t.end == v.end + v.utf8_buf.len() + n
            &&& t.begin == v.begin && t.pages == v.pages
            &&& !l.checked || valid_utf8(chunk) ==> t.txt == v.txt + chunk
            &&& l.checked && !valid_utf8(chunk) ==> t.txt == v.txt
        }),
{
}

/// Pages are made once the text is longer than its threshold, and not before.
pub proof fn law_pages_are_made_beyond_the_threshold(v: MakerView, l: Limits, buffer: Seq<u8>, n: int)
    ensures
        taken(v, l, buffer, n).txt.len() > l.threshold ==> fed(v, l, buffer, n) == paged(
            taken(v, l, buffer, n),
            l,
        ),
        taken(v, l, buffer, n).txt.len() <= l.threshold ==> fed(v, l, buffer, n).pages == v.pages,
{
}

/// What is left of the text once its pages are made is what lies behind the last of them, and the next
/// page begins there.
pub proof fn law_rest_lies_behind_the_pages(v: MakerView, l: Limits)
    requires
        0 < l.low,
        v.txt.len() > 0,
    ensures
        ({
            let ends = page_ends(v.txt, l.low as int, 0);
            let p = paged(v, l);
            &&& ends.len() > 0
            &&& p.txt == v.txt.skip(ends.last())
            &&& p.begin == v.end - p.txt.len()
            &&& v.txt.take(ends.last()) + p.txt == v.txt
            &&& p.end == v.end
        }),
{
    law_pages_advance(v.txt, l.low as int, 0);
    let ends = page_ends(v.txt, l.low as int, 0);
    assert(0 < ends[ends.len() - 1] <= v.txt.len());
    assert(v.txt.take(ends.last()) + v.txt.skip(ends.last()) =~= v.txt);
}

} // verus!
