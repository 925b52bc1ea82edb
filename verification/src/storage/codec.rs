//! Records of numbers and texts, as bytes.
//!
//! A record is a row of fields. Each field has a kind that fixes its size, so a record takes the same
//! number of bytes whatever it holds.
use vstd::prelude::*;
#[allow(unused_imports)]
use vstd::string::*;
#[allow(unused_imports)]
use vstd::utf8::*;

use crate::text::utf8_text;

verus! {

/// The kind of a field: a number of so many bytes, or a text of up to so many.
#[derive(Clone, Copy, Debug, PartialEq, Eq, Structural)]
pub enum Kind {
    Num(u8),
    Text(u16),
}

/// A field.
pub enum Field {
    Num(u64),
    Text(String),
}

/// What a field holds.
pub enum FieldView {
    Num(u64),
    Text(Seq<char>),
}

impl View for Field {
    type V = FieldView;

    open spec fn view(&self) -> FieldView {
        match *self {
            Field::Num(n) => FieldView::Num(n),
            Field::Text(t) => FieldView::Text(t@),
        }
    }
}

/// What the fields of a record hold.
pub open spec fn views(fs: Seq<Field>) -> Seq<FieldView> {
    Seq::new(fs.len(), |i: int| fs[i]@)
}

/// The first number that does not fit into `w` bytes.
pub open spec fn limit(w: nat) -> nat
    decreases w,
{
    if w == 0 {
        1
    } else {
        256 * limit((w - 1) as nat)
    }
}

/// The bytes of a number, the least significant first.
pub open spec fn le(n: nat, w: nat) -> Seq<u8>
    decreases w,
{
    if w == 0 {
        seq![]
    } else {
        seq![(n % 256) as u8] + le(n / 256, (w - 1) as nat)
    }
}

/// The number in bytes, the least significant first.
pub open spec fn from_le(b: Seq<u8>) -> nat
    decreases b.len(),
{
    if b.len() == 0 {
        0
    } else {
        b[0] as nat + 256 * from_le(b.skip(1))
    }
}

proof fn lemma_le(n: nat, w: nat)
    ensures
        le(n, w).len() == w,
        n < limit(w) ==> from_le(le(n, w)) == n,
    decreases w,
{
    if w > 0 {
        lemma_le(n / 256, (w - 1) as nat);
        assert(le(n, w).skip(1) =~= le(n / 256, (w - 1) as nat));
    }
}

proof fn lemma_from_le_bound(b: Seq<u8>)
    ensures
        from_le(b) < limit(b.len()),
    decreases b.len(),
{
    if b.len() > 0 {
        lemma_from_le_bound(b.skip(1));
    }
}

pub proof fn lemma_limit()
    ensures
        limit(1) == 0x100,
        limit(2) == 0x1_0000,
        limit(4) == 0x1_0000_0000,
        limit(8) == 0x1_0000_0000_0000_0000,
{
    reveal_with_fuel(limit, 9);
}

proof fn lemma_limit_grows(a: nat, b: nat)
    requires
        a <= b,
    ensures
        limit(a) <= limit(b),
    decreases b,
{
    if a < b {
        lemma_limit_grows(a, (b - 1) as nat);
    }
}

/// How many bytes a field takes.
pub open spec fn field_size(k: Kind) -> int {
    match k {
        Kind::Num(w) => w as int,
        Kind::Text(cap) => 2 + cap,
    }
}

/// A field is of a kind, and fits.
pub open spec fn fits(k: Kind, f: FieldView) -> bool {
    match (k, f) {
        (Kind::Num(w), FieldView::Num(n)) => w <= 8 && n < limit(w as nat),
        (Kind::Text(cap), FieldView::Text(t)) => encode_utf8(t).len() <= cap,
        _ => false,
    }
}

/// `n` noughts.
pub open spec fn zeros(n: int) -> Seq<u8> {
    Seq::new(n as nat, |i: int| 0u8)
}

/// The bytes of a field: of a text, its length and its bytes, filled up with noughts.
pub open spec fn field_bytes(k: Kind, f: FieldView) -> Seq<u8> {
    match (k, f) {
        (Kind::Num(w), FieldView::Num(n)) => le(n as nat, w as nat),
        (Kind::Text(cap), FieldView::Text(t)) => le(encode_utf8(t).len(), 2) + encode_utf8(t)
            + zeros(cap - encode_utf8(t).len()),
        _ => seq![],
    }
}

/// The field that bytes hold; nothing where they hold none.
#[verifier::opaque]
pub open spec fn field_in(k: Kind, b: Seq<u8>) -> Option<FieldView> {
    match k {
        Kind::Num(_) => Some(FieldView::Num(from_le(b) as u64)),
        Kind::Text(cap) => {
            let n = from_le(b.take(2));
            let t = b.subrange(2, 2 + n as int);
            if n <= cap && valid_utf8(t) {
                Some(FieldView::Text(decode_utf8(t)))
            } else {
                None
            }
        },
    }
}

/// The bytes of a field hold that field.
pub proof fn lemma_field(k: Kind, f: FieldView)
    requires
        fits(k, f),
    ensures
        field_bytes(k, f).len() == field_size(k),
        field_in(k, field_bytes(k, f)) == Some(f),
{
    reveal(field_in);
    match (k, f) {
        (Kind::Num(w), FieldView::Num(n)) => {
            lemma_le(n as nat, w as nat);
        },
        (Kind::Text(cap), FieldView::Text(t)) => {
            let e = encode_utf8(t);
            lemma_limit();
            lemma_le(e.len(), 2);
            let b = field_bytes(k, f);
            assert(b.take(2) =~= le(e.len(), 2));
            assert(b.subrange(2, 2 + e.len() as int) =~= e);
            encode_utf8_valid_utf8(t);
            encode_utf8_decode_utf8(t);
        },
        _ => {},
    }
}

/// Where the field `i` of a record begins.
pub open spec fn field_at(ks: Seq<Kind>, i: int) -> int
    decreases i,
{
    if i <= 0 {
        0
    } else {
        field_at(ks, i - 1) + field_size(ks[i - 1])
    }
}

/// How many bytes a record takes.
pub open spec fn record_size(ks: Seq<Kind>) -> int {
    field_at(ks, ks.len() as int)
}

/// The fields are those of a record, and fit.
pub open spec fn record_fits(ks: Seq<Kind>, fs: Seq<FieldView>) -> bool {
    &&& fs.len() == ks.len()
    &&& forall|i: int| 0 <= i < ks.len() ==> fits(#[trigger] ks[i], fs[i])
}

/// Whether a field is of a kind, and fits.
fn field_fits(k: Kind, f: &Field) -> (b: bool)
    ensures
        b == fits(k, f@),
{
    match (k, f) {
        (Kind::Num(w), Field::Num(n)) => {
            if w > 8 {
                return false;
            }
            let mut v: u64 = *n;
            let mut left: u8 = w;
            while left > 0
                invariant
                    left <= w <= 8,
                    (v < limit(left as nat)) == (n < limit(w as nat)),
                decreases left,
            {
                assert(limit(left as nat) == 256 * limit((left - 1) as nat));
                v = v / 256;
                left = left - 1;
            }
            v == 0
        },
        (Kind::Text(cap), Field::Text(t)) => t.as_str().as_bytes().len() <= cap as usize,
        _ => false,
    }
}

/// Whether the fields are those of a record, and fit.
pub fn fields_fit(ks: &Vec<Kind>, fs: &Vec<Field>) -> (b: bool)
    ensures
        b == record_fits(ks@, views(fs@)),
{
    if ks.len() != fs.len() {
        return false;
    }
    let mut i: usize = 0;
    while i < ks.len()
        invariant
            i <= ks@.len(),
            ks@.len() == fs@.len(),
            forall|j: int| 0 <= j < i ==> fits(#[trigger] ks@[j], views(fs@)[j]),
        decreases ks@.len() - i,
    {
        if !field_fits(ks[i], &fs[i]) {
            assert(!fits(ks@[i as int], views(fs@)[i as int]));
            return false;
        }
        i += 1;
    }
    true
}

/// The bytes of the first `n` fields of a record.
pub open spec fn record_bytes(ks: Seq<Kind>, fs: Seq<FieldView>, n: int) -> Seq<u8>
    decreases n,
{
    if n <= 0 {
        seq![]
    } else {
        record_bytes(ks, fs, n - 1) + field_bytes(ks[n - 1], fs[n - 1])
    }
}

/// The bytes of a record.
pub open spec fn encoded(ks: Seq<Kind>, fs: Seq<FieldView>) -> Seq<u8> {
    record_bytes(ks, fs, ks.len() as int)
}

/// The bytes of the field `i` of a record.
pub open spec fn slice_of(ks: Seq<Kind>, b: Seq<u8>, i: int) -> Seq<u8> {
    b.subrange(field_at(ks, i), field_at(ks, i + 1))
}

/// Bytes hold a record.
pub open spec fn holds_record(ks: Seq<Kind>, b: Seq<u8>) -> bool {
    &&& b.len() == record_size(ks)
    &&& forall|i: int| 0 <= i < ks.len() ==> field_in(#[trigger] ks[i], slice_of(ks, b, i)) is Some
}

/// The fields that bytes hold.
pub open spec fn decoded(ks: Seq<Kind>, b: Seq<u8>) -> Seq<FieldView> {
    Seq::new(ks.len(), |i: int| field_in(ks[i], slice_of(ks, b, i))->0)
}

proof fn lemma_record_len(ks: Seq<Kind>, fs: Seq<FieldView>, n: int)
    requires
        record_fits(ks, fs),
        0 <= n <= ks.len(),
    ensures
        record_bytes(ks, fs, n).len() == field_at(ks, n),
    decreases n,
{
    if n > 0 {
        lemma_record_len(ks, fs, n - 1);
        lemma_field(ks[n - 1], fs[n - 1]);
    }
}

proof fn lemma_field_at_grows(ks: Seq<Kind>, i: int, j: int)
    requires
        0 <= i <= j <= ks.len(),
    ensures
        0 <= field_at(ks, i) <= field_at(ks, j),
    decreases j,
{
    if i < j {
        lemma_field_at_grows(ks, i, j - 1);
    } else if i > 0 {
        lemma_field_at_grows(ks, i - 1, i - 1);
    }
}

proof fn lemma_slice(ks: Seq<Kind>, fs: Seq<FieldView>, n: int, i: int)
    requires
        record_fits(ks, fs),
        0 <= i < n <= ks.len(),
    ensures
        slice_of(ks, record_bytes(ks, fs, n), i) == field_bytes(ks[i], fs[i]),
    decreases n,
{
    lemma_record_len(ks, fs, n);
    lemma_record_len(ks, fs, n - 1);
    lemma_field(ks[n - 1], fs[n - 1]);
    lemma_field_at_grows(ks, i, i + 1);
    lemma_field_at_grows(ks, i + 1, n);
    let b = record_bytes(ks, fs, n);
    if i == n - 1 {
        assert(slice_of(ks, b, i) =~= field_bytes(ks[i], fs[i]));
    } else {
        lemma_slice(ks, fs, n - 1, i);
        lemma_field_at_grows(ks, i + 1, n - 1);
        assert(slice_of(ks, b, i) =~= slice_of(ks, record_bytes(ks, fs, n - 1), i));
    }
}

/// A record that was written is read back as it was, and takes the number of bytes that its kinds
/// say.
pub proof fn law_records_read_back(ks: Seq<Kind>, fs: Seq<FieldView>)
    requires
        record_fits(ks, fs),
    ensures
        encoded(ks, fs).len() == record_size(ks),
        holds_record(ks, encoded(ks, fs)),
        decoded(ks, encoded(ks, fs)) == fs,
{
    let b = encoded(ks, fs);
    lemma_record_len(ks, fs, ks.len() as int);
    assert forall|i: int| 0 <= i < ks.len() implies field_in(
        #[trigger] ks[i],
        slice_of(ks, b, i),
    ) == Some(fs[i]) by {
        lemma_slice(ks, fs, ks.len() as int, i);
        lemma_field(ks[i], fs[i]);
    }
    assert(decoded(ks, b) =~= fs);
}

/// Appends the bytes of a number.
fn write_num(out: &mut Vec<u8>, n: u64, w: u8)
    ensures
        final(out)@ == old(out)@ + le(n as nat, w as nat),
{
    let ghost before = out@;
    let ghost all = le(n as nat, w as nat);
    let mut v: u64 = n;
    let mut i: u8 = 0;
    assert(out@ + le(v as nat, w as nat) =~= before + all);
    while i < w
        invariant
            i <= w,
            out@ + le(v as nat, (w - i) as nat) == before + all,
        decreases w - i,
    {
        let ghost prev = out@;
        let b: u8 = (v % 256) as u8;
        out.push(b);
        assert(prev + (seq![b] + le((v / 256) as nat, (w - i - 1) as nat)) =~= out@ + le(
            (v / 256) as nat,
            (w - i - 1) as nat,
        ));
        v = v / 256;
        i += 1;
    }
    assert(out@ + le(v as nat, 0) =~= out@);
}

/// The number in bytes.
fn read_num(b: &[u8], from: usize, w: usize) -> (n: u64)
    requires
        from + w <= b@.len(),
        w <= 8,
    ensures
        n == from_le(b@.subrange(from as int, from + w)),
{
    let ghost s = b@.subrange(from as int, from + w);
    let len: usize = b.len();
    let mut n: u64 = 0;
    let mut i: usize = w;
    assert(s.skip(w as int) =~= seq![]);
    while i > 0
        invariant
            i <= w <= 8,
            len == b@.len(),
            from + w <= len,
            s == b@.subrange(from as int, from + w),
            n == from_le(s.skip(i as int)),
        decreases i,
    {
        proof {
            let t = s.skip(i - 1);
            assert(t.skip(1) =~= s.skip(i as int));
            lemma_from_le_bound(t);
            lemma_limit();
            lemma_limit_grows(t.len(), 8);
        }
        n = n * 256 + b[from + i - 1] as u64;
        i -= 1;
    }
    assert(s.skip(0) =~= s);
    n
}

/// Appends the bytes of a field.
fn write_field(out: &mut Vec<u8>, k: Kind, f: &Field)
    requires
        fits(k, f@),
    ensures
        final(out)@ == old(out)@ + field_bytes(k, f@),
{
    match (k, f) {
        (Kind::Num(w), Field::Num(n)) => write_num(out, *n, w),
        (Kind::Text(cap), Field::Text(t)) => {
            let ghost before = out@;
            let e = t.as_str().as_bytes();
            let n: usize = e.len();
            write_num(out, n as u64, 2);
            let ghost head = out@;
            let mut i: usize = 0;
            while i < n
                invariant
                    i <= n,
                    n == e@.len(),
                    out@ =~= head + e@.take(i as int),
                decreases n - i,
            {
                out.push(e[i]);
                i += 1;
            }
            assert(e@.take(n as int) =~= e@);
            let mut j: usize = n;
            while j < cap as usize
                invariant
                    n <= j <= cap,
                    out@ =~= head + e@ + zeros(j - n),
                decreases cap - j,
            {
                out.push(0);
                j += 1;
            }
            assert(out@ =~= before + field_bytes(k, f@));
        },
        _ => {},
    }
}

/// The bytes of a record.
pub fn encode(ks: &Vec<Kind>, fs: &Vec<Field>) -> (out: Vec<u8>)
    requires
        record_fits(ks@, views(fs@)),
    ensures
        out@ == encoded(ks@, views(fs@)),
{
    let mut out: Vec<u8> = Vec::new();
    let mut i: usize = 0;
    while i < ks.len()
        invariant
            i <= ks@.len(),
            record_fits(ks@, views(fs@)),
            out@ =~= record_bytes(ks@, views(fs@), i as int),
        decreases ks@.len() - i,
    {
        assert(fits(ks@[i as int], views(fs@)[i as int]));
        write_field(&mut out, ks[i], &fs[i]);
        i += 1;
    }
    out
}

/// Reads a field.
fn read_field(k: Kind, b: &[u8], from: usize, size: usize) -> (f: Option<Field>)
    requires
        from + size <= b@.len(),
        size == field_size(k),
        k matches Kind::Num(w) ==> w <= 8,
    ensures
        match f {
            Some(f) => field_in(k, b@.subrange(from as int, from + size)) == Some(f@),
            None => field_in(k, b@.subrange(from as int, from + size)) is None,
        },
{
    let ghost s = b@.subrange(from as int, from + size);
    let len: usize = b.len();
    assert(from + size <= len);
    proof {
        reveal(field_in);
    }
    match k {
        Kind::Num(w) => Some(Field::Num(read_num(b, from, w as usize))),
        Kind::Text(cap) => {
            let n: u64 = read_num(b, from, 2);
            assert(b@.subrange(from as int, from + 2) =~= s.take(2));
            if n > cap as u64 {
                return None;
            }
            let t = vstd::slice::slice_subrange(b, from + 2, from + 2 + n as usize);
            assert(t@ =~= s.subrange(2, 2 + n as int));
            match utf8_text(t) {
                Some(text) => {
                    let mut owned = String::new();
                    owned.append(text);
                    assert(owned@ =~= text@);
                    Some(Field::Text(owned))
                },
                None => None,
            }
        },
    }
}

/// Every number of a record has at most eight bytes.
pub open spec fn sane(ks: Seq<Kind>) -> bool {
    forall|i: int| 0 <= i < ks.len() ==> ((#[trigger] ks[i]) matches Kind::Num(w) ==> w <= 8)
}

/// The field `i` of a record was read as `f`.
pub open spec fn is_read(ks: Seq<Kind>, b: Seq<u8>, i: int, f: Field) -> bool {
    field_in(ks[i], slice_of(ks, b, i)) == Some(f@)
}

/// Reads a record; nothing where the bytes hold none.
pub fn decode(ks: &Vec<Kind>, b: &[u8]) -> (r: Option<Vec<Field>>)
    requires
        sane(ks@),
    ensures
        match r {
            Some(fs) => holds_record(ks@, b@) && views(fs@) == decoded(ks@, b@),
            None => !holds_record(ks@, b@),
        },
{
    let mut fs: Vec<Field> = Vec::new();
    let mut at: usize = 0;
    let mut i: usize = 0;
    while i < ks.len()
        invariant
            i <= ks@.len(),
            sane(ks@),
            fs@.len() == i,
            at == field_at(ks@, i as int),
            at <= b@.len(),
            forall|j: int| 0 <= j < i ==> is_read(ks@, b@, j, #[trigger] fs@[j]),
        decreases ks@.len() - i,
    {
        let ghost before = fs@;
        let size: usize = match ks[i] {
            Kind::Num(w) => w as usize,
            Kind::Text(cap) => 2 + cap as usize,
        };
        if size > b.len() - at {
            proof {
                lemma_field_at_grows(ks@, i + 1, ks@.len() as int);
            }
            return None;
        }
        match read_field(ks[i], b, at, size) {
            Some(f) => {
                fs.push(f);
                assert(is_read(ks@, b@, i as int, fs@[i as int]));
                assert forall|j: int| 0 <= j < i + 1 implies is_read(
                    ks@,
                    b@,
                    j,
                    #[trigger] fs@[j],
                ) by {
                    if j < i {
                        assert(fs@[j] == before[j]);
                    }
                }
            },
            None => {
                assert(field_in(ks@[i as int], slice_of(ks@, b@, i as int)) is None);
                return None;
            },
        }
        at = at + size;
        i += 1;
    }
    if at != b.len() {
        return None;
    }
    proof {
        assert forall|j: int| 0 <= j < ks@.len() implies field_in(
            #[trigger] ks@[j],
            slice_of(ks@, b@, j),
        ) is Some by {
            assert(is_read(ks@, b@, j, fs@[j]));
        }
        assert forall|j: int| 0 <= j < ks@.len() implies views(fs@)[j] == decoded(ks@, b@)[j] by {
            assert(is_read(ks@, b@, j, fs@[j]));
        }
        assert(views(fs@) =~= decoded(ks@, b@));
    }
    Some(fs)
}

/// Numbers are kept with their least significant byte first, and texts behind their length.
pub proof fn law_low_byte_comes_first(n: nat, w: nat, t: Seq<char>, cap: u16)
    requires
        w > 0,
        encode_utf8(t).len() <= cap,
    ensures
        le(n, w).len() == w,
        le(n, w)[0] == n % 256,
        le(n, w).skip(1) == le(n / 256, (w - 1) as nat),
        ({
            let b = field_bytes(Kind::Text(cap), FieldView::Text(t));
            &&& b.len() == cap + 2
            &&& b[0] + 256 * b[1] == encode_utf8(t).len()
            &&& b.subrange(2, 2 + encode_utf8(t).len() as int) == encode_utf8(t)
            &&& forall|i: int| 2 + encode_utf8(t).len() <= i < b.len() ==> b[i] == 0
        }),
{
    lemma_le_len(n, w);
    reveal_with_fuel(le, 3);
    assert(le(n, w).skip(1) =~= le(n / 256, (w - 1) as nat));
    let u = encode_utf8(t);
    let b = field_bytes(Kind::Text(cap), FieldView::Text(t));
    lemma_le_len(u.len(), 2);
    assert(b.subrange(2, 2 + u.len() as int) =~= u);
}

proof fn lemma_le_len(n: nat, w: nat)
    ensures
        le(n, w).len() == w,
    decreases w,
{
    if w > 0 {
        lemma_le_len(n / 256, (w - 1) as nat);
    }
}

/// A text fits a field as long as it is no longer than the field, and a number as long as its bytes
/// hold it.
pub proof fn law_fields_hold_what_fits(cap: u16, t: Seq<char>, n: u64)
    ensures
        fits(Kind::Text(cap), FieldView::Text(t)) <==> encode_utf8(t).len() <= cap,
        fits(Kind::Num(1), FieldView::Num(n)) <==> n <= 255,
        fits(Kind::Num(4), FieldView::Num(n)) <==> n <= 0xffff_ffff,
        fits(Kind::Num(8), FieldView::Num(n)),
        !fits(Kind::Text(cap), FieldView::Num(n)),
        !fits(Kind::Num(8), FieldView::Text(t)),
{
    lemma_limit();
}

} // verus!
