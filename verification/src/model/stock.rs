//! Stock prices: the kinds of chart, and the answer of the price service.
use vstd::prelude::*;
#[allow(unused_imports)]
use vstd::slice::*;
#[allow(unused_imports)]
use vstd::string::*;
#[allow(unused_imports)]
use vstd::utf8::*;

use crate::text::{
    dec, digit, digit_char, law_numbers_read_back, law_two_digits_read_back, lemma_encode_join, num_of,
    push_dec, push_within, pushed, two, utf8_text,
};

verus! {

/// The stock that is shown where none is configured.
pub const DEFAULT_STOCK: &'static str = "sh600519";

/// How many bars a chart holds at most.
pub const KLINE_CAP: usize = 64;

/// How many five-minute bars a trading day has.
pub const MINUTE_SLOTS: usize = 48;

/// The longest address of the price service, in bytes.
pub const URL_CAP: usize = 160;

/// What the page of a stock shows: one of five kinds of chart, or the state of trading.
#[derive(Clone, Copy, Debug, PartialEq, Eq, Structural)]
pub enum ChartMode {
    Minute,
    Day,
    Week,
    Month,
    Line,
    Quote,
}

/// Where what is shown comes from.
#[derive(Clone, Copy, Debug, PartialEq, Eq, Structural)]
pub enum ChartSource {
    Minute,
    Day,
    Week,
    Month,
    Quote,
}

impl ChartMode {
    /// The kind of chart after this one; from the state of trading, the first.
    pub open spec fn following(self) -> ChartMode {
        match self {
            ChartMode::Minute => ChartMode::Day,
            ChartMode::Day => ChartMode::Week,
            ChartMode::Week => ChartMode::Month,
            ChartMode::Month => ChartMode::Line,
            ChartMode::Line | ChartMode::Quote => ChartMode::Minute,
        }
    }

    /// The kind of chart before this one; from the state of trading, the last.
    pub open spec fn preceding(self) -> ChartMode {
        match self {
            ChartMode::Minute | ChartMode::Quote => ChartMode::Line,
            ChartMode::Day => ChartMode::Minute,
            ChartMode::Week => ChartMode::Day,
            ChartMode::Month => ChartMode::Week,
            ChartMode::Line => ChartMode::Month,
        }
    }

    /// The name of the kind.
    pub open spec fn name(self) -> Seq<char> {
        match self {
            ChartMode::Minute => "分时"@,
            ChartMode::Day => "日K"@,
            ChartMode::Week => "周K"@,
            ChartMode::Month => "月K"@,
            ChartMode::Line => "折线"@,
            ChartMode::Quote => "行情"@,
        }
    }

    /// Where the data comes from: the line is drawn from the bars of days.
    pub open spec fn bars_from(self) -> ChartSource {
        match self {
            ChartMode::Minute => ChartSource::Minute,
            ChartMode::Day | ChartMode::Line => ChartSource::Day,
            ChartMode::Week => ChartSource::Week,
            ChartMode::Month => ChartSource::Month,
            ChartMode::Quote => ChartSource::Quote,
        }
    }

    /// How many minutes a bar spans; beside the state of trading, a day.
    pub open spec fn scale(self) -> nat {
        match self.bars_from() {
            ChartSource::Minute => 5,
            ChartSource::Day | ChartSource::Quote => 240,
            ChartSource::Week => 1200,
            ChartSource::Month => 7200,
        }
    }

    /// The kind of chart after this one.
    pub fn next(self) -> (m: ChartMode)
        ensures
            m == self.following(),
    {
        match self {
            ChartMode::Minute => ChartMode::Day,
            ChartMode::Day => ChartMode::Week,
            ChartMode::Week => ChartMode::Month,
            ChartMode::Month => ChartMode::Line,
            ChartMode::Line | ChartMode::Quote => ChartMode::Minute,
        }
    }

    /// The kind of chart before this one.
    pub fn prev(self) -> (m: ChartMode)
        ensures
            m == self.preceding(),
    {
        match self {
            ChartMode::Minute | ChartMode::Quote => ChartMode::Line,
            ChartMode::Day => ChartMode::Minute,
            ChartMode::Week => ChartMode::Day,
            ChartMode::Month => ChartMode::Week,
            ChartMode::Line => ChartMode::Month,
        }
    }

    /// The name of the kind.
    pub fn label(self) -> (s: &'static str)
        ensures
            s@ == self.name(),
    {
        match self {
            ChartMode::Minute => "分时",
            ChartMode::Day => "日K",
            ChartMode::Week => "周K",
            ChartMode::Month => "月K",
            ChartMode::Line => "折线",
            ChartMode::Quote => "行情",
        }
    }

    /// Whether the chart shows one day.
    pub fn is_minute(self) -> (b: bool)
        ensures
            b == (self is Minute),
    {
        match self {
            ChartMode::Minute => true,
            _ => false,
        }
    }

    /// Whether the state of trading is shown.
    pub fn is_quote(self) -> (b: bool)
        ensures
            b == (self is Quote),
    {
        match self {
            ChartMode::Quote => true,
            _ => false,
        }
    }

    /// Whether the chart is drawn as a line.
    pub fn is_line_render(self) -> (b: bool)
        ensures
            b == (self is Minute || self is Line),
    {
        match self {
            ChartMode::Minute | ChartMode::Line => true,
            _ => false,
        }
    }

    /// Where the data comes from.
    pub fn source(self) -> (s: ChartSource)
        ensures
            s == self.bars_from(),
    {
        match self {
            ChartMode::Minute => ChartSource::Minute,
            ChartMode::Day | ChartMode::Line => ChartSource::Day,
            ChartMode::Week => ChartSource::Week,
            ChartMode::Month => ChartSource::Month,
            ChartMode::Quote => ChartSource::Quote,
        }
    }
}

/// Going on and back through the kinds of chart comes back to the same one, and going on five
/// times does too.
pub proof fn law_modes_go_round(m: ChartMode)
    requires
        !(m is Quote),
    ensures
        m.following().preceding() == m,
        m.preceding().following() == m,
        m.following().following().following().following().following() == m,
{
}

/// How many bars are asked for: none for the state of trading.
pub open spec fn bars_wanted(mode: ChartMode) -> int {
    match mode.bars_from() {
        ChartSource::Minute => 48,
        ChartSource::Day => 60,
        ChartSource::Week => 52,
        ChartSource::Month => 24,
        ChartSource::Quote => 0,
    }
}

/// How many bars are asked for.
pub fn bar_count(mode: ChartMode) -> (n: usize)
    ensures
        n == bars_wanted(mode),
        n <= KLINE_CAP,
{
    match mode {
        ChartMode::Minute => 48,
        ChartMode::Day | ChartMode::Line => 60,
        ChartMode::Week => 52,
        ChartMode::Month => 24,
        ChartMode::Quote => 0,
    }
}

/// `s` with the characters of `t` from the `i`-th on appended one by one, each where there is room
/// for it in `cap` bytes.
pub open spec fn pushed_each(s: Seq<char>, t: Seq<char>, cap: int) -> Seq<char>
    decreases t.len(),
{
    if t.len() == 0 {
        s
    } else {
        pushed(pushed_each(s, t.drop_last(), cap), seq![t.last()], cap)
    }
}

/// Appends the decimal digits of `n`, each where there is room for it in `cap` bytes.
pub fn push_u32(s: &mut String, n: u32, cap: usize)
    ensures
        final(s)@ == pushed_each(old(s)@, dec(n as nat), cap as int),
    decreases n,
{
    let ghost before = s@;
    if n >= 10 {
        push_u32(s, n / 10, cap);
    }
    let mut d = String::new();
    d.push(digit((n % 10) as u8));
    proof {
        let t = dec(n as nat);
        assert(d@ =~= seq![t.last()]);
        if n >= 10 {
            assert(t.drop_last() =~= dec((n / 10) as nat));
        } else {
            assert(t.drop_last() =~= seq![]);
            assert(pushed_each(before, t.drop_last(), cap as int) == before);
        }
    }
    push_within(s, d.as_str(), cap);
}

/// The address at which the price service gives so many bars of a stock. What does not fit into
/// the longest address is left out.
pub open spec fn kline_url(code: Seq<char>, mode: ChartMode, count: nat) -> Seq<char> {
    let cap = URL_CAP as int;
    let a = pushed(
        seq![],
        "http://money.finance.sina.com.cn/quotes_service/api/json_v2.php/CN_MarketData.getKLineData?symbol="@,
        cap,
    );
    let b = pushed(pushed(a, code, cap), "&scale="@, cap);
    let c = pushed(pushed_each(b, dec(mode.scale()), cap), "&ma=no&datalen="@, cap);
    pushed_each(c, dec(count), cap)
}

/// The address at which the price service gives so many bars of a stock.
pub fn build_url(code: &str, mode: ChartMode, count: u32) -> (url: String)
    ensures
        url@ == kline_url(code@, mode, count as nat),
{
    let scale: u32 = match mode {
        ChartMode::Minute => 5,
        ChartMode::Day | ChartMode::Line | ChartMode::Quote => 240,
        ChartMode::Week => 1200,
        ChartMode::Month => 7200,
    };
    let mut s = String::new();
    push_within(
        &mut s,
        "http://money.finance.sina.com.cn/quotes_service/api/json_v2.php/CN_MarketData.getKLineData?symbol=",
        URL_CAP,
    );
    push_within(&mut s, code, URL_CAP);
    push_within(&mut s, "&scale=", URL_CAP);
    push_u32(&mut s, scale, URL_CAP);
    push_within(&mut s, "&ma=no&datalen=", URL_CAP);
    push_u32(&mut s, count, URL_CAP);
    s
}

/// The number that the digits among `b` spell.
pub open spec fn digits_num(b: Seq<u8>) -> nat
    decreases b.len(),
{
    if b.len() == 0 {
        0
    } else {
        let before = digits_num(b.drop_last());
        if 48 <= b.last() <= 57 {
            before * 10 + (b.last() - 48) as nat
        } else {
            before
        }
    }
}

/// The date that a text spells by its digits; the largest number where it is larger.
pub open spec fn date_of(b: Seq<u8>) -> u64 {
    if digits_num(b) <= u64::MAX {
        digits_num(b) as u64
    } else {
        u64::MAX
    }
}

proof fn lemma_digits_grow(b: Seq<u8>, k: int)
    requires
        0 <= k <= b.len(),
    ensures
        digits_num(b.take(k)) <= digits_num(b),
    decreases b.len() - k,
{
    if k < b.len() {
        lemma_digits_grow(b, k + 1);
        assert(b.take(k + 1).drop_last() =~= b.take(k));
        let before = digits_num(b.take(k));
        assert(before <= before * 10);
    } else {
        assert(b.take(k) =~= b);
    }
}

/// The date that a text spells by its digits.
pub fn parse_date(b: &[u8]) -> (n: u64)
    ensures
        n == date_of(b@),
{
    let mut n: u64 = 0;
    let mut i: usize = 0;
    while i < b.len()
        invariant
            i <= b@.len(),
            n == digits_num(b@.take(i as int)),
        decreases b@.len() - i,
    {
        let c: u8 = b[i];
        proof {
            assert(b@.take(i + 1).drop_last() =~= b@.take(i as int));
        }
        if c >= 48 && c <= 57 {
            let wide: u128 = n as u128 * 10 + (c - 48) as u128;
            if wide > u64::MAX as u128 {
                proof {
                    lemma_digits_grow(b@, i + 1);
                }
                return u64::MAX;
            }
            n = wide as u64;
        }
        i += 1;
    }
    assert(b@.take(i as int) =~= b@);
    n
}

/// A bar as it was received: its date, and its prices as text.
pub struct RawBar {
    pub date: u64,
    pub open: Vec<u8>,
    pub high: Vec<u8>,
    pub low: Vec<u8>,
    pub close: Vec<u8>,
}

/// A received bar as plain values.
pub struct BarView {
    pub date: u64,
    pub open: Seq<u8>,
    pub high: Seq<u8>,
    pub low: Seq<u8>,
    pub close: Seq<u8>,
}

impl View for RawBar {
    type V = BarView;

    open spec fn view(&self) -> BarView {
        BarView {
            date: self.date,
            open: self.open@,
            high: self.high@,
            low: self.low@,
            close: self.close@,
        }
    }
}

/// A bar of which nothing was received.
pub open spec fn no_bar() -> BarView {
    BarView { date: 0, open: seq![], high: seq![], low: seq![], close: seq![] }
}

/// Bars as plain values.
pub open spec fn bars_of(v: Seq<RawBar>) -> Seq<BarView> {
    Seq::new(v.len(), |i: int| v[i]@)
}

/// The first quotation mark from `i` on, or the end.
pub open spec fn next_mark(b: Seq<u8>, i: int) -> int
    decreases b.len() - i,
{
    if 0 <= i < b.len() && b[i] != 34 {
        next_mark(b, i + 1)
    } else {
        i
    }
}

/// The first byte from `i` on that is no space, or the end.
pub open spec fn past_spaces(b: Seq<u8>, i: int) -> int
    decreases b.len() - i,
{
    if 0 <= i < b.len() && b[i] == 32 {
        past_spaces(b, i + 1)
    } else {
        i
    }
}

/// One past `i`, or the end.
pub open spec fn past(b: Seq<u8>, i: int) -> int {
    if i < b.len() {
        i + 1
    } else {
        i
    }
}

/// A bar with one of its fields received.
pub open spec fn with_field(bar: BarView, key: Seq<u8>, val: Seq<u8>) -> BarView {
    if key == seq![111u8, 112, 101, 110] {
        BarView { open: val, ..bar }
    } else if key == seq![104u8, 105, 103, 104] {
        BarView { high: val, ..bar }
    } else if key == seq![108u8, 111, 119] {
        BarView { low: val, ..bar }
    } else if key == seq![99u8, 108, 111, 115, 101] {
        BarView { close: val, ..bar }
    } else if key == seq![100u8, 97, 121] {
        BarView { date: date_of(val), ..bar }
    } else {
        bar
    }
}

/// A pair of quoted texts from `i` on, a key and its value: where each begins and ends, and where
/// what follows begins. None where there is no whole pair.
pub open spec fn next_pair(b: Seq<u8>, i: int) -> Option<(int, int, int, int, int)> {
    let n = b.len();
    let k0 = next_mark(b, i) + 1;
    let k1 = next_mark(b, k0);
    let q = next_mark(b, past(b, k1));
    let v0 = q + 1;
    let v1 = next_mark(b, v0);
    if next_mark(b, i) >= n || k0 >= n || q >= n {
        None
    } else {
        Some((k0, k1, v0, v1, past(b, v1)))
    }
}

/// The bars from `i` on, after `out`, where `cur` is what was received of the next one. A closing
/// brace behind a value ends a bar; bars beyond the largest number are left out.
pub open spec fn bars_from(b: Seq<u8>, i: int, cur: BarView, out: Seq<BarView>) -> Seq<BarView>
    decreases b.len() - i,
{
    match next_pair(b, i) {
        None => out,
        Some((k0, k1, v0, v1, on)) => {
            let bar = with_field(cur, b.subrange(k0, k1), b.subrange(v0, v1));
            let j = past_spaces(b, on);
            if !(i < on <= b.len()) {
                out
            } else if j < b.len() && b[j] == 125 {
                if j + 1 <= i {
                    out
                } else {
                    bars_from(
                        b,
                        j + 1,
                        no_bar(),
                        if out.len() < KLINE_CAP {
                            out.push(bar)
                        } else {
                            out
                        },
                    )
                }
            } else {
                bars_from(b, on, bar, out)
            }
        },
    }
}

proof fn lemma_next_mark(b: Seq<u8>, i: int)
    requires
        0 <= i <= b.len(),
    ensures
        i <= next_mark(b, i) <= b.len(),
        next_mark(b, i) < b.len() ==> b[next_mark(b, i)] == 34,
    decreases b.len() - i,
{
    if i < b.len() && b[i] != 34 {
        lemma_next_mark(b, i + 1);
    }
}

proof fn lemma_past_spaces(b: Seq<u8>, i: int)
    requires
        0 <= i <= b.len(),
    ensures
        i <= past_spaces(b, i) <= b.len(),
    decreases b.len() - i,
{
    if i < b.len() && b[i] == 32 {
        lemma_past_spaces(b, i + 1);
    }
}

/// The first quotation mark from `i` on, or the end.
fn find_mark(b: &[u8], i: usize) -> (r: usize)
    requires
        i <= b@.len(),
    ensures
        r == next_mark(b@, i as int),
        i <= r <= b@.len(),
{
    let mut k: usize = i;
    while k < b.len() && b[k] != 34
        invariant
            i <= k <= b@.len(),
            next_mark(b@, i as int) == next_mark(b@, k as int),
        decreases b@.len() - k,
    {
        k += 1;
    }
    k
}

/// A copy of a part.
fn copy_part(b: &[u8], s: usize, e: usize) -> (v: Vec<u8>)
    requires
        s <= e <= b@.len(),
    ensures
        v@ == b@.subrange(s as int, e as int),
{
    let mut v: Vec<u8> = Vec::new();
    let mut i: usize = s;
    while i < e
        invariant
            s <= i <= e <= b@.len(),
            v@ =~= b@.subrange(s as int, i as int),
        decreases e - i,
    {
        v.push(b[i]);
        i += 1;
    }
    v
}

/// Whether the bytes from `s` to `e` are `w`.
fn part_is(b: &[u8], s: usize, e: usize, w: &[u8]) -> (r: bool)
    requires
        s <= e <= b@.len(),
    ensures
        r == (b@.subrange(s as int, e as int) == w@),
{
    if e - s != w.len() {
        return false;
    }
    let mut i: usize = 0;
    while i < w.len()
        invariant
            i <= w@.len(),
            w@.len() == e - s,
            s <= e <= b@.len(),
            forall|k: int| 0 <= k < i ==> b@[s + k] == w@[k],
        decreases w@.len() - i,
    {
        if b[s + i] != w[i] {
            assert(b@.subrange(s as int, e as int)[i as int] != w@[i as int]);
            return false;
        }
        i += 1;
    }
    assert(b@.subrange(s as int, e as int) =~= w@);
    true
}

/// Notes a received field of a bar.
fn set_field(bar: &mut RawBar, b: &[u8], k0: usize, k1: usize, v0: usize, v1: usize)
    requires
        k0 <= k1 <= b@.len(),
        v0 <= v1 <= b@.len(),
    ensures
        final(bar)@ == with_field(
            old(bar)@,
            b@.subrange(k0 as int, k1 as int),
            b@.subrange(v0 as int, v1 as int),
        ),
{
    let open: [u8; 4] = [111, 112, 101, 110];
    let high: [u8; 4] = [104, 105, 103, 104];
    let low: [u8; 3] = [108, 111, 119];
    let close: [u8; 5] = [99, 108, 111, 115, 101];
    let day: [u8; 3] = [100, 97, 121];
    proof {
        assert(open@ =~= seq![111u8, 112, 101, 110]);
        assert(high@ =~= seq![104u8, 105, 103, 104]);
        assert(low@ =~= seq![108u8, 111, 119]);
        assert(close@ =~= seq![99u8, 108, 111, 115, 101]);
        assert(day@ =~= seq![100u8, 97, 121]);
    }
    if part_is(b, k0, k1, open.as_slice()) {
        bar.open = copy_part(b, v0, v1);
    } else if part_is(b, k0, k1, high.as_slice()) {
        bar.high = copy_part(b, v0, v1);
    } else if part_is(b, k0, k1, low.as_slice()) {
        bar.low = copy_part(b, v0, v1);
    } else if part_is(b, k0, k1, close.as_slice()) {
        bar.close = copy_part(b, v0, v1);
    } else if part_is(b, k0, k1, day.as_slice()) {
        bar.date = parse_date(slice_subrange(b, v0, v1));
    }
}

/// A bar of which nothing was received.
fn new_bar() -> (bar: RawBar)
    ensures
        bar@ == no_bar(),
{
    RawBar {
        date: 0,
        open: Vec::new(),
        high: Vec::new(),
        low: Vec::new(),
        close: Vec::new(),
    }
}

/// The bars in an answer of the price service; nothing where the answer is no text.
pub fn parse_kline(data: &[u8]) -> (r: Option<Vec<RawBar>>)
    ensures
        r is Some <==> valid_utf8(data@),
        r matches Some(bars) ==> bars_of(bars@) == bars_from(data@, 0, no_bar(), seq![])
            && bars@.len() <= KLINE_CAP,
{
    if utf8_text(data).is_none() {
        return None;
    }
    let b = data;
    let n: usize = b.len();
    let mut out: Vec<RawBar> = Vec::new();
    let mut cur = new_bar();
    let mut i: usize = 0;
    assert(bars_of(out@) =~= seq![]);
    loop
        invariant
            n == b@.len(),
            i <= n,
            b@ == data@,
            valid_utf8(data@),
            out@.len() <= KLINE_CAP,
            bars_from(data@, 0, no_bar(), seq![]) == bars_from(b@, i as int, cur@, bars_of(out@)),
        decreases n - i,
    {
        let q0: usize = find_mark(b, i);
        if q0 >= n || q0 + 1 >= n {
            return Some(out);
        }
        let k0: usize = q0 + 1;
        let k1: usize = find_mark(b, k0);
        let after_key: usize = if k1 < n {
            k1 + 1
        } else {
            k1
        };
        let q: usize = find_mark(b, after_key);
        if q >= n {
            return Some(out);
        }
        let v0: usize = q + 1;
        let v1: usize = find_mark(b, v0);
        let on: usize = if v1 < n {
            v1 + 1
        } else {
            v1
        };
        let ghost before = cur@;
        set_field(&mut cur, b, k0, k1, v0, v1);
        let mut j: usize = on;
        while j < n && b[j] == 32
            invariant
                on <= j <= n,
                n == b@.len(),
                past_spaces(b@, on as int) == past_spaces(b@, j as int),
            decreases n - j,
        {
            j += 1;
        }
        if j < n && b[j] == 125 {
            if out.len() < KLINE_CAP {
                let ghost bars = bars_of(out@);
                out.push(cur);
                assert(bars_of(out@) =~= bars.push(cur@));
            }
            cur = new_bar();
            i = j + 1;
        } else {
            i = on;
        }
    }
}

/// The five-minute bar in which a minute of the day falls: the first before trading begins, the last
/// after it has ended, and the last of the morning at noon.
pub open spec fn slot_at(minute: int) -> int {
    if minute < 570 {
        0
    } else if minute < 690 {
        (minute - 570) / 5
    } else if minute < 780 {
        23
    } else if minute < 900 {
        24 + (minute - 780) / 5
    } else {
        47
    }
}

/// The five-minute bar in which a time falls.
pub fn now_slot(hour: u8, minute: u8) -> (s: u8)
    ensures
        s == slot_at(hour * 60 + minute),
        s < MINUTE_SLOTS,
{
    let m: u32 = hour as u32 * 60 + minute as u32;
    if m < 570 {
        0
    } else if m < 690 {
        ((m - 570) / 5) as u8
    } else if m < 780 {
        23
    } else if m < 900 {
        (24 + (m - 780) / 5) as u8
    } else {
        47
    }
}

/// Which price of which bar.
#[derive(Clone, Copy, Debug, PartialEq, Eq, Structural)]
pub enum PriceAt {
    Open(usize),
    Close(usize),
}

/// Where the current price and the one it is compared to come from among `n` bars: the last close,
/// and the close before it; on a chart of one day the first opening price.
pub fn price_points(n: usize, mode: ChartMode) -> (r: Option<(PriceAt, PriceAt)>)
    ensures
        r == (if n == 0 {
            None
        } else if n == 1 || mode is Minute {
            Some((PriceAt::Close((n - 1) as usize), PriceAt::Open(0)))
        } else {
            Some((PriceAt::Close((n - 1) as usize), PriceAt::Close((n - 2) as usize)))
        }),
{
    if n >= 2 {
        if mode.is_minute() {
            Some((PriceAt::Close(n - 1), PriceAt::Open(0)))
        } else {
            Some((PriceAt::Close(n - 1), PriceAt::Close(n - 2)))
        }
    } else if n == 1 {
        Some((PriceAt::Close(0), PriceAt::Open(0)))
    } else {
        None
    }
}

/// An amount in hundredths, with its sign.
#[derive(Clone, Copy, Debug, PartialEq, Eq, Structural)]
pub struct Cents {
    pub neg: bool,
    pub cents: u32,
}

/// The digits of an amount with two decimals.
pub open spec fn amount(c: Cents) -> Seq<char> {
    dec((c.cents / 100) as nat) + seq![
        '.',
        digit_char(((c.cents % 100) / 10) as int),
        digit_char((c.cents % 10) as int),
    ]
}

/// Appends the digits of an amount.
fn push_amount(s: &mut String, c: Cents)
    ensures
        final(s)@ == old(s)@ + amount(c),
{
    push_dec(s, (c.cents / 100) as u64);
    s.push('.');
    s.push(digit(((c.cents % 100) / 10) as u8));
    s.push(digit((c.cents % 10) as u8));
    assert(s@ =~= old(s)@ + amount(c));
}

/// A price with two decimals, with a sign only where it is negative.
pub open spec fn price_text(c: Cents) -> Seq<char> {
    if c.neg {
        seq!['-'] + amount(c)
    } else {
        amount(c)
    }
}

/// A change with two decimals, with a sign.
pub open spec fn change_text(c: Cents) -> Seq<char> {
    seq![
        if c.neg {
            '-'
        } else {
            '+'
        },
    ] + amount(c)
}

/// A price with two decimals, with a sign only where it is negative.
pub fn fmt_price(c: Cents) -> (s: String)
    ensures
        s@ == price_text(c),
{
    let mut s = String::new();
    if c.neg {
        s.push('-');
    }
    push_amount(&mut s, c);
    assert(s@ =~= price_text(c));
    s
}

/// A change with two decimals, with a sign.
pub fn fmt_signed(c: Cents) -> (s: String)
    ensures
        s@ == change_text(c),
{
    let mut s = String::new();
    if c.neg {
        s.push('-');
    } else {
        s.push('+');
    }
    push_amount(&mut s, c);
    assert(s@ =~= change_text(c));
    s
}

/// Every source asks for bars of its own span: a day has forty-eight bars of five minutes, a week
/// five days and a month thirty; only the line and the days share theirs.
pub proof fn law_spans_are_of_their_source(a: ChartMode, b: ChartMode)
    ensures
        48 * ChartMode::Minute.scale() == ChartMode::Day.scale(),
        ChartMode::Week.scale() == 5 * ChartMode::Day.scale(),
        ChartMode::Month.scale() == 30 * ChartMode::Day.scale(),
        ChartMode::Minute.scale() == 5,
        ChartMode::Line.bars_from() == ChartMode::Day.bars_from(),
        !(a is Quote) && !(b is Quote) ==> ((a.scale() == b.scale()) <==> (a.bars_from()
            == b.bars_from())),
        a.bars_from() == b.bars_from() && a != b ==> !(a is Quote) && !(a is Minute) && !(a is Week)
            && !(a is Month),
{
}

/// A chart asks for as many bars as it is about: a day of minutes, a year of weeks, two years of
/// months.
pub proof fn law_bars_fill_their_time(m: ChartMode)
    ensures
        bars_wanted(ChartMode::Minute) * ChartMode::Minute.scale() == ChartMode::Day.scale(),
        bars_wanted(ChartMode::Week) == 52,
        bars_wanted(ChartMode::Month) == 2 * 12,
        bars_wanted(ChartMode::Day) == 60 && bars_wanted(ChartMode::Line) == 60,
        bars_wanted(m) <= KLINE_CAP,
{
}

/// An address that has room names the stock, the span of a bar and the number of bars, each as a
/// number that reads back.
#[verifier::rlimit(50)]
pub proof fn law_address_names_what_is_asked(code: Seq<char>, mode: ChartMode, count: nat)
    requires
        encode_utf8(
            "http://money.finance.sina.com.cn/quotes_service/api/json_v2.php/CN_MarketData.getKLineData?symbol="@
                + code + "&scale="@ + dec(mode.scale()) + "&ma=no&datalen="@ + dec(count),
        ).len() <= 160,
    ensures
        exists|span: Seq<char>, n: Seq<char>|
            {
                &&& #[trigger] asks(kline_url(code, mode, count), code, span, n)
                &&& num_of(n) == count
                &&& mode is Minute ==> num_of(span) == 5
                &&& mode is Day || mode is Line ==> num_of(span) == 240
                &&& mode is Week ==> num_of(span) == 1200
                &&& mode is Month ==> num_of(span) == 7200
            },
{
    let head = "http://money.finance.sina.com.cn/quotes_service/api/json_v2.php/CN_MarketData.getKLineData?symbol="@;
    let span = dec(mode.scale());
    let n = dec(count);
    let cap = URL_CAP as int;
    let e = Seq::<char>::empty();
    lemma_encode_join(head + code + "&scale="@ + span + "&ma=no&datalen="@, n);
    lemma_encode_join(head + code + "&scale="@ + span, "&ma=no&datalen="@);
    lemma_encode_join(head + code + "&scale="@, span);
    lemma_encode_join(head + code, "&scale="@);
    lemma_encode_join(head, code);
    lemma_encode_join(e, head);
    assert(e + head =~= head);
    lemma_each_fits(head + code + "&scale="@, span, cap);
    lemma_each_fits(head + code + "&scale="@ + span + "&ma=no&datalen="@, n, cap);
    law_numbers_read_back(mode.scale());
    law_numbers_read_back(count);
    assert(asks(kline_url(code, mode, count), code, span, n));
}

/// An address asks for bars of a stock.
pub open spec fn asks(url: Seq<char>, code: Seq<char>, span: Seq<char>, n: Seq<char>) -> bool {
    url
        == "http://money.finance.sina.com.cn/quotes_service/api/json_v2.php/CN_MarketData.getKLineData?symbol="@
        + code + "&scale="@ + span + "&ma=no&datalen="@ + n
}

proof fn lemma_each_fits(s: Seq<char>, t: Seq<char>, cap: int)
    requires
        encode_utf8(s).len() + encode_utf8(t).len() <= cap,
    ensures
        pushed_each(s, t, cap) == s + t,
    decreases t.len(),
{
    if t.len() > 0 {
        let before = t.drop_last();
        assert(before + seq![t.last()] =~= t);
        lemma_encode_join(before, seq![t.last()]);
        lemma_each_fits(s, before, cap);
        lemma_encode_join(s, before);
        assert(s + before + seq![t.last()] =~= s + t);
    } else {
        assert(s + t =~= s);
    }
}

/// A text gives an amount: its hundredths behind a point, and before it the rest.
pub open spec fn gives_amount(t: Seq<char>, c: Cents) -> bool {
    let n = t.len() as int;
    &&& n >= 4
    &&& t[n - 3] == '.'
    &&& num_of(t.take(n - 3)) * 100 + num_of(t.skip(n - 2)) == c.cents
    &&& forall|i: int| 0 <= i < n && i != n - 3 ==> '0' <= #[trigger] t[i] <= '9'
}

/// A price reads back to the hundredth, and so does a change, which shows its sign whichever it is.
pub proof fn law_prices_read_back(c: Cents)
    ensures
        !c.neg ==> gives_amount(price_text(c), c),
        c.neg ==> price_text(c)[0] == '-' && gives_amount(price_text(c).skip(1), c),
        gives_amount(change_text(c).skip(1), c),
        change_text(c)[0] == (if c.neg {
            '-'
        } else {
            '+'
        }),
{
    lemma_amount(c);
    assert((seq!['-'] + amount(c)).skip(1) =~= amount(c));
    assert(change_text(c).skip(1) =~= amount(c));
}

proof fn lemma_amount(c: Cents)
    ensures
        gives_amount(amount(c), c),
{
    let whole = dec((c.cents / 100) as nat);
    let k = (c.cents % 100) as int;
    law_numbers_read_back((c.cents / 100) as nat);
    law_two_digits_read_back(k);
    let t = amount(c);
    let n = t.len() as int;
    assert(k % 10 == c.cents % 10);
    assert(t =~= whole + seq!['.'] + two(k));
    assert(t.take(n - 3) =~= whole);
    assert(t.skip(n - 2) =~= two(k));
    assert forall|i: int| 0 <= i < n && i != n - 3 implies '0' <= #[trigger] t[i] <= '9' by {
        if i < n - 3 {
            assert(t[i] == whole[i]);
        } else if i == n - 2 {
            assert(t[i] == two(k)[0]);
        } else {
            assert(t[i] == two(k)[1]);
        }
    }
}

/// The date of a bar is what its digits spell, whatever stands between them.
pub proof fn law_dates_are_their_digits(a: Seq<u8>, sep: u8, b: Seq<u8>)
    requires
        !(48 <= sep <= 57),
    ensures
        digits_num(a + seq![sep] + b) == digits_num(a + b),
        forall|d: u8| 48 <= d <= 57 ==> #[trigger] digits_num(a.push(d)) == 10 * digits_num(a) + (d - 48),
        digits_num(a) <= u64::MAX ==> date_of(a) == digits_num(a),
    decreases b.len(),
{
    assert forall|d: u8| 48 <= d <= 57 implies #[trigger] digits_num(a.push(d)) == 10 * digits_num(a) + (d
        - 48) by {
        assert(a.push(d).drop_last() =~= a);
    }
    let s = a + seq![sep] + b;
    if b.len() == 0 {
        assert(s.drop_last() =~= a);
        assert(a + b =~= a);
    } else {
        law_dates_are_their_digits(a, sep, b.drop_last());
        assert(s.drop_last() =~= a + seq![sep] + b.drop_last());
        assert((a + b).drop_last() =~= a + b.drop_last());
        assert(s.last() == b.last());
        assert((a + b).last() == b.last());
    }
}

/// Every field of a bar is received under its own name, and others are passed over.
#[verifier::rlimit(50)]
pub proof fn law_fields_go_by_their_name(bar: BarView, key: Seq<u8>, val: Seq<u8>)
    ensures
        ({
            let r = with_field(bar, key, val);
            let name = |t: Seq<char>| key == Seq::new(t.len(), |i: int| t[i] as u8);
            &&& name("open"@) ==> r == (BarView { open: val, ..bar })
            &&& name("high"@) ==> r == (BarView { high: val, ..bar })
            &&& name("low"@) ==> r == (BarView { low: val, ..bar })
            &&& name("close"@) ==> r == (BarView { close: val, ..bar })
            &&& name("day"@) ==> r == (BarView { date: date_of(val), ..bar })
            &&& !name("open"@) && !name("high"@) && !name("low"@) && !name("close"@) && !name("day"@)
                ==> r == bar
        }),
{
    reveal_strlit("open");
    reveal_strlit("high");
    reveal_strlit("low");
    reveal_strlit("close");
    reveal_strlit("day");
    assert(Seq::new("open"@.len(), |i: int| "open"@[i] as u8) =~= seq![111u8, 112, 101, 110]);
    assert(Seq::new("high"@.len(), |i: int| "high"@[i] as u8) =~= seq![104u8, 105, 103, 104]);
    assert(Seq::new("low"@.len(), |i: int| "low"@[i] as u8) =~= seq![108u8, 111, 119]);
    assert(Seq::new("close"@.len(), |i: int| "close"@[i] as u8) =~= seq![99u8, 108, 111, 115, 101]);
    assert(Seq::new("day"@.len(), |i: int| "day"@[i] as u8) =~= seq![100u8, 97, 121]);
    assert(seq![111u8, 112, 101, 110][0] == 111 && seq![104u8, 105, 103, 104][0] == 104);
    assert(seq![108u8, 111, 119].len() == 3 && seq![99u8, 108, 111, 115, 101].len() == 5);
    assert(seq![108u8, 111, 119][0] == 108 && seq![100u8, 97, 121][0] == 100);
    assert(seq![111u8, 112, 101, 110].len() == 4 && seq![104u8, 105, 103, 104].len() == 4);
    assert(seq![100u8, 97, 121].len() == 3);
}

/// The bar of a time: a later time has no earlier one, five minutes of trading are one further on, and
/// the break at noon belongs to the last of the morning.
pub proof fn law_bars_follow_the_clock(a: int, b: int)
    requires
        0 <= a <= b,
    ensures
        0 <= slot_at(a) <= slot_at(b) < MINUTE_SLOTS,
        9 * 60 + 30 <= a && a + 5 < 11 * 60 + 30 ==> slot_at(a + 5) == slot_at(a) + 1,
        13 * 60 <= a && a + 5 < 15 * 60 ==> slot_at(a + 5) == slot_at(a) + 1,
        a < 9 * 60 + 35 ==> slot_at(a) == 0,
        a >= 15 * 60 - 5 ==> slot_at(a) == MINUTE_SLOTS - 1,
        11 * 60 + 25 <= a < 13 * 60 ==> slot_at(a) == MINUTE_SLOTS / 2 - 1,
        13 * 60 <= a < 13 * 60 + 5 ==> slot_at(a) == MINUTE_SLOTS / 2,
{
}

/// The kinds of chart are named by what a bar spans.
pub proof fn law_charts_are_named_by_their_span(m: ChartMode)
    ensures
        m.name().len() == 2,
        m.name()[0] == '分' <==> m is Minute,
        m.name()[0] == '日' <==> m is Day,
        m.name()[0] == '周' <==> m is Week,
        m.name()[0] == '月' <==> m is Month,
        m.name()[0] == '折' <==> m is Line,
        m.name()[0] == '行' <==> m is Quote,
{
    reveal_strlit("分时");
    reveal_strlit("日K");
    reveal_strlit("周K");
    reveal_strlit("月K");
    reveal_strlit("折线");
    reveal_strlit("行情");
}

/// The kinds of chart follow one another from the shortest span to the longest, then comes the line.
pub proof fn law_charts_follow_by_span(m: ChartMode)
    ensures
        m is Minute || m is Day || m is Week ==> m.following().scale() > m.scale(),
        m is Month ==> m.following() is Line,
        m is Line ==> m.following() is Minute,
        m.following().bars_from() != m.bars_from(),
{
}

proof fn lemma_mark_at(b: Seq<u8>, i: int, q: int)
    requires
        0 <= i <= q < b.len(),
        b[q] == 34,
        forall|k: int| i <= k < q ==> b[k] != 34,
    ensures
        next_mark(b, i) == q,
    decreases q - i,
{
    if i < q {
        lemma_mark_at(b, i + 1, q);
    }
}

/// A name and its value are what stands between quotation marks: the next two pairs of them, with
/// none in between.
pub proof fn law_pairs_stand_in_quotation_marks(b: Seq<u8>, i: int, q0: int, q1: int, q2: int, q3: int)
    requires
        0 <= i <= q0 < q1 < q2 < q3 < b.len(),
        b[q0] == '"' as u8 && b[q1] == '"' as u8 && b[q2] == '"' as u8 && b[q3] == '"' as u8,
        forall|k: int| i <= k < q3 && b[k] == '"' as u8 ==> k == q0 || k == q1 || k == q2,
    ensures
        next_pair(b, i) == Some((q0 + 1, q1, q2 + 1, q3, q3 + 1)),
{
    assert('"' as u8 == 34);
    lemma_mark_at(b, i, q0);
    lemma_mark_at(b, q0 + 1, q1);
    lemma_mark_at(b, q1 + 1, q2);
    lemma_mark_at(b, q2 + 1, q3);
}

/// A bar is complete with the value before a closing brace: it is kept behind those before, and the
/// next one begins with nothing received; without a brace the bar goes on.
pub proof fn law_braces_end_bars(
    b: Seq<u8>,
    i: int,
    cur: BarView,
    out: Seq<BarView>,
    q0: int,
    q1: int,
    q2: int,
    q3: int,
)
    requires
        0 <= i <= q0 < q1 < q2 < q3,
        q3 + 1 < b.len(),
        b[q0] == '"' as u8 && b[q1] == '"' as u8 && b[q2] == '"' as u8 && b[q3] == '"' as u8,
        forall|k: int| i <= k < q3 && b[k] == '"' as u8 ==> k == q0 || k == q1 || k == q2,
        b[q3 + 1] != ' ' as u8,
        out.len() < KLINE_CAP,
    ensures
        ({
            let bar = with_field(cur, b.subrange(q0 + 1, q1), b.subrange(q2 + 1, q3));
            &&& b[q3 + 1] == '}' as u8 ==> bars_from(b, i, cur, out) == bars_from(
                b,
                q3 + 2,
                BarView { date: 0, open: seq![], high: seq![], low: seq![], close: seq![] },
                out.push(bar),
            )
            &&& b[q3 + 1] != '}' as u8 ==> bars_from(b, i, cur, out) == bars_from(b, q3 + 1, bar, out)
        }),
{
    assert(' ' as u8 == 32 && '}' as u8 == 125);
    law_pairs_stand_in_quotation_marks(b, i, q0, q1, q2, q3);
    assert(past_spaces(b, q3 + 1) == q3 + 1);
}

} // verus!
