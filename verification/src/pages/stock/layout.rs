//! What the chart of a stock looks like.
//!
//! Prices come in hundredths and, where they are drawn, as heights on the panel.
use vstd::prelude::*;
#[allow(unused_imports)]
use vstd::string::*;
#[allow(unused_imports)]
use vstd::utf8::*;

use crate::draw::{Anchor, Area, Canvas, DrawOp, Edge, Face, HPos, Icon, Ink, Op, VPos};
use crate::model::stock::{
    change_text, fmt_price, fmt_signed, price_text, Cents, ChartMode,
};
use crate::text::{
    dec, dec_text, join, join3, law_numbers_read_back, law_two_digits_read_back, lemma_dec_len,
    lemma_encode_join, num_of, push_two, push_within, pushed, put, put_two, two, Limited,
};

verus! {

/// The height of the two lines above the chart, of the one below it, and the space to its left.
pub const HEADER_H: i32 = 32;

pub const BOTTOM_H: i32 = 16;

pub const LEFT_PAD: i32 = 52;

/// How close to an edge of the chart a label at the change of days may come.
pub const LABEL_GAP: i32 = 92;

/// The highest, the lowest and the current price of a day, and their heights on the panel.
#[derive(Clone, Copy, Debug, PartialEq, Eq, Structural)]
pub struct MinuteMarks {
    pub hi: Cents,
    pub lo: Cents,
    pub cur: Cents,
    pub y_high: i32,
    pub y_low: i32,
    pub y_cur: i32,
}

/// An offer: its price and how much is offered.
#[derive(Clone, Copy, Debug, PartialEq, Eq, Structural)]
pub struct Level {
    pub price: Cents,
    pub vol: u64,
}

/// The state of trading: eleven figures, five offers on each side, and the time.
pub struct Quote {
    pub info: [Cents; 11],
    pub price: Cents,
    /// The cheapest first.
    pub sells: [Level; 5],
    /// The dearest first.
    pub buys: [Level; 5],
    pub datetime: String,
}

/// What is shown of a stock.
pub struct StockContent {
    pub name: String,
    pub code: String,
    pub price: Cents,
    pub change: Cents,
    pub change_pct: Cents,
    /// The dates of the bars.
    pub dates: Vec<u64>,
    /// Where the chart shows a day and has two bars or more.
    pub minute: Option<MinuteMarks>,
    /// The highest and the lowest price on the scale of another chart.
    pub range: Option<(Cents, Cents)>,
    /// How many candles fit into the chart.
    pub visible: usize,
    /// The state of trading, which takes the place of the chart in its mode.
    pub quote: Option<Quote>,
}

/// A stock as plain values.
pub struct ContentView {
    pub name: Seq<char>,
    pub code: Seq<char>,
    pub price: Cents,
    pub change: Cents,
    pub change_pct: Cents,
    pub dates: Seq<u64>,
    pub minute: Option<MinuteMarks>,
    pub range: Option<(Cents, Cents)>,
    pub visible: int,
    pub quote: Option<Quote>,
}

impl View for StockContent {
    type V = ContentView;

    open spec fn view(&self) -> ContentView {
        ContentView {
            name: self.name@,
            code: self.code@,
            price: self.price,
            change: self.change,
            change_pct: self.change_pct,
            dates: self.dates@,
            minute: self.minute,
            range: self.range,
            visible: self.visible as int,
            quote: self.quote,
        }
    }
}

/// A black text that hangs from its anchor.
pub open spec fn hung(x: int, y: int, h: HPos, face: Face) -> Anchor {
    Anchor { x: x as i32, y: y as i32, v: VPos::Top, h, ink: Ink::Black, face }
}

fn hang(x: i32, y: i32, h: HPos, face: Face) -> (a: Anchor)
    ensures
        a == hung(x as int, y as int, h, face),
{
    Anchor { x, y, v: VPos::Top, h, ink: Ink::Black, face }
}

/// A small text.
pub open spec fn small(x: int, y: int, h: HPos) -> Anchor {
    hung(x, y, h, Face::Wqy12Bold)
}

/// The time of a moment given as year, month, day, hour, minute and second in one number.
pub open spec fn hour_minute(date: u64) -> Seq<char> {
    let n = (date as int / 100) % 10000;
    two(n / 100) + ":"@ + two(n % 100)
}

/// The month, the day and the time of such a moment.
pub open spec fn month_day_time(date: u64) -> Seq<char> {
    let n = (date as int / 1_000_000) % 10000;
    two(n / 100) + "-"@ + two(n % 100) + " "@ + hour_minute(date)
}

/// A date given as year, month and day in one number, in no more than twelve bytes.
pub open spec fn date_text(date: u64) -> Seq<char> {
    let md = date as int % 10000;
    let w = put((seq![], false), dec((date / 10000) as nat), 12);
    let w = put_two(put(w, "-"@, 12), md / 100, 12);
    put_two(put(w, "-"@, 12), md % 100, 12).0
}

/// The time of a moment.
pub fn fmt_hm(date: u64) -> (s: String)
    ensures
        s@ == hour_minute(date),
{
    let n: u64 = (date / 100) % 10000;
    let mut s = String::new();
    push_two(&mut s, n / 100);
    s.append(":");
    push_two(&mut s, n % 100);
    assert(s@ =~= hour_minute(date));
    s
}

/// The month, the day and the time of a moment.
pub fn fmt_md_hm(date: u64) -> (s: String)
    ensures
        s@ == month_day_time(date),
{
    let n: u64 = (date / 1_000_000) % 10000;
    let mut s = String::new();
    push_two(&mut s, n / 100);
    s.append("-");
    push_two(&mut s, n % 100);
    s.append(" ");
    let t = fmt_hm(date);
    s.append(t.as_str());
    assert(s@ =~= month_day_time(date));
    s
}

/// A date.
pub fn fmt_date(yyyymmdd: u64) -> (s: String)
    ensures
        s@ == date_text(yyyymmdd),
{
    let md: u64 = yyyymmdd % 10000;
    let mut w = Limited::new();
    w.put(dec_text(yyyymmdd / 10000).as_str(), 12);
    w.put("-", 12);
    w.put_two(md / 100, 12);
    w.put("-", 12);
    w.put_two(md % 100, 12);
    w.text
}

/// `c` with a dashed line down from `y` to `end`.
pub open spec fn dashed_down(c: Seq<Op>, x: i32, y: int, end: int) -> Seq<Op>
    decreases end - y + 5,
{
    if y >= end {
        c
    } else {
        let to = if y + 3 < end {
            y + 3
        } else {
            end
        };
        dashed_down(c.push(Op::Line(x, y as i32, x, to as i32, 1)), x, y + 5, end)
    }
}

/// `c` with a dashed line across from `x` to `end`.
pub open spec fn dashed_across(c: Seq<Op>, x: int, y: i32, end: int) -> Seq<Op>
    decreases end - x + 5,
{
    if x >= end {
        c
    } else {
        let to = if x + 3 < end {
            x + 3
        } else {
            end
        };
        dashed_across(c.push(Op::Line(x as i32, y, to as i32, y, 1)), x + 5, y, end)
    }
}

/// Draws a dashed line down.
pub fn draw_dashed_vline(c: &mut Canvas, x: i32, top: i32, height: i32)
    requires
        -0x10_0000 <= top <= 0x10_0000,
        -0x10_0000 <= height <= 0x10_0000,
    ensures
        final(c)@ == dashed_down(old(c)@, x, top as int, top + height),
{
    let end: i32 = top + height;
    let mut y: i32 = top;
    while y < end
        invariant
            -0x20_0000 <= end <= 0x20_0000,
            -0x10_0000 <= y <= 0x20_0005,
            dashed_down(old(c)@, x, top as int, end as int) == dashed_down(
                c@,
                x,
                y as int,
                end as int,
            ),
        decreases end - y + 5,
    {
        let to: i32 = if y + 3 < end {
            y + 3
        } else {
            end
        };
        c.line(x, y, x, to, 1);
        y += 5;
    }
}

/// Draws a dashed line across.
pub fn draw_dashed_hline(c: &mut Canvas, x0: i32, y: i32, width: i32)
    requires
        -0x10_0000 <= x0 <= 0x10_0000,
        -0x10_0000 <= width <= 0x10_0000,
    ensures
        final(c)@ == dashed_across(old(c)@, x0 as int, y, x0 + width),
{
    let end: i32 = x0 + width;
    let mut x: i32 = x0;
    while x < end
        invariant
            -0x20_0000 <= end <= 0x20_0000,
            -0x10_0000 <= x <= 0x20_0005,
            dashed_across(old(c)@, x0 as int, y, end as int) == dashed_across(
                c@,
                x as int,
                y,
                end as int,
            ),
        decreases end - x + 5,
    {
        let to: i32 = if x + 3 < end {
            x + 3
        } else {
            end
        };
        c.line(x, y, to, y, 1);
        x += 5;
    }
}

/// The first bar from the `i`-th on that is of another day than the one before it, or their
/// number.
pub open spec fn day_break(dates: Seq<u64>, i: int) -> int
    decreases dates.len() - i,
{
    if 1 <= i < dates.len() && dates[i - 1] / 1_000_000 == dates[i] / 1_000_000 {
        day_break(dates, i + 1)
    } else {
        i
    }
}

/// Where the day changes on a chart of `iw` pixels from `ix` on: the bar and its place.
pub open spec fn boundary(mode: ChartMode, dates: Seq<u64>, ix: int, iw: int) -> Option<(int, int)> {
    let n = dates.len() as int;
    let i = day_break(dates, 1);
    if mode is Minute && n >= 2 && i < n {
        Some((i, ix + iw * i / (n - 1)))
    } else {
        None
    }
}

/// Where the day changes on the chart.
fn find_boundary(mode: ChartMode, dates: &Vec<u64>, ix: i32, iw: i32) -> (r: Option<(usize, i32)>)
    requires
        0 <= ix <= 0x1_0000,
        0 <= iw <= 0x1_0000,
        dates@.len() <= 64,
    ensures
        match r {
            Some((i, x)) => boundary(mode, dates@, ix as int, iw as int) == Some(
                (i as int, x as int),
            ) && i < dates@.len() && 0 <= x <= 0x2_0000,
            None => boundary(mode, dates@, ix as int, iw as int) is None,
        },
{
    let n: usize = dates.len();
    if !mode.is_minute() || n < 2 {
        return None;
    }
    let mut i: usize = 1;
    while i < n && dates[i - 1] / 1_000_000 == dates[i] / 1_000_000
        invariant
            1 <= i <= n,
            n == dates@.len(),
            day_break(dates@, 1) == day_break(dates@, i as int),
        decreases n - i,
    {
        i += 1;
    }
    if i < n {
        assert(0 <= iw * i <= 0x1_0000 * 64) by (nonlinear_arith)
            requires
                0 <= iw <= 0x1_0000,
                0 <= i <= 64,
        ;
        assert(iw * i / (n - 1) <= iw) by (nonlinear_arith)
            requires
                0 <= iw,
                1 <= i <= n - 1,
        ;
        let x: i32 = ix + iw * i as i32 / (n as i32 - 1);
        Some((i, x))
    } else {
        None
    }
}

/// The inside of the chart.
pub open spec fn inner(w: int, h: int) -> Area {
    Area {
        x: 54,
        y: 34,
        w: (if w - 58 > 0 {
            w - 58
        } else {
            0
        }) as u32,
        h: (if h - 52 > 0 {
            h - 52
        } else {
            0
        }) as u32,
    }
}

/// The inside of the chart.
pub fn chart_area(w: i32, h: i32) -> (a: Area)
    ensures
        a == inner(w as int, h as int),
{
    Area {
        x: 54,
        y: 34,
        w: if w > 58 {
            (w - 58) as u32
        } else {
            0
        },
        h: if h > 52 {
            (h - 52) as u32
        } else {
            0
        },
    }
}

/// The height of the label of the current price: beside those of the highest and the lowest.
pub open spec fn cur_label(m: MinuteMarks) -> int {
    let y = if m.y_cur - m.y_high < 12 {
        m.y_high + 12
    } else {
        m.y_cur as int
    };
    if m.y_low - y < 12 {
        m.y_low - 12
    } else {
        y
    }
}

/// `c` with the marks of a day.
pub open spec fn minute_ops(c: Seq<Op>, m: MinuteMarks, a: Area, bx: Option<(int, int)>) -> Seq<Op> {
    let d = dashed_across(c, a.x as int, m.y_high, a.x + a.w);
    let d = dashed_across(d, a.x as int, m.y_low, a.x + a.w);
    let d = d.push(Op::Text(price_text(m.hi), small(50, m.y_high - 6, HPos::Right)));
    let d = d.push(Op::Text(price_text(m.lo), small(50, m.y_low - 6, HPos::Right)));
    let d = d.push(Op::Text(price_text(m.cur), small(50, cur_label(m) - 6, HPos::Right)));
    let d = d.push(
        Op::Circle((a.x + a.w - 3) as i32, (m.y_cur - 3) as i32, 6, 0, Some(Ink::Black)),
    );
    match bx {
        Some((_, x)) => dashed_down(d, x as i32, a.y as int, a.y + a.h),
        None => d,
    }
}

/// `c` with the bars.
pub open spec fn chart_ops(c: Seq<Op>, v: ContentView, mode: ChartMode, a: Area, bx: Option<
    (int, int),
>) -> Seq<Op> {
    match mode {
        ChartMode::Minute => match v.minute {
            Some(m) => if v.dates.len() >= 2 {
                minute_ops(c.push(Op::PriceLine(a)), m, a, bx)
            } else {
                c
            },
            None => c,
        },
        ChartMode::Line => if v.dates.len() > 0 {
            c.push(Op::PriceLine(a))
        } else {
            c
        },
        _ => c.push(Op::Candles(a)),
    }
}

/// `c` with the scale beside the bars; a chart of a day has its own marks.
pub open spec fn scale_ops(c: Seq<Op>, v: ContentView, mode: ChartMode, h: int) -> Seq<Op> {
    match v.range {
        Some((hi, lo)) => if mode is Minute {
            c
        } else {
            c.push(Op::Text(price_text(hi), small(50, 36, HPos::Right))).push(
                Op::Text(price_text(lo), small(50, h - 30, HPos::Right)),
            )
        },
        None => c,
    }
}

/// `c` with the times below the chart of a day. A label at the change of days takes the place of
/// one that it would touch.
pub open spec fn time_ops(c: Seq<Op>, dates: Seq<u64>, a: Area, y: int, bx: Option<(int, int)>) -> Seq<
    Op,
> {
    let right = a.x + a.w;
    let first = dates[0];
    let last = dates[dates.len() - 1];
    let c = match bx {
        Some((i, x)) => {
            let c = if x - a.x >= LABEL_GAP {
                c.push(Op::Text(month_day_time(first), small(a.x as int, y, HPos::Left)))
            } else {
                c
            };
            if right - x >= LABEL_GAP {
                c.push(Op::Text(month_day_time(dates[i]), small(x, y, HPos::Center)))
            } else {
                c
            }
        },
        None => c.push(Op::Text(hour_minute(first), small(a.x as int, y, HPos::Left))),
    };
    c.push(Op::Text(hour_minute(last), small(right, y, HPos::Right)))
}

/// `c` with the dates below another chart.
pub open spec fn dates_ops(c: Seq<Op>, v: ContentView, mode: ChartMode, w: int, y: int) -> Seq<Op> {
    let n = v.dates.len() as int;
    let start = if mode is Line {
        0
    } else {
        n - v.visible
    };
    c.push(
        Op::Text(
            date_text(v.dates[start]) + " ~ "@ + date_text(v.dates[n - 1]),
            small(w / 2, y, HPos::Center),
        ),
    )
}

/// `c` with what is below the chart.
pub open spec fn bottom_ops(c: Seq<Op>, v: ContentView, mode: ChartMode, w: int, h: int) -> Seq<Op> {
    let a = inner(w, h);
    if v.dates.len() == 0 {
        c
    } else if mode is Minute {
        time_ops(c, v.dates, a, h - 15, boundary(mode, v.dates, a.x as int, a.w as int))
    } else {
        dates_ops(c, v, mode, w, h - 15)
    }
}

/// The name and the code of a stock, as far as they fit.
pub open spec fn title(v: ContentView) -> Seq<char> {
    let t = if v.name.len() > 0 {
        pushed(pushed(seq![], v.name, 44), " "@, 44)
    } else {
        seq![]
    };
    pushed(t, v.code, 44)
}

/// `c` with the two lines above the chart.
pub open spec fn header_ops(c: Seq<Op>, v: ContentView, mode: ChartMode, w: int) -> Seq<Op> {
    c.push(Op::Text(title(v), hung(2, 2, HPos::Left, Face::Wqy16))).push(
        Op::Text(mode.name(), hung(w / 2, 2, HPos::Center, Face::Wqy16)),
    ).push(Op::Text(price_text(v.price), small(2, 19, HPos::Left))).push(
        Op::Text(
            change_text(v.change) + "  "@ + change_text(v.change_pct) + "%"@,
            small(w - 2, 20, HPos::Right),
        ),
    )
}

/// `c` with the chart and what is around it.
pub open spec fn graph_ops(c: Seq<Op>, v: ContentView, mode: ChartMode, w: int, h: int) -> Seq<Op> {
    let a = inner(w, h);
    let bx = boundary(mode, v.dates, a.x as int, a.w as int);
    let framed = c.push(
        Op::Outline(
            Area { x: LEFT_PAD, y: HEADER_H, w: (w - 54) as u32, h: (h - 48) as u32 },
            Edge::Inside,
            1,
        ),
    );
    bottom_ops(
        scale_ops(chart_ops(framed, v, mode, a, bx), v, mode, h),
        v,
        mode,
        w,
        h,
    )
}

/// The label of a figure.
pub open spec fn info_label(i: int) -> Seq<char> {
    if i == 0 {
        "今开"@
    } else if i == 1 {
        "昨收"@
    } else if i == 2 {
        "最高"@
    } else if i == 3 {
        "最低"@
    } else if i == 4 {
        "换手%"@
    } else if i == 5 {
        "振幅%"@
    } else if i == 6 {
        "量(手)"@
    } else if i == 7 {
        "额(万)"@
    } else if i == 8 {
        "市盈"@
    } else if i == 9 {
        "市净"@
    } else {
        "总市值"@
    }
}

fn label_of_info(i: usize) -> (s: &'static str)
    ensures
        s@ == info_label(i as int),
{
    if i == 0 {
        "今开"
    } else if i == 1 {
        "昨收"
    } else if i == 2 {
        "最高"
    } else if i == 3 {
        "最低"
    } else if i == 4 {
        "换手%"
    } else if i == 5 {
        "振幅%"
    } else if i == 6 {
        "量(手)"
    } else if i == 7 {
        "额(万)"
    } else if i == 8 {
        "市盈"
    } else if i == 9 {
        "市净"
    } else {
        "总市值"
    }
}

/// A text of the table.
pub open spec fn cell(x: int, y: int, h: HPos) -> Anchor {
    hung(x, y, h, Face::Wqy16)
}

/// `c` with the first `n` figures.
pub open spec fn info_ops(c: Seq<Op>, info: Seq<Cents>, mid: int, row: int, n: int) -> Seq<Op>
    decreases n,
{
    if n <= 0 {
        c
    } else {
        let y = 40 + (n - 1) * row;
        info_ops(c, info, mid, row, n - 1).push(
            Op::Text(info_label(n - 1), cell(4, y, HPos::Left)),
        ).push(Op::Text(price_text(info[n - 1]), cell(mid - 4, y, HPos::Right)))
    }
}

/// `c` with an offer.
pub open spec fn level_ops(
    c: Seq<Op>,
    side: Seq<char>,
    rank: int,
    l: Level,
    mid: int,
    w: int,
    y: int,
) -> Seq<Op> {
    c.push(
        Op::Text(
            side + dec(rank as nat) + " "@ + price_text(l.price),
            cell(mid + 4, y, HPos::Left),
        ),
    ).push(Op::Text(dec(l.vol as nat), cell(w - 4, y, HPos::Right)))
}

/// `c` with the first `n` offers to sell, the dearest above.
pub open spec fn sell_ops(c: Seq<Op>, sells: Seq<Level>, mid: int, w: int, row: int, n: int) -> Seq<
    Op,
>
    decreases n,
{
    if n <= 0 {
        c
    } else {
        level_ops(
            sell_ops(c, sells, mid, w, row, n - 1),
            "卖"@,
            6 - n,
            sells[5 - n],
            mid,
            w,
            40 + (n - 1) * row,
        )
    }
}

/// `c` with the first `n` offers to buy, the dearest above.
pub open spec fn buy_ops(
    c: Seq<Op>,
    buys: Seq<Level>,
    mid: int,
    w: int,
    top: int,
    row: int,
    n: int,
) -> Seq<Op>
    decreases n,
{
    if n <= 0 {
        c
    } else {
        level_ops(
            buy_ops(c, buys, mid, w, top, row, n - 1),
            "买"@,
            n,
            buys[n - 1],
            mid,
            w,
            top + 3 + (n - 1) * row,
        )
    }
}

/// The part of a text from its byte `a` up to before its byte `b`.
pub open spec fn cut(t: Seq<char>, a: int, b: int) -> Seq<char> {
    decode_utf8(encode_utf8(t).subrange(a, b))
}

/// The parts of a time of twelve bytes or more end where characters do.
pub open spec fn time_parts(t: Seq<char>) -> bool {
    let b = encode_utf8(t);
    b.len() >= 12 ==> {
        &&& is_char_boundary(b, 4)
        &&& is_char_boundary(b, 6)
        &&& is_char_boundary(b, 8)
        &&& is_char_boundary(b, 10)
        &&& is_char_boundary(b, 12)
    }
}

/// A time given as fourteen digits, with its parts set apart; anything shorter than twelve bytes as
/// it is.
pub open spec fn spaced_time(t: Seq<char>) -> Seq<char> {
    if encode_utf8(t).len() >= 12 {
        cut(t, 0, 4) + "-"@ + cut(t, 4, 6) + "-"@ + cut(t, 6, 8) + " "@ + cut(t, 8, 10) + ":"@
            + cut(t, 10, 12)
    } else {
        t
    }
}

/// The height of a row of the table.
pub open spec fn row_height(h: int) -> int {
    (h - 64) / 11
}

/// `c` with the state of trading.
pub open spec fn quote_ops(c: Seq<Op>, q: Quote, w: int, h: int) -> Seq<Op> {
    let mid = w / 2;
    let row = row_height(h);
    let sell_end = 40 + 5 * row;
    let price_end = sell_end + row;
    let c = c.push(
        Op::Outline(Area { x: 0, y: 34, w: w as u32, h: (h - 52) as u32 }, Edge::Inside, 1),
    ).push(Op::Line(mid as i32, 34, mid as i32, (h - 18) as i32, 1));
    let c = info_ops(c, q.info@, mid, row, 11);
    let c = sell_ops(c, q.sells@, mid, w, row, 5);
    let c = c.push(
        Op::Line(mid as i32, sell_end as i32, w as i32, sell_end as i32, 1),
    ).push(Op::Text("-> "@ + price_text(q.price), cell(mid + 4, sell_end + 3, HPos::Left))).push(
        Op::Line(mid as i32, price_end as i32, w as i32, price_end as i32, 1),
    );
    buy_ops(c, q.buys@, mid, w, price_end, row, 5).push(
        Op::Text(spaced_time(q.datetime@), cell(w / 2, h - 16, HPos::Center)),
    )
}

/// `c` with the status line: whether a request runs, the network, and the battery.
pub open spec fn status_ops(c: Seq<Op>, w: int, request_loading: bool, battery: Option<u32>) -> Seq<
    Op,
> {
    let c = if request_loading {
        c.push(Op::Icon(Icon::Loading, (w - 118) as i32, 11))
    } else {
        c
    };
    let c = c.push(Op::Icon(Icon::WifiStatus, (w - 100) as i32, 11));
    match battery {
        Some(p) => c.push(Op::Battery(p, (w - 60) as i32, 4)),
        None => c,
    }
}

/// `c` with a stock: the two lines above, and the state of trading in its mode and where it is
/// known; else the chart.
pub open spec fn content_ops(
    c: Seq<Op>,
    s: StockContent,
    mode: ChartMode,
    w: int,
    h: int,
) -> Seq<Op> {
    let headed = header_ops(c, s@, mode, w);
    match s.quote {
        Some(q) if mode is Quote => quote_ops(headed, q, w, h),
        _ => graph_ops(headed, s@, mode, w, h),
    }
}

impl StockContent {
    /// The numbers lie within their bounds.
    pub open spec fn valid(self) -> bool {
        &&& self.dates@.len() <= 64
        &&& self.visible <= self.dates@.len()
        &&& self.dates@.len() > 0 ==> self.visible > 0
        &&& self.minute matches Some(m) ==> {
            &&& -0x1000 <= m.y_high <= 0x1_0000
            &&& -0x1000 <= m.y_low <= 0x1_0000
            &&& -0x1000 <= m.y_cur <= 0x1_0000
        }
    }

    /// The time of trading can be shown, where it is.
    pub open spec fn shows_in(self, mode: ChartMode) -> bool {
        mode is Quote ==> (self.quote matches Some(q) ==> time_parts(q.datetime@))
    }
}

/// The panel has room for the chart.
pub open spec fn has_room(w: i32, h: i32) -> bool {
    54 <= w <= 0x1_0000 && 64 <= h <= 0x1_0000
}

/// Draws the two lines above the chart.
fn draw_header(c: &mut Canvas, s: &StockContent, mode: ChartMode, w: i32)
    requires
        54 <= w <= 0x1_0000,
    ensures
        final(c)@ == header_ops(old(c)@, s@, mode, w as int),
{
    let mut t = String::new();
    assert(t@ =~= seq![]);
    if !s.name.as_str().is_empty() {
        push_within(&mut t, s.name.as_str(), 44);
        push_within(&mut t, " ", 44);
    }
    push_within(&mut t, s.code.as_str(), 44);
    c.text(t, hang(2, 2, HPos::Left, Face::Wqy16));
    c.label(mode.label(), hang(w / 2, 2, HPos::Center, Face::Wqy16));
    c.text(fmt_price(s.price), hang(2, 19, HPos::Left, Face::Wqy12Bold));
    let mut line = join3(fmt_signed(s.change).as_str(), "  ", fmt_signed(s.change_pct).as_str());
    line.append("%");
    c.text(line, hang(w - 2, 20, HPos::Right, Face::Wqy12Bold));
}

/// Draws the marks of a day.
fn draw_minute(c: &mut Canvas, m: &MinuteMarks, a: Area, bx: Option<(usize, i32)>)
    requires
        a.x == 54,
        a.y == 34,
        a.w <= 0x1_0000,
        a.h <= 0x1_0000,
        -0x1000 <= m.y_high <= 0x1_0000,
        -0x1000 <= m.y_low <= 0x1_0000,
        -0x1000 <= m.y_cur <= 0x1_0000,
    ensures
        final(c)@ == minute_ops(
            old(c)@,
            *m,
            a,
            match bx {
                Some((i, x)) => Some((i as int, x as int)),
                None => None,
            },
        ),
{
    let iw: i32 = a.w as i32;
    draw_dashed_hline(c, a.x, m.y_high, iw);
    draw_dashed_hline(c, a.x, m.y_low, iw);
    c.text(fmt_price(m.hi), hang(50, m.y_high - 6, HPos::Right, Face::Wqy12Bold));
    c.text(fmt_price(m.lo), hang(50, m.y_low - 6, HPos::Right, Face::Wqy12Bold));
    let mut y: i32 = m.y_cur;
    if m.y_cur - m.y_high < 12 {
        y = m.y_high + 12;
    }
    if m.y_low - y < 12 {
        y = m.y_low - 12;
    }
    c.text(fmt_price(m.cur), hang(50, y - 6, HPos::Right, Face::Wqy12Bold));
    c.add_op(DrawOp::Circle(a.x + iw - 3, m.y_cur - 3, 6, 0, Some(Ink::Black)));
    if let Some((_, x)) = bx {
        draw_dashed_vline(c, x, a.y, a.h as i32);
    }
}

/// Draws the times below the chart of a day.
fn draw_times(c: &mut Canvas, dates: &Vec<u64>, a: Area, y: i32, bx: Option<(usize, i32)>)
    requires
        dates@.len() > 0,
        a.x == 54,
        a.w <= 0x1_0000,
        bx matches Some((i, x)) ==> i < dates@.len() && 0 <= x <= 0x2_0000,
    ensures
        final(c)@ == time_ops(
            old(c)@,
            dates@,
            a,
            y as int,
            match bx {
                Some((i, x)) => Some((i as int, x as int)),
                None => None,
            },
        ),
{
    let right: i32 = a.x + a.w as i32;
    let first: u64 = dates[0];
    let last: u64 = dates[dates.len() - 1];
    match bx {
        Some((i, x)) => {
            if x - a.x >= LABEL_GAP {
                c.text(fmt_md_hm(first), hang(a.x, y, HPos::Left, Face::Wqy12Bold));
            }
            if right - x >= LABEL_GAP {
                c.text(fmt_md_hm(dates[i]), hang(x, y, HPos::Center, Face::Wqy12Bold));
            }
        },
        None => {
            c.text(fmt_hm(first), hang(a.x, y, HPos::Left, Face::Wqy12Bold));
        },
    }
    c.text(fmt_hm(last), hang(right, y, HPos::Right, Face::Wqy12Bold));
}

/// Draws the chart and what is around it.
fn draw_graph(c: &mut Canvas, s: &StockContent, mode: ChartMode, w: i32, h: i32)
    requires
        s.valid(),
        has_room(w, h),
    ensures
        final(c)@ == graph_ops(old(c)@, s@, mode, w as int, h as int),
{
    c.outline(LEFT_PAD, HEADER_H, (w - 54) as u32, (h - 48) as u32, Edge::Inside, 1);
    let a = chart_area(w, h);
    let bx = find_boundary(mode, &s.dates, a.x, a.w as i32);
    let n: usize = s.dates.len();
    match mode {
        ChartMode::Minute => {
            if let Some(m) = s.minute {
                if n >= 2 {
                    c.add_op(DrawOp::PriceLine(a));
                    draw_minute(c, &m, a, bx);
                }
            }
        },
        ChartMode::Line => {
            if n > 0 {
                c.add_op(DrawOp::PriceLine(a));
            }
        },
        _ => {
            c.add_op(DrawOp::Candles(a));
        },
    }
    if !mode.is_minute() {
        if let Some((hi, lo)) = s.range {
            c.text(fmt_price(hi), hang(50, 36, HPos::Right, Face::Wqy12Bold));
            c.text(fmt_price(lo), hang(50, h - 30, HPos::Right, Face::Wqy12Bold));
        }
    }
    if n > 0 {
        if mode.is_minute() {
            draw_times(c, &s.dates, a, h - 15, bx);
        } else {
            let start: usize = match mode {
                ChartMode::Line => 0,
                _ => n - s.visible,
            };
            let from = fmt_date(s.dates[start]);
            let to = fmt_date(s.dates[n - 1]);
            c.text(
                join3(from.as_str(), " ~ ", to.as_str()),
                hang(w / 2, h - 15, HPos::Center, Face::Wqy12Bold),
            );
        }
    }
}

/// Draws an offer.
fn draw_level(c: &mut Canvas, side: &str, rank: u64, l: &Level, mid: i32, w: i32, y: i32)
    requires
        0 <= mid <= w <= 0x1_0000,
    ensures
        final(c)@ == level_ops(old(c)@, side@, rank as int, *l, mid as int, w as int, y as int),
{
    let mut t = join3(side, dec_text(rank).as_str(), " ");
    let p = fmt_price(l.price);
    t.append(p.as_str());
    c.text(t, hang(mid + 4, y, HPos::Left, Face::Wqy16));
    c.text(dec_text(l.vol), hang(w - 4, y, HPos::Right, Face::Wqy16));
}

/// The part of a text from its byte `a` up to before its byte `b`.
fn cut_text(t: &str, a: usize, b: usize) -> (s: &str)
    requires
        a < b <= encode_utf8(t@).len(),
        is_char_boundary(encode_utf8(t@), a as int),
        is_char_boundary(encode_utf8(t@), b as int),
    ensures
        s@ == cut(t@, a as int, b as int),
{
    let ghost all = encode_utf8(t@);
    proof {
        encode_utf8_valid_utf8(t@);
        valid_utf8_split(all, b as int);
    }
    let (left, _) = t.split_at(b);
    proof {
        let l = all.subrange(0, b as int);
        assert(left.spec_bytes() == l);
        is_char_boundary_iff_not_is_continuation_byte(all, a as int);
        is_char_boundary_iff_not_is_continuation_byte(l, a as int);
    }
    let (_, part) = left.split_at(a);
    proof {
        assert(part.spec_bytes() =~= all.subrange(a as int, b as int));
        encode_utf8_decode_utf8(part@);
    }
    part
}

/// A time with its parts set apart.
fn space_time(t: &str) -> (s: String)
    requires
        time_parts(t@),
    ensures
        s@ == spaced_time(t@),
{
    if t.as_bytes().len() >= 12 {
        let mut s = String::new();
        proof {
            encode_utf8_valid_utf8(t@);
        }
        s.append(cut_text(t, 0, 4));
        s.append("-");
        s.append(cut_text(t, 4, 6));
        s.append("-");
        s.append(cut_text(t, 6, 8));
        s.append(" ");
        s.append(cut_text(t, 8, 10));
        s.append(":");
        s.append(cut_text(t, 10, 12));
        assert(s@ =~= spaced_time(t@));
        s
    } else {
        t.to_owned()
    }
}

/// Draws the state of trading.
fn draw_quote(c: &mut Canvas, q: &Quote, w: i32, h: i32)
    requires
        has_room(w, h),
        time_parts(q.datetime@),
    ensures
        final(c)@ == quote_ops(old(c)@, *q, w as int, h as int),
{
    let mid: i32 = w / 2;
    let row: i32 = (h - 64) / 11;
    c.outline(0, 34, w as u32, (h - 52) as u32, Edge::Inside, 1);
    c.line(mid, 34, mid, h - 18, 1);
    let ghost c0 = c@;
    let mut i: usize = 0;
    while i < 11
        invariant
            i <= 11,
            0 <= row <= 0x2000,
            0 <= mid <= 0x1_0000,
            c@ == info_ops(c0, q.info@, mid as int, row as int, i as int),
        decreases 11 - i,
    {
        assert(0 <= i * row <= 11 * 0x2000) by (nonlinear_arith)
            requires
                0 <= i <= 11,
                0 <= row <= 0x2000,
        ;
        let y: i32 = 40 + i as i32 * row;
        c.label(label_of_info(i), hang(4, y, HPos::Left, Face::Wqy16));
        c.text(fmt_price(q.info[i]), hang(mid - 4, y, HPos::Right, Face::Wqy16));
        i += 1;
    }
    let ghost c1 = c@;
    let sell_end: i32 = 40 + 5 * row;
    let mut i: usize = 0;
    while i < 5
        invariant
            i <= 5,
            0 <= row <= 0x2000,
            0 <= mid <= w <= 0x1_0000,
            c@ == sell_ops(c1, q.sells@, mid as int, w as int, row as int, i as int),
        decreases 5 - i,
    {
        assert(0 <= i * row <= 11 * 0x2000) by (nonlinear_arith)
            requires
                0 <= i <= 11,
                0 <= row <= 0x2000,
        ;
        let y: i32 = 40 + i as i32 * row;
        let l: Level = q.sells[4 - i];
        draw_level(c, "卖", 5 - i as u64, &l, mid, w, y);
        i += 1;
    }
    c.line(mid, sell_end, w, sell_end, 1);
    c.text(
        join("-> ", fmt_price(q.price).as_str()),
        hang(mid + 4, sell_end + 3, HPos::Left, Face::Wqy16),
    );
    let price_end: i32 = sell_end + row;
    c.line(mid, price_end, w, price_end, 1);
    let ghost c2 = c@;
    let mut i: usize = 0;
    while i < 5
        invariant
            i <= 5,
            0 <= row <= 0x2000,
            0 <= mid <= w <= 0x1_0000,
            0 <= price_end <= 0x2_0000,
            c@ == buy_ops(
                c2,
                q.buys@,
                mid as int,
                w as int,
                price_end as int,
                row as int,
                i as int,
            ),
        decreases 5 - i,
    {
        assert(0 <= i * row <= 11 * 0x2000) by (nonlinear_arith)
            requires
                0 <= i <= 11,
                0 <= row <= 0x2000,
        ;
        let y: i32 = price_end + 3 + i as i32 * row;
        let l: Level = q.buys[i];
        draw_level(c, "买", i as u64 + 1, &l, mid, w, y);
        i += 1;
    }
    c.text(
        space_time(q.datetime.as_str()),
        hang(w / 2, h - 16, HPos::Center, Face::Wqy16),
    );
}

/// Draws a stock: the two lines above, and the chart or the state of trading.
pub fn draw_content(c: &mut Canvas, s: &StockContent, mode: ChartMode, w: i32, h: i32)
    requires
        s.valid(),
        s.shows_in(mode),
        has_room(w, h),
    ensures
        final(c)@ == content_ops(old(c)@, *s, mode, w as int, h as int),
{
    draw_header(c, s, mode, w);
    if mode.is_quote() {
        if let Some(q) = &s.quote {
            draw_quote(c, q, w, h);
            return;
        }
    }
    draw_graph(c, s, mode, w, h);
}

/// What the page of one stock looks like: the status line, and the stock or, where there is none
/// and none is being fetched, why.
pub open spec fn page_ops(
    s: Option<StockContent>,
    mode: ChartMode,
    loading: bool,
    err: Option<Seq<char>>,
    battery: Option<u32>,
    request_loading: bool,
    w: int,
    h: int,
) -> Seq<Op> {
    let c = status_ops(seq![Op::Clear(Ink::White)], w, request_loading, battery);
    match s {
        Some(s) => content_ops(c, s, mode, w, h),
        None => if loading {
            c
        } else {
            c.push(
                Op::Text(
                    match err {
                        Some(e) => e,
                        None => "无数据 按1刷新"@,
                    },
                    hung(w / 2, h / 2, HPos::Center, Face::Wqy16),
                ),
            )
        },
    }
}

/// Draws the page of one stock.
pub fn draw(
    s: &Option<StockContent>,
    mode: ChartMode,
    loading: bool,
    err: Option<&str>,
    battery: Option<u32>,
    request_loading: bool,
    w: i32,
    h: i32,
) -> (c: Canvas)
    requires
        s matches Some(s) ==> s.valid() && s.shows_in(mode),
        has_room(w, h),
    ensures
        c@ == page_ops(
            *s,
            mode,
            loading,
            match err {
                Some(e) => Some(e@),
                None => None,
            },
            battery,
            request_loading,
            w as int,
            h as int,
        ),
{
    let mut c = Canvas::new();
    c.clear(Ink::White);
    assert(c@ =~= seq![Op::Clear(Ink::White)]);
    if request_loading {
        c.add_op(DrawOp::Icon(Icon::Loading, w - 118, 11));
    }
    c.add_op(DrawOp::Icon(Icon::WifiStatus, w - 100, 11));
    if let Some(p) = battery {
        c.add_op(DrawOp::Battery(p, w - 60, 4));
    }
    match s {
        Some(s) => {
            draw_content(&mut c, s, mode, w, h);
        },
        None => {
            if !loading {
                let msg: &str = match err {
                    Some(e) => e,
                    None => "无数据 按1刷新",
                };
                c.label(msg, hang(w / 2, h / 2, HPos::Center, Face::Wqy16));
            }
        },
    }
    c
}

/// What stays of the status line in sleep, with a moon beside it.
pub fn sleep_renderer(request_loading: bool, w: i32) -> (c: Canvas)
    requires
        0 <= w <= 0x1_0000,
    ensures
        c@ == status_ops(seq![], w as int, request_loading, None).push(
            Op::Icon(Icon::Moon, (w - 82) as i32, 4),
        ),
{
    let mut c = Canvas::new();
    assert(c@ =~= seq![]);
    if request_loading {
        c.add_op(DrawOp::Icon(Icon::Loading, w - 118, 11));
    }
    c.add_op(DrawOp::Icon(Icon::WifiStatus, w - 100, 11));
    c.add_op(DrawOp::Icon(Icon::Moon, w - 82, 4));
    c
}

/// The label of the current price keeps clear of those of the highest and the lowest wherever
/// these leave room for it.
pub proof fn law_price_labels_keep_apart(m: MinuteMarks)
    requires
        m.y_high <= m.y_cur <= m.y_low,
        m.y_low - m.y_high >= 24,
    ensures
        cur_label(m) - m.y_high >= 12,
        m.y_low - cur_label(m) >= 12,
{
}

proof fn lemma_digit_pairs(n: int)
    requires
        n >= 0,
    ensures
        (n % 10000) / 100 == (n / 100) % 100,
        (n % 10000) % 100 == n % 100,
        0 <= (n % 10000) / 100 < 100,
{
}

/// The times below a chart read back: of a moment in one number, the hour and the minute before the
/// seconds.
pub proof fn law_times_read_back(date: u64)
    ensures
        ({
            let t = hour_minute(date);
            &&& t.len() == 5 && t[2] == ':'
            &&& num_of(t.take(2)) == (date as int / 100 / 100) % 100
            &&& num_of(t.skip(3)) == (date as int / 100) % 100
        }),
{
    reveal_strlit(":");
    let m = date as int / 100;
    let n = m % 10000;
    let t = hour_minute(date);
    lemma_digit_pairs(m);
    law_two_digits_read_back(n / 100);
    law_two_digits_read_back(n % 100);
    assert(t.take(2) =~= two(n / 100));
    assert(t.skip(3) =~= two(n % 100));
}

/// The days below a chart read back: of a moment in one number, the month and the day before the
/// time, which follows.
pub proof fn law_days_read_back(date: u64)
    ensures
        ({
            let m = month_day_time(date);
            &&& m.len() == 11 && m[2] == '-' && m[5] == ' ' && m.skip(6) == hour_minute(date)
            &&& num_of(m.take(2)) == (date as int / 1_000_000 / 100) % 100
            &&& num_of(m.subrange(3, 5)) == (date as int / 1_000_000) % 100
        }),
{
    reveal_strlit("-");
    reveal_strlit(" ");
    let d = date as int / 1_000_000;
    let k = d % 10000;
    let m = month_day_time(date);
    lemma_digit_pairs(d);
    law_times_read_back(date);
    law_two_digits_read_back(k / 100);
    law_two_digits_read_back(k % 100);
    assert(m.skip(6) =~= hour_minute(date));
    assert(m.take(2) =~= two(k / 100));
    assert(m.subrange(3, 5) =~= two(k % 100));
}

/// A date of a year with four digits reads back: the year, the month and the day.
#[verifier::rlimit(50)]
pub proof fn law_dates_read_back(date: u64)
    requires
        1000_00_00 <= date <= 9999_99_99,
    ensures
        ({
            let t = date_text(date);
            &&& t.len() == 10 && t[4] == '-' && t[7] == '-'
            &&& num_of(t.take(4)) * 10000 + num_of(t.subrange(5, 7)) * 100 + num_of(t.skip(8)) == date
        }),
{
    reveal_strlit("-");
    reveal_strlit("0");
    let md = date as int % 10000;
    let y = dec((date / 10000) as nat);
    law_numbers_read_back((date / 10000) as nat);
    lemma_dec_len((date / 10000) as nat);
    let e = Seq::<char>::empty();
    assert(encode_utf8(e) =~= seq![]);
    lemma_plain(y);
    is_ascii_chars_encode_utf8("-"@);
    lemma_encode_join(e, y);
    assert(e + y =~= y);
    lemma_encode_join(y, "-"@);
    lemma_two_put(y + "-"@, md / 100, 12);
    law_two_digits_read_back(md / 100);
    lemma_plain(two(md / 100));
    lemma_encode_join(y + "-"@, two(md / 100));
    lemma_encode_join(y + "-"@ + two(md / 100), "-"@);
    lemma_two_put(y + "-"@ + two(md / 100) + "-"@, md % 100, 12);
    law_two_digits_read_back(md % 100);
    let t = date_text(date);
    assert(t == y + "-"@ + two(md / 100) + "-"@ + two(md % 100));
    assert(t.take(4) =~= y);
    assert(t.subrange(5, 7) =~= two(md / 100));
    assert(t.skip(8) =~= two(md % 100));
}

proof fn lemma_plain(t: Seq<char>)
    requires
        forall|i: int| 0 <= i < t.len() ==> '0' <= #[trigger] t[i] <= '9',
    ensures
        encode_utf8(t).len() == t.len(),
{
    assert(is_ascii_chars(t));
    is_ascii_chars_encode_utf8(t);
}

proof fn lemma_two_put(s: Seq<char>, n: int, cap: int)
    requires
        0 <= n < 100,
        encode_utf8(s).len() + 2 <= cap,
    ensures
        put_two((s, false), n, cap) == (s + two(n), false),
{
    reveal_strlit("0");
    is_ascii_chars_encode_utf8("0"@);
    law_numbers_read_back(n as nat);
    lemma_dec_len(n as nat);
    lemma_plain(dec(n as nat));
    lemma_encode_join(s, "0"@);
    reveal_with_fuel(dec, 3);
    if n < 10 {
        assert(s + "0"@ + dec(n as nat) =~= s + two(n));
    } else {
        assert(s + dec(n as nat) =~= s + two(n));
    }
}

/// The change of days on a chart is at the first bar of another day, and as far to the right as the
/// bar stands among the others.
pub proof fn law_day_changes_at_its_bar(dates: Seq<u64>, ix: int, iw: int)
    requires
        dates.len() >= 2,
        iw >= 0,
    ensures
        match boundary(ChartMode::Minute, dates, ix, iw) {
            Some((i, x)) => {
                &&& 1 <= i < dates.len()
                &&& dates[i - 1] / 1_000_000 != dates[i] / 1_000_000
                &&& forall|k: int| 1 <= k < i ==> dates[k - 1] / 1_000_000 == #[trigger] dates[k] / 1_000_000
                &&& (x - ix) * (dates.len() - 1) <= iw * i < (x - ix + 1) * (dates.len() - 1)
            },
            None => forall|k: int|
                1 <= k < dates.len() ==> dates[k - 1] / 1_000_000 == #[trigger] dates[k] / 1_000_000,
        },
{
    lemma_day_break(dates, 1);
    let i = day_break(dates, 1);
    let n = dates.len() - 1;
    let q = iw * i / n;
    assert(q * n <= iw * i < (q + 1) * n) by (nonlinear_arith)
        requires
            n > 0,
            q == iw * i / n,
    ;
}

proof fn lemma_day_break(dates: Seq<u64>, i: int)
    requires
        1 <= i <= dates.len(),
    ensures
        ({
            let r = day_break(dates, i);
            &&& i <= r <= dates.len()
            &&& forall|k: int| i <= k < r ==> dates[k - 1] / 1_000_000 == #[trigger] dates[k] / 1_000_000
            &&& r < dates.len() ==> dates[r - 1] / 1_000_000 != dates[r] / 1_000_000
        }),
    decreases dates.len() - i,
{
    if i < dates.len() && dates[i - 1] / 1_000_000 == dates[i] / 1_000_000 {
        lemma_day_break(dates, i + 1);
    }
}

/// The offers to sell stand with the cheapest nearest to the price in the middle, and those to buy
/// with the dearest; each with its rank, its price and how much is offered in the same row.
#[verifier::rlimit(50)]
pub proof fn law_offers_stand_around_the_price(
    c: Seq<Op>,
    levels: Seq<Level>,
    mid: int,
    w: int,
    top: int,
    row: int,
    n: int,
    rank: int,
)
    requires
        levels.len() == 5,
        1 <= rank <= n <= 5,
    ensures
        ({
            let s = sell_ops(c, levels, mid, w, row, n);
            let b = buy_ops(c, levels, mid, w, top, row, n);
            let at_sell = c.len() + 2 * (rank - 1);
            let l = levels[5 - rank];
            &&& s.len() == c.len() + 2 * n
            &&& s[at_sell] == Op::Text(
                "卖"@ + dec((6 - rank) as nat) + " "@ + price_text(l.price),
                cell(mid + 4, 40 + (rank - 1) * row, HPos::Left),
            )
            &&& s[at_sell + 1] == Op::Text(
                dec(l.vol as nat),
                cell(w - 4, 40 + (rank - 1) * row, HPos::Right),
            )
            &&& b.len() == c.len() + 2 * n
            &&& b[at_sell] == Op::Text(
                "买"@ + dec(rank as nat) + " "@ + price_text(levels[rank - 1].price),
                cell(mid + 4, top + 3 + (rank - 1) * row, HPos::Left),
            )
            &&& b[at_sell + 1] == Op::Text(
                dec(levels[rank - 1].vol as nat),
                cell(w - 4, top + 3 + (rank - 1) * row, HPos::Right),
            )
        }),
    decreases n,
{
    if rank < n {
        law_offers_stand_around_the_price(c, levels, mid, w, top, row, n - 1, rank);
    } else if n > 1 {
        law_offers_stand_around_the_price(c, levels, mid, w, top, row, n - 1, 1);
    } else {
        assert(sell_ops(c, levels, mid, w, row, 0) == c);
        assert(buy_ops(c, levels, mid, w, top, row, 0) == c);
    }
}

/// The inside of the chart keeps clear of the two lines above, of the line below and of the prices to
/// its left, and of the frame.
pub proof fn law_chart_keeps_clear(w: int, h: int)
    requires
        60 <= w <= 0x1_0000,
        60 <= h <= 0x1_0000,
    ensures
        inner(w, h).x == 52 + 2,
        inner(w, h).y == 32 + 2,
        inner(w, h).x + inner(w, h).w + 4 == w,
        inner(w, h).y + inner(w, h).h + 18 == h,
{
}

/// Above a chart stand the name and the code, what kind of chart it is, the price, and how much it
/// changed, with the part behind it.
pub proof fn law_header_tells_the_stock(c: Seq<Op>, v: ContentView, mode: ChartMode, w: int)
    requires
        v.name.len() > 0,
        encode_utf8(v.name).len() + 1 + encode_utf8(v.code).len() <= 44,
    ensures
        ({
            let r = header_ops(c, v, mode, w);
            &&& r.len() == c.len() + 4
            &&& r[c.len() as int] matches Op::Text(t, _) && t == v.name + seq![' '] + v.code
            &&& r[c.len() as int + 1] matches Op::Text(t, _) && t == mode.name()
            &&& r[c.len() as int + 2] matches Op::Text(t, _) && t == price_text(v.price)
            &&& r[c.len() as int + 3] matches Op::Text(t, _) && t == change_text(v.change) + "  "@ + change_text(
                v.change_pct,
            ) + "%"@
        }),
{
    reveal_strlit(" ");
    let e = Seq::<char>::empty();
    assert(encode_utf8(e) =~= seq![]);
    assert(e + v.name =~= v.name);
    assert(" "@ =~= seq![' ']);
    is_ascii_chars_encode_utf8(" "@);
    lemma_encode_join(v.name, " "@);
    lemma_encode_join(v.name + " "@, v.code);
}

/// The figures of trading bear their names: the opening price and the last close, the highest and the
/// lowest, what changed hands and how far the price went, the amounts, the ratios and the worth.
pub proof fn law_figures_bear_their_names(i: int)
    requires
        0 <= i <= 10,
    ensures
        ({
            let t = info_label(i);
            &&& t[0] == '今' <==> i == 0
            &&& t[0] == '昨' <==> i == 1
            &&& t[0] == '最' && t[1] == '高' <==> i == 2
            &&& t[0] == '最' && t[1] == '低' <==> i == 3
            &&& t[0] == '换' <==> i == 4
            &&& t[0] == '振' <==> i == 5
            &&& t[0] == '量' <==> i == 6
            &&& t[0] == '额' <==> i == 7
            &&& t[0] == '市' && t[1] == '盈' <==> i == 8
            &&& t[0] == '市' && t[1] == '净' <==> i == 9
            &&& t[0] == '总' <==> i == 10
        }),
{
    reveal_strlit("今开");
    reveal_strlit("昨收");
    reveal_strlit("最高");
    reveal_strlit("最低");
    reveal_strlit("换手%");
    reveal_strlit("振幅%");
    reveal_strlit("量(手)");
    reveal_strlit("额(万)");
    reveal_strlit("市盈");
    reveal_strlit("市净");
    reveal_strlit("总市值");
}

/// Days, weeks and months are drawn as candles, a day and the line as a line, each where there are
/// bars enough.
pub proof fn law_charts_are_drawn_by_their_kind(
    c: Seq<Op>,
    v: ContentView,
    mode: ChartMode,
    a: Area,
    bx: Option<(int, int)>,
)
    ensures
        mode is Day || mode is Week || mode is Month ==> chart_ops(c, v, mode, a, bx) == c.push(
            Op::Candles(a),
        ),
        mode is Line && v.dates.len() > 0 ==> chart_ops(c, v, mode, a, bx) == c.push(Op::PriceLine(a)),
        mode is Line && v.dates.len() == 0 ==> chart_ops(c, v, mode, a, bx) == c,
        mode is Minute && v.dates.len() < 2 ==> chart_ops(c, v, mode, a, bx) == c,
{
}

/// The highest price of the scale stands above the lowest, both left of the chart; a chart of a day
/// has none.
pub proof fn law_scale_has_the_highest_above(
    c: Seq<Op>,
    v: ContentView,
    mode: ChartMode,
    h: int,
    hi: Cents,
    lo: Cents,
)
    requires
        v.range == Some((hi, lo)),
        100 <= h <= 0x1_0000,
    ensures
        mode is Minute ==> scale_ops(c, v, mode, h) == c,
        !(mode is Minute) ==> ({
            let r = scale_ops(c, v, mode, h);
            let n = c.len() as int;
            &&& r.len() == n + 2
            &&& r[n] matches Op::Text(t, p) && t == price_text(hi) && (r[n + 1] matches Op::Text(u, q) && u
                == price_text(lo) && p.y < q.y && p.x == q.x && p.x < LEFT_PAD)
        }),
{
}

/// Below a chart of days stand the first date that it shows and the last: of the candles those that
/// fit, of the line all.
pub proof fn law_dates_are_of_what_is_shown(c: Seq<Op>, v: ContentView, mode: ChartMode, w: int, y: int)
    requires
        0 < v.visible <= v.dates.len(),
    ensures
        ({
            let n = v.dates.len() as int;
            let first = if mode is Line {
                v.dates[0]
            } else {
                v.dates[n - v.visible]
            };
            let r = dates_ops(c, v, mode, w, y);
            &&& r.len() == c.len() + 1
            &&& r.last() matches Op::Text(t, _) && t == date_text(first) + " ~ "@ + date_text(v.dates[n
                - 1])
        }),
{
}

/// Below a chart of a day stand its times: the first on the left and the last on the right, and at a
/// change of days the moment of the change where it does not touch them.
pub proof fn law_times_stand_at_their_places(c: Seq<Op>, dates: Seq<u64>, a: Area, y: int)
    requires
        dates.len() >= 1,
        0 <= a.x <= 0x1_0000,
        a.w <= 0x1_0000,
    ensures
        ({
            let r = time_ops(c, dates, a, y, None);
            let n = c.len() as int;
            &&& r.len() == n + 2
            &&& r[n] matches Op::Text(t, p) && t == hour_minute(dates[0]) && p.x == a.x && p.h is Left
            &&& r[n + 1] matches Op::Text(t, p) && t == hour_minute(dates[dates.len() - 1]) && p.x == a.x
                + a.w && p.h is Right
        }),
{
}

} // verus!
