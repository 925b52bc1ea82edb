//! What the weather looks like, on a small panel and on a large one.
use vstd::prelude::*;
#[allow(unused_imports)]
use vstd::string::*;
#[allow(unused_imports)]
use vstd::utf8::*;

use crate::draw::{Anchor, Area, Canvas, DrawOp, Face, HPos, Icon, Ink, Op, VPos};
use crate::model::daily::{day_of_week, weekday_name, Daily, DailyResult, LocalTime};
use crate::model::lunar::{
    day_name, days_since_1900, is_lunar_date, month_name, solar_month_len, Lunar, LunarDay,
};
use crate::text::{
    Limited, dec, dec_text, int_parsed, join, join3, law_numbers_read_back, law_split_parts,
    law_texts_are_read_as_their_whole_number, law_two_digits_read_back, lemma_dec_len,
    lemma_encode_join, num_of, parse_int, push_two, put, replace_char, replaced, signed_dec,
    split_at_char, split_once, two,
};

verus! {

/// A forecast from before this second, the first of 2020, has no known time.
pub const KNOWN_SINCE: u64 = 1577836800;

/// How the page is laid out.
#[derive(Clone, Copy, Debug, PartialEq, Eq, Structural)]
pub enum Style {
    /// A small panel: the clock above, and the day in one line.
    Small,
    /// A large panel: the clock above, and the day in detail.
    Large,
    /// A large panel: the place above, and the clock and the calendar below the day.
    Full,
}

/// What is known when the page is drawn, beside the forecast.
#[derive(Clone, Copy, Debug, PartialEq, Eq, Structural)]
pub struct WeatherRenderData {
    pub w: i32,
    pub h: i32,
    pub now: Option<LocalTime>,
    /// The lunar date of that moment.
    pub lunar: Option<LunarDay>,
    pub battery_percent: Option<u32>,
    pub request_loading: bool,
    /// The second at which the forecast was fetched.
    pub weather_sync_second: u64,
}

/// The sign of the zodiac, the solar term, and the day of the term.
pub struct Season {
    pub zodiac: String,
    pub term: String,
    pub term_day: u32,
}

/// A text that hangs from its anchor.
pub open spec fn hung(x: int, y: int, h: HPos, face: Face) -> Anchor {
    Anchor { x: x as i32, y: y as i32, v: VPos::Top, h, ink: Ink::Black, face }
}

fn hang(x: i32, y: i32, h: HPos, face: Face) -> (a: Anchor)
    ensures
        a == hung(x as int, y as int, h, face),
{
    Anchor { x, y, v: VPos::Top, h, ink: Ink::Black, face }
}

/// The height of the line at the top.
pub open spec fn header_h(style: Style) -> int {
    if style is Small {
        34
    } else {
        36
    }
}

/// The height of the battery.
pub open spec fn battery_y(style: Style) -> int {
    if style is Small {
        2
    } else {
        10
    }
}

/// A time of day.
pub open spec fn clock_text(t: LocalTime) -> Seq<char> {
    two(t.hour as int) + ":"@ + two(t.minute as int)
}

/// The month, the day and the day of the week.
pub open spec fn date_text(t: LocalTime) -> Seq<char> {
    dec(t.month as nat) + "."@ + dec(t.day as nat) + " "@ + day_of_week(t.weekday)
}

/// The lunar date.
pub open spec fn lunar_text(l: LunarDay) -> Seq<char> {
    month_name(l.month as int, l.leap_month) + day_name(l.day as int)
}

/// The time in the local zone at which the forecast was fetched, where it is known.
pub open spec fn update_text(sync: u64) -> Seq<char> {
    if sync > KNOWN_SINCE {
        let local = sync + 28800;
        "更新 "@ + two((local / 3600) % 24) + ":"@ + two((local / 60) % 60)
    } else {
        "更新 "@ + "--:--"@
    }
}

/// The solar term: on its first day as the day's, and otherwise with the day counted, in no more
/// than sixteen bytes.
pub open spec fn term_text(term: Seq<char>, day: u32) -> Seq<char> {
    if day == 1 {
        put(put((seq![], false), "今日"@, 16), term, 16).0
    } else {
        put(
            put(put(put((seq![], false), term, 16), "第"@, 16), dec(day as nat), 16),
            "天"@,
            16,
        ).0
    }
}

/// `c` with the status of the network and of the battery.
pub open spec fn status_ops(c: Seq<Op>, s: WeatherRenderData, y: int) -> Seq<Op> {
    let c = if s.request_loading {
        c.push(Op::Icon(Icon::Loading, (s.w - 118) as i32, (y + 7) as i32))
    } else {
        c
    };
    let c = c.push(Op::Icon(Icon::WifiStatus, (s.w - 100) as i32, (y + 7) as i32));
    match s.battery_percent {
        Some(p) => c.push(Op::Battery(p, (s.w - 65) as i32, y as i32)),
        None => c,
    }
}

/// `c` with what is at the top: the clock, or the place and when the forecast was fetched.
pub open spec fn top_ops(c: Seq<Op>, style: Style, s: WeatherRenderData, place: Seq<char>) -> Seq<Op> {
    match style {
        Style::Full => c.push(Op::Text(place, hung(4, 1, HPos::Left, Face::Wqy16))).push(
            Op::Text(
                update_text(s.weather_sync_second),
                hung(4, 20, HPos::Left, Face::Wqy12Bold),
            ),
        ),
        _ => match s.now {
            Some(t) => {
                let (x, y) = if style is Small {
                    (0i32, 2i32)
                } else {
                    (4i32, 3i32)
                };
                c.push(Op::Clock(clock_text(t), x, y, HPos::Left, 14, 30, 3))
            },
            None => c,
        },
    }
}

/// `c` with the lines between the parts.
pub open spec fn line_ops(c: Seq<Op>, style: Style, s: WeatherRenderData) -> Seq<Op> {
    let y = header_h(style) as i32;
    let x = (s.w as int / 3) as i32;
    c.push(Op::Line(0, y, s.w, y, 1)).push(Op::Line(x, y, x, s.h, 1))
}

/// `c` with the details of a day on a large panel, from the height `y` on.
pub open spec fn detail_ops(c: Seq<Op>, d: Daily, left: int, y: int) -> Seq<Op> {
    let cx = left / 2;
    let face = Face::Wqy16;
    c.push(Op::WeatherIcon(d.code_day@, cx as i32, (y + 16) as i32, 32)).push(
        Op::Text(d.text_day@, hung(cx, y + 36, HPos::Center, face)),
    ).push(
        Op::Text(d.high@ + "/"@ + d.low@ + "℃"@, hung(cx, y + 56, HPos::Center, face)),
    ).push(Op::Line(4, (y + 78) as i32, (left - 4) as i32, (y + 78) as i32, 1)).push(
        Op::Text(
            "湿度: "@ + d.humidity@ + "%"@,
            hung(6, y + 82, HPos::Left, Face::Wqy12Bold),
        ),
    ).push(
        Op::Text(
            d.wind_direction@ + d.wind_scale@ + "级"@,
            hung(6, y + 98, HPos::Left, Face::Wqy12Bold),
        ),
    ).push(
        Op::Text(
            "降水: "@ + d.rainfall@ + "mm"@,
            hung(6, y + 114, HPos::Left, Face::Wqy12Bold),
        ),
    ).push(Op::Line(4, (y + 134) as i32, (left - 4) as i32, (y + 134) as i32, 1))
}

/// `c` with the date.
pub open spec fn date_ops(c: Seq<Op>, s: WeatherRenderData, cx: int, y: int, face: Face) -> Seq<Op> {
    match s.now {
        Some(t) => c.push(Op::Text(date_text(t), hung(cx, y, HPos::Center, face))),
        None => c,
    }
}

/// `c` with the lunar date.
pub open spec fn lunar_ops(c: Seq<Op>, s: WeatherRenderData, cx: int, y: int, face: Face) -> Seq<Op> {
    match (s.now, s.lunar) {
        (Some(_), Some(l)) => c.push(Op::Text(lunar_text(l), hung(cx, y, HPos::Center, face))),
        _ => c,
    }
}

/// `c` with the clock and the calendar at the bottom of the left part.
pub open spec fn calendar_ops(c: Seq<Op>, s: WeatherRenderData, season: Season, cx: int) -> Seq<Op> {
    match s.now {
        None => c,
        Some(t) => {
            let y = s.h - 108;
            let face = Face::Wqy12Bold;
            let c = c.push(
                Op::Clock(clock_text(t), cx as i32, y as i32, HPos::Center, 22, 52, 4),
            ).push(
                Op::Text(
                    dec(t.year as nat) + "."@ + date_text(t),
                    hung(cx, y + 56, HPos::Center, face),
                ),
            );
            lunar_ops(c, s, cx, y + 72, face).push(
                Op::Text(
                    season.zodiac@ + " "@ + term_text(season.term@, season.term_day),
                    hung(cx, y + 88, HPos::Center, face),
                ),
            )
        },
    }
}

/// `c` with the left part: today.
pub open spec fn left_ops(c: Seq<Op>, style: Style, s: WeatherRenderData, season: Season, d: Daily) -> Seq<
    Op,
> {
    let left = s.w as int / 3;
    let cx = left / 2;
    match style {
        Style::Small => {
            let c = date_ops(c, s, cx, 36, Face::Wqy12Bold).push(
                Op::WeatherIcon(d.code_day@, cx as i32, 61, 22),
            ).push(
                Op::Text(
                    d.text_day@ + " "@ + d.high@ + "/"@ + d.low@ + "℃"@,
                    hung(cx, 74, HPos::Center, Face::Wqy12Bold),
                ),
            );
            lunar_ops(c, s, cx, 88, Face::Wqy12Bold)
        },
        Style::Large => {
            let c = detail_ops(date_ops(c, s, cx, 40, Face::Wqy16), d, left, 60);
            lunar_ops(c, s, cx, 198, Face::Wqy16)
        },
        Style::Full => calendar_ops(detail_ops(c, d, left, 40), s, season, cx),
    }
}

/// The width of a day's column on the right, among `n`.
pub open spec fn column_w(w: int, n: int) -> int {
    (w - w / 3 - 1) / n
}

/// The middle of the column `i`.
pub open spec fn column_x(w: int, n: int, i: int) -> int {
    w / 3 + 1 + column_w(w, n) * i + column_w(w, n) / 2
}

/// `c` with the weather of the first `k` days.
pub open spec fn day_ops(c: Seq<Op>, daily: Seq<Daily>, w: int, y: int, k: int) -> Seq<Op>
    decreases k,
{
    if k <= 0 {
        c
    } else {
        let cx = column_x(w, daily.len() as int, k - 1);
        let d = daily[k - 1];
        day_ops(c, daily, w, y, k - 1).push(
            Op::WeatherIcon(d.code_day@, cx as i32, (y + 16) as i32, 32),
        ).push(Op::Text(d.text_day@, hung(cx, y + 33, HPos::Center, Face::Wqy12Bold)))
    }
}

/// The month and the day of a date, with a slash between them.
pub open spec fn short_date(date: Seq<char>) -> Seq<char> {
    let part = match split_at_char(date, '-') {
        Some((_, rest)) => rest,
        None => date,
    };
    replaced(part, '-', '/')
}

/// `c` with the weather of the first `k` nights, and their dates.
pub open spec fn night_ops(c: Seq<Op>, daily: Seq<Daily>, w: int, y: int, k: int) -> Seq<Op>
    decreases k,
{
    if k <= 0 {
        c
    } else {
        let cx = column_x(w, daily.len() as int, k - 1);
        let d = daily[k - 1];
        let face = Face::Wqy12Bold;
        night_ops(c, daily, w, y, k - 1).push(
            Op::WeatherIcon(d.code_night@, cx as i32, (y + 16) as i32, 32),
        ).push(Op::Text(d.text_night@, hung(cx, y + 33, HPos::Center, face))).push(
            Op::Text(short_date(d.date@), hung(cx, y + 46, HPos::Center, face)),
        )
    }
}

/// A temperature, nought where the text is none.
pub open spec fn degrees(t: Seq<char>) -> i32 {
    match int_parsed(t) {
        Some(n) => n as i32,
        None => 0,
    }
}

/// The highest and the lowest temperatures of the days.
pub open spec fn temperatures(daily: Seq<Daily>) -> Seq<(i32, i32)> {
    Seq::new(daily.len(), |i: int| (degrees(daily[i].high@), degrees(daily[i].low@)))
}

/// Where the temperatures are drawn.
pub open spec fn chart_area(style: Style, w: int, h: int, n: int) -> Area {
    let (day_h, night_h, margin): (int, int, int) = if style is Small {
        (36, 36, 6)
    } else {
        (44, 56, 12)
    };
    let top = header_h(style) + day_h;
    Area {
        x: (w / 3 + 1 + column_w(w, n) / 2) as i32,
        y: (top + margin) as i32,
        w: (column_w(w, n) * (n - 1)) as u32,
        h: (h - night_h - top - margin * 2) as u32,
    }
}

/// `c` with the right part: the days above, the temperatures, and the nights below.
pub open spec fn right_ops(c: Seq<Op>, style: Style, w: int, h: int, daily: Seq<Daily>) -> Seq<Op> {
    let n = daily.len() as int;
    let top = header_h(style) + (if style is Small {
        36int
    } else {
        44
    });
    let night = h - (if style is Small {
        36int
    } else {
        56
    });
    let x = (w / 3 + 1) as i32;
    let a = chart_area(style, w, h, n);
    let c = day_ops(c, daily, w, header_h(style), n).push(
        Op::Line(x, top as i32, w as i32, top as i32, 1),
    ).push(Op::TempChart(a, temperatures(daily))).push(
        Op::TempLabels(a, temperatures(daily)),
    ).push(Op::Line(x, night as i32, w as i32, night as i32, 1));
    night_ops(c, daily, w, night, n)
}

/// What the forecast looks like; nothing for one without days.
pub open spec fn forecast_ops(style: Style, s: WeatherRenderData, season: Season, r: DailyResult) -> Seq<
    Op,
> {
    let c = seq![Op::Clear(Ink::White)];
    if r.daily@.len() == 0 {
        c
    } else {
        let c = top_ops(c, style, s, r.location.name@);
        let c = line_ops(status_ops(c, s, battery_y(style)), style, s);
        let c = left_ops(c, style, s, season, r.daily@[0]);
        right_ops(c, style, s.w as int, s.h as int, r.daily@)
    }
}

/// A line of text while there is no forecast.
pub open spec fn note_at(y: int) -> Anchor {
    Anchor {
        x: 0,
        y: y as i32,
        v: VPos::Baseline,
        h: HPos::Left,
        ink: Ink::Black,
        face: Face::Wqy16,
    }
}

/// What is shown before the forecast was fetched.
pub open spec fn waiting_ops(connecting: bool, holiday_synced: bool) -> Seq<Op> {
    let c = seq![
        Op::Clear(Ink::White),
        Op::Text(
            if connecting {
                "正在连接网络..."@
            } else {
                "正在同步天气..."@
            },
            note_at(20),
        ),
    ];
    if holiday_synced {
        c
    } else {
        c.push(Op::Text("正在同步节假日..."@, note_at(40)))
    }
}

impl WeatherRenderData {
    /// The panel is large enough, the moment is one, and the lunar date is that of its day.
    pub open spec fn valid(self, style: Style) -> bool {
        &&& 0 <= self.w <= 0x4000
        &&& self.h <= 0x4000
        &&& self.h >= (if style is Small {
            118int
        } else {
            160
        })
        &&& self.now matches Some(t) ==> {
            &&& t.valid()
            &&& t.day <= solar_month_len(t.year as int, t.month as int)
            &&& is_lunar_date(
                self.lunar,
                days_since_1900(t.year as int, t.month as int, t.day as int),
            )
        }
        &&& self.weather_sync_second <= u64::MAX - 28800
    }
}

/// The lunar date of a moment.
pub fn lunar_of(t: &LocalTime) -> (l: Option<LunarDay>)
    requires
        t.valid(),
        t.day <= solar_month_len(t.year as int, t.month as int),
    ensures
        is_lunar_date(l, days_since_1900(t.year as int, t.month as int, t.day as int)),
{
    let month = Lunar::new(t.year as u16, t.month);
    month.get_lunar_day(t.day)
}

/// A time of day.
fn show_clock(t: &LocalTime) -> (s: String)
    requires
        t.valid(),
    ensures
        s@ == clock_text(*t),
{
    let mut s = String::new();
    push_two(&mut s, t.hour as u64);
    s.append(":");
    push_two(&mut s, t.minute as u64);
    assert(s@ =~= clock_text(*t));
    s
}

/// The month, the day and the day of the week.
fn show_date(t: &LocalTime) -> (s: String)
    ensures
        s@ == date_text(*t),
{
    let mut s = join3(dec_text(t.month as u64).as_str(), ".", dec_text(t.day as u64).as_str());
    s.append(" ");
    s.append(weekday_name(t.weekday));
    s
}

/// The time at which the forecast was fetched.
fn show_update(sync: u64) -> (s: String)
    requires
        sync <= u64::MAX - 28800,
    ensures
        s@ == update_text(sync),
{
    if sync > KNOWN_SINCE {
        let local: u64 = sync + 28800;
        let mut s = String::new();
        s.append("更新 ");
        push_two(&mut s, (local / 3600) % 24);
        s.append(":");
        push_two(&mut s, (local / 60) % 60);
        assert(s@ =~= update_text(sync));
        s
    } else {
        join("更新 ", "--:--")
    }
}

/// The solar term.
fn show_term(term: &str, day: u32) -> (s: String)
    ensures
        s@ == term_text(term@, day),
{
    let mut w = Limited::new();
    if day == 1 {
        w.put("今日", 16);
        w.put(term, 16);
    } else {
        w.put(term, 16);
        w.put("第", 16);
        w.put(dec_text(day as u64).as_str(), 16);
        w.put("天", 16);
    }
    w.text
}

/// Draws the date.
fn draw_date(c: &mut Canvas, s: &WeatherRenderData, cx: i32, y: i32, face: Face)
    ensures
        final(c)@ == date_ops(old(c)@, *s, cx as int, y as int, face),
{
    if let Some(t) = s.now {
        c.text(show_date(&t), hang(cx, y, HPos::Center, face));
    }
}

/// Draws the lunar date.
fn draw_lunar(c: &mut Canvas, s: &WeatherRenderData, cx: i32, y: i32, face: Face)
    ensures
        final(c)@ == lunar_ops(old(c)@, *s, cx as int, y as int, face),
{
    if s.now.is_some() {
        if let Some(l) = s.lunar {
            c.text(join(l.get_month_name(), l.get_day_name()), hang(cx, y, HPos::Center, face));
        }
    }
}

/// Draws what is at the top.
fn draw_top(c: &mut Canvas, style: Style, s: &WeatherRenderData, place: &str)
    requires
        s.valid(style),
    ensures
        final(c)@ == top_ops(old(c)@, style, *s, place@),
{
    match style {
        Style::Full => {
            c.label(place, hang(4, 1, HPos::Left, Face::Wqy16));
            c.text(show_update(s.weather_sync_second), hang(4, 20, HPos::Left, Face::Wqy12Bold));
        },
        _ => {
            if let Some(t) = s.now {
                let (x, y): (i32, i32) = if style == Style::Small {
                    (0, 2)
                } else {
                    (4, 3)
                };
                c.add_op(DrawOp::Clock(show_clock(&t), x, y, HPos::Left, 14, 30, 3));
            }
        },
    }
}

/// Draws the status of the network and of the battery.
fn draw_status(c: &mut Canvas, s: &WeatherRenderData, y: i32)
    requires
        0 <= s.w <= 0x4000,
        0 <= y <= 100,
    ensures
        final(c)@ == status_ops(old(c)@, *s, y as int),
{
    if s.request_loading {
        c.add_op(DrawOp::Icon(Icon::Loading, s.w - 118, y + 7));
    }
    c.add_op(DrawOp::Icon(Icon::WifiStatus, s.w - 100, y + 7));
    if let Some(p) = s.battery_percent {
        c.add_op(DrawOp::Battery(p, s.w - 65, y));
    }
}

/// Draws the details of a day.
fn draw_detail(c: &mut Canvas, d: &Daily, left: i32, y: i32)
    requires
        0 <= left <= 0x4000,
        0 <= y <= 100,
    ensures
        final(c)@ == detail_ops(old(c)@, *d, left as int, y as int),
{
    let cx: i32 = left / 2;
    c.add_op(DrawOp::WeatherIcon(d.code_day.clone(), cx, y + 16, 32));
    c.text(d.text_day.clone(), hang(cx, y + 36, HPos::Center, Face::Wqy16));
    let mut range = join3(d.high.as_str(), "/", d.low.as_str());
    range.append("℃");
    c.text(range, hang(cx, y + 56, HPos::Center, Face::Wqy16));
    c.line(4, y + 78, left - 4, y + 78, 1);
    c.text(
        join3("湿度: ", d.humidity.as_str(), "%"),
        hang(6, y + 82, HPos::Left, Face::Wqy12Bold),
    );
    c.text(
        join3(d.wind_direction.as_str(), d.wind_scale.as_str(), "级"),
        hang(6, y + 98, HPos::Left, Face::Wqy12Bold),
    );
    c.text(
        join3("降水: ", d.rainfall.as_str(), "mm"),
        hang(6, y + 114, HPos::Left, Face::Wqy12Bold),
    );
    c.line(4, y + 134, left - 4, y + 134, 1);
}

/// Draws the clock and the calendar.
fn draw_calendar(c: &mut Canvas, s: &WeatherRenderData, season: &Season, cx: i32)
    requires
        s.valid(Style::Full),
    ensures
        final(c)@ == calendar_ops(old(c)@, *s, *season, cx as int),
{
    if let Some(t) = s.now {
        let y: i32 = s.h - 108;
        c.add_op(DrawOp::Clock(show_clock(&t), cx, y, HPos::Center, 22, 52, 4));
        let date = show_date(&t);
        c.text(
            join3(dec_text(t.year as u64).as_str(), ".", date.as_str()),
            hang(cx, y + 56, HPos::Center, Face::Wqy12Bold),
        );
        draw_lunar(c, s, cx, y + 72, Face::Wqy12Bold);
        let term = show_term(season.term.as_str(), season.term_day);
        c.text(
            join3(season.zodiac.as_str(), " ", term.as_str()),
            hang(cx, y + 88, HPos::Center, Face::Wqy12Bold),
        );
    }
}

/// Draws the left part.
fn draw_left(c: &mut Canvas, style: Style, s: &WeatherRenderData, season: &Season, d: &Daily)
    requires
        s.valid(style),
    ensures
        final(c)@ == left_ops(old(c)@, style, *s, *season, *d),
{
    let left: i32 = s.w / 3;
    let cx: i32 = left / 2;
    match style {
        Style::Small => {
            draw_date(c, s, cx, 36, Face::Wqy12Bold);
            c.add_op(DrawOp::WeatherIcon(d.code_day.clone(), cx, 61, 22));
            let mut t = join3(d.text_day.as_str(), " ", d.high.as_str());
            t.append("/");
            t.append(d.low.as_str());
            t.append("℃");
            c.text(t, hang(cx, 74, HPos::Center, Face::Wqy12Bold));
            draw_lunar(c, s, cx, 88, Face::Wqy12Bold);
        },
        Style::Large => {
            draw_date(c, s, cx, 40, Face::Wqy16);
            draw_detail(c, d, left, 60);
            draw_lunar(c, s, cx, 198, Face::Wqy16);
        },
        Style::Full => {
            draw_detail(c, d, left, 40);
            draw_calendar(c, s, season, cx);
        },
    }
}

/// The middle of a column.
fn middle_of(w: i32, n: i32, i: i32) -> (x: i32)
    requires
        0 <= w <= 0x4000,
        1 <= n <= 10,
        0 <= i < n,
    ensures
        x == column_x(w as int, n as int, i as int),
        -0x10000 <= x <= 0x10_0000,
{
    let right_w: i32 = w - w / 3 - 1;
    if right_w < 0 {
        assert(w == 0);
        assert(column_w(0, n as int) == (-1) / (n as int));
        assert((-1) / (n as int) == -1) by (nonlinear_arith)
            requires
                1 <= n,
        ;
        assert((-1int) / 2 == -1);
        let col: i32 = -1;
        return w / 3 + 1 + col * i - 1;
    }
    let col: i32 = right_w / n;
    assert(0 <= col <= 0x4000) by (nonlinear_arith)
        requires
            0 <= right_w <= 0x4000,
            n >= 1,
            col == right_w / n,
    ;
    assert(0 <= col * i <= 0x4000 * 10) by (nonlinear_arith)
        requires
            0 <= col <= 0x4000,
            0 <= i <= 10,
    ;
    w / 3 + 1 + col * i + col / 2
}

/// The temperatures of the days.
fn read_temperatures(daily: &Vec<Daily>) -> (t: Vec<(i32, i32)>)
    ensures
        t@ == temperatures(daily@),
{
    let mut t: Vec<(i32, i32)> = Vec::new();
    while t.len() < daily.len()
        invariant
            t@.len() <= daily@.len(),
            forall|i: int| 0 <= i < t@.len() ==> t@[i] == temperatures(daily@)[i],
        decreases daily@.len() - t@.len(),
    {
        let d = &daily[t.len()];
        let hi: i32 = match parse_int(d.high.as_str()) {
            Some(n) => n,
            None => 0,
        };
        let lo: i32 = match parse_int(d.low.as_str()) {
            Some(n) => n,
            None => 0,
        };
        t.push((hi, lo));
    }
    assert(t@ =~= temperatures(daily@));
    t
}

/// The month and the day of a date.
fn show_short_date(date: &str) -> (s: String)
    ensures
        s@ == short_date(date@),
{
    match split_once(date, '-') {
        Some((_, rest)) => replace_char(rest, '-', '/'),
        None => replace_char(date, '-', '/'),
    }
}

/// Draws the right part.
fn draw_right(c: &mut Canvas, style: Style, w: i32, h: i32, daily: &Vec<Daily>)
    requires
        3 <= w <= 0x4000,
        h <= 0x4000,
        h >= (if style is Small {
            118int
        } else {
            160
        }),
        1 <= daily@.len() <= 10,
    ensures
        final(c)@ == right_ops(old(c)@, style, w as int, h as int, daily@),
{
    let n: i32 = daily.len() as i32;
    let (head, day_h, night_h, margin): (i32, i32, i32, i32) = if style == Style::Small {
        (34, 36, 36, 6)
    } else {
        (36, 44, 56, 12)
    };
    let ghost c0 = c@;
    let mut i: i32 = 0;
    while i < n
        invariant
            0 <= i <= n,
            n == daily@.len(),
            1 <= n <= 10,
            3 <= w <= 0x4000,
            head == header_h(style),
            c@ == day_ops(c0, daily@, w as int, head as int, i as int),
        decreases n - i,
    {
        let cx: i32 = middle_of(w, n, i);
        let d = &daily[i as usize];
        c.add_op(DrawOp::WeatherIcon(d.code_day.clone(), cx, head + 16, 32));
        c.text(d.text_day.clone(), hang(cx, head + 33, HPos::Center, Face::Wqy12Bold));
        i += 1;
    }
    let top: i32 = head + day_h;
    let x: i32 = w / 3 + 1;
    c.line(x, top, w, top, 1);
    let night: i32 = h - night_h;
    let col: i32 = (w - w / 3 - 1) / n;
    assert(0 <= col <= 0x4000) by (nonlinear_arith)
        requires
            0 <= w - w / 3 - 1 <= 0x4000,
            n >= 1,
            col == (w - w / 3 - 1) / (n as int),
    ;
    assert(0 <= col * (n - 1) <= 0x4000 * 10) by (nonlinear_arith)
        requires
            0 <= col <= 0x4000,
            1 <= n <= 10,
    ;
    let a = Area {
        x: x + col / 2,
        y: top + margin,
        w: (col * (n - 1)) as u32,
        h: (night - top - margin * 2) as u32,
    };
    assert(a == chart_area(style, w as int, h as int, n as int));
    c.add_op(DrawOp::TempChart(a, read_temperatures(daily)));
    c.add_op(DrawOp::TempLabels(a, read_temperatures(daily)));
    c.line(x, night, w, night, 1);
    let ghost c1 = c@;
    let mut i: i32 = 0;
    while i < n
        invariant
            0 <= i <= n,
            n == daily@.len(),
            1 <= n <= 10,
            3 <= w <= 0x4000,
            0 <= night <= 0x4000,
            c@ == night_ops(c1, daily@, w as int, night as int, i as int),
        decreases n - i,
    {
        let cx: i32 = middle_of(w, n, i);
        let d = &daily[i as usize];
        c.add_op(DrawOp::WeatherIcon(d.code_night.clone(), cx, night + 16, 32));
        c.text(d.text_night.clone(), hang(cx, night + 33, HPos::Center, Face::Wqy12Bold));
        c.text(
            show_short_date(d.date.as_str()),
            hang(cx, night + 46, HPos::Center, Face::Wqy12Bold),
        );
        i += 1;
    }
}

/// Draws the forecast.
pub fn draw_forecast(style: Style, s: &WeatherRenderData, season: &Season, r: &DailyResult) -> (c:
    Canvas)
    requires
        s.valid(style),
        s.w >= 3,
        r.daily@.len() <= 10,
    ensures
        c@ == forecast_ops(style, *s, *season, *r),
{
    let mut c = Canvas::new();
    c.clear(Ink::White);
    assert(c@ =~= seq![Op::Clear(Ink::White)]);
    if r.daily.len() == 0 {
        return c;
    }
    draw_top(&mut c, style, s, r.location.name.as_str());
    let (y, head): (i32, i32) = if style == Style::Small {
        (2, 34)
    } else {
        (10, 36)
    };
    draw_status(&mut c, s, y);
    let x: i32 = s.w / 3;
    c.line(0, head, s.w, head, 1);
    c.line(x, head, x, s.h, 1);
    draw_left(&mut c, style, s, season, &r.daily[0]);
    draw_right(&mut c, style, s.w, s.h, &r.daily);
    c
}

fn note_anchor(y: i32) -> (a: Anchor)
    ensures
        a == note_at(y as int),
{
    Anchor {
        x: 0,
        y,
        v: VPos::Baseline,
        h: HPos::Left,
        ink: Ink::Black,
        face: Face::Wqy16,
    }
}

/// Draws what is shown before the forecast was fetched.
fn draw_waiting(connecting: bool, holiday_synced: bool) -> (c: Canvas)
    ensures
        c@ == waiting_ops(connecting, holiday_synced),
{
    let mut c = Canvas::new();
    c.clear(Ink::White);
    if connecting {
        c.label("正在连接网络...", note_anchor(20));
    } else {
        c.label("正在同步天气...", note_anchor(20));
    }
    proof {
        assert(c@ =~= seq![
            Op::Clear(Ink::White),
            Op::Text(
                if connecting {
                    "正在连接网络..."@
                } else {
                    "正在同步天气..."@
                },
                note_at(20),
            ),
        ]);
    }
    if !holiday_synced {
        c.label("正在同步节假日...", note_anchor(40));
    }
    c
}

/// Draws the page: what is waited for, that there is no forecast, or the forecast.
pub fn draw(
    style: Style,
    s: &WeatherRenderData,
    season: &Season,
    weather_synced: bool,
    wifi_connecting: bool,
    holiday_synced: bool,
    weather: &Option<DailyResult>,
) -> (c: Canvas)
    requires
        s.valid(style),
        s.w >= 3,
        weather matches Some(r) ==> r.daily@.len() <= 10,
    ensures
        c@ == (if !weather_synced {
            waiting_ops(wifi_connecting, holiday_synced)
        } else {
            match *weather {
                Some(r) => forecast_ops(style, *s, *season, r),
                None => seq![Op::Clear(Ink::White), Op::Text("无天气数据"@, note_at(20))],
            }
        }),
{
    if !weather_synced {
        return draw_waiting(wifi_connecting, holiday_synced);
    }
    match weather {
        Some(r) => draw_forecast(style, s, season, r),
        None => {
            let mut c = Canvas::new();
            c.clear(Ink::White);
            c.label("无天气数据", note_anchor(20));
            assert(c@ =~= seq![Op::Clear(Ink::White), Op::Text("无天气数据"@, note_at(20))]);
            c
        },
    }
}

/// The layout for a panel of width `w`.
pub fn style_for(w: i32) -> (style: Style)
    ensures
        style == (if w < 350 {
            Style::Small
        } else {
            Style::Large
        }),
{
    if w < 350 {
        Style::Small
    } else {
        Style::Large
    }
}

/// What stays of the status in sleep, with a moon beside it.
pub fn sleep_renderer(style: Style, request_loading: bool, w: i32) -> (c: Canvas)
    requires
        0 <= w <= 0x4000,
    ensures
        ({
            let y = battery_y(style);
            let c0 = if request_loading {
                seq![Op::Icon(Icon::Loading, (w - 118) as i32, (y + 7) as i32)]
            } else {
                seq![]
            };
            c@ == c0.push(Op::Icon(Icon::WifiStatus, (w - 100) as i32, (y + 7) as i32)).push(
                Op::Icon(Icon::Moon, (w - 82) as i32, y as i32),
            )
        }),
{
    let y: i32 = if style == Style::Small {
        2
    } else {
        10
    };
    let mut c = Canvas::new();
    if request_loading {
        c.add_op(DrawOp::Icon(Icon::Loading, w - 118, y + 7));
    }
    proof {
        let c0 = if request_loading {
            seq![Op::Icon(Icon::Loading, (w - 118) as i32, (y + 7) as i32)]
        } else {
            seq![]
        };
        assert(c@ =~= c0);
    }
    c.add_op(DrawOp::Icon(Icon::WifiStatus, w - 100, y + 7));
    c.add_op(DrawOp::Icon(Icon::Moon, w - 82, y));
    c
}

/// The columns of the days follow one another and stay on the panel.
pub proof fn law_columns_stay_on_the_panel(w: int, n: int, i: int)
    requires
        w >= 3,
        n >= 1,
        0 <= i < n,
    ensures
        w / 3 < column_x(w, n, i),
        column_x(w, n, i) <= w,
        i + 1 < n ==> column_x(w, n, i) + column_w(w, n) == column_x(w, n, i + 1),
{
    let right = w - w / 3 - 1;
    let col = column_w(w, n);
    assert(0 <= col) by (nonlinear_arith)
        requires
            right >= 0,
            n >= 1,
            col == right / n,
    ;
    assert(col * n <= right) by (nonlinear_arith)
        requires
            right >= 0,
            n >= 1,
            col == right / n,
    ;
    assert(col * i + col <= col * n) by (nonlinear_arith)
        requires
            i + 1 <= n,
            col >= 0,
    ;
    assert(col * i >= 0) by (nonlinear_arith)
        requires
            i >= 0,
            col >= 0,
    ;
    assert(col * (i + 1) == col * i + col) by (nonlinear_arith);
}

/// A clock reads back: two digits of the hour and two of the minute.
pub proof fn law_clock_reads_back(t: LocalTime)
    requires
        t.valid(),
    ensures
        clock_text(t).len() == 5,
        clock_text(t)[2] == ':',
        num_of(clock_text(t).take(2)) == t.hour,
        num_of(clock_text(t).skip(3)) == t.minute,
{
    reveal_strlit(":");
    law_two_digits_read_back(t.hour as int);
    law_two_digits_read_back(t.minute as int);
    assert(clock_text(t).take(2) =~= two(t.hour as int));
    assert(clock_text(t).skip(3) =~= two(t.minute as int));
}

/// The time at which the forecast was fetched is that of a zone eight hours ahead: its minutes since
/// midnight are those of the second, four hundred and eighty on.
#[verifier::rlimit(50)]
pub proof fn law_update_is_in_local_time(sync: u64, days: int)
    requires
        sync > 1577836800,
        0 <= sync + 8 * 3600 - days * 86400 < 86400,
    ensures
        ({
            let t = update_text(sync);
            let minutes = (sync + 8 * 3600 - days * 86400) / 60;
            &&& t.len() == 8
            &&& t[5] == ':'
            &&& num_of(t.subrange(3, 5)) * 60 + num_of(t.skip(6)) == minutes
            &&& num_of(t.skip(6)) < 60
        }),
{
    reveal_strlit("更新 ");
    reveal_strlit(":");
    let local = sync + 28800;
    let left = local - days * 86400;
    let h = (local / 3600) % 24;
    let m = (local / 60) % 60;
    lemma_of_the_day(local, days);
    law_two_digits_read_back(h);
    law_two_digits_read_back(m);
    let t = update_text(sync);
    assert(t.subrange(3, 5) =~= two(h));
    assert(t.skip(6) =~= two(m));
}

proof fn lemma_of_the_day(local: int, days: int)
    requires
        0 <= local - days * 86400 < 86400,
        0 <= local,
    ensures
        ((local / 3600) % 24) * 60 + (local / 60) % 60 == (local - days * 86400) / 60,
        0 <= (local / 3600) % 24 < 24,
        0 <= (local / 60) % 60 < 60,
{
    let left = local - days * 86400;
    assert(local / 3600 == left / 3600 + days * 24);
    assert(local / 60 == left / 60 + days * 1440);
    assert(0 <= left / 3600 < 24);
    assert((local / 3600) % 24 == left / 3600);
    assert((local / 60) % 60 == (left / 60) % 60);
}

/// The temperatures of a chart are those of the days, the high one first, whatever their sign.
pub proof fn law_chart_shows_the_temperatures(daily: Seq<Daily>, i: int, high: int, low: int)
    requires
        0 <= i < daily.len(),
        daily[i].high@ == signed_dec(high),
        daily[i].low@ == signed_dec(low),
        -0x8000_0000 <= high <= 0x7fff_ffff,
        -0x8000_0000 <= low <= 0x7fff_ffff,
    ensures
        temperatures(daily).len() == daily.len(),
        temperatures(daily)[i].0 == high,
        temperatures(daily)[i].1 == low,
{
    law_texts_are_read_as_their_whole_number(seq![], high);
    law_texts_are_read_as_their_whole_number(seq![], low);
}

/// The chart of the temperatures begins in the middle of the first day's column and ends in the
/// middle of the last one's, between the lines of the days above and of the nights below.
#[verifier::rlimit(50)]
pub proof fn law_chart_stands_under_its_days(style: Style, w: int, h: int, n: int)
    requires
        3 <= w <= 0x4000,
        160 <= h <= 0x4000,
        1 <= n <= 100,
    ensures
        chart_area(style, w, h, n).x == column_x(w, n, 0),
        chart_area(style, w, h, n).x + chart_area(style, w, h, n).w == column_x(w, n, n - 1),
        header_h(style) < chart_area(style, w, h, n).y,
        chart_area(style, w, h, n).y + chart_area(style, w, h, n).h < h,
{
    law_columns_stay_on_the_panel(w, n, 0);
    law_columns_stay_on_the_panel(w, n, n - 1);
    let col = column_w(w, n);
    assert(col * 0 == 0);
    assert(0 <= col * (n - 1)) by (nonlinear_arith)
        requires
            col >= 0,
            n >= 1,
    ;
}

/// A short date is the month and the day, with a slash for a dash.
pub proof fn law_short_dates_leave_the_year_out(year: Seq<char>, month: Seq<char>, day: Seq<char>)
    requires
        !year.contains('-'),
        !month.contains('-'),
        !day.contains('-'),
    ensures
        short_date(year + seq!['-'] + (month + seq!['-'] + day)) == month + seq!['/'] + day,
{
    let rest = month + seq!['-'] + day;
    let s = year + seq!['-'] + rest;
    law_split_parts(s, '-');
    assert(s[year.len() as int] == '-');
    assert(s.contains('-'));
    let p = split_at_char(s, '-')->0;
    let k = p.0.len() as int;
    if k < year.len() {
        assert((p.0 + seq!['-'] + p.1)[k] == '-');
        assert(year[k] == '-');
        assert(year.contains('-'));
    }
    if year.len() < k {
        assert((p.0 + seq!['-'] + p.1)[year.len() as int] == p.0[year.len() as int]);
        assert(p.0.contains('-'));
    }
    assert(p.1 =~= s.skip(k + 1));
    assert(p.1 =~= rest);
    let r = replaced(rest, '-', '/');
    let want = month + seq!['/'] + day;
    assert forall|i: int| 0 <= i < r.len() implies r[i] == want[i] by {
        if i < month.len() {
            assert(month.contains(month[i]));
        } else if i > month.len() {
            assert(day.contains(day[i - month.len() - 1]));
        }
    }
    assert(r =~= want);
}

/// The day in detail shows its highest temperature before its lowest, with the unit behind them, its
/// humidity, its wind and its rain.
pub proof fn law_details_show_the_day(c: Seq<Op>, d: Daily, left: int, y: int)
    ensures
        ({
            let r = detail_ops(c, d, left, y);
            let n = c.len() as int;
            &&& r.len() == n + 8
            &&& r.take(n) == c
            &&& r[n] matches Op::WeatherIcon(code, _, _, _) && code == d.code_day@
            &&& r[n + 1] matches Op::Text(t, _) && t == d.text_day@
            &&& r[n + 2] matches Op::Text(t, _) && t == d.high@ + "/"@ + d.low@ + "℃"@
            &&& r[n + 4] matches Op::Text(t, _) && t == "湿度: "@ + d.humidity@ + "%"@
            &&& r[n + 5] matches Op::Text(t, _) && t == d.wind_direction@ + d.wind_scale@ + "级"@
            &&& r[n + 6] matches Op::Text(t, _) && t == "降水: "@ + d.rainfall@ + "mm"@
        }),
{
    let n = c.len() as int;
    assert(detail_ops(c, d, left, y).take(n) =~= c);
}

/// Every day stands in its column, in the order of the forecast: by day above, and by night below
/// with its date.
#[verifier::rlimit(50)]
pub proof fn law_days_stand_in_their_columns(c: Seq<Op>, daily: Seq<Daily>, w: int, y: int, k: int, i: int)
    requires
        0 <= i < k <= daily.len(),
    ensures
        ({
            let a = day_ops(c, daily, w, y, k);
            let b = night_ops(c, daily, w, y, k);
            let cx = column_x(w, daily.len() as int, i) as i32;
            &&& a.len() == c.len() + 2 * k
            &&& a[c.len() + 2 * i] matches Op::WeatherIcon(code, x, _, _) && code == daily[i].code_day@
                && x == cx
            &&& a[c.len() + 2 * i + 1] matches Op::Text(t, at) && t == daily[i].text_day@ && at.x == cx
            &&& b.len() == c.len() + 3 * k
            &&& b[c.len() + 3 * i] matches Op::WeatherIcon(code, x, _, _) && code
                == daily[i].code_night@ && x == cx
            &&& b[c.len() + 3 * i + 1] matches Op::Text(t, at) && t == daily[i].text_night@ && at.x
                == cx
            &&& b[c.len() + 3 * i + 2] matches Op::Text(t, at) && t == short_date(daily[i].date@)
                && at.x == cx
        }),
    decreases k,
{
    if i < k - 1 {
        law_days_stand_in_their_columns(c, daily, w, y, k - 1, i);
    } else if k > 1 {
        law_days_stand_in_their_columns(c, daily, w, y, k - 1, 0);
    } else {
        assert(day_ops(c, daily, w, y, 0) == c);
        assert(night_ops(c, daily, w, y, 0) == c);
    }
}

/// The date is the month, the day and the day of the week.
pub proof fn law_date_reads_back(t: LocalTime)
    requires
        t.valid(),
    ensures
        exists|m: Seq<char>, d: Seq<char>|
            date_text(t) == #[trigger] (m + seq!['.'] + d + seq![' '] + day_of_week(t.weekday))
                && num_of(m) == t.month && num_of(d) == t.day,
{
    reveal_strlit(".");
    reveal_strlit(" ");
    let m = dec(t.month as nat);
    let d = dec(t.day as nat);
    law_numbers_read_back(t.month as nat);
    law_numbers_read_back(t.day as nat);
    assert("."@ =~= seq!['.']);
    assert(" "@ =~= seq![' ']);
    assert(date_text(t) == m + seq!['.'] + d + seq![' '] + day_of_week(t.weekday));
}

/// A solar term is told on its first day as today's, and after that with the number of the day.
#[verifier::rlimit(50)]
pub proof fn law_terms_are_told_by_day(term: Seq<char>, day: u32)
    requires
        encode_utf8(term).len() <= 6,
        day <= 99,
    ensures
        day == 1 ==> term_text(term, day) == "今日"@ + term,
        day != 1 ==> term_text(term, day) == term + "第"@ + dec(day as nat) + "天"@,
{
    reveal_strlit("今日");
    reveal_strlit("第");
    reveal_strlit("天");
    let e = Seq::<char>::empty();
    assert(encode_utf8(e) =~= seq![]);
    assert(e + "今日"@ =~= "今日"@);
    assert(e + term =~= term);
    law_numbers_read_back(day as nat);
    lemma_dec_len(day as nat);
    assert(is_ascii_chars(dec(day as nat)));
    is_ascii_chars_encode_utf8(dec(day as nat));
    lemma_wide('今');
    lemma_wide('日');
    lemma_wide('第');
    lemma_wide('天');
    assert("今日"@ =~= seq!['今'] + seq!['日']);
    assert("第"@ =~= seq!['第']);
    assert("天"@ =~= seq!['天']);
    lemma_encode_join(seq!['今'], seq!['日']);
    lemma_encode_join("今日"@, term);
    lemma_encode_join(term, "第"@);
    lemma_encode_join(term + "第"@, dec(day as nat));
    lemma_encode_join(term + "第"@ + dec(day as nat), "天"@);
}

proof fn lemma_wide(c: char)
    requires
        0x800 <= c as u32,
        (c as u32) < 0x10000,
    ensures
        encode_utf8(seq![c]).len() == 3,
{
    reveal_with_fuel(encode_utf8, 2);
    assert(seq![c].drop_first() =~= seq![]);
}

/// A temperature that is no number counts as nought on the chart.
pub proof fn law_missing_temperatures_are_nought(t: Seq<char>)
    ensures
        int_parsed(t) is None ==> degrees(t) == 0,
        t.len() == 0 ==> degrees(t) == 0,
{
}

} // verus!
