//! What the calendar looks like.
use vstd::prelude::*;
#[allow(unused_imports)]
use vstd::string::*;

use crate::draw::{Anchor, Area, Canvas, DrawOp, Face, HPos, Icon, Ink, Op, VPos};
use crate::model::daily::{Daily, DailyResult};
use crate::pages::calendar::page::Moment;
use crate::pages::weather::layout::short_date;
use crate::text::{
    join3, law_split_parts, push_two, replace_char, replaced, split_at_char, split_once, two,
};

verus! {

/// The height of the strip with the clock and the weather.
pub const BOTTOM_H: i32 = 45;

/// Where the weather begins.
pub const WEATHER_X: i32 = 100;

/// What is known when the page is drawn.
#[derive(Clone, Copy, Debug, PartialEq, Eq, Structural)]
pub struct CalendarRenderData {
    pub w: i32,
    pub h: i32,
    pub current_date: Option<Moment>,
    pub battery_percent: Option<u32>,
    pub wifi_connecting: bool,
    pub request_loading: bool,
    pub weather_synced: bool,
    pub holiday_synced: bool,
    pub time_synced: bool,
}

/// A line of text that stands on `y`.
pub open spec fn line_at(x: int, y: int) -> Anchor {
    Anchor {
        x: x as i32,
        y: y as i32,
        v: VPos::Baseline,
        h: HPos::Left,
        ink: Ink::Black,
        face: Face::Wqy16,
    }
}

fn line_anchor(x: i32, y: i32) -> (a: Anchor)
    ensures
        a == line_at(x as int, y as int),
{
    Anchor { x, y, v: VPos::Baseline, h: HPos::Left, ink: Ink::Black, face: Face::Wqy16 }
}

/// `c` with what is fetched at the moment.
pub open spec fn wait_ops(c: Seq<Op>, connecting: bool, what: Seq<char>, y: int) -> Seq<Op> {
    c.push(
        Op::Text(
            if connecting {
                "正在连接网络..."@
            } else {
                what
            },
            line_at(0, y),
        ),
    )
}

/// `c` with what is fetched at the moment of the holidays.
pub open spec fn holiday_ops(c: Seq<Op>, d: CalendarRenderData) -> Seq<Op> {
    if d.holiday_synced {
        c
    } else {
        wait_ops(c, d.wifi_connecting, "正在同步节假日..."@, 40)
    }
}

/// `c` with the clock and the month, where the time is known.
pub open spec fn month_ops(c: Seq<Op>, d: CalendarRenderData) -> Seq<Op> {
    if !d.time_synced {
        c.push(Op::Text("正在同步时间..."@, line_at(0, 200)))
    } else {
        match d.current_date {
            None => c,
            Some(t) => c.push(
                Op::Clock(
                    two(t.hour as int) + ":"@ + two(t.minute as int),
                    0,
                    (d.h - BOTTOM_H) as i32,
                    HPos::Left,
                    18,
                    43,
                    4,
                ),
            ).push(
                Op::Calendar(
                    Area { x: 0, y: 0, w: d.w as u32, h: (d.h - BOTTOM_H) as u32 },
                    t.year,
                    t.month,
                    t.day,
                ),
            ),
        }
    }
}

/// The middle of the column of a day's weather.
pub open spec fn weather_cx(w: int, n: int, i: int) -> int {
    let col = (w - WEATHER_X) / n;
    WEATHER_X + col * i + col / 2
}

/// `c` with the weather of the first `k` days as pictures.
pub open spec fn picture_ops(c: Seq<Op>, daily: Seq<Daily>, w: int, h: int, k: int) -> Seq<Op>
    decreases k,
{
    if k <= 0 {
        c
    } else {
        let d = daily[k - 1];
        let cx = weather_cx(w, daily.len() as int, k - 1) as i32;
        picture_ops(c, daily, w, h, k - 1).push(
            Op::WeatherIcon(d.code_day@, cx, (h - BOTTOM_H + 18) as i32, 32),
        ).push(
            Op::Text(
                d.text_day@ + " "@ + short_date(d.date@),
                Anchor {
                    x: cx,
                    y: (h - BOTTOM_H + 33) as i32,
                    v: VPos::Top,
                    h: HPos::Center,
                    ink: Ink::Black,
                    face: Face::Wqy12Bold,
                },
            ),
        )
    }
}

/// What the page looks like with the weather as pictures; it is drawn on a white panel.
pub open spec fn picture_page(d: CalendarRenderData, weather: Option<DailyResult>) -> Seq<Op> {
    let c: Seq<Op> = if d.request_loading {
        seq![Op::Icon(Icon::Loading, (d.w - 118) as i32, 11)]
    } else {
        seq![]
    };
    let c = c.push(Op::Icon(Icon::WifiStatus, (d.w - 100) as i32, 11));
    let c = match d.battery_percent {
        Some(p) => c.push(Op::Battery(p, (d.w - 60) as i32, 4)),
        None => c,
    };
    let c = if !d.weather_synced {
        wait_ops(c, d.wifi_connecting, "正在同步天气..."@, 20)
    } else {
        match weather {
            Some(r) => picture_ops(c, r.daily@, d.w as int, d.h as int, r.daily@.len() as int),
            None => c,
        }
    };
    month_ops(holiday_ops(c, d), d)
}

/// The weather of a day in a line.
pub open spec fn day_line(d: Daily) -> Seq<char> {
    replaced(split_at_char(d.date@, '-')->Some_0.1, '-', '.') + " "@ + d.text_day@ + "/"@ + d.text_night@
        + ","@ + d.low@ + "/"@ + d.high@ + "℃,湿:"@ + d.humidity@ + "%,风:"@ + d.wind_scale@
}

/// `c` with the weather of the first `k` days, a line each.
pub open spec fn line_ops(c: Seq<Op>, daily: Seq<Daily>, h: int, k: int) -> Seq<Op>
    decreases k,
{
    if k <= 0 {
        c
    } else {
        line_ops(c, daily, h, k - 1).push(
            Op::Text(day_line(daily[k - 1]), line_at(WEATHER_X as int, h - BOTTOM_H + (k - 1) * 20)),
        )
    }
}

/// What the page looks like with the weather in lines.
pub open spec fn line_page(d: CalendarRenderData, weather: Option<DailyResult>) -> Seq<Op> {
    let c = seq![Op::Clear(Ink::White)];
    let c = match d.battery_percent {
        Some(p) => c.push(Op::Battery(p, (d.w - 60) as i32, 4)),
        None => c,
    };
    let c = if !d.weather_synced {
        wait_ops(c, d.wifi_connecting, "正在同步天气..."@, 20)
    } else {
        match weather {
            Some(r) => line_ops(c, r.daily@, d.h as int, r.daily@.len() as int),
            None => c,
        }
    };
    month_ops(holiday_ops(c, d), d)
}

impl CalendarRenderData {
    /// The panel is large enough, and the moment is one.
    pub open spec fn valid(self) -> bool {
        &&& WEATHER_X <= self.w <= 0x4000
        &&& BOTTOM_H <= self.h <= 0x4000
        &&& self.current_date matches Some(t) ==> t.valid()
    }
}

/// Draws what is fetched at the moment.
fn draw_wait(c: &mut Canvas, connecting: bool, what: &str, y: i32)
    ensures
        final(c)@ == wait_ops(old(c)@, connecting, what@, y as int),
{
    if connecting {
        c.label("正在连接网络...", line_anchor(0, y));
    } else {
        c.label(what, line_anchor(0, y));
    }
}

/// Draws the clock and the month.
fn draw_month(c: &mut Canvas, d: &CalendarRenderData)
    requires
        d.valid(),
    ensures
        final(c)@ == month_ops(old(c)@, *d),
{
    if !d.time_synced {
        c.label("正在同步时间...", line_anchor(0, 200));
    } else if let Some(t) = d.current_date {
        let mut s = String::new();
        push_two(&mut s, t.hour as u64);
        s.append(":");
        push_two(&mut s, t.minute as u64);
        assert(s@ =~= two(t.hour as int) + ":"@ + two(t.minute as int));
        c.add_op(DrawOp::Clock(s, 0, d.h - BOTTOM_H, HPos::Left, 18, 43, 4));
        c.add_op(
            DrawOp::Calendar(
                Area { x: 0, y: 0, w: d.w as u32, h: (d.h - BOTTOM_H) as u32 },
                t.year,
                t.month,
                t.day,
            ),
        );
    }
}

/// Draws the weather as pictures.
fn draw_pictures(c: &mut Canvas, daily: &Vec<Daily>, w: i32, h: i32)
    requires
        WEATHER_X <= w <= 0x4000,
        BOTTOM_H <= h <= 0x4000,
        daily@.len() <= 10,
    ensures
        final(c)@ == picture_ops(old(c)@, daily@, w as int, h as int, daily@.len() as int),
{
    let ghost c0 = c@;
    let n: i32 = daily.len() as i32;
    let mut i: i32 = 0;
    while i < n
        invariant
            0 <= i <= n,
            n == daily@.len(),
            n <= 10,
            WEATHER_X <= w <= 0x4000,
            BOTTOM_H <= h <= 0x4000,
            c@ == picture_ops(c0, daily@, w as int, h as int, i as int),
        decreases n - i,
    {
        let col: i32 = (w - WEATHER_X) / n;
        assert(0 <= col <= 0x4000) by (nonlinear_arith)
            requires
                0 <= w - WEATHER_X <= 0x4000,
                n >= 1,
                col == (w - WEATHER_X) / (n as int),
        ;
        assert(0 <= col * i <= 0x4000 * 10) by (nonlinear_arith)
            requires
                0 <= col <= 0x4000,
                0 <= i <= 10,
        ;
        let cx: i32 = WEATHER_X + col * i + col / 2;
        let d = &daily[i as usize];
        c.add_op(DrawOp::WeatherIcon(d.code_day.clone(), cx, h - BOTTOM_H + 18, 32));
        let date = match split_once(d.date.as_str(), '-') {
            Some((_, rest)) => replace_char(rest, '-', '/'),
            None => replace_char(d.date.as_str(), '-', '/'),
        };
        c.text(
            join3(d.text_day.as_str(), " ", date.as_str()),
            Anchor {
                x: cx,
                y: h - BOTTOM_H + 33,
                v: VPos::Top,
                h: HPos::Center,
                ink: Ink::Black,
                face: Face::Wqy12Bold,
            },
        );
        i += 1;
    }
}

/// Draws the page with the weather as pictures.
pub fn draw(d: &CalendarRenderData, weather: &Option<DailyResult>) -> (c: Canvas)
    requires
        d.valid(),
        weather matches Some(r) ==> r.daily@.len() <= 10,
    ensures
        c@ == picture_page(*d, *weather),
{
    let mut c = Canvas::new();
    if d.request_loading {
        c.add_op(DrawOp::Icon(Icon::Loading, d.w - 118, 11));
    }
    proof {
        let c0: Seq<Op> = if d.request_loading {
            seq![Op::Icon(Icon::Loading, (d.w - 118) as i32, 11)]
        } else {
            seq![]
        };
        assert(c@ =~= c0);
    }
    c.add_op(DrawOp::Icon(Icon::WifiStatus, d.w - 100, 11));
    if let Some(p) = d.battery_percent {
        c.add_op(DrawOp::Battery(p, d.w - 60, 4));
    }
    if !d.weather_synced {
        draw_wait(&mut c, d.wifi_connecting, "正在同步天气...", 20);
    } else if let Some(r) = weather {
        draw_pictures(&mut c, &r.daily, d.w, d.h);
    }
    if !d.holiday_synced {
        draw_wait(&mut c, d.wifi_connecting, "正在同步节假日...", 40);
    }
    draw_month(&mut c, d);
    c
}

/// The weather of a day in a line.
fn show_day(d: &Daily) -> (s: String)
    requires
        split_at_char(d.date@, '-') is Some,
    ensures
        s@ == day_line(*d),
{
    let mut s = match split_once(d.date.as_str(), '-') {
        Some((_, rest)) => replace_char(rest, '-', '.'),
        None => String::new(),
    };
    s.append(" ");
    s.append(d.text_day.as_str());
    s.append("/");
    s.append(d.text_night.as_str());
    s.append(",");
    s.append(d.low.as_str());
    s.append("/");
    s.append(d.high.as_str());
    s.append("℃,湿:");
    s.append(d.humidity.as_str());
    s.append("%,风:");
    s.append(d.wind_scale.as_str());
    s
}

/// The dates of the days have a dash in them.
pub open spec fn dated(daily: Seq<Daily>) -> bool {
    forall|i: int|
        0 <= i < daily.len() ==> split_at_char((#[trigger] daily[i]).date@, '-') is Some
}

/// Draws the page with the weather in lines.
pub fn draw_lines(d: &CalendarRenderData, weather: &Option<DailyResult>) -> (c: Canvas)
    requires
        d.valid(),
        weather matches Some(r) ==> r.daily@.len() <= 10 && dated(r.daily@),
    ensures
        c@ == line_page(*d, *weather),
{
    let mut c = Canvas::new();
    c.clear(Ink::White);
    assert(c@ =~= seq![Op::Clear(Ink::White)]);
    if let Some(p) = d.battery_percent {
        c.add_op(DrawOp::Battery(p, d.w - 60, 4));
    }
    if !d.weather_synced {
        draw_wait(&mut c, d.wifi_connecting, "正在同步天气...", 20);
    } else if let Some(r) = weather {
        let ghost c0 = c@;
        let mut i: usize = 0;
        while i < r.daily.len()
            invariant
                i <= r.daily@.len() <= 10,
                dated(r.daily@),
                BOTTOM_H <= d.h <= 0x4000,
                c@ == line_ops(c0, r.daily@, d.h as int, i as int),
            decreases r.daily@.len() - i,
        {
            let s = show_day(&r.daily[i]);
            c.text(s, line_anchor(WEATHER_X, d.h - BOTTOM_H + i as i32 * 20));
            i += 1;
        }
    }
    if !d.holiday_synced {
        draw_wait(&mut c, d.wifi_connecting, "正在同步节假日...", 40);
    }
    draw_month(&mut c, d);
    c
}

/// What stays of the status in sleep, with a moon beside it.
pub fn sleep_renderer(w: i32, request_loading: bool) -> (c: Canvas)
    requires
        0 <= w <= 0x4000,
    ensures
        ({
            let c0: Seq<Op> = if request_loading {
                seq![Op::Icon(Icon::Loading, (w - 118) as i32, 11)]
            } else {
                seq![]
            };
            c@ == c0.push(Op::Icon(Icon::WifiStatus, (w - 100) as i32, 11)).push(
                Op::Icon(Icon::Moon, (w - 82) as i32, 4),
            )
        }),
{
    let mut c = Canvas::new();
    if request_loading {
        c.add_op(DrawOp::Icon(Icon::Loading, w - 118, 11));
    }
    proof {
        let c0: Seq<Op> = if request_loading {
            seq![Op::Icon(Icon::Loading, (w - 118) as i32, 11)]
        } else {
            seq![]
        };
        assert(c@ =~= c0);
    }
    c.add_op(DrawOp::Icon(Icon::WifiStatus, w - 100, 11));
    c.add_op(DrawOp::Icon(Icon::Moon, w - 82, 4));
    c
}

/// A line of the calendar tells a day: its date without the year, the weather by day and by night, the
/// lowest and the highest temperature, the humidity and the wind.
pub proof fn law_lines_tell_the_day(d: Daily, year: Seq<char>, rest: Seq<char>)
    requires
        d.date@ == year + seq!['-'] + rest,
        !year.contains('-'),
        !rest.contains('-'),
    ensures
        day_line(d) == rest + " "@ + d.text_day@ + "/"@ + d.text_night@ + ","@ + d.low@ + "/"@ + d.high@
            + "℃,湿:"@ + d.humidity@ + "%,风:"@ + d.wind_scale@,
{
    let s = d.date@;
    law_split_parts(s, '-');
    assert(s[year.len() as int] == '-');
    assert(s.contains('-'));
    let p = split_at_char(s, '-')->0;
    let k = p.0.len() as int;
    if k < year.len() {
        assert((p.0 + seq!['-'] + p.1)[k] == '-');
        assert(year[k] == '-');
        assert(year.contains('-'));
    }
    if year.len() < k {
        assert((p.0 + seq!['-'] + p.1)[year.len() as int] == p.0[year.len() as int]);
        assert(p.0.contains('-'));
    }
    assert(p.1 =~= s.skip(k + 1));
    assert(p.1 =~= rest);
    assert forall|i: int| 0 <= i < rest.len() implies replaced(rest, '-', '.')[i] == rest[i] by {
        assert(rest.contains(rest[i]));
    }
    assert(replaced(rest, '-', '.') =~= rest);
}

/// The days of the calendar stand in columns of one width, side by side in their order.
pub proof fn law_weather_columns_follow(w: int, n: int, i: int)
    requires
        n >= 1,
        0 <= i < n,
        w >= WEATHER_X,
    ensures
        weather_cx(w, n, i) >= WEATHER_X,
        weather_cx(w, n, i) <= w,
        weather_cx(w, n, i + 1) - weather_cx(w, n, i) == (w - WEATHER_X) / n,
{
    let col = (w - WEATHER_X) / n;
    assert(col * (i + 1) == col * i + col) by (nonlinear_arith);
    assert(0 <= col && col * n <= w - WEATHER_X) by (nonlinear_arith)
        requires
            n >= 1,
            w - WEATHER_X >= 0,
            col == (w - WEATHER_X) / n,
    ;
    assert(0 <= col * i && col * i + col <= col * n) by (nonlinear_arith)
        requires
            0 <= i,
            i + 1 <= n,
            col >= 0,
    ;
}

} // verus!
