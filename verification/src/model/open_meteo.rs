//! The forecast of Open-Meteo.
use vstd::prelude::*;
#[allow(unused_imports)]
use vstd::string::*;
#[allow(unused_imports)]
use vstd::utf8::*;

use crate::model::daily::{Daily, DailyResult, Location, DAILY_MAX};
use crate::text::{
    digit, digit_char, int_of, law_whole_numbers_read_back, lemma_encode_join, num_of, push_within,
    pushed, signed_dec, signed_text,
};

verus! {

/// A measured number: its whole part, towards nought; the tenth behind the point; and the nearest
/// whole number.
#[derive(Clone, Copy, Debug, PartialEq, Eq, Structural)]
pub struct Reading {
    pub whole: i32,
    pub tenth: u8,
    pub rounded: i32,
}

/// The days of a forecast, column by column. A column may be missing, and so may a value in it.
pub struct Columns {
    pub time: Vec<Option<String>>,
    pub weather_code: Option<Vec<Option<Reading>>>,
    pub temperature_max: Option<Vec<Option<Reading>>>,
    pub temperature_min: Option<Vec<Option<Reading>>>,
    pub precipitation: Option<Vec<Option<Reading>>>,
    pub humidity: Option<Vec<Option<Reading>>>,
    pub wind_speed: Option<Vec<Option<Reading>>>,
    pub wind_direction: Option<Vec<Option<Reading>>>,
    pub timezone: Option<String>,
}

/// The code under which a kind of weather has its picture.
pub open spec fn icon_code(wmo: u8) -> Seq<char> {
    match wmo {
        0 => "0"@,
        1 => "1"@,
        2 => "4"@,
        3 => "9"@,
        45 | 48 => "30"@,
        51 | 53 | 61 => "13"@,
        55 | 63 | 81 => "14"@,
        56 | 57 | 66 | 67 => "19"@,
        65 => "15"@,
        71 | 77 | 85 => "22"@,
        73 => "23"@,
        75 | 86 => "24"@,
        80 => "10"@,
        82 => "16"@,
        95 => "11"@,
        96 | 99 => "12"@,
        _ => "99"@,
    }
}

/// The code under which a kind of weather has its picture.
pub fn wmo_to_seniverse_code(wmo: u8) -> (s: &'static str)
    ensures
        s@ == icon_code(wmo),
{
    match wmo {
        0 => "0",
        1 => "1",
        2 => "4",
        3 => "9",
        45 | 48 => "30",
        51 | 53 => "13",
        55 => "14",
        56 | 57 => "19",
        61 => "13",
        63 => "14",
        65 => "15",
        66 | 67 => "19",
        71 | 77 | 85 => "22",
        73 => "23",
        75 | 86 => "24",
        80 => "10",
        81 => "14",
        82 => "16",
        95 => "11",
        96 | 99 => "12",
        _ => "99",
    }
}

/// The name of a kind of weather.
pub open spec fn weather_name(wmo: u8) -> Seq<char> {
    match wmo {
        0 => "晴"@,
        1 => "晴间多云"@,
        2 => "多云"@,
        3 => "阴"@,
        45 | 48 => "雾"@,
        51 => "小毛毛雨"@,
        53 => "毛毛雨"@,
        55 => "大毛毛雨"@,
        56 | 57 | 66 | 67 => "冻雨"@,
        61 => "小雨"@,
        63 => "中雨"@,
        65 => "大雨"@,
        71 => "小雪"@,
        73 => "中雪"@,
        75 => "大雪"@,
        77 => "米雪"@,
        80 => "阵雨"@,
        81 => "中阵雨"@,
        82 => "大阵雨"@,
        85 => "阵雪"@,
        86 => "大阵雪"@,
        95 | 96 | 99 => "雷阵雨"@,
        _ => "未知"@,
    }
}

/// The name of a kind of weather.
pub fn wmo_to_chinese(wmo: u8) -> (s: &'static str)
    ensures
        s@ == weather_name(wmo),
{
    match wmo {
        0 => "晴",
        1 => "晴间多云",
        2 => "多云",
        3 => "阴",
        45 | 48 => "雾",
        51 => "小毛毛雨",
        53 => "毛毛雨",
        55 => "大毛毛雨",
        56 | 57 => "冻雨",
        61 => "小雨",
        63 => "中雨",
        65 => "大雨",
        66 | 67 => "冻雨",
        71 => "小雪",
        73 => "中雪",
        75 => "大雪",
        77 => "米雪",
        80 => "阵雨",
        81 => "中阵雨",
        82 => "大阵雨",
        85 => "阵雪",
        86 => "大阵雪",
        95 | 96 | 99 => "雷阵雨",
        _ => "未知",
    }
}

/// The name of one of the sixteen directions of the wind, from north on clockwise.
pub open spec fn sector_name(k: int) -> Seq<char> {
    if k == 1 {
        "北东北"@
    } else if k == 2 {
        "东北"@
    } else if k == 3 {
        "东东北"@
    } else if k == 4 {
        "东"@
    } else if k == 5 {
        "东东南"@
    } else if k == 6 {
        "东南"@
    } else if k == 7 {
        "南东南"@
    } else if k == 8 {
        "南"@
    } else if k == 9 {
        "南西南"@
    } else if k == 10 {
        "西南"@
    } else if k == 11 {
        "西西南"@
    } else if k == 12 {
        "西"@
    } else if k == 13 {
        "西西北"@
    } else if k == 14 {
        "西北"@
    } else if k == 15 {
        "北西北"@
    } else {
        "北"@
    }
}

/// The direction of the wind at a whole number of degrees: the nearest of sixteen. Degrees below
/// nought are taken for north.
pub open spec fn wind_name(deg: int) -> Seq<char> {
    if deg < 0 {
        "北"@
    } else {
        sector_name(((deg % 360) * 4 + 45) / 90)
    }
}

/// The direction of the wind at a whole number of degrees.
pub fn wind_deg_to_chinese(deg: i32) -> (s: &'static str)
    ensures
        s@ == wind_name(deg as int),
{
    if deg < 0 {
        return "北";
    }
    let d: i32 = deg % 360;
    match d {
        0..=11 | 349..=360 => "北",
        12..=33 => "北东北",
        34..=56 => "东北",
        57..=78 => "东东北",
        79..=101 => "东",
        102..=123 => "东东南",
        124..=146 => "东南",
        147..=168 => "南东南",
        169..=191 => "南",
        192..=213 => "南西南",
        214..=236 => "西南",
        237..=258 => "西西南",
        259..=281 => "西",
        282..=303 => "西西北",
        304..=326 => "西北",
        327..=348 => "北西北",
        _ => "北",
    }
}

/// The least speed of the wind, in kilometres per hour, of a number on the Beaufort scale.
pub open spec fn beaufort_from(n: int) -> int {
    if n == 1 {
        1
    } else if n == 2 {
        6
    } else if n == 3 {
        12
    } else if n == 4 {
        20
    } else if n == 5 {
        29
    } else if n == 6 {
        39
    } else if n == 7 {
        50
    } else if n == 8 {
        62
    } else if n == 9 {
        75
    } else if n == 10 {
        89
    } else if n == 11 {
        103
    } else {
        117
    }
}

/// `n` is the wind's number on the Beaufort scale.
pub open spec fn is_beaufort(n: int, kmh: int) -> bool {
    &&& 0 <= n <= 12
    &&& n > 0 ==> kmh >= beaufort_from(n)
    &&& n < 12 ==> kmh < beaufort_from(n + 1)
}

/// The number of a wind on the Beaufort scale, from the whole part of its speed.
pub fn kmh_to_beaufort(kmh: i32) -> (n: u8)
    ensures
        is_beaufort(n as int, kmh as int),
{
    if kmh < 1 {
        0
    } else if kmh < 6 {
        1
    } else if kmh < 12 {
        2
    } else if kmh < 20 {
        3
    } else if kmh < 29 {
        4
    } else if kmh < 39 {
        5
    } else if kmh < 50 {
        6
    } else if kmh < 62 {
        7
    } else if kmh < 75 {
        8
    } else if kmh < 89 {
        9
    } else if kmh < 103 {
        10
    } else if kmh < 117 {
        11
    } else {
        12
    }
}

/// A wind has one number on the Beaufort scale, and a faster wind no lower one.
pub proof fn law_beaufort_rises(a: int, b: int, m: int, n: int)
    requires
        a <= b,
        is_beaufort(m, a),
        is_beaufort(n, b),
    ensures
        m <= n,
        a == b ==> m == n,
{
}

/// A whole number, with a sign where it is below nought.
pub fn int_to_string(n: i32) -> (s: String)
    ensures
        s@ == signed_dec(n as int),
{
    signed_text(n as i64)
}

/// A number with one decimal.
pub open spec fn tenths_text(r: Reading) -> Seq<char> {
    signed_dec(r.whole as int) + "."@ + seq![digit_char(r.tenth as int)]
}

/// A number with one decimal.
pub fn f64_to_string(r: Reading) -> (s: String)
    requires
        r.tenth < 10,
    ensures
        s@ == tenths_text(r),
{
    let mut s = int_to_string(r.whole);
    s.append(".");
    s.push(digit(r.tenth));
    assert(s@ =~= tenths_text(r));
    s
}

/// The value of a column on a day.
pub open spec fn value_at(col: Option<Vec<Option<Reading>>>, i: int) -> Option<Reading> {
    match col {
        Some(v) if i < v@.len() => v@[i],
        _ => None,
    }
}

/// The values of a column have a tenth each.
pub open spec fn is_column(col: Option<Vec<Option<Reading>>>) -> bool {
    col matches Some(v) ==> forall|i: int|
        0 <= i < v@.len() ==> ((#[trigger] v@[i]) matches Some(r) ==> r.tenth < 10)
}

impl Columns {
    /// Every value has a tenth.
    pub open spec fn valid(self) -> bool {
        &&& is_column(self.precipitation)
        &&& is_column(self.wind_speed)
        &&& is_column(self.wind_direction)
    }
}

/// The code of the weather, within a byte; nought where it is missing.
pub open spec fn code_of(r: Option<Reading>) -> u8 {
    match r {
        Some(r) => if r.whole < 0 {
            0
        } else if r.whole > 255 {
            255
        } else {
            r.whole as u8
        },
        None => 0,
    }
}

/// The nearest whole number, where there is a value.
pub open spec fn whole_text(r: Option<Reading>) -> Seq<char> {
    match r {
        Some(r) => signed_dec(r.rounded as int),
        None => seq![],
    }
}

/// The value with one decimal, where there is one.
pub open spec fn decimal_text(r: Option<Reading>) -> Seq<char> {
    match r {
        Some(r) => tenths_text(r),
        None => seq![],
    }
}

/// `d` is the day `i` of the columns.
pub open spec fn is_day(d: Daily, c: Columns, i: int) -> bool {
    let code = code_of(value_at(c.weather_code, i));
    let speed = value_at(c.wind_speed, i);
    let direction = value_at(c.wind_direction, i);
    &&& d.date@ == (match c.time@[i] {
        Some(t) => t@,
        None => seq![],
    })
    &&& d.code_day@ == icon_code(code)
    &&& d.code_night@ == icon_code(code)
    &&& d.text_day@ == weather_name(code)
    &&& d.text_night@ == weather_name(code)
    &&& d.high@ == whole_text(value_at(c.temperature_max, i))
    &&& d.low@ == whole_text(value_at(c.temperature_min, i))
    &&& d.rainfall@ == decimal_text(value_at(c.precipitation, i))
    &&& d.precip@ == decimal_text(value_at(c.precipitation, i))
    &&& d.humidity@ == whole_text(value_at(c.humidity, i))
    &&& d.wind_speed@ == decimal_text(speed)
    &&& match speed {
        Some(r) => exists|n: int|
            is_beaufort(n, r.whole as int) && d.wind_scale@ == #[trigger] signed_dec(n),
        None => d.wind_scale@ == Seq::<char>::empty(),
    }
    &&& d.wind_direction@ == (match direction {
        Some(r) => wind_name(r.whole as int),
        None => seq![],
    })
    &&& d.wind_direction_degree@ == decimal_text(direction)
}

/// When the forecast was made: at the beginning of its first day, in no more than forty bytes.
pub open spec fn update_of(time: Seq<Option<String>>) -> Seq<char> {
    if time.len() > 0 && time[0] is Some {
        pushed(pushed(pushed(seq![], time[0]->0@, 40), "T"@, 40), "00:00"@, 40)
    } else {
        seq![]
    }
}

fn read_at(col: &Option<Vec<Option<Reading>>>, i: usize) -> (r: Option<Reading>)
    ensures
        r == value_at(*col, i as int),
        is_column(*col) ==> (r matches Some(v) ==> v.tenth < 10),
{
    match col {
        Some(v) => {
            if i < v.len() {
                v[i]
            } else {
                None
            }
        },
        None => None,
    }
}

fn show_whole(r: Option<Reading>) -> (s: String)
    ensures
        s@ == whole_text(r),
{
    match r {
        Some(r) => int_to_string(r.rounded),
        None => nothing(),
    }
}

fn show_decimal(r: Option<Reading>) -> (s: String)
    requires
        r matches Some(v) ==> v.tenth < 10,
    ensures
        s@ == decimal_text(r),
{
    match r {
        Some(r) => f64_to_string(r),
        None => nothing(),
    }
}

fn nothing() -> (s: String)
    ensures
        s@ == Seq::<char>::empty(),
{
    let s = String::new();
    assert(s@ =~= seq![]);
    s
}

fn own(t: &str) -> (s: String)
    ensures
        s@ == t@,
{
    let mut s = String::new();
    s.append(t);
    assert(s@ =~= t@);
    s
}

/// Reads a day.
fn read_day(c: &Columns, i: usize) -> (d: Daily)
    requires
        c.valid(),
        i < c.time@.len(),
    ensures
        is_day(d, *c, i as int),
{
    let date = match &c.time[i] {
        Some(t) => own(t.as_str()),
        None => nothing(),
    };
    let code: u8 = match read_at(&c.weather_code, i) {
        Some(r) => if r.whole < 0 {
            0
        } else if r.whole > 255 {
            255
        } else {
            r.whole as u8
        },
        None => 0,
    };
    let speed = read_at(&c.wind_speed, i);
    let direction = read_at(&c.wind_direction, i);
    let wind_scale = match speed {
        Some(r) => {
            let n: u8 = kmh_to_beaufort(r.whole);
            int_to_string(n as i32)
        },
        None => nothing(),
    };
    let wind_direction = match direction {
        Some(r) => own(wind_deg_to_chinese(r.whole)),
        None => nothing(),
    };
    Daily {
        date,
        code_day: own(wmo_to_seniverse_code(code)),
        text_day: own(wmo_to_chinese(code)),
        code_night: own(wmo_to_seniverse_code(code)),
        text_night: own(wmo_to_chinese(code)),
        high: show_whole(read_at(&c.temperature_max, i)),
        low: show_whole(read_at(&c.temperature_min, i)),
        rainfall: show_decimal(read_at(&c.precipitation, i)),
        precip: show_decimal(read_at(&c.precipitation, i)),
        humidity: show_whole(read_at(&c.humidity, i)),
        wind_speed: show_decimal(speed),
        wind_scale,
        wind_direction,
        wind_direction_degree: show_decimal(direction),
    }
}

/// The forecast: its first five days at most.
pub fn parse_json(c: &Columns) -> (r: DailyResult)
    requires
        c.valid(),
    ensures
        r.daily@.len() == (if c.time@.len() < DAILY_MAX {
            c.time@.len()
        } else {
            DAILY_MAX as nat
        }),
        forall|i: int| 0 <= i < r.daily@.len() ==> is_day(#[trigger] r.daily@[i], *c, i),
        r.location.name@ == "Open-Meteo"@,
        r.location.timezone@ == (match c.timezone {
            Some(t) => t@,
            None => seq![],
        }),
        r.last_update@ == update_of(c.time@),
{
    let n: usize = if c.time.len() < DAILY_MAX {
        c.time.len()
    } else {
        DAILY_MAX
    };
    let mut daily: Vec<Daily> = Vec::new();
    while daily.len() < n
        invariant
            c.valid(),
            n <= c.time@.len(),
            daily@.len() <= n,
            forall|i: int| 0 <= i < daily@.len() ==> is_day(#[trigger] daily@[i], *c, i),
        decreases n - daily@.len(),
    {
        let d = read_day(c, daily.len());
        daily.push(d);
    }
    let timezone = match &c.timezone {
        Some(t) => own(t.as_str()),
        None => nothing(),
    };
    let mut last_update = nothing();
    if c.time.len() > 0 {
        if let Some(t) = &c.time[0] {
            push_within(&mut last_update, t.as_str(), 40);
            push_within(&mut last_update, "T", 40);
            push_within(&mut last_update, "00:00", 40);
        }
    }
    DailyResult { last_update, daily, location: Location { name: own("Open-Meteo"), timezone } }
}

/// The value of a column on a day is `r`.
pub open spec fn read_on(col: Option<Vec<Option<Reading>>>, i: int, r: Reading) -> bool {
    col is Some && i < col->0@.len() && col->0@[i] == Some(r)
}

/// A text is the number with its tenth behind a point.
pub open spec fn reads_as_tenths(t: Seq<char>, r: Reading) -> bool {
    let n = t.len() as int;
    &&& n >= 3
    &&& t[n - 2] == '.'
    &&& int_of(t.take(n - 2)) == r.whole
    &&& t[n - 1] as int - '0' as int == r.tenth
    &&& r.whole < 0 ==> t[0] == '-'
}

proof fn lemma_tenths(r: Reading)
    requires
        r.tenth < 10,
    ensures
        reads_as_tenths(tenths_text(r), r),
{
    law_whole_numbers_read_back(r.whole as int);
    reveal_strlit(".");
    let t = tenths_text(r);
    assert(t.take(t.len() - 2) =~= signed_dec(r.whole as int));
}

/// A day of the forecast tells the readings of its columns: its temperatures and its humidity read
/// back as the nearest whole numbers, below nought too; its rain, wind and direction as numbers with
/// a tenth.
pub proof fn law_days_tell_their_readings(d: Daily, c: Columns, i: int, r: Reading)
    requires
        is_day(d, c, i),
        i >= 0,
        r.tenth < 10,
    ensures
        read_on(c.temperature_max, i, r) ==> int_of(d.high@) == r.rounded && (d.high@[0] == '-' <==> r.rounded
            < 0),
        read_on(c.temperature_min, i, r) ==> int_of(d.low@) == r.rounded && (d.low@[0] == '-' <==> r.rounded
            < 0),
        read_on(c.humidity, i, r) ==> int_of(d.humidity@) == r.rounded,
        read_on(c.precipitation, i, r) ==> reads_as_tenths(d.rainfall@, r) && reads_as_tenths(
            d.precip@,
            r,
        ),
        read_on(c.wind_speed, i, r) ==> reads_as_tenths(d.wind_speed@, r),
        read_on(c.wind_direction, i, r) ==> reads_as_tenths(d.wind_direction_degree@, r),
        c.time@[i] is Some ==> d.date@ == c.time@[i]->0@,
{
    law_whole_numbers_read_back(r.rounded as int);
    lemma_tenths(r);
}

/// What a day lacks stays empty.
pub proof fn law_missing_readings_stay_empty(d: Daily, c: Columns, i: int)
    requires
        is_day(d, c, i),
        i >= 0,
    ensures
        c.temperature_max is None ==> d.high@.len() == 0,
        c.temperature_min is None ==> d.low@.len() == 0,
        c.humidity is None ==> d.humidity@.len() == 0,
        c.precipitation is None ==> d.rainfall@.len() == 0 && d.precip@.len() == 0,
        c.wind_speed is None ==> d.wind_speed@.len() == 0 && d.wind_scale@.len() == 0,
        c.wind_direction is None ==> d.wind_direction@.len() == 0 && d.wind_direction_degree@.len()
            == 0,
{
}

/// The scale of the wind follows its speed to the power of three halves, to a kilometre per hour:
/// the square of a least speed is close to the cube of the number, less a half, nine times over.
pub proof fn law_scale_follows_the_speed(n: int)
    requires
        1 <= n <= 12,
    ensures
        800 * (beaufort_from(n) - 1) * (beaufort_from(n) - 1) < 906 * (2 * n - 1) * (2 * n - 1) * (2
            * n - 1) < 800 * (beaufort_from(n) + 1) * (beaufort_from(n) + 1),
        n < 12 ==> beaufort_from(n) < beaufort_from(n + 1),
{
    let b = beaufort_from(n);
    let m = 2 * n - 1;
    lemma_three_halves(m, b);
}

proof fn lemma_three_halves(m: int, b: int)
    by (nonlinear_arith)
    requires
        (m == 1 && b == 1)
            || (m == 3 && b == 6)
            || (m == 5 && b == 12)
            || (m == 7 && b == 20)
            || (m == 9 && b == 29)
            || (m == 11 && b == 39)
            || (m == 13 && b == 50)
            || (m == 15 && b == 62)
            || (m == 17 && b == 75)
            || (m == 19 && b == 89)
            || (m == 21 && b == 103)
            || (m == 23 && b == 117),
    ensures
        800 * (b - 1) * (b - 1) < 906 * m * m * m < 800 * (b + 1) * (b + 1),
{
}

/// The scale that a day gives for its wind.
pub proof fn law_day_gives_the_scale_of_its_wind(d: Daily, c: Columns, i: int, r: Reading)
    requires
        is_day(d, c, i),
        i >= 0,
        read_on(c.wind_speed, i, r),
    ensures
        is_beaufort(int_of(d.wind_scale@), r.whole as int),
{
    let n = choose|n: int|
        is_beaufort(n, r.whole as int) && d.wind_scale@ == #[trigger] signed_dec(n);
    law_whole_numbers_read_back(n);
}

/// The name of a wind says where it comes from: north within a quarter of the circle on either side
/// of nought degrees, less half a point of the compass, and so on clockwise. It begins with the
/// nearest of the four, and is the shorter the closer it lies to it.
#[verifier::rlimit(50)]
pub proof fn law_winds_are_named_by_their_degrees(deg: int)
    requires
        0 <= deg,
    ensures
        ({
            let d = deg % 360;
            let t = wind_name(deg);
            &&& t.contains('北') <==> (d <= 78 || d >= 282)
            &&& t.contains('东') <==> 12 <= d <= 168
            &&& t.contains('南') <==> 102 <= d <= 258
            &&& t.contains('西') <==> 192 <= d <= 348
            &&& t.len() == 1 <==> (d % 90 <= 11 || d % 90 >= 79)
            &&& t.len() == 2 <==> 34 <= d % 90 <= 56
            &&& t.len() == 1 || t.len() == 2 || t.len() == 3
            &&& t.len() == 3 ==> (t[0] == '北' <==> (d <= 33 || d >= 327))
            &&& t.len() == 3 ==> (t[0] == '东' <==> 57 <= d <= 123)
            &&& t.len() == 3 ==> (t[0] == '南' <==> 147 <= d <= 213)
            &&& t.len() == 3 ==> (t[0] == '西' <==> 237 <= d <= 303)
            &&& t.len() == 2 ==> t[0] == '东' || t[0] == '西'
        }),
{
    let d = deg % 360;
    let k = (d * 4 + 45) / 90;
    lemma_sector(k);
}

#[verifier::rlimit(50)]
proof fn lemma_sector(k: int)
    requires
        0 <= k <= 16,
    ensures
        ({
            let t = sector_name(k);
            &&& t.contains('北') <==> (k <= 3 || k >= 13)
            &&& t.contains('东') <==> 1 <= k <= 7
            &&& t.contains('南') <==> 5 <= k <= 11
            &&& t.contains('西') <==> 9 <= k <= 15
            &&& t.len() == (if k % 4 == 0 {
                1int
            } else if k % 4 == 2 {
                2
            } else {
                3
            })
            &&& k == 1 || k == 15 ==> t[0] == '北'
            &&& k == 3 || k == 5 ==> t[0] == '东'
            &&& k == 7 || k == 9 ==> t[0] == '南'
            &&& k == 11 || k == 13 ==> t[0] == '西'
            &&& k % 4 == 2 ==> t[0] == (if k < 8 {
                '东'
            } else {
                '西'
            })
        }),
{
    reveal_strlit("北");
    reveal_strlit("北东北");
    reveal_strlit("东北");
    reveal_strlit("东东北");
    reveal_strlit("东");
    reveal_strlit("东东南");
    reveal_strlit("东南");
    reveal_strlit("南东南");
    reveal_strlit("南");
    reveal_strlit("南西南");
    reveal_strlit("西南");
    reveal_strlit("西西南");
    reveal_strlit("西");
    reveal_strlit("西西北");
    reveal_strlit("西北");
    reveal_strlit("北西北");
    let t = sector_name(k);
    assert(t.len() <= 3);
    lemma_has(t, '北');
    lemma_has(t, '东');
    lemma_has(t, '南');
    lemma_has(t, '西');
}

/// What a short text holds.
proof fn lemma_has(t: Seq<char>, c: char)
    ensures
        t.len() <= 4 ==> (t.contains(c) <==> (t.len() > 0 && t[0] == c) || (t.len() > 1 && t[1] == c)
            || (t.len() > 2 && t[2] == c) || (t.len() > 3 && t[3] == c)),
{
    if t.contains(c) {
        let i = choose|i: int| 0 <= i < t.len() && t[i] == c;
        assert(t[i] == c);
    }
}

/// The name of a kind of weather says what falls and how much: rain, snow or fog, thunder and
/// showers, lightly, moderately or heavily. Other numbers are unknown.
#[verifier::rlimit(50)]
pub proof fn law_weather_is_named_by_its_kind(wmo: u8)
    ensures
        ({
            let t = weather_name(wmo);
            let rain = 51 <= wmo <= 67 && (wmo % 2 == 1 || wmo == 56 || wmo == 66) && wmo != 59;
            let snow = wmo == 71 || wmo == 73 || wmo == 75 || wmo == 77 || wmo == 85 || wmo == 86;
            let shower = 80 <= wmo <= 82 || wmo == 85 || wmo == 86;
            let thunder = wmo == 95 || wmo == 96 || wmo == 99;
            &&& t.contains('雪') <==> snow
            &&& t.contains('雨') <==> rain || 80 <= wmo <= 82 || thunder
            &&& t.contains('雷') <==> thunder
            &&& t.contains('阵') <==> shower || thunder
            &&& t.contains('雾') <==> wmo == 45 || wmo == 48
            &&& t.contains('冻') <==> wmo == 56 || wmo == 57 || wmo == 66 || wmo == 67
            &&& t.contains('小') <==> wmo == 51 || wmo == 61 || wmo == 71
            &&& t.contains('中') <==> wmo == 63 || wmo == 73 || wmo == 81
            &&& t.contains('大') <==> wmo == 55 || wmo == 65 || wmo == 75 || wmo == 82 || wmo == 86
            &&& t.contains('毛') <==> wmo == 51 || wmo == 53 || wmo == 55
            &&& t.contains('米') <==> wmo == 77
            &&& t.contains('晴') <==> wmo <= 1
            &&& t.contains('云') <==> wmo == 1 || wmo == 2
            &&& t.contains('阴') <==> wmo == 3
            &&& t.contains('未') <==> !(wmo <= 3 || wmo == 45 || wmo == 48 || rain || snow || shower
                || thunder)
        }),
{
    reveal_strlit("晴");
    reveal_strlit("晴间多云");
    reveal_strlit("多云");
    reveal_strlit("阴");
    reveal_strlit("雾");
    reveal_strlit("小毛毛雨");
    reveal_strlit("毛毛雨");
    reveal_strlit("大毛毛雨");
    reveal_strlit("冻雨");
    reveal_strlit("小雨");
    reveal_strlit("中雨");
    reveal_strlit("大雨");
    reveal_strlit("小雪");
    reveal_strlit("中雪");
    reveal_strlit("大雪");
    reveal_strlit("米雪");
    reveal_strlit("阵雨");
    reveal_strlit("中阵雨");
    reveal_strlit("大阵雨");
    reveal_strlit("阵雪");
    reveal_strlit("大阵雪");
    reveal_strlit("雷阵雨");
    reveal_strlit("未知");
    let t = weather_name(wmo);
    assert(t.len() <= 4);
    lemma_has(t, '雪');
    lemma_has(t, '雨');
    lemma_has(t, '雷');
    lemma_has(t, '阵');
    lemma_has(t, '雾');
    lemma_has(t, '冻');
    lemma_has(t, '小');
    lemma_has(t, '中');
    lemma_has(t, '大');
    lemma_has(t, '毛');
    lemma_has(t, '米');
    lemma_has(t, '晴');
    lemma_has(t, '云');
    lemma_has(t, '阴');
    lemma_has(t, '未');
}

/// The forecast was made at the beginning of its first day.
pub proof fn law_forecast_is_of_its_first_day(time: Seq<Option<String>>)
    requires
        time.len() > 0,
        time[0] is Some,
        encode_utf8(time[0]->0@).len() <= 34,
    ensures
        update_of(time) == time[0]->0@ + "T00:00"@,
{
    reveal_strlit("T");
    reveal_strlit("00:00");
    reveal_strlit("T00:00");
    let t = time[0]->0@;
    let e = Seq::<char>::empty();
    assert(encode_utf8(e) =~= seq![]);
    assert(e + t =~= t);
    is_ascii_chars_encode_utf8("T"@);
    is_ascii_chars_encode_utf8("00:00"@);
    lemma_encode_join(t, "T"@);
    lemma_encode_join(t + "T"@, "00:00"@);
    assert("T"@ + "00:00"@ =~= "T00:00"@);
    assert(t + "T"@ + "00:00"@ =~= t + "T00:00"@);
}

/// The kind of weather of a day is its number, within a byte.
pub proof fn law_day_is_named_by_its_number(d: Daily, c: Columns, i: int, r: Reading)
    requires
        is_day(d, c, i),
        i >= 0,
        read_on(c.weather_code, i, r),
        0 <= r.whole <= 255,
    ensures
        d.text_day@ == weather_name(r.whole as u8),
        d.text_night@ == weather_name(r.whole as u8),
        d.code_day@ == icon_code(r.whole as u8),
        d.code_night@ == icon_code(r.whole as u8),
{
}

/// The direction of a day's wind is that of its degrees.
pub proof fn law_day_names_its_wind(d: Daily, c: Columns, i: int, r: Reading)
    requires
        is_day(d, c, i),
        i >= 0,
        read_on(c.wind_direction, i, r),
    ensures
        d.wind_direction@ == wind_name(r.whole as int),
        r.whole < 0 ==> d.wind_direction@ == "北"@,
{
}

/// The picture of a kind of weather goes with its name: fog, freezing rain, snow, rain and thunder
/// each have theirs, and what is unknown has its own.
#[verifier::rlimit(50)]
pub proof fn law_pictures_go_with_the_names(wmo: u8)
    ensures
        ({
            let t = weather_name(wmo);
            let k = num_of(icon_code(wmo));
            &&& t.contains('雾') <==> k == 30
            &&& t.contains('冻') <==> k == 19
            &&& t.contains('雪') <==> 22 <= k <= 24
            &&& t.contains('雷') <==> k == 11 || k == 12
            &&& t.contains('未') <==> k == 99
            &&& t.contains('雨') && !t.contains('冻') && !t.contains('雷') <==> k == 10 || 13 <= k <= 16
            &&& t.contains('阴') <==> k == 9
            &&& wmo == 0 <==> k == 0
            &&& wmo == 1 <==> k == 1
            &&& wmo == 2 <==> k == 4
            &&& t.contains('大') && t.contains('雪') ==> k == 24
            &&& t.contains('中') && t.contains('雪') ==> k == 23
        }),
{
    law_weather_is_named_by_its_kind(wmo);
    lemma_icons(wmo);
}

#[verifier::rlimit(50)]
proof fn lemma_icons(wmo: u8)
    ensures
        num_of(icon_code(wmo)) == (match wmo {
            0 => 0int,
            1 => 1,
            2 => 4,
            3 => 9,
            45 | 48 => 30,
            51 | 53 | 61 => 13,
            55 | 63 | 81 => 14,
            56 | 57 | 66 | 67 => 19,
            65 => 15,
            71 | 77 | 85 => 22,
            73 => 23,
            75 | 86 => 24,
            80 => 10,
            82 => 16,
            95 => 11,
            96 | 99 => 12,
            _ => 99,
        }),
{
    reveal_strlit("0");
    reveal_strlit("1");
    reveal_strlit("4");
    reveal_strlit("9");
    reveal_strlit("30");
    reveal_strlit("10");
    reveal_strlit("11");
    reveal_strlit("12");
    reveal_strlit("13");
    reveal_strlit("14");
    reveal_strlit("15");
    reveal_strlit("16");
    reveal_strlit("19");
    reveal_strlit("22");
    reveal_strlit("23");
    reveal_strlit("24");
    reveal_strlit("99");
    let t = icon_code(wmo);
    lemma_num_of_short(t);
}

proof fn lemma_num_of_short(t: Seq<char>)
    ensures
        t.len() == 1 ==> num_of(t) == t[0] as int - 48,
        t.len() == 2 ==> num_of(t) == (t[0] as int - 48) * 10 + (t[1] as int - 48),
{
    reveal_with_fuel(num_of, 3);
}

} // verus!
