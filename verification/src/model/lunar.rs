//! The lunar calendar of the years 1900 to 2100.
use vstd::prelude::*;

verus! {

/// A number for each lunar year. Its lowest four bits are the month that a leap month follows, or
/// nought. The next twelve tell, from the twelfth month up to the first, which months have 30 days
/// and not 29. The bit above tells the same of the leap month. The first year began on 31 January
/// 1900.
pub const LUNAR_DATA: [u32; 201] = [
    0x04bd8, 0x04ae0, 0x0a570, 0x054d5, 0x0d260, 0x0d950, 0x16554, 0x056a0, 0x09ad0, 0x055d2,
    0x04ae0, 0x0a5b6, 0x0a4d0, 0x0d250, 0x1d255, 0x0b540, 0x0d6a0, 0x0ada2, 0x095b0, 0x14977,
    0x04970, 0x0a4b0, 0x0b4b5, 0x06a50, 0x06d40, 0x1ab54, 0x02b60, 0x09570, 0x052f2, 0x04970,
    0x06566, 0x0d4a0, 0x0ea50, 0x16a95, 0x05ad0, 0x02b60, 0x186e3, 0x092e0, 0x1c8d7, 0x0c950,
    0x0d4a0, 0x1d8a6, 0x0b550, 0x056a0, 0x1a5b4, 0x025d0, 0x092d0, 0x0d2b2, 0x0a950, 0x0b557,
    0x06ca0, 0x0b550, 0x15355, 0x04da0, 0x0a5b0, 0x14573, 0x052b0, 0x0a9a8, 0x0e950, 0x06aa0,
    0x0aea6, 0x0ab50, 0x04b60, 0x0aae4, 0x0a570, 0x05260, 0x0f263, 0x0d950, 0x05b57, 0x056a0,
    0x096d0, 0x04dd5, 0x04ad0, 0x0a4d0, 0x0d4d4, 0x0d250, 0x0d558, 0x0b540, 0x0b6a0, 0x195a6,
    0x095b0, 0x049b0, 0x0a974, 0x0a4b0, 0x0b27a, 0x06a50, 0x06d40, 0x0af46, 0x0ab60, 0x09570,
    0x04af5, 0x04970, 0x064b0, 0x074a3, 0x0ea50, 0x06b58, 0x05ac0, 0x0ab60, 0x096d5, 0x092e0,
    0x0c960, 0x0d954, 0x0d4a0, 0x0da50, 0x07552, 0x056a0, 0x0abb7, 0x025d0, 0x092d0, 0x0cab5,
    0x0a950, 0x0b4a0, 0x0baa4, 0x0ad50, 0x055d9, 0x04ba0, 0x0a5b0, 0x15176, 0x052b0, 0x0a930,
    0x07954, 0x06aa0, 0x0ad50, 0x05b52, 0x04b60, 0x0a6e6, 0x0a4e0, 0x0d260, 0x0ea65, 0x0d530,
    0x05aa0, 0x076a3, 0x096d0, 0x026fb, 0x04ad0, 0x0a4d0, 0x1d0b6, 0x0d250, 0x0d520, 0x0dd45,
    0x0b5a0, 0x056d0, 0x055b2, 0x049b0, 0x0a577, 0x0a4b0, 0x0aa50, 0x1b255, 0x06d20, 0x0ada0,
    0x14b63, 0x09370, 0x049f8, 0x04970, 0x064b0, 0x168a6, 0x0ea50, 0x06aa0, 0x1a6c4, 0x0aae0,
    0x092e0, 0x0d2e3, 0x0c960, 0x0d557, 0x0d4a0, 0x0da50, 0x05d55, 0x056a0, 0x0a6d0, 0x055d4,
    0x052d0, 0x0a9b8, 0x0a950, 0x0b4a0, 0x0b6a6, 0x0ad50, 0x055a0, 0x0aba4, 0x0a5b0, 0x052b0,
    0x0b273, 0x06930, 0x07337, 0x06aa0, 0x0ad50, 0x14b55, 0x04b60, 0x0a570, 0x054e4, 0x0d160,
    0x0e968, 0x0d520, 0x0daa0, 0x16aa6, 0x056d0, 0x04ae0, 0x0a9d4, 0x0a2d0, 0x0d150, 0x0f252,
    0x0d520,
];

/// How many years the table holds.
pub const YEARS: usize = 201;

/// The lunar dates of a solar month.
pub struct Lunar {
    pub solar_year: u16,
    pub solar_month: u8,
    pub days: [Option<LunarDay>; 31],
}

/// A lunar date; the year counts from 1900.
#[derive(Clone, Copy, Debug, PartialEq, Eq, Structural)]
pub struct LunarDay {
    pub year: u16,
    pub month: u8,
    pub day: u16,
    pub leap_month: bool,
}

/// The month that a leap month follows, or nought.
pub open spec fn leap_of(y: int) -> int {
    (LUNAR_DATA@[y] % 16) as int
}

/// The weight of the bit that tells the length of the month `m`.
pub open spec fn month_bit(m: int) -> int {
    if m == 1 {
        32768
    } else if m == 2 {
        16384
    } else if m == 3 {
        8192
    } else if m == 4 {
        4096
    } else if m == 5 {
        2048
    } else if m == 6 {
        1024
    } else if m == 7 {
        512
    } else if m == 8 {
        256
    } else if m == 9 {
        128
    } else if m == 10 {
        64
    } else if m == 11 {
        32
    } else {
        16
    }
}

/// The days of the month `m` in the year `y`.
pub open spec fn month_len(y: int, m: int) -> int {
    29 + (LUNAR_DATA@[y] as int / month_bit(m)) % 2
}

/// The days of the leap month in the year `y`.
pub open spec fn leap_len(y: int) -> int {
    29 + (LUNAR_DATA@[y] as int / 65536) % 2
}

/// The days of the leap month after the month `m`, where one follows it.
pub open spec fn leap_after(y: int, m: int) -> int {
    if leap_of(y) == m {
        leap_len(y)
    } else {
        0
    }
}

/// The days of the year `y` before its month `m` begins.
pub open spec fn before_month(y: int, m: int) -> int
    decreases m,
{
    if m <= 1 {
        0
    } else {
        before_month(y, m - 1) + month_len(y, m - 1) + leap_after(y, m - 1)
    }
}

/// The days of the year `y`: those of its months and of its leap month.
pub open spec fn year_days(y: int) -> int {
    month_len(y, 1) + month_len(y, 2) + month_len(y, 3) + month_len(y, 4) + month_len(y, 5)
        + month_len(y, 6) + month_len(y, 7) + month_len(y, 8) + month_len(y, 9) + month_len(y, 10)
        + month_len(y, 11) + month_len(y, 12) + (if leap_of(y) > 0 {
        leap_len(y)
    } else {
        0
    })
}

/// The days of the first `n` years.
pub open spec fn span(n: int) -> int
    decreases n,
{
    if n <= 0 {
        0
    } else {
        span(n - 1) + year_days(n - 1)
    }
}

impl LunarDay {
    /// The month of the date has this many days.
    pub open spec fn len_of_month(self) -> int {
        if self.leap_month {
            leap_len(self.year as int)
        } else {
            month_len(self.year as int, self.month as int)
        }
    }

    /// There is such a date in the table.
    pub open spec fn in_calendar(self) -> bool {
        &&& self.year < YEARS
        &&& 1 <= self.month <= 12
        &&& self.leap_month ==> leap_of(self.year as int) == self.month
        &&& 1 <= self.day <= self.len_of_month()
    }

    /// The days from the first day of the table to the date.
    pub open spec fn ordinal(self) -> int {
        span(self.year as int) + before_month(self.year as int, self.month as int) + (
        if self.leap_month {
            month_len(self.year as int, self.month as int)
        } else {
            0
        }) + self.day - 1
    }
}

/// The year `y` of the solar calendar has a 29 February.
pub open spec fn solar_leap(y: int) -> bool {
    (y % 4 == 0 && y % 100 != 0) || y % 400 == 0
}

/// The days of a month of the solar calendar.
pub open spec fn solar_month_len(y: int, m: int) -> int {
    if m == 2 {
        if solar_leap(y) {
            29
        } else {
            28
        }
    } else if m == 4 || m == 6 || m == 9 || m == 11 {
        30
    } else {
        31
    }
}

/// The days of the solar years from 1900 up to before `y`.
pub open spec fn solar_before_year(y: int) -> int
    decreases y,
{
    if y <= 1900 {
        0
    } else {
        solar_before_year(y - 1) + (if solar_leap(y - 1) {
            366int
        } else {
            365
        })
    }
}

/// The days of the solar year `y` before its month `m`.
pub open spec fn solar_before_month(y: int, m: int) -> int
    decreases m,
{
    if m <= 1 {
        0
    } else {
        solar_before_month(y, m - 1) + solar_month_len(y, m - 1)
    }
}

/// The days from 31 January 1900, on which the table begins, to a solar date.
pub open spec fn days_since_1900(y: int, m: int, d: int) -> int {
    solar_before_year(y) + solar_before_month(y, m) + d - 31
}

/// The table knows the day that lies `n` days after its first.
pub open spec fn in_table(n: int) -> bool {
    0 <= n < span(YEARS as int)
}

/// The date given for every day after the last one of the table: the first of the year that
/// follows it.
pub open spec fn beyond_table() -> LunarDay {
    LunarDay { year: YEARS as u16, month: 1, day: 1, leap_month: false }
}

/// `l` is what is given as the lunar date `n` days after the first of the table: the date where
/// the table knows it, the first of the first month past its end, and nothing before it.
pub open spec fn is_lunar_date(l: Option<LunarDay>, n: int) -> bool {
    match l {
        Some(l) => if in_table(n) {
            l.in_calendar() && l.ordinal() == n
        } else {
            n >= 0 && l == beyond_table()
        },
        None => n < 0,
    }
}

/// The name of a lunar month.
pub open spec fn month_name(month: int, leap: bool) -> Seq<char> {
    if leap {
        if month == 1 {
            "闰正月"@
        } else if month == 2 {
            "闰二月"@
        } else if month == 3 {
            "闰三月"@
        } else if month == 4 {
            "闰四月"@
        } else if month == 5 {
            "闰五月"@
        } else if month == 6 {
            "闰六月"@
        } else if month == 7 {
            "闰七月"@
        } else if month == 8 {
            "闰八月"@
        } else if month == 9 {
            "闰九月"@
        } else if month == 10 {
            "闰十月"@
        } else if month == 11 {
            "闰冬月"@
        } else if month == 12 {
            "闰腊月"@
        } else {
            "未知"@
        }
    } else {
        if month == 1 {
            "正月"@
        } else if month == 2 {
            "二月"@
        } else if month == 3 {
            "三月"@
        } else if month == 4 {
            "四月"@
        } else if month == 5 {
            "五月"@
        } else if month == 6 {
            "六月"@
        } else if month == 7 {
            "七月"@
        } else if month == 8 {
            "八月"@
        } else if month == 9 {
            "九月"@
        } else if month == 10 {
            "十月"@
        } else if month == 11 {
            "冬月"@
        } else if month == 12 {
            "腊月"@
        } else {
            "未知"@
        }
    }
}

/// The name of a day of a lunar month.
pub open spec fn day_name(day: int) -> Seq<char> {
    if day == 1 {
        "初一"@
    } else if day == 2 {
        "初二"@
    } else if day == 3 {
        "初三"@
    } else if day == 4 {
        "初四"@
    } else if day == 5 {
        "初五"@
    } else if day == 6 {
        "初六"@
    } else if day == 7 {
        "初七"@
    } else if day == 8 {
        "初八"@
    } else if day == 9 {
        "初九"@
    } else if day == 10 {
        "初十"@
    } else if day == 11 {
        "十一"@
    } else if day == 12 {
        "十二"@
    } else if day == 13 {
        "十三"@
    } else if day == 14 {
        "十四"@
    } else if day == 15 {
        "十五"@
    } else if day == 16 {
        "十六"@
    } else if day == 17 {
        "十七"@
    } else if day == 18 {
        "十八"@
    } else if day == 19 {
        "十九"@
    } else if day == 20 {
        "二十"@
    } else if day == 21 {
        "廿一"@
    } else if day == 22 {
        "廿二"@
    } else if day == 23 {
        "廿三"@
    } else if day == 24 {
        "廿四"@
    } else if day == 25 {
        "廿五"@
    } else if day == 26 {
        "廿六"@
    } else if day == 27 {
        "廿七"@
    } else if day == 28 {
        "廿八"@
    } else if day == 29 {
        "廿九"@
    } else if day == 30 {
        "三十"@
    } else {
        "未知"@
    }
}

impl LunarDay {
    /// The year, counted from 1900.
    pub fn get_year(&self) -> (r: u16)
        ensures
            r == self.year,
    {
        self.year
    }

    /// The month.
    pub fn get_month(&self) -> (r: u8)
        ensures
            r == self.month,
    {
        self.month
    }

    /// The day of the month.
    pub fn get_day(&self) -> (r: u16)
        ensures
            r == self.day,
    {
        self.day
    }

    /// Whether the month is a leap month.
    pub fn is_leap_month(&self) -> (r: bool)
        ensures
            r == self.leap_month,
    {
        self.leap_month
    }

    /// The name of the month.
    pub fn get_month_name(&self) -> (r: &'static str)
        ensures
            r@ == month_name(self.month as int, self.leap_month),
    {
        if self.leap_month {
            if self.month == 1 {
                "闰正月"
            } else if self.month == 2 {
                "闰二月"
            } else if self.month == 3 {
                "闰三月"
            } else if self.month == 4 {
                "闰四月"
            } else if self.month == 5 {
                "闰五月"
            } else if self.month == 6 {
                "闰六月"
            } else if self.month == 7 {
                "闰七月"
            } else if self.month == 8 {
                "闰八月"
            } else if self.month == 9 {
                "闰九月"
            } else if self.month == 10 {
                "闰十月"
            } else if self.month == 11 {
                "闰冬月"
            } else if self.month == 12 {
                "闰腊月"
            } else {
                "未知"
            }
        } else {
            if self.month == 1 {
                "正月"
            } else if self.month == 2 {
                "二月"
            } else if self.month == 3 {
                "三月"
            } else if self.month == 4 {
                "四月"
            } else if self.month == 5 {
                "五月"
            } else if self.month == 6 {
                "六月"
            } else if self.month == 7 {
                "七月"
            } else if self.month == 8 {
                "八月"
            } else if self.month == 9 {
                "九月"
            } else if self.month == 10 {
                "十月"
            } else if self.month == 11 {
                "冬月"
            } else if self.month == 12 {
                "腊月"
            } else {
                "未知"
            }
        }
    }

    /// The name of the day.
    pub fn get_day_name(&self) -> (r: &'static str)
        ensures
            r@ == day_name(self.day as int),
    {
        if self.day == 1 {
            "初一"
        } else if self.day == 2 {
            "初二"
        } else if self.day == 3 {
            "初三"
        } else if self.day == 4 {
            "初四"
        } else if self.day == 5 {
            "初五"
        } else if self.day == 6 {
            "初六"
        } else if self.day == 7 {
            "初七"
        } else if self.day == 8 {
            "初八"
        } else if self.day == 9 {
            "初九"
        } else if self.day == 10 {
            "初十"
        } else if self.day == 11 {
            "十一"
        } else if self.day == 12 {
            "十二"
        } else if self.day == 13 {
            "十三"
        } else if self.day == 14 {
            "十四"
        } else if self.day == 15 {
            "十五"
        } else if self.day == 16 {
            "十六"
        } else if self.day == 17 {
            "十七"
        } else if self.day == 18 {
            "十八"
        } else if self.day == 19 {
            "十九"
        } else if self.day == 20 {
            "二十"
        } else if self.day == 21 {
            "廿一"
        } else if self.day == 22 {
            "廿二"
        } else if self.day == 23 {
            "廿三"
        } else if self.day == 24 {
            "廿四"
        } else if self.day == 25 {
            "廿五"
        } else if self.day == 26 {
            "廿六"
        } else if self.day == 27 {
            "廿七"
        } else if self.day == 28 {
            "廿八"
        } else if self.day == 29 {
            "廿九"
        } else if self.day == 30 {
            "三十"
        } else {
            "未知"
        }
    }
}

proof fn lemma_table(y: int)
    requires
        0 <= y < YEARS,
    ensures
        0 <= leap_of(y) <= 12,
        29 <= leap_len(y) <= 30,
        forall|m: int| 29 <= #[trigger] month_len(y, m) <= 30,
        348 <= year_days(y) <= 390,
{
    assert(LUNAR_DATA@[y] % 16 <= 12);
}

proof fn lemma_before_month(y: int, m: int)
    requires
        0 <= y < YEARS,
        1 <= m <= 13,
    ensures
        0 <= before_month(y, m) <= 60 * (m - 1),
    decreases m,
{
    lemma_table(y);
    if m > 1 {
        lemma_before_month(y, m - 1);
    }
}

/// The months of a year, with its leap month, take up the whole year.
pub proof fn law_months_fill_the_year(y: int)
    requires
        0 <= y < YEARS,
    ensures
        before_month(y, 13) == year_days(y),
{
    lemma_table(y);
    reveal_with_fuel(before_month, 13);
}

proof fn lemma_span_grows(a: int, b: int)
    requires
        0 <= a <= b <= YEARS,
    ensures
        span(a) + 348 * (b - a) <= span(b) <= span(a) + 390 * (b - a),
    decreases b - a,
{
    if a < b {
        lemma_span_grows(a, b - 1);
        lemma_table(b - 1);
    }
}

proof fn lemma_before_month_grows(y: int, a: int, b: int)
    requires
        0 <= y < YEARS,
        1 <= a < b <= 13,
    ensures
        before_month(y, a) + month_len(y, a) + leap_after(y, a) <= before_month(y, b),
    decreases b - a,
{
    lemma_table(y);
    if a < b - 1 {
        lemma_before_month_grows(y, a, b - 1);
    }
}

/// A date lies within its year.
proof fn lemma_ordinal_in_year(l: LunarDay)
    requires
        l.in_calendar(),
    ensures
        span(l.year as int) <= l.ordinal() < span(l.year + 1),
{
    let y = l.year as int;
    let m = l.month as int;
    lemma_table(y);
    lemma_before_month(y, m);
    law_months_fill_the_year(y);
    lemma_before_month_grows(y, m, 13);
}

/// Different dates lie on different days, so a day has no more than one lunar date.
pub proof fn law_one_date_a_day(a: LunarDay, b: LunarDay)
    requires
        a.in_calendar(),
        b.in_calendar(),
        a.ordinal() == b.ordinal(),
    ensures
        a == b,
{
    lemma_ordinal_in_year(a);
    lemma_ordinal_in_year(b);
    let y = a.year as int;
    if a.year < b.year {
        lemma_span_grows(a.year + 1, b.year as int);
    } else if b.year < a.year {
        lemma_span_grows(b.year + 1, a.year as int);
    }
    lemma_table(y);
    if a.month < b.month {
        lemma_before_month_grows(y, a.month as int, b.month as int);
    } else if b.month < a.month {
        lemma_before_month_grows(y, b.month as int, a.month as int);
    }
}

/// Every day is given one lunar date or none: inside the table, past its end and before it.
pub proof fn law_every_day_is_given_one_date(a: Option<LunarDay>, b: Option<LunarDay>, n: int)
    requires
        is_lunar_date(a, n),
        is_lunar_date(b, n),
    ensures
        a == b,
        a is None <==> n < 0,
        n >= span(YEARS as int) ==> a == Some(beyond_table()),
{
    lemma_span_grows(0, YEARS as int);
    if in_table(n) {
        law_one_date_a_day(a->0, b->0);
    }
}

/// The day after a lunar date is the next day of its month, or the first day of what follows: the
/// leap month, the next month, or the next year.
pub proof fn law_days_follow_one_another(a: LunarDay, b: LunarDay)
    requires
        a.in_calendar(),
        b.in_calendar(),
        b.ordinal() == a.ordinal() + 1,
    ensures
        if a.day < a.len_of_month() {
            b == (LunarDay { day: (a.day + 1) as u16, ..a })
        } else {
            b.day == 1 && (if !a.leap_month && leap_of(a.year as int) == a.month {
                b.leap_month && b.month == a.month && b.year == a.year
            } else if a.month < 12 {
                !b.leap_month && b.month == a.month + 1 && b.year == a.year
            } else {
                !b.leap_month && b.month == 1 && b.year == a.year + 1
            })
        },
{
    let y = a.year as int;
    lemma_table(y);
    lemma_ordinal_in_year(a);
    lemma_ordinal_in_year(b);
    let next = if a.day < a.len_of_month() {
        LunarDay { day: (a.day + 1) as u16, ..a }
    } else if !a.leap_month && leap_of(y) == a.month {
        LunarDay { day: 1, leap_month: true, ..a }
    } else if a.month < 12 {
        LunarDay { day: 1, leap_month: false, month: (a.month + 1) as u8, ..a }
    } else {
        LunarDay { day: 1, leap_month: false, month: 1, year: (a.year + 1) as u16 }
    };
    law_months_fill_the_year(y);
    if a.month == 12 && next.year != a.year {
        assert(before_month(y, 13) == before_month(y, 12) + month_len(y, 12) + leap_after(y, 12));
        assert(a.ordinal() + 1 == span(y + 1));
        if b.year > a.year + 1 {
            lemma_span_grows(y + 1, b.year as int);
            lemma_table(y + 1);
            lemma_span_grows(y + 2, b.year as int);
        }
        if b.year <= a.year {
            lemma_span_grows(b.year + 1, y + 1);
        }
        lemma_table(b.year as int);
    } else {
        lemma_table(next.year as int);
    }
    assert(next.in_calendar());
    law_one_date_a_day(next, b);
}

impl Lunar {
    fn place(m: u8) -> (b: u32)
        requires
            1 <= m <= 12,
        ensures
            b == month_bit(m as int),
    {
        if m == 1 {
            32768
        } else if m == 2 {
            16384
        } else if m == 3 {
            8192
        } else if m == 4 {
            4096
        } else if m == 5 {
            2048
        } else if m == 6 {
            1024
        } else if m == 7 {
            512
        } else if m == 8 {
            256
        } else if m == 9 {
            128
        } else if m == 10 {
            64
        } else if m == 11 {
            32
        } else {
            16
        }
    }

    /// The days of a lunar month.
    fn lunar_month_days(lunar_year: u16, m: u8) -> (n: u32)
        requires
            lunar_year < YEARS,
            1 <= m <= 12,
        ensures
            n == month_len(lunar_year as int, m as int),
    {
        29 + (LUNAR_DATA[lunar_year as usize] / Self::place(m)) % 2
    }

    /// The days of the leap month of a lunar year.
    fn lunar_leap_days(lunar_year: u16) -> (n: u32)
        requires
            lunar_year < YEARS,
        ensures
            n == leap_len(lunar_year as int),
    {
        29 + (LUNAR_DATA[lunar_year as usize] / 65536) % 2
    }

    /// The days of a lunar year.
    fn calculate_lunar_year_days(lunar_year: u16) -> (n: u32)
        ensures
            lunar_year < YEARS ==> n == year_days(lunar_year as int),
            lunar_year >= YEARS ==> n == 0,
    {
        if lunar_year as usize >= YEARS {
            return 0;
        }
        let y: u16 = lunar_year;
        proof {
            lemma_table(y as int);
        }
        let mut total: u32 = Self::lunar_month_days(y, 1) + Self::lunar_month_days(y, 2)
            + Self::lunar_month_days(y, 3) + Self::lunar_month_days(y, 4) + Self::lunar_month_days(
            y,
            5,
        ) + Self::lunar_month_days(y, 6) + Self::lunar_month_days(y, 7) + Self::lunar_month_days(
            y,
            8,
        ) + Self::lunar_month_days(y, 9) + Self::lunar_month_days(y, 10) + Self::lunar_month_days(
            y,
            11,
        ) + Self::lunar_month_days(y, 12);
        if LUNAR_DATA[y as usize] % 16 > 0 {
            total = total + Self::lunar_leap_days(y);
        }
        total
    }

    /// The month, the day and whether the month is a leap month, so many days into a lunar year;
    /// the first day of the year for one beyond the table.
    fn calculate_lunar_month_day(lunar_year: u16, remaining_days: u32) -> (r: (u8, u16, bool))
        requires
            lunar_year < YEARS ==> remaining_days < year_days(lunar_year as int),
        ensures
            lunar_year >= YEARS ==> r == (1u8, 1u16, false),
            lunar_year < YEARS ==> ({
                let l = LunarDay { year: lunar_year, month: r.0, day: r.1, leap_month: r.2 };
                l.in_calendar() && l.ordinal() == span(lunar_year as int) + remaining_days
            }),
    {
        if lunar_year as usize >= YEARS {
            return (1, 1, false);
        }
        let ghost y = lunar_year as int;
        let leap_month: u8 = (LUNAR_DATA[lunar_year as usize] % 16) as u8;
        let mut left: u32 = remaining_days;
        let mut month: u8 = 1;
        proof {
            lemma_table(y);
            law_months_fill_the_year(y);
        }
        while month <= 12
            invariant
                lunar_year < YEARS,
                y == lunar_year,
                leap_month == leap_of(y),
                1 <= month <= 13,
                before_month(y, month as int) + left == remaining_days,
                remaining_days < before_month(y, 13),
            decreases 13 - month,
        {
            proof {
                lemma_table(y);
            }
            let len: u32 = Self::lunar_month_days(lunar_year, month);
            if left < len {
                return (month, (left + 1) as u16, false);
            }
            left = left - len;
            if month == leap_month {
                let leap: u32 = Self::lunar_leap_days(lunar_year);
                if left < leap {
                    return (month, (left + 1) as u16, true);
                }
                left = left - leap;
            }
            month = month + 1;
        }
        (1, 1, false)
    }

    /// The days of a month of the solar calendar.
    fn get_solar_month_days(year: u16, month: u8) -> (n: u8)
        ensures
            n == solar_month_len(year as int, month as int),
    {
        if month == 2 {
            if Self::is_leap_year(year) {
                29
            } else {
                28
            }
        } else if month == 4 || month == 6 || month == 9 || month == 11 {
            30
        } else {
            31
        }
    }

    /// Whether a solar year has a 29 February.
    fn is_leap_year(year: u16) -> (b: bool)
        ensures
            b == solar_leap(year as int),
    {
        (year % 4 == 0 && year % 100 != 0) || year % 400 == 0
    }

    /// The days from 31 January 1900 to a solar date, negative for one before it.
    fn calculate_days_since_1900(year: u16, month: u8, day: u8) -> (n: i64)
        ensures
            n == days_since_1900(year as int, month as int, day as int),
    {
        let mut total: i64 = 0;
        let mut y: u16 = 1900;
        while y < year
            invariant
                1900 <= y,
                y <= year || y == 1900,
                total == solar_before_year(y as int),
                0 <= total <= 366 * (y - 1900),
            decreases year - y,
        {
            total = total + (if Self::is_leap_year(y) {
                366
            } else {
                365
            });
            y = y + 1;
        }
        let mut m: u8 = 1;
        let ghost years = total as int;
        while m < month
            invariant
                1 <= m,
                m <= month || m == 1,
                0 <= years <= 366 * 65536,
                total == years + solar_before_month(year as int, m as int),
                years <= total <= years + 31 * (m - 1),
            decreases month - m,
        {
            total = total + Self::get_solar_month_days(year, m) as i64;
            m = m + 1;
        }
        proof {
            assert(year <= 1900 ==> solar_before_year(year as int) == 0);
            assert(month <= 1 ==> solar_before_month(year as int, month as int) == 0);
        }
        total + day as i64 - 31
    }

    /// The lunar date of a solar date; past the end of the table, the first of the first month.
    fn calculate_lunar_date_from_solar(solar_year: u16, solar_month: u8, solar_day: u8) -> (l: Option<
        LunarDay,
    >)
        ensures
            is_lunar_date(
                l,
                days_since_1900(solar_year as int, solar_month as int, solar_day as int),
            ),
    {
        let since: i64 = Self::calculate_days_since_1900(solar_year, solar_month, solar_day);
        if since < 0 {
            return None;
        }
        let mut left: i64 = since;
        let mut lunar_year: u16 = 0;
        while (lunar_year as usize) < YEARS
            invariant_except_break
                left >= 0,
            invariant
                lunar_year <= YEARS,
                since >= 0,
                span(lunar_year as int) + left == since,
            ensures
                left >= 0,
                lunar_year < YEARS ==> left < year_days(lunar_year as int),
            decreases YEARS - lunar_year,
        {
            proof {
                lemma_table(lunar_year as int);
            }
            let year_days: i64 = Self::calculate_lunar_year_days(lunar_year) as i64;
            if left < year_days {
                break;
            }
            left = left - year_days;
            lunar_year = lunar_year + 1;
        }
        proof {
            if lunar_year < YEARS {
                lemma_table(lunar_year as int);
                lemma_span_grows(lunar_year + 1, YEARS as int);
            }
        }
        let (month, day, leap_month) = Self::calculate_lunar_month_day(lunar_year, left as u32);
        Some(LunarDay { year: lunar_year, month, day, leap_month })
    }

    /// The lunar dates of a solar month.
    pub fn new(solar_year: u16, solar_month: u8) -> (l: Lunar)
        ensures
            l.solar_year == solar_year,
            l.solar_month == solar_month,
            forall|d: int|
                1 <= d <= solar_month_len(solar_year as int, solar_month as int) ==> is_lunar_date(
                    #[trigger] l.days@[d - 1],
                    days_since_1900(solar_year as int, solar_month as int, d),
                ),
            forall|d: int|
                solar_month_len(solar_year as int, solar_month as int) < d <= 31 ==> #[trigger] l.days@[d - 1] is None,
    {
        let mut lunar = Lunar { solar_year, solar_month, days: [None;31] };
        lunar.calculate_lunar_days();
        lunar
    }

    /// Finds the lunar date of each day of the month.
    fn calculate_lunar_days(&mut self)
        requires
            forall|i: int| 0 <= i < 31 ==> old(self).days@[i] is None,
        ensures
            final(self).solar_year == old(self).solar_year,
            final(self).solar_month == old(self).solar_month,
            forall|d: int|
                1 <= d <= solar_month_len(old(self).solar_year as int, old(self).solar_month as int)
                    ==> is_lunar_date(
                    #[trigger] final(self).days@[d - 1],
                    days_since_1900(old(self).solar_year as int, old(self).solar_month as int, d),
                ),
            forall|d: int|
                solar_month_len(old(self).solar_year as int, old(self).solar_month as int) < d <= 31
                    ==> #[trigger] final(self).days@[d - 1] is None,
    {
        let n: u8 = Self::get_solar_month_days(self.solar_year, self.solar_month);
        let mut day: u8 = 1;
        while day <= n
            invariant
                1 <= day <= n + 1,
                28 <= n <= 31,
                n == solar_month_len(self.solar_year as int, self.solar_month as int),
                self.solar_year == old(self).solar_year,
                self.solar_month == old(self).solar_month,
                forall|i: int|
                    0 <= i < day - 1 ==> is_lunar_date(
                        #[trigger] self.days@[i],
                        days_since_1900(self.solar_year as int, self.solar_month as int, i + 1),
                    ),
                forall|i: int| day - 1 <= i < 31 ==> #[trigger] self.days@[i] is None,
            decreases n + 1 - day,
        {
            let date = Self::calculate_lunar_date_from_solar(
                self.solar_year,
                self.solar_month,
                day,
            );
            self.days[(day - 1) as usize] = date;
            day = day + 1;
        }
    }

    /// The lunar date of a day of the month.
    pub fn get_lunar_day(&self, day: u8) -> (l: Option<LunarDay>)
        ensures
            l == (if 1 <= day <= 31 {
                self.days@[day - 1]
            } else {
                None
            }),
    {
        if day > 0 && day <= 31 {
            self.days[(day - 1) as usize]
        } else {
            None
        }
    }

    /// The solar year.
    pub fn get_solar_year(&self) -> (y: u16)
        ensures
            y == self.solar_year,
    {
        self.solar_year
    }

    /// The solar month.
    pub fn get_solar_month(&self) -> (m: u8)
        ensures
            m == self.solar_month,
    {
        self.solar_month
    }

    /// The lunar dates of all days of the month.
    pub fn get_all_lunar_days(&self) -> (days: &[Option<LunarDay>; 31])
        ensures
            *days == self.days,
    {
        &self.days
    }
}

proof fn lemma_span_20()
    ensures
        span(20) == 7324,
{
    assert(span(0) == 0);
    assert(span(1) == 384);
    assert(span(2) == 738);
    assert(span(3) == 1093);
    assert(span(4) == 1476);
    assert(span(5) == 1830);
    assert(span(6) == 2185);
    assert(span(7) == 2569);
    assert(span(8) == 2923);
    assert(span(9) == 3278);
    assert(span(10) == 3662);
    assert(span(11) == 4016);
    assert(span(12) == 4400);
    assert(span(13) == 4754);
    assert(span(14) == 5108);
    assert(span(15) == 5492);
    assert(span(16) == 5846);
    assert(span(17) == 6201);
    assert(span(18) == 6585);
    assert(span(19) == 6940);
    assert(span(20) == 7324);
}

proof fn lemma_span_40()
    ensures
        span(40) == 14617,
{
    lemma_span_20();
    assert(span(21) == 7678);
    assert(span(22) == 8032);
    assert(span(23) == 8416);
    assert(span(24) == 8770);
    assert(span(25) == 9124);
    assert(span(26) == 9509);
    assert(span(27) == 9863);
    assert(span(28) == 10218);
    assert(span(29) == 10602);
    assert(span(30) == 10956);
    assert(span(31) == 11339);
    assert(span(32) == 11693);
    assert(span(33) == 12048);
    assert(span(34) == 12432);
    assert(span(35) == 12787);
    assert(span(36) == 13141);
    assert(span(37) == 13525);
    assert(span(38) == 13879);
    assert(span(39) == 14263);
    assert(span(40) == 14617);
}

proof fn lemma_span_60()
    ensures
        span(60) == 21911,
{
    lemma_span_40();
    assert(span(41) == 14971);
    assert(span(42) == 15355);
    assert(span(43) == 15710);
    assert(span(44) == 16064);
    assert(span(45) == 16449);
    assert(span(46) == 16803);
    assert(span(47) == 17157);
    assert(span(48) == 17541);
    assert(span(49) == 17895);
    assert(span(50) == 18279);
    assert(span(51) == 18633);
    assert(span(52) == 18988);
    assert(span(53) == 19372);
    assert(span(54) == 19726);
    assert(span(55) == 20081);
    assert(span(56) == 20465);
    assert(span(57) == 20819);
    assert(span(58) == 21202);
    assert(span(59) == 21557);
    assert(span(60) == 21911);
}

proof fn lemma_span_80()
    ensures
        span(80) == 29235,
{
    lemma_span_60();
    assert(span(61) == 22295);
    assert(span(62) == 22650);
    assert(span(63) == 23004);
    assert(span(64) == 23388);
    assert(span(65) == 23743);
    assert(span(66) == 24096);
    assert(span(67) == 24480);
    assert(span(68) == 24835);
    assert(span(69) == 25219);
    assert(span(70) == 25573);
    assert(span(71) == 25928);
    assert(span(72) == 26312);
    assert(span(73) == 26666);
    assert(span(74) == 27020);
    assert(span(75) == 27404);
    assert(span(76) == 27758);
    assert(span(77) == 28142);
    assert(span(78) == 28496);
    assert(span(79) == 28851);
    assert(span(80) == 29235);
}

proof fn lemma_span_100()
    ensures
        span(100) == 36529,
{
    lemma_span_80();
    assert(span(81) == 29590);
    assert(span(82) == 29944);
    assert(span(83) == 30328);
    assert(span(84) == 30682);
    assert(span(85) == 31066);
    assert(span(86) == 31420);
    assert(span(87) == 31774);
    assert(span(88) == 32158);
    assert(span(89) == 32513);
    assert(span(90) == 32868);
    assert(span(91) == 33252);
    assert(span(92) == 33606);
    assert(span(93) == 33960);
    assert(span(94) == 34343);
    assert(span(95) == 34698);
    assert(span(96) == 35082);
    assert(span(97) == 35436);
    assert(span(98) == 35791);
    assert(span(99) == 36175);
    assert(span(100) == 36529);
}

proof fn lemma_span_120()
    ensures
        span(120) == 43823,
{
    lemma_span_100();
    assert(span(101) == 36883);
    assert(span(102) == 37267);
    assert(span(103) == 37621);
    assert(span(104) == 37976);
    assert(span(105) == 38360);
    assert(span(106) == 38714);
    assert(span(107) == 39099);
    assert(span(108) == 39453);
    assert(span(109) == 39807);
    assert(span(110) == 40191);
    assert(span(111) == 40545);
    assert(span(112) == 40899);
    assert(span(113) == 41283);
    assert(span(114) == 41638);
    assert(span(115) == 42022);
    assert(span(116) == 42376);
    assert(span(117) == 42731);
    assert(span(118) == 43115);
    assert(span(119) == 43469);
    assert(span(120) == 43823);
}

proof fn lemma_span_140()
    ensures
        span(140) == 51146,
{
    lemma_span_120();
    assert(span(121) == 44207);
    assert(span(122) == 44561);
    assert(span(123) == 44916);
    assert(span(124) == 45300);
    assert(span(125) == 45654);
    assert(span(126) == 46038);
    assert(span(127) == 46392);
    assert(span(128) == 46746);
    assert(span(129) == 47130);
    assert(span(130) == 47485);
    assert(span(131) == 47839);
    assert(span(132) == 48223);
    assert(span(133) == 48578);
    assert(span(134) == 48962);
    assert(span(135) == 49316);
    assert(span(136) == 49670);
    assert(span(137) == 50054);
    assert(span(138) == 50408);
    assert(span(139) == 50762);
    assert(span(140) == 51146);
}

proof fn lemma_span_160()
    ensures
        span(160) == 58441,
{
    lemma_span_140();
    assert(span(141) == 51501);
    assert(span(142) == 51856);
    assert(span(143) == 52240);
    assert(span(144) == 52594);
    assert(span(145) == 52978);
    assert(span(146) == 53332);
    assert(span(147) == 53686);
    assert(span(148) == 54070);
    assert(span(149) == 54424);
    assert(span(150) == 54779);
    assert(span(151) == 55163);
    assert(span(152) == 55518);
    assert(span(153) == 55902);
    assert(span(154) == 56256);
    assert(span(155) == 56610);
    assert(span(156) == 56993);
    assert(span(157) == 57348);
    assert(span(158) == 57702);
    assert(span(159) == 58086);
    assert(span(160) == 58441);
}

proof fn lemma_span_180()
    ensures
        span(180) == 65735,
{
    lemma_span_160();
    assert(span(161) == 58795);
    assert(span(162) == 59179);
    assert(span(163) == 59533);
    assert(span(164) == 59917);
    assert(span(165) == 60271);
    assert(span(166) == 60626);
    assert(span(167) == 61010);
    assert(span(168) == 61364);
    assert(span(169) == 61719);
    assert(span(170) == 62103);
    assert(span(171) == 62457);
    assert(span(172) == 62841);
    assert(span(173) == 63195);
    assert(span(174) == 63549);
    assert(span(175) == 63933);
    assert(span(176) == 64288);
    assert(span(177) == 64642);
    assert(span(178) == 65026);
    assert(span(179) == 65381);
    assert(span(180) == 65735);
}

proof fn lemma_span_200()
    ensures
        span(200) == 73058,
{
    lemma_span_180();
    assert(span(181) == 66119);
    assert(span(182) == 66473);
    assert(span(183) == 66857);
    assert(span(184) == 67211);
    assert(span(185) == 67566);
    assert(span(186) == 67950);
    assert(span(187) == 68304);
    assert(span(188) == 68659);
    assert(span(189) == 69042);
    assert(span(190) == 69396);
    assert(span(191) == 69780);
    assert(span(192) == 70134);
    assert(span(193) == 70489);
    assert(span(194) == 70873);
    assert(span(195) == 71228);
    assert(span(196) == 71582);
    assert(span(197) == 71966);
    assert(span(198) == 72320);
    assert(span(199) == 72674);
    assert(span(200) == 73058);
}

proof fn lemma_span_201()
    ensures
        span(201) == 73412,
{
    lemma_span_200();
    assert(span(201) == 73412);
}

proof fn lemma_solar_years(y: int)
    requires
        1900 <= y <= 2101,
    ensures
        365 * (y - 1900) <= solar_before_year(y),
        solar_before_year(y) * 4 <= 1461 * (y - 1900),
    decreases y,
{
    reveal_with_fuel(solar_before_year, 5);
    if y >= 1904 {
        lemma_solar_years(y - 4);
        assert(solar_before_year(y) == solar_before_year(y - 4) + (if solar_leap(y - 4) {
            366int
        } else {
            365
        }) + (if solar_leap(y - 3) {
            366int
        } else {
            365
        }) + (if solar_leap(y - 2) {
            366int
        } else {
            365
        }) + (if solar_leap(y - 1) {
            366int
        } else {
            365
        }));
    }
}

/// The table knows the lunar date of every day of the solar years 1901 to 2100.
pub proof fn law_two_centuries_are_known(y: int, m: int, d: int)
    requires
        1901 <= y <= 2100,
        1 <= m <= 12,
        1 <= d <= solar_month_len(y, m),
    ensures
        in_table(days_since_1900(y, m, d)),
{
    lemma_span_201();
    lemma_solar_years(y);
    reveal_with_fuel(solar_before_month, 13);
    assert(0 <= solar_before_month(y, m) + d <= 366);
}

/// The name of a lunar month is its numeral, the first and the last two by names of their own, with
/// the sign of a leap month before it where it is one and nowhere else.
#[verifier::rlimit(50)]
pub proof fn law_months_are_named_by_number(month: int, leap: bool)
    requires
        1 <= month <= 12,
    ensures
        ({
            let t = month_name(month, leap);
            &&& t.len() == (if leap {
                3int
            } else {
                2
            })
            &&& t[0] == '闰' <==> leap
            &&& t.last() == '月'
            &&& month == 1 ==> month_name(month, leap)[month_name(month, leap).len() - 2] == '正'
            &&& month == 2 ==> month_name(month, leap)[month_name(month, leap).len() - 2] == '二'
            &&& month == 3 ==> month_name(month, leap)[month_name(month, leap).len() - 2] == '三'
            &&& month == 4 ==> month_name(month, leap)[month_name(month, leap).len() - 2] == '四'
            &&& month == 5 ==> month_name(month, leap)[month_name(month, leap).len() - 2] == '五'
            &&& month == 6 ==> month_name(month, leap)[month_name(month, leap).len() - 2] == '六'
            &&& month == 7 ==> month_name(month, leap)[month_name(month, leap).len() - 2] == '七'
            &&& month == 8 ==> month_name(month, leap)[month_name(month, leap).len() - 2] == '八'
            &&& month == 9 ==> month_name(month, leap)[month_name(month, leap).len() - 2] == '九'
            &&& month == 10 ==> month_name(month, leap)[month_name(month, leap).len() - 2] == '十'
            &&& month == 11 ==> month_name(month, leap)[month_name(month, leap).len() - 2] == '冬'
            &&& month == 12 ==> month_name(month, leap)[month_name(month, leap).len() - 2] == '腊'
        }),
{
    reveal_strlit("正月");
    reveal_strlit("闰正月");
    reveal_strlit("二月");
    reveal_strlit("闰二月");
    reveal_strlit("三月");
    reveal_strlit("闰三月");
    reveal_strlit("四月");
    reveal_strlit("闰四月");
    reveal_strlit("五月");
    reveal_strlit("闰五月");
    reveal_strlit("六月");
    reveal_strlit("闰六月");
    reveal_strlit("七月");
    reveal_strlit("闰七月");
    reveal_strlit("八月");
    reveal_strlit("闰八月");
    reveal_strlit("九月");
    reveal_strlit("闰九月");
    reveal_strlit("十月");
    reveal_strlit("闰十月");
    reveal_strlit("冬月");
    reveal_strlit("闰冬月");
    reveal_strlit("腊月");
    reveal_strlit("闰腊月");
}

/// The name of a day ends with the numeral of its last digit, and begins with the sign of its ten.
#[verifier::rlimit(50)]
pub proof fn law_days_are_named_by_number(day: int)
    requires
        1 <= day <= 30,
    ensures
        ({
            let t = day_name(day);
            &&& t.len() == 2
            &&& day <= 10 <==> t[0] == '初'
            &&& 11 <= day <= 19 <==> t[0] == '十'
            &&& day == 20 <==> t[0] == '二'
            &&& 21 <= day <= 29 <==> t[0] == '廿'
            &&& day == 30 <==> t[0] == '三'
            &&& day % 10 == 1 ==> t[1] == '一'
            &&& day % 10 == 2 ==> t[1] == '二'
            &&& day % 10 == 3 ==> t[1] == '三'
            &&& day % 10 == 4 ==> t[1] == '四'
            &&& day % 10 == 5 ==> t[1] == '五'
            &&& day % 10 == 6 ==> t[1] == '六'
            &&& day % 10 == 7 ==> t[1] == '七'
            &&& day % 10 == 8 ==> t[1] == '八'
            &&& day % 10 == 9 ==> t[1] == '九'
            &&& day % 10 == 0 ==> t[1] == '十'
        }),
{
    reveal_strlit("初一");
    reveal_strlit("初二");
    reveal_strlit("初三");
    reveal_strlit("初四");
    reveal_strlit("初五");
    reveal_strlit("初六");
    reveal_strlit("初七");
    reveal_strlit("初八");
    reveal_strlit("初九");
    reveal_strlit("初十");
    reveal_strlit("十一");
    reveal_strlit("十二");
    reveal_strlit("十三");
    reveal_strlit("十四");
    reveal_strlit("十五");
    reveal_strlit("十六");
    reveal_strlit("十七");
    reveal_strlit("十八");
    reveal_strlit("十九");
    reveal_strlit("二十");
    reveal_strlit("廿一");
    reveal_strlit("廿二");
    reveal_strlit("廿三");
    reveal_strlit("廿四");
    reveal_strlit("廿五");
    reveal_strlit("廿六");
    reveal_strlit("廿七");
    reveal_strlit("廿八");
    reveal_strlit("廿九");
    reveal_strlit("三十");
}

/// The days since the table begins count the days of the solar calendar one by one, from the last
/// day of January 1900 on: over the ends of months and years too. A year has a 29 February where
/// four divides it, but for full centuries that 400 does not divide.
#[verifier::rlimit(50)]
pub proof fn law_solar_days_are_counted(y: int, m: int, d: int)
    requires
        y >= 1900,
        1 <= m <= 12,
    ensures
        days_since_1900(1900, 1, 31) == 0,
        days_since_1900(y, m, d + 1) == days_since_1900(y, m, d) + 1,
        m < 12 ==> days_since_1900(y, m + 1, 1) == days_since_1900(y, m, solar_month_len(y, m)) + 1,
        days_since_1900(y + 1, 1, 1) == days_since_1900(y, 12, 31) + 1,
        28 <= solar_month_len(y, m) <= 31,
        solar_month_len(y, m) == 31 <==> (m <= 7 && m % 2 == 1 || m >= 8 && m % 2 == 0),
        solar_month_len(y, m) < 30 <==> m == 2,
        solar_month_len(y, 2) == 29 <==> (y % 4 == 0 && (y % 100 == 0 ==> y % 400 == 0)),
        solar_month_len(y, 12) == 31,
{
    reveal_with_fuel(solar_before_month, 13);
    reveal_with_fuel(solar_before_year, 2);
}

/// Past the end of the table every day is given as the first of the first month, no leap month.
pub proof fn law_days_past_the_table_are_the_first(l: Option<LunarDay>, n: int)
    requires
        is_lunar_date(l, n),
        n >= span(YEARS as int),
    ensures
        l is Some,
        l->0.month == 1 && l->0.day == 1 && !l->0.leap_month,
{
    lemma_span_grows(0, YEARS as int);
}

} // verus!
