//! The weather forecast.
use vstd::prelude::*;

verus! {

/// How many days a forecast holds at most.
pub const DAILY_MAX: usize = 5;

/// The forecast for a day, as it is shown.
pub struct Daily {
    pub date: String,
    pub code_day: String,
    pub text_day: String,
    pub code_night: String,
    pub text_night: String,
    pub high: String,
    pub low: String,
    pub rainfall: String,
    pub precip: String,
    pub humidity: String,
    pub wind_speed: String,
    pub wind_scale: String,
    pub wind_direction: String,
    pub wind_direction_degree: String,
}

/// A place.
pub struct Location {
    pub name: String,
    pub timezone: String,
}

/// A forecast.
pub struct DailyResult {
    pub last_update: String,
    pub daily: Vec<Daily>,
    pub location: Location,
}

/// The days of the week.
#[derive(Clone, Copy, Debug, PartialEq, Eq, Structural)]
pub enum Weekday {
    Monday,
    Tuesday,
    Wednesday,
    Thursday,
    Friday,
    Saturday,
    Sunday,
}

/// A moment as a clock on the wall shows it.
#[derive(Clone, Copy, Debug, PartialEq, Eq, Structural)]
pub struct LocalTime {
    pub year: i32,
    pub month: u8,
    pub day: u8,
    pub hour: u8,
    pub minute: u8,
    pub weekday: Weekday,
}

impl LocalTime {
    /// There is such a moment.
    pub open spec fn valid(self) -> bool {
        &&& 0 <= self.year <= 9999
        &&& 1 <= self.month <= 12
        &&& 1 <= self.day <= 31
        &&& self.hour < 24
        &&& self.minute < 60
    }
}

/// The name of a day of the week.
pub open spec fn day_of_week(w: Weekday) -> Seq<char> {
    match w {
        Weekday::Monday => "周一"@,
        Weekday::Tuesday => "周二"@,
        Weekday::Wednesday => "周三"@,
        Weekday::Thursday => "周四"@,
        Weekday::Friday => "周五"@,
        Weekday::Saturday => "周六"@,
        Weekday::Sunday => "周日"@,
    }
}

/// The name of a day of the week.
pub fn weekday_name(w: Weekday) -> (s: &'static str)
    ensures
        s@ == day_of_week(w),
{
    match w {
        Weekday::Monday => "周一",
        Weekday::Tuesday => "周二",
        Weekday::Wednesday => "周三",
        Weekday::Thursday => "周四",
        Weekday::Friday => "周五",
        Weekday::Saturday => "周六",
        Weekday::Sunday => "周日",
    }
}

/// The days of the week are numbered from Monday on, but for Sunday.
pub proof fn law_weekdays_are_numbered(w: Weekday)
    ensures
        day_of_week(w).len() == 2,
        day_of_week(w)[0] == '周',
        day_of_week(w)[1] == '一' <==> w is Monday,
        day_of_week(w)[1] == '二' <==> w is Tuesday,
        day_of_week(w)[1] == '三' <==> w is Wednesday,
        day_of_week(w)[1] == '四' <==> w is Thursday,
        day_of_week(w)[1] == '五' <==> w is Friday,
        day_of_week(w)[1] == '六' <==> w is Saturday,
        day_of_week(w)[1] == '日' <==> w is Sunday,
{
    reveal_strlit("周一");
    reveal_strlit("周二");
    reveal_strlit("周三");
    reveal_strlit("周四");
    reveal_strlit("周五");
    reveal_strlit("周六");
    reveal_strlit("周日");
}

} // verus!
