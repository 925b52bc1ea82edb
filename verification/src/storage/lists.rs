//! The records with lists in them.
use vstd::prelude::*;
#[allow(unused_imports)]
use vstd::string::*;

use crate::model::daily::{Daily, DailyResult, Location, DAILY_MAX};
use crate::model::holiday::{Holiday, HolidayResponse, HOLIDAY_MAX};
use crate::storage::codec::{views, Field, FieldView, Kind};
use crate::storage::records::{
    NvsStorage, bytes_of, empty_text, flag, flag_field, law_read_gives_back_what_was_written,
    num_at, num_in, storable, text_at, text_in, to_u32, to_u8,
};

verus! {

/// How many stocks can be configured.
pub const STOCKS: usize = 5;

/// How many texts a day's forecast has.
pub const DAY_TEXTS: usize = 14;

/// How many fields the days of a forecast take.
pub const DAY_FIELDS: usize = 70;

/// How many fields are before them.
pub const DAYS_AT: usize = 8;

/// How many fields the holidays of a year take.
pub const HOLIDAY_FIELDS: usize = 80;

/// How many fields are before them.
pub const HOLIDAYS_AT: usize = 5;

/// The forecast and when it was fetched, with the key and the city that it is asked for.
pub struct WeatherStorage {
    pub token: String,
    pub city: String,
    pub sync_time_second: u64,
    pub weather_data: Option<DailyResult>,
}

/// A text of a day's forecast.
pub open spec fn day_text(d: Daily, k: int) -> Seq<char> {
    if k == 0 {
        d.date@
    } else if k == 1 {
        d.code_day@
    } else if k == 2 {
        d.text_day@
    } else if k == 3 {
        d.code_night@
    } else if k == 4 {
        d.text_night@
    } else if k == 5 {
        d.high@
    } else if k == 6 {
        d.low@
    } else if k == 7 {
        d.rainfall@
    } else if k == 8 {
        d.precip@
    } else if k == 9 {
        d.humidity@
    } else if k == 10 {
        d.wind_speed@
    } else if k == 11 {
        d.wind_scale@
    } else if k == 12 {
        d.wind_direction@
    } else {
        d.wind_direction_degree@
    }
}

fn copy_day_text(d: &Daily, k: usize) -> (t: String)
    requires
        k < DAY_TEXTS,
    ensures
        t@ == day_text(*d, k as int),
{
    if k == 0 {
        d.date.clone()
    } else if k == 1 {
        d.code_day.clone()
    } else if k == 2 {
        d.text_day.clone()
    } else if k == 3 {
        d.code_night.clone()
    } else if k == 4 {
        d.text_night.clone()
    } else if k == 5 {
        d.high.clone()
    } else if k == 6 {
        d.low.clone()
    } else if k == 7 {
        d.rainfall.clone()
    } else if k == 8 {
        d.precip.clone()
    } else if k == 9 {
        d.humidity.clone()
    } else if k == 10 {
        d.wind_speed.clone()
    } else if k == 11 {
        d.wind_scale.clone()
    } else if k == 12 {
        d.wind_direction.clone()
    } else {
        d.wind_direction_degree.clone()
    }
}

/// The field `j` of the days of a forecast; empty behind the last day.
pub open spec fn day_field(daily: Seq<Daily>, j: int) -> FieldView {
    FieldView::Text(
        if j / 14 < daily.len() {
            day_text(daily[j / 14], j % 14)
        } else {
            seq![]
        },
    )
}

/// The days of a forecast, if there is one.
pub open spec fn days_of(w: Option<DailyResult>) -> Seq<Daily> {
    match w {
        Some(r) => r.daily@,
        None => seq![],
    }
}

impl WeatherStorage {
    /// What is before the days.
    pub open spec fn head(&self) -> Seq<FieldView> {
        let (update, name, zone) = match self.weather_data {
            Some(r) => (r.last_update@, r.location.name@, r.location.timezone@),
            None => (seq![], seq![], seq![]),
        };
        seq![
            FieldView::Text(self.token@),
            FieldView::Text(self.city@),
            FieldView::Num(self.sync_time_second),
            flag(self.weather_data is Some),
            FieldView::Text(update),
            FieldView::Text(name),
            FieldView::Text(zone),
            FieldView::Num(days_of(self.weather_data).len() as u64),
        ]
    }
}

/// Reads a day's forecast.
fn read_day(fs: &Vec<Field>, at: usize) -> (d: Daily)
    requires
        at + DAY_TEXTS <= fs@.len(),
        at <= 1000,
    ensures
        forall|k: int|
            0 <= k < DAY_TEXTS ==> #[trigger] day_text(d, k) == text_in(views(fs@)[at + k]),
{
    Daily {
        date: text_at(fs, at),
        code_day: text_at(fs, at + 1),
        text_day: text_at(fs, at + 2),
        code_night: text_at(fs, at + 3),
        text_night: text_at(fs, at + 4),
        high: text_at(fs, at + 5),
        low: text_at(fs, at + 6),
        rainfall: text_at(fs, at + 7),
        precip: text_at(fs, at + 8),
        humidity: text_at(fs, at + 9),
        wind_speed: text_at(fs, at + 10),
        wind_scale: text_at(fs, at + 11),
        wind_direction: text_at(fs, at + 12),
        wind_direction_degree: text_at(fs, at + 13),
    }
}

impl Default for WeatherStorage {
    /// No forecast.
    fn default() -> (r: Self)
        ensures
            r.token@.len() == 0,
            r.city@.len() == 0,
            r.sync_time_second == 0,
            r.weather_data is None,
    {
        WeatherStorage {
            token: empty_text(),
            city: empty_text(),
            sync_time_second: 0,
            weather_data: None,
        }
    }
}

impl NvsStorage for WeatherStorage {
    open spec fn kinds() -> Seq<Kind> {
        seq![
            Kind::Text(64),
            Kind::Text(32),
            Kind::Num(8),
            Kind::Num(1),
            Kind::Text(40),
            Kind::Text(40),
            Kind::Text(40),
            Kind::Num(1),
        ] + Seq::new(DAY_FIELDS as nat, |j: int| Kind::Text(20))
    }

    open spec fn fields(&self) -> Seq<FieldView> {
        self.head() + Seq::new(
            DAY_FIELDS as nat,
            |j: int| day_field(days_of(self.weather_data), j),
        )
    }

    open spec fn bounded(&self) -> bool {
        days_of(self.weather_data).len() <= DAILY_MAX
    }

    fn is_bounded(&self) -> (b: bool) {
        match &self.weather_data {
            Some(d) => d.daily.len() <= DAILY_MAX,
            None => true,
        }
    }

    fn kind_list() -> (ks: Vec<Kind>) {
        let mut ks = vec![
            Kind::Text(64),
            Kind::Text(32),
            Kind::Num(8),
            Kind::Num(1),
            Kind::Text(40),
            Kind::Text(40),
            Kind::Text(40),
            Kind::Num(1),
        ];
        let mut j: usize = 0;
        while j < DAY_FIELDS
            invariant
                j <= DAY_FIELDS,
                ks@ =~= Self::kinds().take(DAYS_AT + j),
            decreases DAY_FIELDS - j,
        {
            ks.push(Kind::Text(20));
            j += 1;
        }
        assert(ks@ =~= Self::kinds());
        ks
    }

    fn to_fields(&self) -> (fs: Vec<Field>) {
        let (there, update, name, zone, n): (bool, String, String, String, usize) =
            match &self.weather_data {
            Some(r) => (
                true,
                r.last_update.clone(),
                r.location.name.clone(),
                r.location.timezone.clone(),
                r.daily.len(),
            ),
            None => (false, empty_text(), empty_text(), empty_text(), 0),
        };
        let mut fs = vec![
            Field::Text(self.token.clone()),
            Field::Text(self.city.clone()),
            Field::Num(self.sync_time_second),
            flag_field(there),
            Field::Text(update),
            Field::Text(name),
            Field::Text(zone),
            Field::Num(n as u64),
        ];
        assert(views(fs@) =~= self.fields().take(DAYS_AT as int));
        let mut j: usize = 0;
        while j < DAY_FIELDS
            invariant
                j <= DAY_FIELDS,
                n == days_of(self.weather_data).len(),
                there == (self.weather_data is Some),
                views(fs@) =~= self.fields().take(DAYS_AT + j),
                self.fields().len() == DAYS_AT + DAY_FIELDS,
            decreases DAY_FIELDS - j,
        {
            let mut t = empty_text();
            if let Some(r) = &self.weather_data {
                if j / DAY_TEXTS < r.daily.len() {
                    t = copy_day_text(&r.daily[j / DAY_TEXTS], j % DAY_TEXTS);
                }
            }
            let ghost before = fs@;
            fs.push(Field::Text(t));
            assert(self.fields()[DAYS_AT + j] == day_field(days_of(self.weather_data), j as int));
            assert(views(fs@) =~= views(before).push(FieldView::Text(t@)));
            assert(self.fields().take(DAYS_AT + j + 1) =~= self.fields().take(DAYS_AT + j).push(
                self.fields()[DAYS_AT + j],
            ));
            j += 1;
        }
        assert(self.fields().take(DAYS_AT + DAY_FIELDS) =~= self.fields());
        fs
    }

    fn from_fields(fs: &Vec<Field>) -> (r: Self) {
        let stored: u64 = num_at(fs, 7);
        let n: usize = if stored <= DAILY_MAX as u64 {
            stored as usize
        } else {
            0
        };
        let mut daily: Vec<Daily> = Vec::new();
        while daily.len() < n
            invariant
                n <= DAILY_MAX,
                daily@.len() <= n,
                fs@.len() == DAYS_AT + DAY_FIELDS,
                forall|i: int, k: int|
                    0 <= i < daily@.len() && 0 <= k < DAY_TEXTS ==> #[trigger] day_text(daily@[i], k)
                        == text_in(views(fs@)[DAYS_AT + i * 14 + k]),
            decreases n - daily@.len(),
        {
            let d = read_day(fs, DAYS_AT + daily.len() * DAY_TEXTS);
            daily.push(d);
        }
        let weather_data = if num_at(fs, 3) == 1 {
            Some(
                DailyResult {
                    last_update: text_at(fs, 4),
                    daily,
                    location: Location { name: text_at(fs, 5), timezone: text_at(fs, 6) },
                },
            )
        } else {
            None
        };
        let r = WeatherStorage {
            token: text_at(fs, 0),
            city: text_at(fs, 1),
            sync_time_second: num_at(fs, 2),
            weather_data,
        };
        proof {
            assert forall|s: Self|
                s.bounded() && views(fs@) == #[trigger] s.fields() implies r.fields()
                == s.fields() by {
                let v = views(fs@);
                assert forall|i: int| 0 <= i < 8 implies #[trigger] v[i] == s.head()[i] by {
                    assert(s.fields()[i] == s.head()[i]);
                }
                assert(r.head() =~= s.head()) by {
                    assert(v[0] == s.head()[0]);
                    assert(v[1] == s.head()[1]);
                    assert(v[2] == s.head()[2]);
                    assert(v[3] == s.head()[3]);
                    assert(v[4] == s.head()[4]);
                    assert(v[5] == s.head()[5]);
                    assert(v[6] == s.head()[6]);
                    assert(v[7] == s.head()[7]);
                }
                assert forall|j: int| 0 <= j < DAY_FIELDS implies day_field(
                    days_of(r.weather_data),
                    j,
                ) == day_field(days_of(s.weather_data), j) by {
                    assert(v[DAYS_AT + j] == s.fields()[DAYS_AT + j]);
                    assert(s.fields()[DAYS_AT + j] == day_field(days_of(s.weather_data), j));
                    if j / 14 < days_of(s.weather_data).len() {
                        assert(day_text(days_of(r.weather_data)[j / 14], j % 14) == text_in(
                            v[DAYS_AT + (j / 14) * 14 + j % 14],
                        ));
                    }
                }
                assert(r.fields() =~= s.fields());
            }
        }
        r
    }
}

/// The holidays and when they were fetched.
pub struct HolidayStorage {
    pub token: String,
    pub sync_time_second: u64,
    pub holiday_response: Option<HolidayResponse>,
}

/// The holidays, if there are any.
pub open spec fn holidays_of(h: Option<HolidayResponse>) -> Seq<Holiday> {
    match h {
        Some(r) => r.holidays@,
        None => seq![],
    }
}

/// The field `j` of the holidays: a date, or whether it is free; nought behind the last.
pub open spec fn holiday_field(h: Seq<Holiday>, j: int) -> FieldView {
    if j / 2 < h.len() {
        if j % 2 == 0 {
            FieldView::Num(h[j / 2].date as u64)
        } else {
            flag(h[j / 2].is_off_day)
        }
    } else {
        FieldView::Num(0)
    }
}

/// The kind of the field `j` of the holidays.
pub open spec fn holiday_kind(j: int) -> Kind {
    if j % 2 == 0 {
        Kind::Num(4)
    } else {
        Kind::Num(1)
    }
}

impl HolidayStorage {
    /// What is before the holidays.
    pub open spec fn head(&self) -> Seq<FieldView> {
        seq![
            FieldView::Text(self.token@),
            FieldView::Num(self.sync_time_second),
            flag(self.holiday_response is Some),
            FieldView::Num(
                match self.holiday_response {
                    Some(r) => r.year as u64,
                    None => 0,
                },
            ),
            FieldView::Num(holidays_of(self.holiday_response).len() as u64),
        ]
    }
}

impl Default for HolidayStorage {
    /// No holidays.
    fn default() -> (r: Self)
        ensures
            r.token@.len() == 0,
            r.sync_time_second == 0,
            r.holiday_response is None,
    {
        HolidayStorage { token: empty_text(), sync_time_second: 0, holiday_response: None }
    }
}

impl NvsStorage for HolidayStorage {
    open spec fn kinds() -> Seq<Kind> {
        seq![Kind::Text(64), Kind::Num(8), Kind::Num(1), Kind::Num(4), Kind::Num(1)] + Seq::new(
            HOLIDAY_FIELDS as nat,
            |j: int| holiday_kind(j),
        )
    }

    open spec fn fields(&self) -> Seq<FieldView> {
        self.head() + Seq::new(
            HOLIDAY_FIELDS as nat,
            |j: int| holiday_field(holidays_of(self.holiday_response), j),
        )
    }

    open spec fn bounded(&self) -> bool {
        holidays_of(self.holiday_response).len() <= HOLIDAY_MAX
    }

    fn is_bounded(&self) -> (b: bool) {
        match &self.holiday_response {
            Some(r) => r.holidays.len() <= HOLIDAY_MAX,
            None => true,
        }
    }

    fn kind_list() -> (ks: Vec<Kind>) {
        let mut ks = vec![Kind::Text(64), Kind::Num(8), Kind::Num(1), Kind::Num(4), Kind::Num(1)];
        let mut j: usize = 0;
        while j < HOLIDAY_FIELDS
            invariant
                j <= HOLIDAY_FIELDS,
                ks@ =~= Self::kinds().take(HOLIDAYS_AT + j),
            decreases HOLIDAY_FIELDS - j,
        {
            if j % 2 == 0 {
                ks.push(Kind::Num(4));
            } else {
                ks.push(Kind::Num(1));
            }
            j += 1;
        }
        assert(ks@ =~= Self::kinds());
        ks
    }

    fn to_fields(&self) -> (fs: Vec<Field>) {
        let (there, year, n): (bool, u32, usize) = match &self.holiday_response {
            Some(r) => (true, r.year, r.holidays.len()),
            None => (false, 0, 0),
        };
        let mut fs = vec![
            Field::Text(self.token.clone()),
            Field::Num(self.sync_time_second),
            flag_field(there),
            Field::Num(year as u64),
            Field::Num(n as u64),
        ];
        assert(views(fs@) =~= self.fields().take(HOLIDAYS_AT as int));
        let mut j: usize = 0;
        while j < HOLIDAY_FIELDS
            invariant
                j <= HOLIDAY_FIELDS,
                n == holidays_of(self.holiday_response).len(),
                there == (self.holiday_response is Some),
                views(fs@) =~= self.fields().take(HOLIDAYS_AT + j),
                self.fields().len() == HOLIDAYS_AT + HOLIDAY_FIELDS,
            decreases HOLIDAY_FIELDS - j,
        {
            let mut f: u64 = 0;
            if let Some(r) = &self.holiday_response {
                if j / 2 < r.holidays.len() {
                    let h = r.holidays[j / 2];
                    f = if j % 2 == 0 {
                        h.date as u64
                    } else if h.is_off_day {
                        1
                    } else {
                        0
                    };
                }
            }
            let ghost before = fs@;
            fs.push(Field::Num(f));
            assert(self.fields()[HOLIDAYS_AT + j] == holiday_field(
                holidays_of(self.holiday_response),
                j as int,
            ));
            assert(views(fs@) =~= views(before).push(FieldView::Num(f)));
            assert(self.fields().take(HOLIDAYS_AT + j + 1) =~= self.fields().take(
                HOLIDAYS_AT + j,
            ).push(self.fields()[HOLIDAYS_AT + j]));
            j += 1;
        }
        assert(self.fields().take(HOLIDAYS_AT + HOLIDAY_FIELDS) =~= self.fields());
        fs
    }

    fn from_fields(fs: &Vec<Field>) -> (r: Self) {
        let stored: u64 = num_at(fs, 4);
        let n: usize = if stored <= HOLIDAY_MAX as u64 {
            stored as usize
        } else {
            0
        };
        let mut holidays: Vec<Holiday> = Vec::new();
        while holidays.len() < n
            invariant
                n <= HOLIDAY_MAX,
                holidays@.len() <= n,
                fs@.len() == HOLIDAYS_AT + HOLIDAY_FIELDS,
                forall|i: int|
                    0 <= i < holidays@.len() ==> {
                        &&& num_in(views(fs@)[HOLIDAYS_AT + i * 2]) <= u32::MAX
                            ==> (#[trigger] holidays@[i]).date == num_in(
                            views(fs@)[HOLIDAYS_AT + i * 2],
                        )
                        &&& holidays@[i].is_off_day == (num_in(
                            views(fs@)[HOLIDAYS_AT + i * 2 + 1],
                        ) == 1)
                    },
            decreases n - holidays@.len(),
        {
            let at: usize = HOLIDAYS_AT + holidays.len() * 2;
            holidays.push(
                Holiday { date: to_u32(num_at(fs, at)), is_off_day: num_at(fs, at + 1) == 1 },
            );
        }
        let holiday_response = if num_at(fs, 2) == 1 {
            Some(HolidayResponse { year: to_u32(num_at(fs, 3)), holidays })
        } else {
            None
        };
        let r = HolidayStorage {
            token: text_at(fs, 0),
            sync_time_second: num_at(fs, 1),
            holiday_response,
        };
        proof {
            assert forall|s: Self|
                s.bounded() && views(fs@) == #[trigger] s.fields() implies r.fields()
                == s.fields() by {
                let v = views(fs@);
                assert(r.head() =~= s.head()) by {
                    assert(v[0] == s.fields()[0]);
                    assert(v[1] == s.fields()[1]);
                    assert(v[2] == s.fields()[2]);
                    assert(v[3] == s.fields()[3]);
                    assert(v[4] == s.fields()[4]);
                }
                assert forall|j: int| 0 <= j < HOLIDAY_FIELDS implies holiday_field(
                    holidays_of(r.holiday_response),
                    j,
                ) == holiday_field(holidays_of(s.holiday_response), j) by {
                    let i = j / 2;
                    if i < holidays_of(s.holiday_response).len() {
                        assert(v[HOLIDAYS_AT + i * 2] == s.fields()[HOLIDAYS_AT + i * 2]);
                        assert(v[HOLIDAYS_AT + i * 2 + 1] == s.fields()[HOLIDAYS_AT + i * 2 + 1]);
                        assert(s.fields()[HOLIDAYS_AT + i * 2] == holiday_field(
                            holidays_of(s.holiday_response),
                            i * 2,
                        ));
                        assert(s.fields()[HOLIDAYS_AT + i * 2 + 1] == holiday_field(
                            holidays_of(s.holiday_response),
                            i * 2 + 1,
                        ));
                        assert(holidays_of(r.holiday_response)[i].date == holidays_of(
                            s.holiday_response,
                        )[i].date);
                    }
                }
                assert(r.fields() =~= s.fields());
            }
        }
        r
    }
}

/// A configured stock.
pub struct StockEntry {
    pub code: String,
    pub name: String,
}

/// The configured stocks: how many there are, and which is chosen.
pub struct StockStorage {
    pub entries: Vec<StockEntry>,
    pub count: u8,
    pub selected: u8,
}

/// The field `j` of the stocks.
pub open spec fn stock_field(e: Seq<StockEntry>, j: int) -> FieldView {
    FieldView::Text(
        if j % 2 == 0 {
            e[j / 2].code@
        } else {
            e[j / 2].name@
        },
    )
}

impl Default for StockStorage {
    /// No stocks.
    fn default() -> (r: Self)
        ensures
            r.entries@.len() == STOCKS,
            r.count == 0,
            r.selected == 0,
            forall|i: int|
                0 <= i < STOCKS ==> (#[trigger] r.entries@[i]).code@.len() == 0
                    && r.entries@[i].name@.len() == 0,
    {
        let mut entries: Vec<StockEntry> = Vec::new();
        while entries.len() < STOCKS
            invariant
                entries@.len() <= STOCKS,
                forall|i: int|
                    0 <= i < entries@.len() ==> (#[trigger] entries@[i]).code@.len() == 0
                        && entries@[i].name@.len() == 0,
            decreases STOCKS - entries@.len(),
        {
            entries.push(StockEntry { code: empty_text(), name: empty_text() });
        }
        StockStorage { entries, count: 0, selected: 0 }
    }
}

impl NvsStorage for StockStorage {
    open spec fn kinds() -> Seq<Kind> {
        seq![Kind::Num(1), Kind::Num(1)] + Seq::new(
            10,
            |j: int|
                if j % 2 == 0 {
                    Kind::Text(16)
                } else {
                    Kind::Text(32)
                },
        )
    }

    open spec fn fields(&self) -> Seq<FieldView> {
        seq![FieldView::Num(self.count as u64), FieldView::Num(self.selected as u64)] + Seq::new(
            10,
            |j: int| stock_field(self.entries@, j),
        )
    }

    open spec fn bounded(&self) -> bool {
        self.entries@.len() == STOCKS
    }

    fn is_bounded(&self) -> (b: bool) {
        self.entries.len() == STOCKS
    }

    fn kind_list() -> (ks: Vec<Kind>) {
        let mut ks = vec![Kind::Num(1), Kind::Num(1)];
        let mut j: usize = 0;
        while j < 10
            invariant
                j <= 10,
                ks@ =~= Self::kinds().take(2 + j),
            decreases 10 - j,
        {
            if j % 2 == 0 {
                ks.push(Kind::Text(16));
            } else {
                ks.push(Kind::Text(32));
            }
            j += 1;
        }
        assert(ks@ =~= Self::kinds());
        ks
    }

    fn to_fields(&self) -> (fs: Vec<Field>) {
        let mut fs = vec![Field::Num(self.count as u64), Field::Num(self.selected as u64)];
        assert(views(fs@) =~= self.fields().take(2));
        let mut j: usize = 0;
        while j < 10
            invariant
                j <= 10,
                self.entries@.len() == STOCKS,
                views(fs@) =~= self.fields().take(2 + j),
                self.fields().len() == 12,
            decreases 10 - j,
        {
            let e = &self.entries[j / 2];
            let t = if j % 2 == 0 {
                e.code.clone()
            } else {
                e.name.clone()
            };
            let ghost before = fs@;
            fs.push(Field::Text(t));
            assert(self.fields()[2 + j] == stock_field(self.entries@, j as int));
            assert(views(fs@) =~= views(before).push(FieldView::Text(t@)));
            assert(self.fields().take(2 + j + 1) =~= self.fields().take(2 + j).push(
                self.fields()[2 + j],
            ));
            j += 1;
        }
        assert(self.fields().take(12) =~= self.fields());
        fs
    }

    fn from_fields(fs: &Vec<Field>) -> (r: Self) {
        let mut entries: Vec<StockEntry> = Vec::new();
        while entries.len() < STOCKS
            invariant
                entries@.len() <= STOCKS,
                fs@.len() == 12,
                forall|i: int|
                    0 <= i < entries@.len() ==> (#[trigger] entries@[i]).code@ == text_in(
                        views(fs@)[2 + i * 2],
                    ) && entries@[i].name@ == text_in(views(fs@)[2 + i * 2 + 1]),
            decreases STOCKS - entries@.len(),
        {
            let at: usize = 2 + entries.len() * 2;
            entries.push(StockEntry { code: text_at(fs, at), name: text_at(fs, at + 1) });
        }
        let r = StockStorage {
            entries,
            count: to_u8(num_at(fs, 0)),
            selected: to_u8(num_at(fs, 1)),
        };
        proof {
            assert forall|s: Self|
                s.bounded() && views(fs@) == #[trigger] s.fields() implies r.fields()
                == s.fields() by {
                let v = views(fs@);
                assert(v[0] == s.fields()[0]);
                assert(v[1] == s.fields()[1]);
                assert forall|j: int| 0 <= j < 10 implies stock_field(r.entries@, j)
                    == stock_field(s.entries@, j) by {
                    let i = j / 2;
                    assert(v[2 + j] == s.fields()[2 + j]);
                    assert(s.fields()[2 + j] == stock_field(s.entries@, j));
                    assert(r.entries@[i].code@ == text_in(v[2 + i * 2]));
                }
                assert(r.fields() =~= s.fields());
            }
        }
        r
    }
}

/// A forecast is kept whole: the place it is asked for, when it was fetched, and every text of every
/// day.
#[verifier::rlimit(50)]
pub proof fn law_forecasts_are_kept_whole(a: WeatherStorage, b: WeatherStorage, i: int)
    requires
        storable(a),
        storable(b),
        bytes_of(a) == bytes_of(b),
        0 <= i < days_of(a.weather_data).len(),
    ensures
        a.token@ == b.token@,
        a.city@ == b.city@,
        a.sync_time_second == b.sync_time_second,
        a.weather_data is Some <==> b.weather_data is Some,
        b.weather_data is Some,
        a.weather_data->0.daily@.len() == b.weather_data->0.daily@.len(),
        a.weather_data->0.last_update@ == b.weather_data->0.last_update@,
        a.weather_data->0.location.name@ == b.weather_data->0.location.name@,
        a.weather_data->0.daily@[i].date@ == b.weather_data->0.daily@[i].date@,
        a.weather_data->0.daily@[i].code_day@ == b.weather_data->0.daily@[i].code_day@,
        a.weather_data->0.daily@[i].text_day@ == b.weather_data->0.daily@[i].text_day@,
        a.weather_data->0.daily@[i].code_night@ == b.weather_data->0.daily@[i].code_night@,
        a.weather_data->0.daily@[i].text_night@ == b.weather_data->0.daily@[i].text_night@,
        a.weather_data->0.daily@[i].high@ == b.weather_data->0.daily@[i].high@,
        a.weather_data->0.daily@[i].low@ == b.weather_data->0.daily@[i].low@,
        a.weather_data->0.daily@[i].rainfall@ == b.weather_data->0.daily@[i].rainfall@,
        a.weather_data->0.daily@[i].precip@ == b.weather_data->0.daily@[i].precip@,
        a.weather_data->0.daily@[i].humidity@ == b.weather_data->0.daily@[i].humidity@,
        a.weather_data->0.daily@[i].wind_speed@ == b.weather_data->0.daily@[i].wind_speed@,
        a.weather_data->0.daily@[i].wind_scale@ == b.weather_data->0.daily@[i].wind_scale@,
        a.weather_data->0.daily@[i].wind_direction@ == b.weather_data->0.daily@[i].wind_direction@,
        a.weather_data->0.daily@[i].wind_direction_degree@ == b.weather_data->0.daily@[i].wind_direction_degree@,
{
    law_read_gives_back_what_was_written(a, b);
    let f = a.fields();
    let g = b.fields();
    assert(f[0] == g[0] && f[1] == g[1] && f[2] == g[2] && f[3] == g[3]);
    assert(f[4] == g[4] && f[5] == g[5] && f[7] == g[7]);
    assert(days_of(a.weather_data).len() <= DAILY_MAX);
    assert(days_of(b.weather_data).len() <= DAILY_MAX);
    lemma_day_field(a, b, i, 0);
    lemma_day_field(a, b, i, 1);
    lemma_day_field(a, b, i, 2);
    lemma_day_field(a, b, i, 3);
    lemma_day_field(a, b, i, 4);
    lemma_day_field(a, b, i, 5);
    lemma_day_field(a, b, i, 6);
    lemma_day_field(a, b, i, 7);
    lemma_day_field(a, b, i, 8);
    lemma_day_field(a, b, i, 9);
    lemma_day_field(a, b, i, 10);
    lemma_day_field(a, b, i, 11);
    lemma_day_field(a, b, i, 12);
    lemma_day_field(a, b, i, 13);
}

proof fn lemma_day_field(a: WeatherStorage, b: WeatherStorage, i: int, k: int)
    requires
        a.fields() == b.fields(),
        0 <= i < days_of(a.weather_data).len() == days_of(b.weather_data).len() <= DAILY_MAX,
        0 <= k < 14,
    ensures
        day_text(days_of(a.weather_data)[i], k) == day_text(days_of(b.weather_data)[i], k),
{
    let j = 14 * i + k;
    assert(j / 14 == i && j % 14 == k);
    assert(a.fields()[8 + j] == b.fields()[8 + j]);
    assert(a.fields()[8 + j] == day_field(days_of(a.weather_data), j));
    assert(b.fields()[8 + j] == day_field(days_of(b.weather_data), j));
}

/// The configured stocks are kept whole: how many, which is chosen, and the code and name of each.
pub proof fn law_stocks_are_kept_whole(a: StockStorage, b: StockStorage, i: int)
    requires
        storable(a),
        storable(b),
        bytes_of(a) == bytes_of(b),
        0 <= i < STOCKS,
    ensures
        a.count == b.count,
        a.selected == b.selected,
        a.entries@[i].code@ == b.entries@[i].code@,
        a.entries@[i].name@ == b.entries@[i].name@,
{
    law_read_gives_back_what_was_written(a, b);
    let f = a.fields();
    let g = b.fields();
    assert(f[0] == g[0] && f[1] == g[1]);
    assert(f[2 + 2 * i] == g[2 + 2 * i]);
    assert(f[3 + 2 * i] == g[3 + 2 * i]);
    assert((2 * i) / 2 == i && (2 * i) % 2 == 0 && (2 * i + 1) / 2 == i && (2 * i + 1) % 2 == 1);
    assert(f[2 + 2 * i] == stock_field(a.entries@, 2 * i));
    assert(g[2 + 2 * i] == stock_field(b.entries@, 2 * i));
    assert(f[3 + 2 * i] == stock_field(a.entries@, 2 * i + 1));
    assert(g[3 + 2 * i] == stock_field(b.entries@, 2 * i + 1));
}

/// The holidays are kept whole: their year, and the date and freedom of each.
pub proof fn law_holidays_are_kept_whole(a: HolidayStorage, b: HolidayStorage, i: int)
    requires
        storable(a),
        storable(b),
        bytes_of(a) == bytes_of(b),
        0 <= i < holidays_of(a.holiday_response).len(),
    ensures
        a.sync_time_second == b.sync_time_second,
        b.holiday_response is Some,
        a.holiday_response->0.year == b.holiday_response->0.year,
        a.holiday_response->0.holidays@.len() == b.holiday_response->0.holidays@.len(),
        a.holiday_response->0.holidays@[i].date == b.holiday_response->0.holidays@[i].date,
        a.holiday_response->0.holidays@[i].is_off_day == b.holiday_response->0.holidays@[i].is_off_day,
{
    law_read_gives_back_what_was_written(a, b);
    let f = a.fields();
    let g = b.fields();
    let x = holidays_of(a.holiday_response);
    let y = holidays_of(b.holiday_response);
    assert(f[0] == g[0] && f[1] == g[1] && f[2] == g[2] && f[3] == g[3] && f[4] == g[4]);
    assert(x.len() <= HOLIDAY_MAX && y.len() <= HOLIDAY_MAX);
    assert((2 * i) / 2 == i && (2 * i) % 2 == 0 && (2 * i + 1) / 2 == i && (2 * i + 1) % 2 == 1);
    assert(f[5 + 2 * i] == g[5 + 2 * i]);
    assert(f[6 + 2 * i] == g[6 + 2 * i]);
    assert(f[5 + 2 * i] == holiday_field(x, 2 * i));
    assert(g[5 + 2 * i] == holiday_field(y, 2 * i));
    assert(f[6 + 2 * i] == holiday_field(x, 2 * i + 1));
    assert(g[6 + 2 * i] == holiday_field(y, 2 * i + 1));
}

} // verus!
