//! When the forecast and the holidays are fetched, and from where.
use vstd::prelude::*;
#[allow(unused_imports)]
use vstd::string::*;

use crate::text::{dec, dec_text, join, law_split_parts, split_at_char, split_once};

verus! {

/// A forecast is fetched again after so many seconds.
pub const WEATHER_SECONDS: u64 = 18000;

/// Holidays that could not be fetched are not asked for within so many seconds.
pub const HOLIDAY_PAUSE: u64 = 60;

/// How often the holidays are asked for in a row.
pub const HOLIDAY_TRIES: u32 = 3;

/// The key that is sent where none is configured.
pub const DEFAULT_KEY: &'static str = "SvRIiZPU5oGiqcHc1";

/// The city that is asked for where none is configured.
pub const DEFAULT_CITY: &'static str = "wuhan";

/// The latitude that is asked for where none is configured.
pub const DEFAULT_LAT: &'static str = "30.5928";

/// The longitude that is asked for where none is configured.
pub const DEFAULT_LON: &'static str = "114.3055";

/// Since when the forecast is known: the second at which it was fetched, nought for never.
#[derive(Clone, Copy, Debug, PartialEq, Eq, Structural)]
pub struct Weather {
    pub sync_second: u64,
}

/// Since when the holidays are known, of which year, and when they could not be fetched.
#[derive(Clone, Copy, Debug, PartialEq, Eq, Structural)]
pub struct HolidayInfo {
    pub sync_second: u64,
    pub sync_year: u32,
    pub error_second: u64,
}

/// A text, or another where it is empty.
pub open spec fn or_else(s: Seq<char>, t: Seq<char>) -> Seq<char> {
    if s.len() == 0 {
        t
    } else {
        s
    }
}

/// Where the forecast for a city is.
pub open spec fn seniverse_url(token: Seq<char>, city: Seq<char>) -> Seq<char> {
    "http://api.seniverse.com/v3/weather/daily.json?key="@ + or_else(token, DEFAULT_KEY@)
        + "&location="@ + or_else(city, DEFAULT_CITY@)
        + "&language=zh-Hans&unit=c&start=0&days=5"@
}

/// The latitude and the longitude in a text, with a colon between them, or else a comma.
pub open spec fn coordinates(city: Seq<char>) -> (Seq<char>, Seq<char>) {
    match split_at_char(city, ':') {
        Some(p) => p,
        None => match split_at_char(city, ',') {
            Some(p) => p,
            None => (DEFAULT_LAT@, DEFAULT_LON@),
        },
    }
}

/// Where the forecast for a place is.
pub open spec fn open_meteo_url(city: Seq<char>) -> Seq<char> {
    let p = if city.len() == 0 {
        (DEFAULT_LAT@, DEFAULT_LON@)
    } else {
        coordinates(city)
    };
    "https://api.open-meteo.com/v1/forecast?latitude="@ + p.0 + "&longitude="@ + p.1
        + "&daily=weather_code,temperature_2m_max,temperature_2m_min,precipitation_sum,relative_humidity_2m_mean,wind_speed_10m_max,wind_direction_10m_dominant&timezone=auto&forecast_days=5"@
}

impl Weather {
    /// Nothing known.
    pub fn new() -> (w: Weather)
        ensures
            w.sync_second == 0,
    {
        Weather { sync_second: 0 }
    }

    /// The forecast is known.
    pub open spec fn known(self) -> bool {
        self.sync_second > 0
    }

    /// Whether the forecast is known.
    pub fn sync_weather_success(self) -> (r: bool)
        ensures
            r == self.known(),
    {
        self.sync_second > 0
    }

    /// Takes over when the stored forecast was fetched.
    pub fn get_weather(self, stored_second: u64) -> (w: Weather)
        ensures
            w.sync_second == stored_second,
    {
        Weather { sync_second: stored_second }
    }

    /// Whether the forecast is to be fetched: where it is not known, or is too old.
    pub fn sync_weather(self, now: u64) -> (r: bool)
        requires
            self.known() ==> self.sync_second <= now,
        ensures
            r == (!self.known() || now - self.sync_second > WEATHER_SECONDS),
    {
        self.sync_second == 0 || now - self.sync_second > WEATHER_SECONDS
    }

    /// The forecast was fetched and is to be stored.
    pub fn save(self, now: u64) -> (w: Weather)
        ensures
            w.sync_second == now,
    {
        Weather { sync_second: now }
    }

    /// Where the forecast for a city is.
    pub fn request_seniverse(token: &str, city: &str) -> (url: String)
        ensures
            url@ == seniverse_url(token@, city@),
    {
        let mut url = join(
            "http://api.seniverse.com/v3/weather/daily.json?key=",
            if token.unicode_len() == 0 {
                DEFAULT_KEY
            } else {
                token
            },
        );
        url.append("&location=");
        url.append(
            if city.unicode_len() == 0 {
                DEFAULT_CITY
            } else {
                city
            },
        );
        url.append("&language=zh-Hans&unit=c&start=0&days=5");
        url
    }

    /// Where the forecast for a place is.
    pub fn request_open_meteo(city: &str) -> (url: String)
        ensures
            url@ == open_meteo_url(city@),
    {
        let (lat, lon) = if city.unicode_len() == 0 {
            (DEFAULT_LAT, DEFAULT_LON)
        } else {
            match split_once(city, ':') {
                Some(p) => p,
                None => match split_once(city, ',') {
                    Some(p) => p,
                    None => (DEFAULT_LAT, DEFAULT_LON),
                },
            }
        };
        let mut url = join("https://api.open-meteo.com/v1/forecast?latitude=", lat);
        url.append("&longitude=");
        url.append(lon);
        url.append(
            "&daily=weather_code,temperature_2m_max,temperature_2m_min,precipitation_sum,relative_humidity_2m_mean,wind_speed_10m_max,wind_direction_10m_dominant&timezone=auto&forecast_days=5",
        );
        url
    }
}

impl HolidayInfo {
    /// Nothing known.
    pub fn new() -> (h: HolidayInfo)
        ensures
            h == (HolidayInfo { sync_second: 0, sync_year: 0, error_second: 0 }),
    {
        HolidayInfo { sync_second: 0, sync_year: 0, error_second: 0 }
    }

    /// The holidays are known.
    pub open spec fn known(self) -> bool {
        self.sync_second > 0
    }

    /// Whether the holidays are known.
    pub fn sync_holiday_success(self) -> (r: bool)
        ensures
            r == self.known(),
    {
        self.sync_second > 0
    }

    /// Where the holidays of a year are.
    pub fn request_url(year: u32) -> (url: String)
        ensures
            url@ == "https://api.jiejiariapi.com/v1/holidays/"@ + dec(year as nat),
    {
        join("https://api.jiejiariapi.com/v1/holidays/", dec_text(year as u64).as_str())
    }

    /// Takes over when the stored holidays were fetched, and of which year they are, where there are
    /// any.
    pub fn get_holiday(self, stored_second: u64, stored_year: Option<u32>) -> (h: HolidayInfo)
        ensures
            h == (HolidayInfo {
                sync_second: stored_second,
                sync_year: match stored_year {
                    Some(y) => y,
                    None => self.sync_year,
                },
                ..self
            }),
    {
        match stored_year {
            Some(sync_year) => HolidayInfo { sync_second: stored_second, sync_year, ..self },
            None => HolidayInfo { sync_second: stored_second, ..self },
        }
    }

    /// The holidays are to be fetched.
    pub open spec fn wanted(self, now: int, year: int) -> bool {
        &&& !self.known() || self.sync_year != year
        &&& self.error_second == 0 || now - self.error_second > HOLIDAY_PAUSE
    }

    /// Whether the holidays are to be fetched: where those of the year are not known, and no attempt
    /// failed a moment ago.
    pub fn sync_holiday(self, now: u64, year: u32) -> (r: bool)
        requires
            !self.known() || self.sync_year != year ==> self.error_second <= now,
        ensures
            r == self.wanted(now as int, year as int),
    {
        (self.sync_second == 0 || self.sync_year != year) && (self.error_second == 0 || now
            - self.error_second > HOLIDAY_PAUSE)
    }

    /// After an attempt with `left` more to go, this one among them: whether there is another, and
    /// the moment of the failure where there is not.
    pub fn tried(self, ok: bool, left: u32, now: u64) -> (r: (HolidayInfo, bool))
        requires
            left >= 1,
        ensures
            r.1 == (!ok && left > 1),
            r.0 == (if !ok && left == 1 {
                HolidayInfo { error_second: now, ..self }
            } else {
                self
            }),
    {
        if ok {
            (self, false)
        } else if left == 1 {
            (HolidayInfo { error_second: now, ..self }, false)
        } else {
            (self, true)
        }
    }

    /// The holidays were fetched and are to be stored.
    pub fn save(self, now: u64) -> (h: HolidayInfo)
        ensures
            h == (HolidayInfo { sync_second: now, ..self }),
    {
        HolidayInfo { sync_second: now, ..self }
    }
}

/// After the last attempt has failed, the holidays are left alone for a minute.
pub proof fn law_failure_pauses(h: HolidayInfo, failed_at: int, now: int, year: int)
    requires
        0 < failed_at <= now,
        now - failed_at <= 60,
        failed_at <= u64::MAX,
    ensures
        !(HolidayInfo { error_second: failed_at as u64, ..h }).wanted(now, year),
{
}

/// The forecast is asked for where the configured place is: its latitude stands before the colon or
/// the comma, and its longitude behind it.
pub proof fn law_forecast_is_asked_for_the_place(lat: Seq<char>, sep: char, lon: Seq<char>)
    requires
        sep == ':' || sep == ',',
        !lat.contains(':'),
        !lat.contains(','),
        !lon.contains(':'),
    ensures
        coordinates(lat + seq![sep] + lon) == (lat, lon),
        exists|a: Seq<char>, b: Seq<char>| #[trigger]
            around(open_meteo_url(lat + seq![sep] + lon), a, lat, b, lon),
{
    let s = lat + seq![sep] + lon;
    law_split_parts(s, ':');
    law_split_parts(s, ',');
    assert(s[lat.len() as int] == sep);
    assert(s.contains(sep));
    if sep == ',' {
        assert(!s.contains(':')) by {
            if s.contains(':') {
                let i = choose|i: int| 0 <= i < s.len() && s[i] == ':';
                if i < lat.len() {
                    assert(lat[i] == ':');
                } else {
                    assert(lon[i - lat.len() - 1] == ':');
                }
            }
        }
    }
    let p = split_at_char(s, sep)->0;
    let k = p.0.len() as int;
    if k < lat.len() {
        assert((p.0 + seq![sep] + p.1)[k] == sep);
        assert(lat[k] == sep);
        assert(lat.contains(sep));
    }
    if lat.len() < k {
        assert((p.0 + seq![sep] + p.1)[lat.len() as int] == p.0[lat.len() as int]);
        assert(p.0.contains(sep));
    }
    assert(p.0 =~= s.take(k));
    assert(lat =~= s.take(k));
    assert(p.1 =~= s.skip(k + 1));
    assert(lon =~= s.skip(k + 1));
    assert(around(
        open_meteo_url(s),
        "https://api.open-meteo.com/v1/forecast?latitude="@,
        lat,
        "&longitude="@,
        lon,
    ));
}

/// An address holds a latitude and then a longitude, each behind its name.
pub open spec fn around(
    url: Seq<char>,
    a: Seq<char>,
    lat: Seq<char>,
    b: Seq<char>,
    lon: Seq<char>,
) -> bool {
    &&& a == "https://api.open-meteo.com/v1/forecast?latitude="@
    &&& b == "&longitude="@
    &&& (a + lat + b + lon).is_prefix_of(url)
}

/// The other service is asked with the configured key and place, and with its own where none is
/// configured.
pub proof fn law_service_is_asked_with_key_and_place(token: Seq<char>, city: Seq<char>)
    ensures
        token.len() > 0 && city.len() > 0 ==> seniverse_url(token, city)
            == "http://api.seniverse.com/v3/weather/daily.json?key="@ + token + "&location="@ + city
            + "&language=zh-Hans&unit=c&start=0&days=5"@,
        seniverse_url(seq![], city) == seniverse_url(DEFAULT_KEY@, city) || DEFAULT_KEY@.len() == 0,
        seniverse_url(token, seq![]) == seniverse_url(token, DEFAULT_CITY@) || DEFAULT_CITY@.len() == 0,
{
}

/// A forecast and holidays are known once they were fetched.
pub proof fn law_fetched_is_known(h: HolidayInfo, w: Weather)
    ensures
        h.known() <==> h.sync_second != 0,
        w.known() <==> w.sync_second != 0,
{
}

} // verus!
