//! Where the records are in flash, and what a new device holds.
use vstd::prelude::*;
#[allow(unused_imports)]
use vstd::string::*;
#[allow(unused_imports)]
use vstd::utf8::*;

use crate::storage::codec::{field_at, field_size, fits, lemma_limit, record_size, Kind};
use crate::storage::lists::{HolidayStorage, StockStorage, WeatherStorage, STOCKS};
use crate::storage::records::{
    bytes_of, law_read_gives_back_what_was_written, storable, DisplayStorage, ErrorLogStorage, NvsStorage, OtherStorage,
    SleepStorage, VersionStorage, WifiStorage,
};

verus! {

/// Where the records begin in flash.
pub const NVS_OFFSET: u32 = 0x9000;

/// Records of another make than these carry another tag.
pub const INIT_TAG: u32 = 0x1234abce;

/// How many bytes of a long record are written at a time.
pub const CHUNK_SIZE: usize = 128;

/// The records, in the order in which they are kept.
#[derive(Clone, Copy, Debug, PartialEq, Eq, Structural)]
pub enum Record {
    Version,
    Wifi,
    Weather,
    Sleep,
    Other,
    Holiday,
    ErrorLog,
    Stock,
    Display,
}

/// The place of a record among the others.
pub open spec fn rank(r: Record) -> int {
    match r {
        Record::Version => 0,
        Record::Wifi => 1,
        Record::Weather => 2,
        Record::Sleep => 3,
        Record::Other => 4,
        Record::Holiday => 5,
        Record::ErrorLog => 6,
        Record::Stock => 7,
        Record::Display => 8,
    }
}

/// The size of the record at a place.
pub open spec fn size_at(k: int) -> int {
    if k == 0 {
        record_size(VersionStorage::kinds())
    } else if k == 1 {
        record_size(WifiStorage::kinds())
    } else if k == 2 {
        record_size(WeatherStorage::kinds())
    } else if k == 3 {
        record_size(SleepStorage::kinds())
    } else if k == 4 {
        record_size(OtherStorage::kinds())
    } else if k == 5 {
        record_size(HolidayStorage::kinds())
    } else if k == 6 {
        record_size(ErrorLogStorage::kinds())
    } else if k == 7 {
        record_size(StockStorage::kinds())
    } else {
        record_size(DisplayStorage::kinds())
    }
}

/// Where the record at a place begins: behind those before it.
pub open spec fn start_at(k: int) -> int
    decreases k,
{
    if k <= 0 {
        NVS_OFFSET as int
    } else {
        start_at(k - 1) + size_at(k - 1)
    }
}

/// The size of a record of some kinds.
fn size_of_kinds(ks: &Vec<Kind>) -> (n: u32)
    requires
        ks@.len() <= 1000,
    ensures
        n == record_size(ks@),
        n <= 1000 * 65537,
{
    let mut n: u32 = 0;
    let mut i: usize = 0;
    while i < ks.len()
        invariant
            i <= ks@.len() <= 1000,
            n == field_at(ks@, i as int),
            n <= i * 65537,
        decreases ks@.len() - i,
    {
        let size: u32 = match ks[i] {
            Kind::Num(w) => w as u32,
            Kind::Text(cap) => 2 + cap as u32,
        };
        assert(size == field_size(ks@[i as int]));
        n = n + size;
        i += 1;
    }
    n
}

/// The size of the record at a place.
fn size_of(k: u32) -> (n: u32)
    ensures
        n == size_at(k as int),
        n <= 1000 * 65537,
{
    if k == 0 {
        size_of_kinds(&VersionStorage::kind_list())
    } else if k == 1 {
        size_of_kinds(&WifiStorage::kind_list())
    } else if k == 2 {
        size_of_kinds(&WeatherStorage::kind_list())
    } else if k == 3 {
        size_of_kinds(&SleepStorage::kind_list())
    } else if k == 4 {
        size_of_kinds(&OtherStorage::kind_list())
    } else if k == 5 {
        size_of_kinds(&HolidayStorage::kind_list())
    } else if k == 6 {
        size_of_kinds(&ErrorLogStorage::kind_list())
    } else if k == 7 {
        size_of_kinds(&StockStorage::kind_list())
    } else {
        size_of_kinds(&DisplayStorage::kind_list())
    }
}

/// Where a record begins in flash, and how many bytes it takes.
pub fn area_of(r: Record) -> (a: (u32, u32))
    ensures
        a.0 == start_at(rank(r)),
        a.1 == size_at(rank(r)),
{
    let place: u32 = match r {
        Record::Version => 0,
        Record::Wifi => 1,
        Record::Weather => 2,
        Record::Sleep => 3,
        Record::Other => 4,
        Record::Holiday => 5,
        Record::ErrorLog => 6,
        Record::Stock => 7,
        Record::Display => 8,
    };
    let mut at: u32 = NVS_OFFSET;
    let mut k: u32 = 0;
    while k < place
        invariant
            k <= place <= 8,
            at == start_at(k as int),
            at <= 0x9000 + k * 65_537_000,
        decreases place - k,
    {
        let n: u32 = size_of(k);
        at = at + n;
        k += 1;
    }
    (at, size_of(place))
}

/// The records lie one behind the other: none reaches into another.
pub proof fn law_records_lie_apart(a: Record, b: Record)
    requires
        rank(a) < rank(b),
    ensures
        start_at(rank(a)) + size_at(rank(a)) <= start_at(rank(b)),
        NVS_OFFSET <= start_at(rank(a)),
{
    lemma_starts_grow(0, rank(a));
    lemma_starts_grow(rank(a) + 1, rank(b));
}

proof fn lemma_field_at(ks: Seq<Kind>, n: int)
    ensures
        field_at(ks, n) >= 0,
    decreases n,
{
    if n > 0 {
        lemma_field_at(ks, n - 1);
    }
}

proof fn lemma_size(k: int)
    ensures
        size_at(k) >= 0,
{
    lemma_field_at(VersionStorage::kinds(), VersionStorage::kinds().len() as int);
    lemma_field_at(WifiStorage::kinds(), WifiStorage::kinds().len() as int);
    lemma_field_at(WeatherStorage::kinds(), WeatherStorage::kinds().len() as int);
    lemma_field_at(SleepStorage::kinds(), SleepStorage::kinds().len() as int);
    lemma_field_at(OtherStorage::kinds(), OtherStorage::kinds().len() as int);
    lemma_field_at(HolidayStorage::kinds(), HolidayStorage::kinds().len() as int);
    lemma_field_at(ErrorLogStorage::kinds(), ErrorLogStorage::kinds().len() as int);
    lemma_field_at(StockStorage::kinds(), StockStorage::kinds().len() as int);
    lemma_field_at(DisplayStorage::kinds(), DisplayStorage::kinds().len() as int);
}

proof fn lemma_starts_grow(a: int, b: int)
    requires
        0 <= a <= b,
    ensures
        start_at(a) <= start_at(b),
    decreases b,
{
    if a < b {
        lemma_starts_grow(a, b - 1);
        lemma_size(b - 1);
    }
}

/// The part `i` of some bytes.
pub open spec fn chunk(data: Seq<u8>, i: int) -> Seq<u8> {
    data.subrange(
        i * 128,
        if i * 128 + 128 <= data.len() {
            i * 128 + 128
        } else {
            data.len() as int
        },
    )
}

/// Bytes to be written at a place in flash, part by part.
pub fn write_storage_chunked(data: &Vec<u8>, offset: u32) -> (parts: Vec<(u32, Vec<u8>)>)
    requires
        offset + data@.len() <= u32::MAX,
    ensures
        parts@.len() == (data@.len() + 127) / 128,
        forall|i: int|
            0 <= i < parts@.len() ==> (#[trigger] parts@[i]).0 == offset + i * 128 && parts@[i].1@
                == chunk(data@, i),
{
    let mut parts: Vec<(u32, Vec<u8>)> = Vec::new();
    let n: usize = data.len();
    let mut at: usize = 0;
    while at < n
        invariant
            n == data@.len(),
            at <= n || at < n + 128,
            at == parts@.len() * 128,
            offset + n <= u32::MAX,
            forall|i: int|
                0 <= i < parts@.len() ==> (#[trigger] parts@[i]).0 == offset + i * 128 && parts@[i].1@
                    == chunk(data@, i),
        decreases n + 128 - at,
    {
        let end: usize = if n - at >= CHUNK_SIZE {
            at + CHUNK_SIZE
        } else {
            n
        };
        let mut part: Vec<u8> = Vec::new();
        let mut j: usize = at;
        while j < end
            invariant
                at <= j <= end <= n,
                n == data@.len(),
                part@ =~= data@.subrange(at as int, j as int),
            decreases end - j,
        {
            part.push(data[j]);
            j += 1;
        }
        let ghost i = parts@.len() as int;
        assert(part@ =~= chunk(data@, i));
        parts.push((offset + at as u32, part));
        if n - at >= CHUNK_SIZE {
            at = at + CHUNK_SIZE;
        } else {
            at = n;
            assert(parts@.len() == (n + 127) / 128);
            return parts;
        }
    }
    parts
}

/// The parts put together are the bytes, each at its place.
pub proof fn law_parts_cover(data: Seq<u8>, j: int)
    requires
        0 <= j < data.len(),
    ensures
        0 <= j / 128 < (data.len() + 127) / 128,
        chunk(data, j / 128)[j % 128] == data[j],
        j % 128 < chunk(data, j / 128).len(),
{
}

/// Whether the records are to be made anew: where they cannot be read, or are of another make.
pub fn enter_process(version: Option<VersionStorage>) -> (init: bool)
    ensures
        init == !(version matches Some(v) && v.init_tag == INIT_TAG),
{
    match version {
        Some(v) => v.init_tag != INIT_TAG,
        None => true,
    }
}

/// What a new device holds of its version.
pub open spec fn first_version() -> VersionStorage {
    VersionStorage { version: 1, init_tag: INIT_TAG }
}

/// What a new device holds of its sleep.
pub open spec fn first_sleep() -> SleepStorage {
    SleepStorage { read_sleep_seconds: 120, weather_sleep_seconds: 5 }
}

/// No network configured.
pub open spec fn is_first_wifi(w: WifiStorage) -> bool {
    w.wifi_ssid@.len() == 0 && w.wifi_password@.len() == 0 && !w.wifi_finish
}

/// No forecast.
pub open spec fn is_first_weather(w: WeatherStorage) -> bool {
    w.token@.len() == 0 && w.city@.len() == 0 && w.sync_time_second == 0 && w.weather_data is None
}

/// No holidays.
pub open spec fn is_first_holiday(h: HolidayStorage) -> bool {
    h.token@.len() == 0 && h.sync_time_second == 0 && h.holiday_response is None
}

/// No stocks.
pub open spec fn is_first_stock(s: StockStorage) -> bool {
    &&& s.entries@.len() == STOCKS
    &&& s.count == 0
    &&& s.selected == 0
    &&& forall|i: int|
        0 <= i < STOCKS ==> (#[trigger] s.entries@[i]).code@.len() == 0 && s.entries@[i].name@.len()
            == 0
}

/// What a new device holds.
pub struct FirstRecords {
    pub version: VersionStorage,
    pub wifi: WifiStorage,
    pub weather: WeatherStorage,
    pub sleep: SleepStorage,
    pub other: OtherStorage,
    pub holiday: HolidayStorage,
    pub error_log: ErrorLogStorage,
    pub stock: StockStorage,
    pub display: DisplayStorage,
}

/// The records of a new device.
pub fn init_storage_area() -> (f: FirstRecords)
    ensures
        f.version == first_version(),
        is_first_wifi(f.wifi),
        is_first_weather(f.weather),
        f.sleep == first_sleep(),
        f.other.data@.len() == 0,
        is_first_holiday(f.holiday),
        f.error_log.error_count == 0 && f.error_log.last_error@.len() == 0,
        is_first_stock(f.stock),
        f.display.full_refresh_times == 0,
        f.storable(),
{
    let f = FirstRecords {
        version: VersionStorage { version: 1, init_tag: INIT_TAG },
        wifi: WifiStorage::default(),
        weather: WeatherStorage::default(),
        sleep: SleepStorage { read_sleep_seconds: 120, weather_sleep_seconds: 5 },
        other: OtherStorage::default(),
        holiday: HolidayStorage::default(),
        error_log: ErrorLogStorage::default(),
        stock: StockStorage::default(),
        display: DisplayStorage::default(),
    };
    proof {
        lemma_first_storable(f);
    }
    f
}

impl FirstRecords {
    /// Every record can be kept.
    pub open spec fn storable(self) -> bool {
        &&& storable(self.version)
        &&& storable(self.wifi)
        &&& storable(self.weather)
        &&& storable(self.sleep)
        &&& storable(self.other)
        &&& storable(self.holiday)
        &&& storable(self.error_log)
        &&& storable(self.stock)
        &&& storable(self.display)
    }

    /// The bytes of the record at a place.
    pub open spec fn bytes_at(self, k: int) -> Seq<u8> {
        if k == 0 {
            bytes_of(self.version)
        } else if k == 1 {
            bytes_of(self.wifi)
        } else if k == 2 {
            bytes_of(self.weather)
        } else if k == 3 {
            bytes_of(self.sleep)
        } else if k == 4 {
            bytes_of(self.other)
        } else if k == 5 {
            bytes_of(self.holiday)
        } else if k == 6 {
            bytes_of(self.error_log)
        } else if k == 7 {
            bytes_of(self.stock)
        } else {
            bytes_of(self.display)
        }
    }

    /// The bytes of the records, in their order.
    pub fn write(&self) -> (w: Vec<Vec<u8>>)
        requires
            self.storable(),
        ensures
            w@.len() == 9,
            forall|k: int| 0 <= k < 9 ==> (#[trigger] w@[k])@ == self.bytes_at(k),
    {
        let mut w: Vec<Vec<u8>> = Vec::new();
        w.push(crate::storage::records::write(&self.version));
        w.push(crate::storage::records::write(&self.wifi));
        w.push(crate::storage::records::write(&self.weather));
        w.push(crate::storage::records::write(&self.sleep));
        w.push(crate::storage::records::write(&self.other));
        w.push(crate::storage::records::write(&self.holiday));
        w.push(crate::storage::records::write(&self.error_log));
        w.push(crate::storage::records::write(&self.stock));
        w.push(crate::storage::records::write(&self.display));
        w
    }
}

proof fn lemma_empty_fits(t: Seq<char>)
    requires
        t.len() == 0,
    ensures
        encode_utf8(t).len() == 0,
{
}

proof fn lemma_first_storable(f: FirstRecords)
    requires
        f.version == first_version(),
        is_first_wifi(f.wifi),
        is_first_weather(f.weather),
        f.sleep == first_sleep(),
        f.other.data@.len() == 0,
        is_first_holiday(f.holiday),
        f.error_log.error_count == 0 && f.error_log.last_error@.len() == 0,
        is_first_stock(f.stock),
        f.display.full_refresh_times == 0,
    ensures
        f.storable(),
{
    lemma_limit();
    assert(storable(f.version));
    assert(storable(f.wifi));
    assert(storable(f.weather)) by {
        assert forall|i: int| 0 <= i < WeatherStorage::kinds().len() implies fits(
            #[trigger] WeatherStorage::kinds()[i],
            f.weather.fields()[i],
        ) by {}
    }
    assert(storable(f.sleep));
    assert(storable(f.other));
    assert(storable(f.holiday)) by {
        assert forall|i: int| 0 <= i < HolidayStorage::kinds().len() implies fits(
            #[trigger] HolidayStorage::kinds()[i],
            f.holiday.fields()[i],
        ) by {}
    }
    assert(storable(f.error_log));
    assert(storable(f.stock)) by {
        assert forall|i: int| 0 <= i < StockStorage::kinds().len() implies fits(
            #[trigger] StockStorage::kinds()[i],
            f.stock.fields()[i],
        ) by {
            if i >= 2 {
                lemma_empty_fits(f.stock.entries@[(i - 2) / 2].code@);
                lemma_empty_fits(f.stock.entries@[(i - 2) / 2].name@);
            }
        }
    }
    assert(storable(f.display));
}

/// A device that was made anew is not made anew on its next start: the version that is read carries
/// the tag.
pub proof fn law_made_once(v: VersionStorage)
    requires
        storable(v),
        storable(first_version()),
        bytes_of(v) == bytes_of(first_version()),
    ensures
        v.init_tag == INIT_TAG,
{
    law_read_gives_back_what_was_written(v, first_version());
    assert(v.fields()[1] == first_version().fields()[1]);
}

} // verus!
