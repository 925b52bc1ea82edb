use epd_reader::model::daily::{Daily, DailyResult, Location};
use epd_reader::model::holiday::{Holiday, HolidayResponse};
use epd_reader::storage::area::{
    area_of, enter_process, init_storage_area, write_storage_chunked, Record, INIT_TAG,
};
use epd_reader::storage::lists::{HolidayStorage, StockEntry, StockStorage, WeatherStorage};
use epd_reader::storage::records::{
    can_write, read, DisplayStorage, ErrorLogStorage, OtherStorage, SleepStorage, VersionStorage,
    WifiStorage,
};

fn day(n: u32) -> Daily {
    let t = |k: u32| format!("{}-{}", n, k);
    Daily {
        date: t(0),
        code_day: t(1),
        text_day: "多云".to_string(),
        code_night: t(3),
        text_night: t(4),
        high: t(5),
        low: t(6),
        rainfall: t(7),
        precip: t(8),
        humidity: t(9),
        wind_speed: t(10),
        wind_scale: t(11),
        wind_direction: t(12),
        wind_direction_degree: t(13),
    }
}

#[test]
fn numbers_are_kept_with_the_low_byte_first() {
    let v = VersionStorage { version: 1, init_tag: INIT_TAG };
    let b = epd_reader::storage::records::write(&v);
    assert_eq!(b, [1, 0, 0, 0, 0xce, 0xab, 0x34, 0x12]);
    assert_eq!(read::<VersionStorage>(&b).unwrap(), v);
    assert!(read::<VersionStorage>(&b[..7]).is_none());
    let s = SleepStorage { read_sleep_seconds: 120, weather_sleep_seconds: u64::MAX };
    let b = epd_reader::storage::records::write(&s);
    assert_eq!(read::<SleepStorage>(&b).unwrap(), s);
    let d = read::<DisplayStorage>(&[255; 4]).unwrap();
    assert_eq!(d.full_refresh_times, u32::MAX);
}

#[test]
fn texts_are_kept_with_their_length() {
    let w = WifiStorage {
        wifi_ssid: "网络".to_string(),
        wifi_password: "secret".to_string(),
        wifi_finish: true,
    };
    let b = epd_reader::storage::records::write(&w);
    assert_eq!(b.len(), 34 + 66 + 1);
    assert_eq!((b[0], b[1]), (6, 0));
    let r = read::<WifiStorage>(&b).unwrap();
    assert_eq!((r.wifi_ssid, r.wifi_password, r.wifi_finish), (w.wifi_ssid, w.wifi_password, true));
    assert!(read::<WifiStorage>(&vec![255; b.len()]).is_none());
    let o = OtherStorage { data: "x".repeat(64) };
    let b = epd_reader::storage::records::write(&o);
    assert_eq!(read::<OtherStorage>(&b).unwrap().data, o.data);
}

#[test]
fn what_does_not_fit_cannot_be_kept() {
    assert!(can_write(&OtherStorage { data: "x".repeat(64) }));
    assert!(!can_write(&OtherStorage { data: "x".repeat(65) }));
    assert!(can_write(&SleepStorage { read_sleep_seconds: u64::MAX, weather_sleep_seconds: 0 }));
    assert!(can_write(&StockStorage::default()));
    assert!(!can_write(&StockStorage { entries: Vec::new(), count: 0, selected: 0 }));
    let mut w = WeatherStorage::default();
    assert!(can_write(&w));
    w.weather_data = Some(DailyResult {
        last_update: String::new(),
        daily: (0..200).map(day).collect(),
        location: Location { name: String::new(), timezone: String::new() },
    });
    assert!(!can_write(&w));
}

#[test]
fn crashes_are_counted() {
    let e = ErrorLogStorage::default().record("a".to_string()).record("b".to_string());
    assert_eq!((e.error_count, e.last_error.as_str()), (2, "b"));
    let b = epd_reader::storage::records::write(&e);
    let r = read::<ErrorLogStorage>(&b).unwrap();
    assert_eq!((r.error_count, r.last_error.as_str()), (2, "b"));
}

#[test]
fn a_forecast_is_read_back() {
    let mut w = WeatherStorage::default();
    let b = epd_reader::storage::records::write(&w);
    assert!(read::<WeatherStorage>(&b).unwrap().weather_data.is_none());
    w.token = "key".to_string();
    w.city = "武汉".to_string();
    w.sync_time_second = 1_700_000_000;
    w.weather_data = Some(DailyResult {
        last_update: "2025-01-01T00:00".to_string(),
        daily: vec![day(1), day(2), day(3)],
        location: Location { name: "Open-Meteo".to_string(), timezone: "Asia".to_string() },
    });
    let b = epd_reader::storage::records::write(&w);
    let r = read::<WeatherStorage>(&b).unwrap();
    assert_eq!((r.token.as_str(), r.city.as_str(), r.sync_time_second), ("key", "武汉", 1_700_000_000));
    let d = r.weather_data.unwrap();
    assert_eq!(d.daily.len(), 3);
    assert_eq!(d.daily[2].date, "3-0");
    assert_eq!(d.daily[1].wind_direction_degree, "2-13");
    assert_eq!(d.daily[0].text_day, "多云");
    assert_eq!(d.location.timezone, "Asia");
}

#[test]
fn holidays_and_stocks_are_read_back() {
    let mut h = HolidayStorage::default();
    h.sync_time_second = 5;
    h.holiday_response = Some(HolidayResponse {
        year: 2025,
        holidays: vec![
            Holiday { date: 20250101, is_off_day: true },
            Holiday { date: 20250126, is_off_day: false },
        ],
    });
    let b = epd_reader::storage::records::write(&h);
    let r = read::<HolidayStorage>(&b).unwrap().holiday_response.unwrap();
    assert_eq!(r.year, 2025);
    assert_eq!(r.holidays.len(), 2);
    assert_eq!((r.holidays[1].date, r.holidays[1].is_off_day), (20250126, false));
    let mut s = StockStorage::default();
    s.entries[4] = StockEntry { code: "sh600519".to_string(), name: "贵州茅台".to_string() };
    s.count = 5;
    s.selected = 4;
    let b = epd_reader::storage::records::write(&s);
    let r = read::<StockStorage>(&b).unwrap();
    assert_eq!((r.count, r.selected), (5, 4));
    assert_eq!(r.entries[4].name, "贵州茅台");
    assert_eq!(r.entries[0].code, "");
}

#[test]
fn records_lie_one_behind_the_other() {
    let order = [
        Record::Version,
        Record::Wifi,
        Record::Weather,
        Record::Sleep,
        Record::Other,
        Record::Holiday,
        Record::ErrorLog,
        Record::Stock,
        Record::Display,
    ];
    let mut at = 0x9000;
    for r in order {
        let (start, size) = area_of(r);
        assert_eq!(start, at);
        at += size;
    }
    assert!(at <= 0x9000 + 0x6000);
}

#[test]
fn a_new_device_is_made_once() {
    assert!(enter_process(None));
    assert!(enter_process(Some(VersionStorage { version: 1, init_tag: 7 })));
    let first = init_storage_area();
    assert!(!enter_process(Some(first.version)));
    assert_eq!(first.sleep.read_sleep_seconds, 120);
    assert_eq!(first.sleep.weather_sleep_seconds, 5);
    assert_eq!(first.display.full_refresh_times, 0);
    let bytes = first.write();
    assert_eq!(bytes.len(), 9);
    assert_eq!(read::<VersionStorage>(&bytes[0]).unwrap().init_tag, INIT_TAG);
    assert_eq!(bytes[2].len() as u32, area_of(Record::Weather).1);
}

#[test]
fn long_records_are_written_in_parts() {
    let data: Vec<u8> = (0..300).map(|i| i as u8).collect();
    let parts = write_storage_chunked(&data, 1000);
    assert_eq!(parts.len(), 3);
    assert_eq!((parts[0].0, parts[1].0, parts[2].0), (1000, 1128, 1256));
    assert_eq!(parts[2].1.len(), 44);
    let whole: Vec<u8> = parts.into_iter().flat_map(|p| p.1).collect();
    assert_eq!(whole, data);
    assert_eq!(write_storage_chunked(&vec![], 0).len(), 0);
}
