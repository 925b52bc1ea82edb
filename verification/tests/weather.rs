use epd_reader::draw::{DrawOp, HPos, Icon, Ink};
use epd_reader::event::EventType;
use epd_reader::model::daily::{weekday_name, Daily, DailyResult, LocalTime, Location, Weekday};
use epd_reader::model::holiday::{form_json, form_json_each, holiday_objects};
use epd_reader::model::open_meteo::{
    f64_to_string, int_to_string, kmh_to_beaufort, parse_json, wind_deg_to_chinese, wmo_to_chinese,
    wmo_to_seniverse_code, Columns, Reading,
};
use epd_reader::pages::calendar::layout::CalendarRenderData;
use epd_reader::pages::calendar::page::{CalendarPage, Moment};
use epd_reader::pages::weather::layout::{
    draw, lunar_of, sleep_renderer, style_for, Season, Style, WeatherRenderData,
};
use epd_reader::pages::weather::page::{WeatherPage, WeatherTask};
use epd_reader::pages::watch::{weather_sleep_seconds, Sight, Watch};
use epd_reader::weather::{HolidayInfo, Weather};

fn s(t: &str) -> String {
    t.to_string()
}

fn day(date: &str, high: &str, low: &str) -> Daily {
    Daily {
        date: s(date),
        code_day: s("4"),
        text_day: s("多云"),
        code_night: s("9"),
        text_night: s("阴"),
        high: s(high),
        low: s(low),
        rainfall: s("1.5"),
        precip: s("1.5"),
        humidity: s("70"),
        wind_speed: s("3.0"),
        wind_scale: s("2"),
        wind_direction: s("北"),
        wind_direction_degree: s("0.0"),
    }
}

fn forecast() -> DailyResult {
    DailyResult {
        last_update: s("2025-08-01T00:00"),
        daily: vec![day("2025-08-01", "35", "-2"), day("2025-08-02", "x", "26")],
        location: Location { name: s("武汉"), timezone: s("Asia/Shanghai") },
    }
}

fn friday() -> LocalTime {
    LocalTime { year: 2025, month: 8, day: 1, hour: 9, minute: 5, weekday: Weekday::Friday }
}

fn around(w: i32, h: i32) -> WeatherRenderData {
    WeatherRenderData {
        w,
        h,
        now: Some(friday()),
        lunar: lunar_of(&friday()),
        battery_percent: Some(80),
        request_loading: false,
        weather_sync_second: 1_577_836_801,
    }
}

fn season(day: u32) -> Season {
    Season { zodiac: s("狮子座"), term: s("大暑"), term_day: day }
}

fn texts(ops: &[DrawOp]) -> Vec<String> {
    ops.iter()
        .filter_map(|o| match o {
            DrawOp::Text(t, _) => Some(t.clone()),
            _ => None,
        })
        .collect()
}

#[test]
fn the_full_page_shows_place_clock_and_calendar() {
    let c = draw(Style::Full, &around(400, 300), &season(3), true, false, true, &Some(forecast()));
    let t = texts(&c.ops);
    for want in [
        "武汉",
        "更新 08:00",
        "35/-2℃",
        "湿度: 70%",
        "北2级",
        "降水: 1.5mm",
        "2025.8.1 周五",
        "闰六月初八",
        "狮子座 大暑第3天",
        "08/01",
    ] {
        assert!(t.iter().any(|x| x == want), "{} in {:?}", want, t);
    }
    assert!(c.ops.iter().any(|o| matches!(
        o,
        DrawOp::Clock(x, 66, 192, HPos::Center, 22, 52, 4) if x == "09:05"
    )));
    assert!(c.ops.iter().any(|o| matches!(
        o,
        DrawOp::TempChart(a, p) if a.x == 200 && a.y == 92 && a.w == 133 && a.h == 140
            && *p == vec![(35, -2), (0, 26)]
    )));
    let first = draw(Style::Full, &around(400, 300), &season(1), true, false, true, &Some(forecast()));
    assert!(texts(&first.ops).iter().any(|x| x == "狮子座 今日大暑"));
}

#[test]
fn the_small_page_shows_the_day_in_a_line() {
    assert_eq!(style_for(264), Style::Small);
    assert_eq!(style_for(400), Style::Large);
    let c = draw(Style::Small, &around(264, 176), &season(1), true, false, true, &Some(forecast()));
    let t = texts(&c.ops);
    assert!(t.iter().any(|x| x == "多云 35/-2℃"));
    assert!(t.iter().any(|x| x == "8.1 周五"));
    assert!(matches!(&c.ops[1], DrawOp::Clock(x, 0, 2, HPos::Left, 14, 30, 3) if x == "09:05"));
    let c = draw(Style::Large, &around(400, 300), &season(1), true, false, true, &Some(forecast()));
    assert!(matches!(&c.ops[1], DrawOp::Clock(_, 4, 3, HPos::Left, 14, 30, 3)));
}

#[test]
fn the_page_says_what_it_waits_for() {
    let a = around(400, 300);
    let c = draw(Style::Full, &a, &season(1), false, true, false, &None);
    assert_eq!(texts(&c.ops), ["正在连接网络...", "正在同步节假日..."]);
    let c = draw(Style::Full, &a, &season(1), false, false, true, &None);
    assert_eq!(texts(&c.ops), ["正在同步天气..."]);
    let c = draw(Style::Full, &a, &season(1), true, false, true, &None);
    assert_eq!(texts(&c.ops), ["无天气数据"]);
    let mut empty = forecast();
    empty.daily.clear();
    assert_eq!(draw(Style::Full, &a, &season(1), true, false, true, &Some(empty)).ops.len(), 1);
    let old = WeatherRenderData { weather_sync_second: 0, ..a };
    let c = draw(Style::Full, &old, &season(1), true, false, true, &Some(forecast()));
    assert!(texts(&c.ops).iter().any(|x| x == "更新 --:--"));
}

#[test]
fn status_stays_in_sleep() {
    let c = sleep_renderer(Style::Full, true, 400);
    assert!(matches!(c.ops[0], DrawOp::Icon(Icon::Loading, 282, 17)));
    assert!(matches!(c.ops[2], DrawOp::Icon(Icon::Moon, 318, 10)));
    let c = sleep_renderer(Style::Small, false, 264);
    assert!(matches!(c.ops[0], DrawOp::Icon(Icon::WifiStatus, 164, 9)));
    let c = epd_reader::pages::calendar::layout::sleep_renderer(400, true);
    assert!(matches!(c.ops[2], DrawOp::Icon(Icon::Moon, 318, 4)));
}

#[test]
fn weekdays_have_names() {
    let all = [
        (Weekday::Monday, "周一"),
        (Weekday::Tuesday, "周二"),
        (Weekday::Wednesday, "周三"),
        (Weekday::Thursday, "周四"),
        (Weekday::Friday, "周五"),
        (Weekday::Saturday, "周六"),
        (Weekday::Sunday, "周日"),
    ];
    for (w, n) in all {
        assert_eq!(weekday_name(w), n);
    }
}

#[test]
fn forecasts_are_asked_for_by_city_or_place() {
    assert_eq!(
        Weather::request_seniverse("", ""),
        "http://api.seniverse.com/v3/weather/daily.json?key=SvRIiZPU5oGiqcHc1&location=wuhan&language=zh-Hans&unit=c&start=0&days=5"
    );
    assert!(Weather::request_seniverse("k", "30.5:114.3").contains("key=k&location=30.5:114.3&"));
    assert!(Weather::request_open_meteo("1.5:2.5").contains("latitude=1.5&longitude=2.5&daily="));
    assert!(Weather::request_open_meteo("1.5,2.5").contains("latitude=1.5&longitude=2.5&"));
    assert!(Weather::request_open_meteo("wuhan").contains("latitude=30.5928&longitude=114.3055&"));
    assert!(Weather::request_open_meteo("").contains("latitude=30.5928&"));
    assert_eq!(
        HolidayInfo::request_url(2025),
        "https://api.jiejiariapi.com/v1/holidays/2025"
    );
}

#[test]
fn forecasts_and_holidays_are_fetched_when_they_are_due() {
    let w = Weather::new();
    assert!(!w.sync_weather_success() && w.sync_weather(10));
    let w = w.save(1000);
    assert!(!w.sync_weather(19000) && w.sync_weather(19001));
    assert_eq!(w.get_weather(7).sync_second, 7);
    let h = HolidayInfo::new();
    assert!(h.sync_holiday(100, 2025));
    let (h, again) = h.tried(false, 3, 100);
    assert!(again && h.error_second == 0);
    let (h, again) = h.tried(false, 1, 100);
    assert!(!again && h.error_second == 100);
    assert!(!h.sync_holiday(160, 2025) && h.sync_holiday(161, 2025));
    let h = h.get_holiday(50, Some(2025));
    assert!(!h.sync_holiday(500, 2025) && h.sync_holiday(500, 2026));
    assert_eq!(h.save(9).sync_second, 9);
    assert_eq!(h.get_holiday(3, None).sync_year, 2025);
}

#[test]
fn pages_are_drawn_anew_when_something_changed() {
    let mut p = WeatherPage::new();
    p.start(1000);
    assert!(p.watch.render() && !p.watch.render());
    let sight = Sight {
        now_ms: 1000,
        clock_known: true,
        weather_synced: true,
        last_update: Some("x"),
        holiday_synced: true,
        holiday_second: 3,
    };
    let pass = p.run(sight, Some(friday()));
    assert!(pass.take_time && !pass.stay_awake && pass.render && pass.wait_ms == 0);
    assert_eq!(p.current_date, Some(friday()));
    assert!(!p.run(Sight { now_ms: 61_999, ..sight }, None).render);
    assert!(p.run(Sight { now_ms: 62_000, ..sight }, None).render);
    assert_eq!(p.current_date, Some(friday()));
    let lost = Sight { now_ms: 62_000, weather_synced: false, holiday_synced: false, ..sight };
    let pass = p.run(lost, None);
    assert!(pass.stay_awake && pass.render && pass.wait_ms == 2000);
    assert!(!p.watch.see_weather(true, Some("a")) && p.watch.render());
    assert!(!p.watch.see_weather(true, Some("a")) && !p.watch.render());
    assert!(!p.watch.see_weather(true, Some("b")) && p.watch.render());
    assert!(p.watch.see_weather(false, None) && p.watch.render());
    assert!(!p.watch.see_holiday(true, 5) && p.watch.render());
    assert!(!p.watch.see_holiday(true, 5) && !p.watch.render());
    assert!(p.watch.see_holiday(false, 5) && p.watch.render());
    let mut w = Watch::start(0);
    w.need_render = false;
    assert!(w.see_clock(5999, false).stay_awake && !w.need_render);
    w.see_clock(6000, false);
    assert!(w.need_render);
    assert_eq!(p.handle_event(EventType::KeyShort(1)), WeatherTask::Weather);
    assert_eq!(p.handle_event(EventType::KeyShort(2)), WeatherTask::Holiday);
    assert!(p.running);
    assert_eq!(p.handle_event(EventType::KeyShort(3)), WeatherTask::Nothing);
    assert!(!p.running);
    assert_eq!(weather_sleep_seconds(true, true, 0), Some(5));
    assert_eq!(weather_sleep_seconds(true, true, 30), Some(30));
    assert_eq!(weather_sleep_seconds(true, false, 30), None);
}

fn moment(year: i32, month: u8, day: u8) -> Moment {
    Moment { year, month, day, hour: 8, minute: 30 }
}

#[test]
fn held_keys_turn_the_month() {
    let now = moment(2025, 8, 15);
    let mut p = CalendarPage::new();
    p.start(0);
    assert_eq!(p.handle_event(EventType::KeyLongEnd(1), Some(now)), WeatherTask::Nothing);
    assert_eq!(p.current_date, None);
    p.handle_event(EventType::KeyLongEnd(3), Some(now));
    assert_eq!(p.current_date, Some(now));
    p.handle_event(EventType::KeyLongEnd(1), Some(now));
    assert_eq!(p.current_date, Some(moment(2025, 7, 1)));
    p.handle_event(EventType::KeyLongEnd(2), Some(now));
    assert_eq!(p.current_date, Some(now));
    p.current_date = Some(moment(2025, 12, 1));
    p.handle_event(EventType::KeyLongEnd(2), Some(now));
    assert_eq!(p.current_date, Some(moment(2026, 1, 1)));
    p.handle_event(EventType::KeyLongEnd(1), Some(now));
    assert_eq!(p.current_date, Some(moment(2025, 12, 1)));
    p.current_date = Some(moment(2025, 1, 31));
    p.handle_event(EventType::KeyLongEnd(1), Some(now));
    assert_eq!(p.current_date, Some(moment(2024, 12, 1)));
    assert_eq!(p.handle_event(EventType::KeyShort(2), None), WeatherTask::Holiday);
    p.handle_event(EventType::KeyShort(3), None);
    assert!(!p.running);
}

#[test]
fn the_turn_of_the_year_leads_to_the_month_beside() {
    let now = moment(2025, 1, 20);
    let mut p = CalendarPage::new();
    p.start(0);
    p.current_date = Some(moment(2025, 12, 1));
    p.handle_event(EventType::KeyLongEnd(2), Some(now));
    assert_eq!(p.current_date, Some(moment(2026, 1, 1)));
    p.current_date = Some(moment(2024, 12, 1));
    p.handle_event(EventType::KeyLongEnd(2), Some(now));
    assert_eq!(p.current_date, Some(moment(2025, 1, 1)));
    let now = moment(2025, 12, 20);
    p.current_date = Some(moment(2025, 1, 1));
    p.handle_event(EventType::KeyLongEnd(1), Some(now));
    assert_eq!(p.current_date, Some(moment(2024, 12, 1)));
    p.current_date = Some(moment(2026, 1, 1));
    p.handle_event(EventType::KeyLongEnd(1), Some(now));
    assert_eq!(p.current_date, Some(moment(2025, 12, 1)));
}

#[test]
fn the_calendar_shows_weather_clock_and_month() {
    let d = CalendarRenderData {
        w: 400,
        h: 300,
        current_date: Some(moment(2025, 8, 15)),
        battery_percent: None,
        wifi_connecting: false,
        request_loading: false,
        weather_synced: true,
        holiday_synced: true,
        time_synced: true,
    };
    let c = epd_reader::pages::calendar::layout::draw(&d, &Some(forecast()));
    assert_eq!(texts(&c.ops), ["多云 08/01", "多云 08/02"]);
    assert!(c.ops.iter().any(|o| matches!(o, DrawOp::WeatherIcon(_, 175, 273, 32))));
    assert!(matches!(
        c.ops.last().unwrap(),
        DrawOp::Calendar(a, 2025, 8, 15) if a.w == 400 && a.h == 255
    ));
    let c = epd_reader::pages::calendar::layout::draw_lines(&d, &Some(forecast()));
    assert!(matches!(c.ops[0], DrawOp::Clear(Ink::White)));
    assert_eq!(texts(&c.ops)[0], "08.01 多云/阴,-2/35℃,湿:70%,风:2");
    let waiting = CalendarRenderData {
        weather_synced: false,
        holiday_synced: false,
        time_synced: false,
        ..d
    };
    let c = epd_reader::pages::calendar::layout::draw(&waiting, &None);
    assert_eq!(texts(&c.ops), ["正在同步天气...", "正在同步节假日...", "正在同步时间..."]);
}

#[test]
fn weather_codes_have_names_and_pictures() {
    for (wmo, code, name) in [
        (0u8, "0", "晴"),
        (2, "4", "多云"),
        (48, "30", "雾"),
        (55, "14", "大毛毛雨"),
        (67, "19", "冻雨"),
        (77, "22", "米雪"),
        (82, "16", "大阵雨"),
        (99, "12", "雷阵雨"),
        (4, "99", "未知"),
    ] {
        assert_eq!(wmo_to_seniverse_code(wmo), code);
        assert_eq!(wmo_to_chinese(wmo), name);
    }
    assert_eq!(wind_deg_to_chinese(0), "北");
    assert_eq!(wind_deg_to_chinese(11), "北");
    assert_eq!(wind_deg_to_chinese(12), "北东北");
    assert_eq!(wind_deg_to_chinese(191), "南");
    assert_eq!(wind_deg_to_chinese(348), "北西北");
    assert_eq!(wind_deg_to_chinese(360 + 90), "东");
    assert_eq!(wind_deg_to_chinese(-90), "北");
    for (kmh, n) in [(-1, 0u8), (0, 0), (1, 1), (5, 1), (6, 2), (49, 6), (50, 7), (116, 11), (117, 12)] {
        assert_eq!(kmh_to_beaufort(kmh), n);
    }
    assert_eq!(int_to_string(i32::MIN), "-2147483648");
    assert_eq!(int_to_string(0), "0");
    assert_eq!(f64_to_string(Reading { whole: -3, tenth: 7, rounded: -4 }), "-3.7");
}

fn reading(whole: i32, tenth: u8, rounded: i32) -> Option<Reading> {
    Some(Reading { whole, tenth, rounded })
}

#[test]
fn columns_become_days() {
    let c = Columns {
        time: (1..=6).map(|d| if d == 2 { None } else { Some(format!("2025-08-0{}", d)) }).collect(),
        weather_code: Some(vec![reading(61, 0, 61), reading(300, 0, 300)]),
        temperature_max: Some(vec![reading(34, 6, 35)]),
        temperature_min: None,
        precipitation: Some(vec![reading(12, 3, 12)]),
        humidity: Some(vec![None, reading(66, 5, 67)]),
        wind_speed: Some(vec![reading(12, 0, 12)]),
        wind_direction: Some(vec![reading(45, 0, 45)]),
        timezone: Some(s("Asia/Shanghai")),
    };
    let r = parse_json(&c);
    assert_eq!(r.daily.len(), 5);
    assert_eq!(r.last_update, "2025-08-01T00:00");
    assert_eq!(r.location.name, "Open-Meteo");
    let d = &r.daily[0];
    assert_eq!((d.code_day.as_str(), d.text_night.as_str()), ("13", "小雨"));
    assert_eq!((d.high.as_str(), d.low.as_str(), d.rainfall.as_str()), ("35", "", "12.3"));
    assert_eq!((d.wind_scale.as_str(), d.wind_direction.as_str()), ("3", "东北"));
    assert_eq!((d.humidity.as_str(), r.daily[1].humidity.as_str()), ("", "67"));
    assert_eq!((r.daily[1].date.as_str(), r.daily[1].text_day.as_str()), ("", "未知"));
    assert_eq!(r.daily[2].text_day, "晴");
}

const HOLIDAYS: &str = "{\"2025-01-01\":{\"date\":\"2025-01-01\",\"name\":\"元旦\",\"isOffDay\":true},\"2025-01-26\":{\"isOffDay\":false},\"2025-02-08\":{broken}}";

#[test]
fn holidays_are_found_in_a_text() {
    let data = HOLIDAYS.as_bytes();
    let found = holiday_objects(data);
    assert_eq!(found.len(), 3);
    assert_eq!(&data[found[1].open..=found[1].close], b"{\"isOffDay\":false}");
    assert_eq!(&data[found[2].key..found[2].key_end], b"2025-02-08");
    let r = form_json_each(data, &vec![Some(true), Some(false), None]).unwrap();
    assert_eq!(r.year, 2025);
    assert_eq!(r.holidays.len(), 2);
    assert_eq!((r.holidays[0].date, r.holidays[0].is_off_day), (20250101, true));
    assert_eq!((r.holidays[1].date, r.holidays[1].is_off_day), (20250126, false));
    assert!(form_json_each(data, &vec![None, None, None]).is_none());
    assert_eq!(holiday_objects(b"{\"1999-01-01\":{}}").len(), 0);
    assert!(form_json_each(b"\xff\"2025-01-01\":{}", &vec![]).is_none());
    let many: String = (0..60).map(|i| format!("\"2025-01-{:02}\":{{}},", i)).collect();
    let r = form_json_each(many.as_bytes(), &vec![Some(true); 60]).unwrap();
    assert_eq!(r.holidays.len(), 40);
    let r = form_json(&vec![s("2025-10-01"), s("soon")], &vec![true, false]);
    assert_eq!((r.year, r.holidays[0].date, r.holidays[1].date), (0, 20251001, 0));
}
