use epd_reader::model::lunar::{Lunar, LunarDay};

#[test]
fn test_2025_august_1() {
    let lunar = Lunar::new(2025, 8);
    if let Some(lunar_day) = lunar.get_lunar_day(1) {
        assert_eq!(lunar_day.get_month(), 6);
        assert_eq!(lunar_day.get_day(), 8);
        assert_eq!(lunar_day.is_leap_month(), true);
    } else {
        panic!("no lunar date for the first of August 2025");
    }
}

#[test]
fn test_lunar_calculation() {
    let lunar = Lunar::new(2024, 1);
    assert_eq!(lunar.get_solar_year(), 2024);
    assert_eq!(lunar.get_solar_month(), 1);
    if let Some(lunar_day) = lunar.get_lunar_day(1) {
        assert_eq!(lunar_day.get_year(), 123);
        assert_eq!(lunar_day.get_month(), 11);
        assert_eq!(lunar_day.get_day(), 20);
    }
}

#[test]
fn test_days_since_1900() {
    let lunar = Lunar::new(2024, 1);
    if let Some(lunar_day) = lunar.get_lunar_day(1) {
        println!("{}{}", lunar_day.get_month_name(), lunar_day.get_day_name());
        assert_eq!(lunar_day.get_day_name(), "二十");
    }
}

#[test]
fn test_lunar_day_methods() {
    let lunar_day = LunarDay { year: 2024, month: 1, day: 15, leap_month: false };
    assert_eq!(lunar_day.get_year(), 2024);
    assert_eq!(lunar_day.get_month(), 1);
    assert_eq!(lunar_day.get_day(), 15);
    assert_eq!(lunar_day.is_leap_month(), false);
    assert_eq!(lunar_day.get_month_name(), "正月");
    assert_eq!(lunar_day.get_day_name(), "十五");
}

#[test]
fn the_new_year_of_2024_is_on_the_tenth_of_february() {
    let feb = Lunar::new(2024, 2);
    let day = feb.get_lunar_day(10).unwrap();
    assert_eq!((day.year, day.month, day.day, day.leap_month), (124, 1, 1, false));
    let eve = feb.get_lunar_day(9).unwrap();
    assert_eq!((eve.year, eve.month, eve.day), (123, 12, 30));
    assert_eq!(feb.get_all_lunar_days()[9].unwrap().day, 1);
    assert!(feb.get_all_lunar_days()[29].is_none());
}

#[test]
fn days_before_the_table_have_no_lunar_date() {
    assert!(Lunar::new(1900, 1).get_lunar_day(30).is_none());
    let first = Lunar::new(1900, 1).get_lunar_day(31).unwrap();
    assert_eq!((first.year, first.month, first.day), (0, 1, 1));
}

#[test]
fn days_past_the_table_are_the_first_of_the_first_month() {
    let last = Lunar::new(2101, 1).get_lunar_day(28).unwrap();
    assert_eq!((last.year, last.month, last.day), (200, 12, 29));
    for (year, month, day) in [(2101, 1, 29), (2101, 12, 31), (2102, 1, 31), (2200, 1, 1)] {
        let date = Lunar::new(year, month).get_lunar_day(day).unwrap();
        assert_eq!((date.month, date.day, date.leap_month), (1, 1, false));
        assert_eq!(date.get_month_name(), "正月");
        assert_eq!(date.get_day_name(), "初一");
    }
}
