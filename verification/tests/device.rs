use epd_reader::battery::Battery;
use epd_reader::display::{
    full_refresh_times, show_error, show_sleep, sleep_message, Panel, Refresh, RenderInfo, Screen,
    SleepShow,
};
use epd_reader::draw::{DrawOp, Icon, Ink};
use epd_reader::event::{AdcJudge, EventType, KeyPress, KeyStep, Listeners};
use epd_reader::icons::draw_icon;
use epd_reader::location::{format_coord, locate, uint_to_string, Coord};
use epd_reader::panic::{error_message, Place};
use epd_reader::request::{parse_url, RequestError};
use epd_reader::sleep::{get_sleep_ms, to_sleep, to_sleep_tips};

#[test]
fn the_charge_is_the_rounded_square_for_every_reading() {
    for adc in 0..=u16::MAX {
        let mv = adc as f32 * 2.0;
        let percent = if mv > 4100.0 {
            100
        } else if mv < 3100.0 {
            0
        } else {
            let n = (mv - 3100.0) / 1000.0;
            (n * n * 100.0).round().min(100.0).max(0.0) as u32
        };
        let b = Battery::measured(adc);
        assert_eq!(b.voltage, mv as u32);
        assert_eq!(b.percent, percent, "at {} mV", mv);
    }
    assert_eq!(Battery::new().percent, 0);
    assert_eq!(Battery::measured(1800).percent, 25);
}

#[test]
fn a_device_sleeps_once_it_was_idle_for_long_enough() {
    assert!(to_sleep_tips(None, 100, 5, 0, true).is_none());
    assert!(to_sleep_tips(Some(50), 100, 5, 50, true).is_none());
    let plan = to_sleep_tips(Some(49), 100, 5, 50, true).unwrap();
    assert_eq!(plan.timer_us, Some(5));
    assert!(plan.show_sleep);
    let plan = to_sleep(Some(0), 100, 0, 50).unwrap();
    assert_eq!(plan.timer_us, None);
    assert!(!plan.show_sleep);
    assert_eq!(get_sleep_ms(7_500_000, 2_000), 5_500);
}

#[test]
fn coordinates_have_four_decimals() {
    assert_eq!(uint_to_string(0), "0");
    assert_eq!(uint_to_string(4294967295), "4294967295");
    assert_eq!(format_coord(Coord { neg: false, int_part: 30, frac: 5928 }), "30.5928");
    assert_eq!(format_coord(Coord { neg: true, int_part: 114, frac: 55 }), "-114.0055");
    assert_eq!(format_coord(Coord { neg: false, int_part: 0, frac: 20000 }), "0.9999");
    assert_eq!(format_coord(Coord { neg: true, int_part: 4294967295, frac: 0 }), "-4294967295.");
}

#[test]
fn a_place_needs_both_coordinates_and_no_failure() {
    let c = |n| Some(Coord { neg: false, int_part: n, frac: 5 });
    let r = locate(Some("success"), c(30), c(114), Some("武汉")).unwrap();
    assert_eq!(r.city, "武汉");
    assert_eq!(r.latlon, "30.0005:114.0005");
    let r = locate(None, c(1), c(2), None).unwrap();
    assert_eq!(r.city, "");
    assert!(locate(Some("fail"), c(1), c(2), None).is_none());
    assert!(locate(None, None, c(2), None).is_none());
    assert!(locate(None, c(1), None, None).is_none());
}

#[test]
fn a_crash_is_kept_with_its_place_and_stack() {
    let place = Some(Place { file: "src/main.rs".to_string(), line: 12, column: 5 });
    let message = vec!["index ".to_string(), "9".to_string()];
    assert_eq!(
        error_message(&place, &message, &vec![0x4200_1234, 0xff]),
        "location: src/main.rs:12:5\nerror: index 9\nstack:\n  #0 0x42001234\n  #1 0xff\n"
    );
    assert_eq!(
        error_message(&None, &vec![], &vec![]),
        "location: unknow\nerror: \nstack:\ncall stack information is not available\n"
    );
    let long = vec!["x".repeat(190), "y".to_string()];
    let kept = error_message(&None, &long, &vec![1; 30]);
    assert!(kept.len() <= 200);
    assert!(!kept.contains("xx") && !kept.contains('y'));
    let many = error_message(&None, &vec![], &vec![1; 30]);
    assert!(many.contains("#9 ") && !many.contains("#10 "));
}

#[test]
fn a_url_names_its_host_port_and_path() {
    let t = parse_url("https://api.example.com/v1/x?y=1").unwrap();
    assert!(t.secure);
    assert_eq!((t.host.as_str(), t.port, t.path.as_str()), ("api.example.com", 443, "/v1/x?y=1"));
    let t = parse_url("http://host").unwrap();
    assert!(!t.secure);
    assert_eq!((t.host.as_str(), t.port, t.path.as_str()), ("host", 80, "/"));
    assert!(matches!(parse_url("ftp://host/"), Err(RequestError::UnsupportedScheme)));
}

#[test]
fn a_full_refresh_comes_after_the_configured_quick_ones() {
    assert_eq!(full_refresh_times(Panel::Partial, 0), 20);
    assert_eq!(full_refresh_times(Panel::Whole, 0), 5);
    assert_eq!(full_refresh_times(Panel::Whole, u32::MAX), 5);
    assert_eq!(full_refresh_times(Panel::Partial, 7), 7);
    let info = RenderInfo { time: 0, need_sleep: false };
    let mut s = Screen::new(Panel::Whole, 0);
    let mut kinds = Vec::new();
    for _ in 0..10 {
        let (next, plan) = s.render(info, 5);
        s = next;
        kinds.push(plan.refresh == Refresh::FullOnce);
    }
    assert_eq!(kinds, [false, false, false, false, true, false, false, false, false, true]);
}

#[test]
fn a_panel_is_refreshed_against_the_picture_it_shows() {
    let awake = RenderInfo { time: 0, need_sleep: false };
    let asleep = RenderInfo { time: 0, need_sleep: true };
    let s = Screen::new(Panel::Partial, 0);
    let (s, p) = s.render(awake, 20);
    assert_eq!((p.refresh, p.keep, p.wake_up, p.sleep), (Refresh::Base, true, false, false));
    let (s, p) = s.render(asleep, 20);
    assert_eq!((p.refresh, p.sleep), (Refresh::Partial, true));
    let (s, p) = s.render(awake, 20);
    assert_eq!((p.refresh, p.wake_up), (Refresh::QuietBase, true));
    let (s, p) = s.set_refresh_mode(false).render(awake, 20);
    assert_eq!((p.refresh, p.keep), (Refresh::Whole, false));
    let s = Screen { render_times: 19, quick: true, ..s };
    let (s, p) = s.render(awake, 20);
    assert_eq!(p.refresh, Refresh::Base);
    assert_eq!(s.get_render_times(), 0);
}

#[test]
fn what_is_shown_in_sleep() {
    assert_eq!(show_sleep(Panel::Whole, true), SleepShow::Page);
    assert_eq!(show_sleep(Panel::Whole, false), SleepShow::Picture { rotate: true });
    assert_eq!(show_sleep(Panel::Partial, false), SleepShow::Picture { rotate: false });
    assert_eq!(sleep_message(true, 400, 300).ops.len(), 0);
    let c = sleep_message(false, 400, 300);
    assert!(matches!(&c.ops[0], DrawOp::Text(t, a) if t == "睡眠中" && a.x == 200 && a.y == 150));
    let c = show_error("x", true, 400, 300);
    assert!(matches!(c.ops[0], DrawOp::Clear(Ink::White)));
    assert!(matches!(&c.ops[1], DrawOp::Text(_, a) if a.x == 149 && a.y == 199));
    assert_eq!(show_error("x", false, 400, 300).ops.len(), 1);
}

#[test]
fn icons_are_made_of_lines_and_discs() {
    assert_eq!(draw_icon(Icon::Loading, 50, 50, true).ops.len(), 6);
    assert_eq!(draw_icon(Icon::WifiStatus, 50, 50, true).ops.len(), 4);
    assert_eq!(draw_icon(Icon::WifiStatus, 50, 50, false).ops.len(), 5);
    let moon = draw_icon(Icon::Moon, 10, 20, true);
    assert!(matches!(moon.ops[1], DrawOp::Circle(15, 18, 14, 0, Some(Ink::White))));
}

#[test]
fn presses_become_events() {
    let mut k = KeyPress::new(3, 1000);
    assert_eq!(k.poll(100, 1400), KeyStep::Wait);
    assert_eq!(k.poll(100, 1501), KeyStep::Report(EventType::KeyLongStart(3)));
    assert_eq!(k.poll(100, 1560), KeyStep::Wait);
    assert_eq!(k.poll(100, 1601), KeyStep::Report(EventType::KeyLongIng(3)));
    assert_eq!(k.poll(0, 1650), KeyStep::Done(EventType::KeyLongEnd(3)));
    let mut k = KeyPress::new(1, 0);
    assert_eq!(k.poll(1, 100), KeyStep::AwaitSecond);
    assert_eq!(k.await_second(100, false), KeyStep::Done(EventType::KeyShort(1)));
    assert_eq!(k.await_second(401, true), KeyStep::Done(EventType::KeyShort(1)));
    assert_eq!(k.await_second(100, true), KeyStep::LookAgain);
    assert_eq!(k.second_look(81), KeyStep::Done(EventType::KeyDouble(1)));
}

#[test]
fn keys_of_one_line_are_told_apart_by_voltage() {
    for (reading, key) in [(100u16, 2usize), (500, 3), (3000, 0)] {
        let mut j = AdcJudge::new();
        for _ in 0..5 {
            assert_eq!(j.feed(None), None);
        }
        let mut last = None;
        for _ in 0..20 {
            last = j.feed(Some(reading));
        }
        assert_eq!(last, Some(key));
    }
    let mut j = AdcJudge::new();
    for _ in 0..199 {
        assert_eq!(j.feed(None), None);
    }
    assert_eq!(j.feed(None), Some(0));
}

#[test]
fn listeners_are_told_in_order_until_they_are_cleared() {
    let mut l = Listeners::new();
    assert!(l.on(EventType::KeyShort(1)));
    assert!(l.on_target(EventType::KeyShort(2), 7));
    assert!(l.on_fixed(EventType::KeyShort(1), 9));
    let calls = l.toggle_event(EventType::KeyShort(1));
    assert_eq!(calls.len(), 2);
    assert_eq!((calls[0].0, calls[0].1.ptr), (0, None));
    assert_eq!((calls[1].0, calls[1].1.ptr), (2, Some(9)));
    for _ in 0..17 {
        assert!(l.on(EventType::WheelBack));
    }
    assert!(!l.on(EventType::WheelBack));
    l.clear();
    assert_eq!(l.toggle_event(EventType::KeyShort(1)).len(), 0);
}
