use epd_reader::draw::{Canvas, DrawOp, Ink};
use epd_reader::event::EventType;
use epd_reader::model::stock::{
    bar_count, build_url, fmt_price, fmt_signed, now_slot, parse_date, parse_kline, price_points,
    Cents, ChartMode, PriceAt,
};
use epd_reader::pages::debug_page::DebugPage;
use epd_reader::pages::main_page::{step_for, MainPage, MainStep};
use epd_reader::pages::setting_page::{
    LocatePhase, Lut, SettingMode, SettingPage, WebCommand, WifiModel,
};
use epd_reader::pages::stock::layout::{
    draw, draw_content, fmt_date, fmt_hm, fmt_md_hm, Level, Quote, StockContent,
};
use epd_reader::pages::stock::page::{
    plan_cache, CachePlan, Opening, StockChoice, StockPage, StockRetained, StockView,
};
use epd_reader::pages::{reading_task_done, waits_for_panel, PageEnum};

#[test]
fn the_main_menu_chooses_and_enters() {
    let p = MainPage::init(1, false, Some(3));
    assert_eq!(p.current_page, Some(1));
    assert_eq!(p.run(), MainStep::Run(PageEnum::EWeatherPage));
    assert_eq!(MainPage::init(-1, false, None).run(), MainStep::Menu);
    assert_eq!(MainPage::init(-1, true, Some(1)).current_page, Some(5));
    assert_eq!(MainPage::init(2, true, Some(0)).current_page, Some(2));
    let p = MainPage::new();
    assert_eq!(p.handle_event(EventType::KeyShort(1)).choose_index, 0);
    let mut p = p;
    for _ in 0..9 {
        p = p.handle_event(EventType::KeyShort(2));
    }
    assert_eq!(p.choose_index, 5);
    let p = p.handle_event(EventType::KeyShort(3));
    assert_eq!((p.current_page, p.page_index), (Some(5), 5));
    assert_eq!(p.run(), MainStep::Run(PageEnum::EDebugPage));
    assert_eq!(p.back().current_page, None);
    assert_eq!(step_for(PageEnum::EChip8Page), MainStep::Back);
    assert_eq!(step_for(PageEnum::EMainPage), MainStep::Idle);
    let c = p.render(400, 300);
    assert!(matches!(&c.ops[1], DrawOp::Grid(i, t, 5, a, 3)
        if i.len() == 6 && t[3] == "图片" && a.w == 400));
    assert!(waits_for_panel(false, 150) && !waits_for_panel(false, 151));
    assert_eq!(reading_task_done().page_index, -1);
}

#[test]
fn the_crash_page_shows_and_forgets() {
    let p = DebugPage::new().start();
    assert!(p.running && p.need_render);
    let c = DebugPage::render(400, 300, Some(2), "boom");
    assert!(matches!(c.ops[0], DrawOp::Clear(Ink::White)));
    assert!(matches!(&c.ops[1], DrawOp::TextBox(t, a, _) if t == "boom" && a.y == 20 && a.h == 280));
    let c = DebugPage::render(400, 300, Some(0), "boom");
    assert!(matches!(&c.ops[1], DrawOp::TextBox(t, _, _) if t == "没有错误日志"));
    assert!(p.handle_event(EventType::KeyLongEnd(1)).1);
    assert!(!p.handle_event(EventType::KeyShort(3)).0.running);
}

#[test]
fn times_until_sleep_are_edited() {
    let mut p = SettingPage::new(0, 0);
    assert_eq!((p.state.read_sleep_seconds, p.state.weather_sleep_seconds), (120, 60));
    p.start(Some(WifiModel::STA));
    p.state.mode = SettingMode::Settings { select: 0, editing: true };
    assert_eq!(p.state.settings_key_down().read_sleep_seconds, 125);
    p.state.read_sleep_seconds = 12;
    assert_eq!(p.state.settings_key_up().read_sleep_seconds, 10);
    p.state.mode = SettingMode::Settings { select: 1, editing: true };
    p.state.weather_sleep_seconds = 5;
    assert_eq!(p.state.settings_key_up().weather_sleep_seconds, 5);
    let mut p = SettingPage::new(30, 20);
    p.start(Some(WifiModel::AP));
    assert_eq!(p.state.mode, SettingMode::QrCode);
    assert!(matches!(p.web_command(), WebCommand::Start));
    p.load_last_location(Some(("武汉".to_string(), "30:114".to_string())));
    assert_eq!(p.last_location.as_ref().unwrap().1, "30:114");
    p.do_locate(None);
    assert_eq!(p.state.locate_state, LocatePhase::Failed);
}

#[test]
fn the_list_of_settings_is_shown_quickly_after_its_first_picture() {
    let mut p = SettingPage::new(0, 0);
    p.start(Some(WifiModel::STA));
    assert_eq!(p.drawn(true), Lut::Quick);
    assert_eq!(p.drawn(false), Lut::Keep);
    assert_eq!(p.web_command(), WebCommand::Keep);
    assert_eq!(p.finish(), (WebCommand::Keep, Lut::Quick));
    p.start(Some(WifiModel::AP));
    assert_eq!(p.drawn(true), Lut::Keep);
    assert_eq!(p.web_command(), WebCommand::Start);
    assert_eq!(p.finish(), (WebCommand::Stop, Lut::Quick));
    assert!(!p.state.web_service_running);
}

#[test]
fn charts_go_round() {
    let mut m = ChartMode::Minute;
    for _ in 0..5 {
        assert_eq!(m.next().prev(), m);
        m = m.next();
    }
    assert_eq!(m, ChartMode::Minute);
    assert_eq!(bar_count(ChartMode::Minute), 48);
    assert_eq!(
        build_url("sh600519", ChartMode::Day, 64),
        "http://money.finance.sina.com.cn/quotes_service/api/json_v2.php/CN_MarketData.getKLineData?symbol=sh600519&scale=240&ma=no&datalen=64"
    );
    assert_eq!(now_slot(9, 29), 0);
    assert_eq!(now_slot(9, 36), 1);
    assert_eq!((now_slot(11, 29), now_slot(12, 0), now_slot(13, 0)), (23, 23, 24));
    assert_eq!((now_slot(14, 59), now_slot(23, 0)), (47, 47));
    assert_eq!(price_points(0, ChartMode::Day), None);
    assert_eq!(price_points(5, ChartMode::Day), Some((PriceAt::Close(4), PriceAt::Close(3))));
    assert_eq!(price_points(5, ChartMode::Minute), Some((PriceAt::Close(4), PriceAt::Open(0))));
}

fn cents(cents: u32) -> Cents {
    Cents { neg: false, cents }
}

fn content(quote: bool) -> StockContent {
    StockContent {
        name: "茅台".to_string(),
        code: "sh600519".to_string(),
        price: cents(123456),
        change: Cents { neg: true, cents: 250 },
        change_pct: Cents { neg: true, cents: 20 },
        dates: vec![20260714, 20260715, 20260716],
        minute: None,
        range: Some((cents(200), cents(100))),
        visible: 2,
        quote: if quote {
            Some(Quote {
                info: [cents(1); 11],
                price: cents(123456),
                sells: [Level { price: cents(200), vol: 3 }; 5],
                buys: [Level { price: cents(100), vol: 4 }; 5],
                datetime: "20260716150000".to_string(),
            })
        } else {
            None
        },
    }
}

fn has_candles(c: &Canvas) -> bool {
    c.ops.iter().any(|o| matches!(o, DrawOp::Candles(_)))
}

fn shows(c: &Canvas, text: &str) -> bool {
    c.ops.iter().any(|o| matches!(o, DrawOp::Text(t, _) if t == text))
}

#[test]
fn the_state_of_trading_is_shown_in_its_mode_only() {
    let mut c = Canvas::new();
    draw_content(&mut c, &content(true), ChartMode::Quote, 400, 300);
    assert!(!has_candles(&c));
    assert!(shows(&c, "-> 1234.56"));
    assert!(shows(&c, "行情"));
    let c = draw(&Some(content(true)), ChartMode::Day, false, None, None, false, 400, 300);
    assert!(has_candles(&c));
    assert!(!shows(&c, "-> 1234.56"));
    assert!(shows(&c, "2026-07-15 ~ 2026-07-16"));
    let c = draw(&Some(content(false)), ChartMode::Quote, false, None, None, false, 400, 300);
    assert!(has_candles(&c));
    assert_eq!(ChartMode::Quote.next(), ChartMode::Minute);
    assert_eq!(ChartMode::Quote.prev(), ChartMode::Line);
    assert_eq!(bar_count(ChartMode::Quote), 0);
    assert!(ChartMode::Quote.is_quote() && !ChartMode::Day.is_quote());
}

#[test]
fn bars_are_received() {
    let data = b"[{\"day\":\"2026-07-15\",\"open\":\"1.10\",\"high\":\"2.0\",\"low\":\"0.5\",\"close\":\"1.5\"},{\"day\":\"2026-07-16\",\"open\":\"1.6\",\"high\":\"2.1\",\"low\":\"1.5\",\"close\":\"2.05\"}]";
    let bars = parse_kline(data).unwrap();
    assert_eq!(bars.len(), 2);
    assert_eq!(bars[0].date, 20260715);
    assert_eq!(bars[1].close, b"2.05");
    assert_eq!(parse_date(b"2026-07-15 09:35:00"), 20260715093500);
    assert!(parse_kline(b"\xff").is_none());
}

#[test]
fn amounts_and_dates_are_written() {
    assert_eq!(fmt_price(Cents { neg: false, cents: 123456 }), "1234.56");
    assert_eq!(fmt_price(Cents { neg: true, cents: 5 }), "-0.05");
    assert_eq!(fmt_signed(Cents { neg: false, cents: 70 }), "+0.70");
    assert_eq!(fmt_hm(20260715093500), "09:35");
    assert_eq!(fmt_md_hm(20260715093500), "07-15 09:35");
    assert_eq!(fmt_date(20260715), "2026-07-15");
}

#[test]
fn prices_are_fetched_when_they_are_due() {
    let c = StockChoice { count: 3, selected: 1 };
    let retained = StockRetained { mode: ChartMode::Day, view: StockView::Overview, last_fetch_ms: 1000 };
    let mut p = StockPage::new(retained);
    assert_eq!(p.start(c, 100_000), Opening::ShowOverview);
    let mut p2 = StockPage::new(retained);
    assert_eq!(p2.start(c, 121_000), Opening::FetchOverview);
    assert_eq!(StockPage::switch_stock(c), Some(2));
    assert_eq!(StockPage::switch_stock(StockChoice { count: 1, selected: 0 }), None);
    assert_eq!(StockPage::fetch_index(StockChoice { count: 2, selected: 9 }), Some(1));
    p.handle_event(c, EventType::KeyShort(1));
    assert!(p.need_render);
    assert_eq!(plan_cache("", true, true, 1, 1, 5, 7), CachePlan::Keep);
    assert_eq!(plan_cache("sh1", true, true, 1, 2, 5, 7), CachePlan::Full);
    assert_eq!(plan_cache("sh1", true, true, 2, 2, 5, 7), CachePlan::Latest(3));
    assert_eq!(plan_cache("sh1", true, true, 2, 2, 5, 4), CachePlan::Latest(48));
    assert_eq!(plan_cache("sh1", true, true, 2, 2, 0, 4), CachePlan::Keep);
}
