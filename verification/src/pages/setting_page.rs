//! The settings page: the list of settings, finding the device's location, and the web page.
use vstd::prelude::*;
#[allow(unused_imports)]
use vstd::string::*;

use crate::draw::{lemma_texts, texts, Anchor, Area, Canvas, DrawOp, Face, HPos, Ink, Op, VPos};
use crate::event::EventType;
use crate::text::{
    dec, dec_text, has_char, join, join3, law_numbers_read_back, num_of,
};

verus! {

/// How many settings there are.
pub const SETTINGS_COUNT: usize = 5;

/// The shortest time until sleep while reading, in seconds.
pub const READ_SLEEP_MIN: u64 = 10;

/// The shortest time until sleep while the weather is shown, in seconds.
pub const WEATHER_SLEEP_MIN: u64 = 5;

/// How much a press changes such a time.
pub const SLEEP_STEP: u64 = 5;

/// A key held for longer than this many seconds resets the device.
pub const RESET_SECONDS: u64 = 10;

/// How the device is connected: as an access point of its own, or to one.
#[derive(Clone, Copy, Debug, PartialEq, Eq, Structural)]
pub enum WifiModel {
    AP,
    STA,
}

/// What the page shows.
#[derive(Clone, Copy, Debug, PartialEq, Eq, Structural)]
pub enum SettingMode {
    QrCode,
    Settings { select: usize, editing: bool },
    Locate,
}

/// How far finding the location has come.
#[derive(Clone, Copy, Debug, PartialEq, Eq, Structural)]
pub enum LocatePhase {
    Idle,
    Requesting,
    Success,
    Failed,
}

/// The part of the settings page that is plain numbers and flags.
#[derive(Clone, Copy, Debug, PartialEq, Eq, Structural)]
pub struct SettingState {
    pub need_render: bool,
    pub running: bool,
    pub long_start_time: u64,
    pub reinit: bool,
    pub wifi_model: Option<WifiModel>,
    pub mode: SettingMode,
    pub locate_state: LocatePhase,
    pub web_service_running: bool,
    pub last_location_loaded: bool,
    pub read_sleep_seconds: u64,
    pub weather_sleep_seconds: u64,
}

/// The settings page, with the location just found and the one found before, each as a city and
/// its coordinates.
pub struct SettingPage {
    pub state: SettingState,
    pub located: Option<(String, String)>,
    pub last_location: Option<(String, String)>,
}

/// How the panel refreshes from now on.
#[derive(Clone, Copy, Debug, PartialEq, Eq, Structural)]
pub enum Lut {
    Keep,
    Full,
    Quick,
    /// In full for one refresh, then quickly.
    FullThenQuick,
}

/// What the caller does after a key event, beside drawing.
#[derive(Clone, Copy, Debug, PartialEq, Eq, Structural)]
pub struct SettingOutcome {
    pub lut: Lut,
    /// How long no further event is taken.
    pub delay_ms: u64,
    /// The times until sleep are written to flash.
    pub save_sleep: bool,
}

/// Nothing to do.
pub open spec fn quiet() -> SettingOutcome {
    SettingOutcome { lut: Lut::Keep, delay_ms: 0, save_sleep: false }
}

/// A time one step shorter, but not below `min`.
pub open spec fn shorter(t: u64, min: u64) -> u64 {
    if t <= min {
        t
    } else if t - SLEEP_STEP < min {
        min
    } else {
        (t - SLEEP_STEP) as u64
    }
}

/// A time one step longer.
pub open spec fn longer(t: u64) -> u64 {
    if t + SLEEP_STEP <= u64::MAX {
        (t + SLEEP_STEP) as u64
    } else {
        u64::MAX
    }
}

/// The list one line up, or the edited time shorter.
pub open spec fn key_up(s: SettingState) -> SettingState {
    match s.mode {
        SettingMode::Settings { select, editing } => {
            let r = SettingState { need_render: true, ..s };
            if editing {
                if select == 0 {
                    SettingState {
                        read_sleep_seconds: shorter(s.read_sleep_seconds, READ_SLEEP_MIN),
                        ..r
                    }
                } else if select == 1 {
                    SettingState {
                        weather_sleep_seconds: shorter(s.weather_sleep_seconds, WEATHER_SLEEP_MIN),
                        ..r
                    }
                } else {
                    r
                }
            } else if select > 0 {
                SettingState {
                    mode: SettingMode::Settings { select: (select - 1) as usize, editing: false },
                    ..r
                }
            } else {
                r
            }
        },
        _ => s,
    }
}

/// The list one line down, or the edited time longer.
pub open spec fn key_down(s: SettingState) -> SettingState {
    match s.mode {
        SettingMode::Settings { select, editing } => {
            let r = SettingState { need_render: true, ..s };
            if editing {
                if select == 0 {
                    SettingState { read_sleep_seconds: longer(s.read_sleep_seconds), ..r }
                } else if select == 1 {
                    SettingState { weather_sleep_seconds: longer(s.weather_sleep_seconds), ..r }
                } else {
                    r
                }
            } else if select < SETTINGS_COUNT - 1 {
                SettingState {
                    mode: SettingMode::Settings { select: (select + 1) as usize, editing: false },
                    ..r
                }
            } else {
                r
            }
        },
        _ => s,
    }
}

/// The chosen line taken up: a time is edited or kept, a page opened, or the settings left. While
/// the device is set up for the first time there is nothing to leave to but the code.
pub open spec fn confirmed(s: SettingState) -> SettingState {
    match s.mode {
        SettingMode::Settings { select, editing } => {
            let r = SettingState { need_render: true, ..s };
            if editing {
                SettingState { mode: SettingMode::Settings { select, editing: false }, ..r }
            } else if select == 0 || select == 1 {
                SettingState { mode: SettingMode::Settings { select, editing: true }, ..r }
            } else if select == 2 {
                SettingState { mode: SettingMode::Locate, locate_state: LocatePhase::Idle, ..r }
            } else if select == 3 {
                SettingState { mode: SettingMode::QrCode, ..r }
            } else if select == 4 {
                if s.wifi_model == Some(WifiModel::STA) {
                    SettingState { running: false, ..r }
                } else {
                    SettingState { mode: SettingMode::QrCode, ..r }
                }
            } else {
                r
            }
        },
        _ => s,
    }
}

/// Back from finding the location to its line in the list.
pub open spec fn locate_left(s: SettingState) -> SettingState {
    SettingState {
        mode: SettingMode::Settings { select: 2, editing: false },
        locate_state: LocatePhase::Idle,
        last_location_loaded: false,
        need_render: true,
        ..s
    }
}

/// An edited setting.
pub open spec fn is_editing(s: SettingState) -> bool {
    s.mode matches SettingMode::Settings { editing, .. } && editing
}

/// The page after a short press of the first key.
pub open spec fn short1(s: SettingState) -> SettingState {
    match s.mode {
        SettingMode::Settings { .. } => key_down(s),
        SettingMode::QrCode => SettingState { need_render: true, ..s },
        SettingMode::Locate => if s.locate_state == LocatePhase::Requesting {
            s
        } else {
            SettingState { locate_state: LocatePhase::Requesting, need_render: true, ..s }
        },
    }
}

/// The page after a short press of the second key.
pub open spec fn short2(s: SettingState) -> SettingState {
    match s.mode {
        SettingMode::Settings { .. } => key_up(s),
        SettingMode::QrCode => SettingState {
            mode: SettingMode::Settings { select: 0, editing: false },
            need_render: true,
            ..s
        },
        SettingMode::Locate => if s.locate_state == LocatePhase::Requesting {
            s
        } else {
            locate_left(s)
        },
    }
}

/// The page after a short press of the third key.
pub open spec fn short3(s: SettingState) -> SettingState {
    match s.mode {
        SettingMode::Settings { .. } => confirmed(s),
        SettingMode::QrCode => SettingState {
            mode: SettingMode::Settings { select: 3, editing: false },
            need_render: true,
            ..s
        },
        SettingMode::Locate => if s.locate_state == LocatePhase::Requesting {
            s
        } else {
            locate_left(s)
        },
    }
}

/// The page while the first key is held at the second `now`: an edited time gets shorter; over the
/// code, the device is reset after a while.
pub open spec fn held1(s: SettingState, now: u64) -> SettingState {
    if is_editing(s) {
        key_up(s)
    } else if s.mode is QrCode {
        let start = if s.long_start_time == 0 {
            now
        } else {
            s.long_start_time
        };
        SettingState {
            long_start_time: start,
            need_render: true,
            reinit: s.reinit || now - start > RESET_SECONDS,
            ..s
        }
    } else {
        s
    }
}

/// The page after an event at the second `now`.
pub open spec fn after(s: SettingState, e: EventType, now: u64) -> SettingState {
    if e == EventType::KeyShort(1) {
        short1(s)
    } else if e == EventType::KeyShort(2) {
        short2(s)
    } else if e == EventType::KeyShort(3) {
        short3(s)
    } else if e == EventType::KeyLongStart(1) {
        if s.mode is QrCode {
            SettingState { long_start_time: now, ..s }
        } else {
            s
        }
    } else if e == EventType::KeyLongIng(1) {
        held1(s, now)
    } else if e == EventType::KeyLongEnd(1) {
        SettingState { long_start_time: 0, ..s }
    } else if e == EventType::KeyLongIng(2) {
        if is_editing(s) {
            key_down(s)
        } else {
            s
        }
    } else {
        s
    }
}

/// What an event asks of the caller.
pub open spec fn outcome(s: SettingState, e: EventType) -> SettingOutcome {
    if e == EventType::KeyShort(1) {
        SettingOutcome {
            lut: if s.mode is QrCode {
                Lut::FullThenQuick
            } else {
                Lut::Keep
            },
            ..quiet()
        }
    } else if e == EventType::KeyShort(2) {
        SettingOutcome {
            lut: if s.mode is QrCode {
                Lut::Quick
            } else {
                Lut::Keep
            },
            ..quiet()
        }
    } else if e == EventType::KeyShort(3) {
        SettingOutcome {
            lut: if s.mode is QrCode {
                Lut::Quick
            } else if s.mode is Settings && confirmed(s).mode is QrCode {
                Lut::Full
            } else {
                Lut::Keep
            },
            save_sleep: is_editing(s),
            ..quiet()
        }
    } else if e == EventType::KeyLongIng(1) || e == EventType::KeyLongIng(2) {
        SettingOutcome {
            delay_ms: if is_editing(s) {
                200
            } else {
                0
            },
            ..quiet()
        }
    } else {
        quiet()
    }
}

impl SettingState {
    /// The numbers lie within their bounds.
    pub open spec fn valid(self) -> bool {
        self.mode matches SettingMode::Settings { select, editing } ==> select < SETTINGS_COUNT && (
        editing ==> select < 2)
    }

    /// A time one step shorter, but not below `min`.
    fn shorten(t: u64, min: u64) -> (r: u64)
        requires
            min >= SLEEP_STEP,
        ensures
            r == shorter(t, min),
    {
        if t > min {
            let r: u64 = t - SLEEP_STEP;
            if r < min {
                min
            } else {
                r
            }
        } else {
            t
        }
    }

    /// A time one step longer.
    fn lengthen(t: u64) -> (r: u64)
        ensures
            r == longer(t),
    {
        if t <= u64::MAX - SLEEP_STEP {
            t + SLEEP_STEP
        } else {
            u64::MAX
        }
    }

    /// The list one line up, or the edited time shorter.
    pub fn settings_key_up(self) -> (s: SettingState)
        ensures
            s == key_up(self),
    {
        let mut s = self;
        if let SettingMode::Settings { select, editing } = self.mode {
            if editing {
                if select == 0 {
                    s.read_sleep_seconds = Self::shorten(self.read_sleep_seconds, READ_SLEEP_MIN);
                } else if select == 1 {
                    s.weather_sleep_seconds = Self::shorten(
                        self.weather_sleep_seconds,
                        WEATHER_SLEEP_MIN,
                    );
                }
            } else if select > 0 {
                s.mode = SettingMode::Settings { select: select - 1, editing: false };
            }
            s.need_render = true;
        }
        s
    }

    /// The list one line down, or the edited time longer.
    pub fn settings_key_down(self) -> (s: SettingState)
        ensures
            s == key_down(self),
    {
        let mut s = self;
        if let SettingMode::Settings { select, editing } = self.mode {
            if editing {
                if select == 0 {
                    s.read_sleep_seconds = Self::lengthen(self.read_sleep_seconds);
                } else if select == 1 {
                    s.weather_sleep_seconds = Self::lengthen(self.weather_sleep_seconds);
                }
            } else if select < SETTINGS_COUNT - 1 {
                s.mode = SettingMode::Settings { select: select + 1, editing: false };
            }
            s.need_render = true;
        }
        s
    }

    /// The chosen line taken up.
    pub fn settings_key_confirm(self) -> (s: SettingState)
        ensures
            s == confirmed(self),
    {
        let mut s = self;
        if let SettingMode::Settings { select, editing } = self.mode {
            if editing {
                s.mode = SettingMode::Settings { select, editing: false };
            } else if select == 0 || select == 1 {
                s.mode = SettingMode::Settings { select, editing: true };
            } else if select == 2 {
                s.mode = SettingMode::Locate;
                s.locate_state = LocatePhase::Idle;
            } else if select == 3 {
                s.mode = SettingMode::QrCode;
            } else if select == 4 {
                match self.wifi_model {
                    Some(WifiModel::STA) => {
                        s.running = false;
                    },
                    _ => {
                        s.mode = SettingMode::QrCode;
                    },
                }
            }
            s.need_render = true;
        }
        s
    }

    /// Back from finding the location.
    pub fn exit_locate(self) -> (s: SettingState)
        ensures
            s == locate_left(self),
    {
        SettingState {
            mode: SettingMode::Settings { select: 2, editing: false },
            locate_state: LocatePhase::Idle,
            last_location_loaded: false,
            need_render: true,
            ..self
        }
    }

    fn editing(self) -> (b: bool)
        ensures
            b == is_editing(self),
    {
        match self.mode {
            SettingMode::Settings { editing, .. } => editing,
            _ => false,
        }
    }

    /// A key held over the code or an edited time.
    fn hold1(self, now: u64) -> (s: SettingState)
        requires
            self.long_start_time <= now,
        ensures
            s == held1(self, now),
    {
        if self.editing() {
            return self.settings_key_up();
        }
        let mut s = self;
        if let SettingMode::QrCode = self.mode {
            if s.long_start_time == 0 {
                s.long_start_time = now;
            }
            s.need_render = true;
            if now - s.long_start_time > RESET_SECONDS {
                s.reinit = true;
            }
        }
        s
    }

    /// The state after an event at the second `now`, and what it asks of the caller.
    pub fn handle_event(self, e: EventType, now: u64) -> (r: (SettingState, SettingOutcome))
        requires
            self.valid(),
            self.long_start_time <= now,
        ensures
            r.0 == after(self, e, now),
            r.1 == outcome(self, e),
            r.0.valid(),
            r.0.long_start_time <= now,
    {
        let mut o = SettingOutcome { lut: Lut::Keep, delay_ms: 0, save_sleep: false };
        let mut s = self;
        if e == EventType::KeyShort(1) {
            match self.mode {
                SettingMode::Settings { .. } => {
                    s = self.settings_key_down();
                },
                SettingMode::QrCode => {
                    o.lut = Lut::FullThenQuick;
                    s.need_render = true;
                },
                SettingMode::Locate => {
                    if self.locate_state != LocatePhase::Requesting {
                        s.locate_state = LocatePhase::Requesting;
                        s.need_render = true;
                    }
                },
            }
        } else if e == EventType::KeyShort(3) {
            match self.mode {
                SettingMode::Settings { .. } => {
                    o.save_sleep = self.editing();
                    s = self.settings_key_confirm();
                    if let SettingMode::QrCode = s.mode {
                        o.lut = Lut::Full;
                    }
                },
                SettingMode::QrCode => {
                    s.mode = SettingMode::Settings { select: 3, editing: false };
                    s.need_render = true;
                    o.lut = Lut::Quick;
                },
                SettingMode::Locate => {
                    if self.locate_state != LocatePhase::Requesting {
                        s = self.exit_locate();
                    }
                },
            }
        } else if e == EventType::KeyShort(2) {
            match self.mode {
                SettingMode::QrCode => {
                    s.mode = SettingMode::Settings { select: 0, editing: false };
                    s.need_render = true;
                    o.lut = Lut::Quick;
                },
                SettingMode::Settings { .. } => {
                    s = self.settings_key_up();
                },
                SettingMode::Locate => {
                    if self.locate_state != LocatePhase::Requesting {
                        s = self.exit_locate();
                    }
                },
            }
        } else if e == EventType::KeyLongStart(1) {
            if let SettingMode::QrCode = self.mode {
                s.long_start_time = now;
            }
        } else if e == EventType::KeyLongIng(1) {
            s = self.hold1(now);
            if self.editing() {
                o.delay_ms = 200;
            }
        } else if e == EventType::KeyLongEnd(1) {
            s.long_start_time = 0;
        } else if e == EventType::KeyLongIng(2) {
            if self.editing() {
                s = self.settings_key_down();
                o.delay_ms = 200;
            }
        }
        (s, o)
    }
}

/// Making a time shorter never takes it below its least, and making it longer and shorter again
/// gives it back.
pub proof fn law_times_keep_their_least(t: u64, min: u64)
    requires
        min >= SLEEP_STEP,
    ensures
        t >= min ==> shorter(t, min) >= min,
        t < min ==> shorter(t, min) == t,
        t >= min && t + SLEEP_STEP <= u64::MAX ==> shorter(longer(t), min) == t,
{
}

/// A reset takes a key held over the code, for longer than the time it takes.
pub proof fn law_reset_takes_a_long_press(s: SettingState, e: EventType, now: u64)
    requires
        s.valid(),
        s.long_start_time <= now,
        !s.reinit,
        after(s, e, now).reinit,
    ensures
        s.mode is QrCode,
        e == EventType::KeyLongIng(1),
        0 < s.long_start_time,
        now - s.long_start_time > RESET_SECONDS,
{
}

/// Whether the web page is to be served or no longer served.
#[derive(Clone, Copy, Debug, PartialEq, Eq, Structural)]
pub enum WebCommand {
    Keep,
    Start,
    Stop,
}

/// A pair of texts.
pub open spec fn pair(p: Option<(String, String)>) -> Option<(Seq<char>, Seq<char>)> {
    match p {
        Some((a, b)) => Some((a@, b@)),
        None => None,
    }
}

impl SettingPage {
    /// The page with the stored times, or with the standard ones where they are nought.
    pub fn new(read_sleep: u64, weather_sleep: u64) -> (p: SettingPage)
        ensures
            p.state == (SettingState {
                need_render: false,
                running: false,
                long_start_time: 0,
                reinit: false,
                wifi_model: None,
                mode: SettingMode::QrCode,
                locate_state: LocatePhase::Idle,
                web_service_running: false,
                last_location_loaded: false,
                read_sleep_seconds: if read_sleep > 0 {
                    read_sleep
                } else {
                    120
                },
                weather_sleep_seconds: if weather_sleep > 0 {
                    weather_sleep
                } else {
                    60
                },
            }),
            p.located is None,
            p.last_location is None,
            p.state.valid(),
    {
        SettingPage {
            state: SettingState {
                need_render: false,
                running: false,
                long_start_time: 0,
                reinit: false,
                wifi_model: None,
                mode: SettingMode::QrCode,
                locate_state: LocatePhase::Idle,
                web_service_running: false,
                last_location_loaded: false,
                read_sleep_seconds: if read_sleep > 0 {
                    read_sleep
                } else {
                    120
                },
                weather_sleep_seconds: if weather_sleep > 0 {
                    weather_sleep
                } else {
                    60
                },
            },
            located: None,
            last_location: None,
        }
    }

    /// Opens the page: with the code while the device is set up for the first time, and with the
    /// list otherwise.
    pub fn start(&mut self, wifi_model: Option<WifiModel>)
        ensures
            final(self).state == (SettingState {
                running: true,
                need_render: true,
                wifi_model: if wifi_model is Some {
                    wifi_model
                } else {
                    old(self).state.wifi_model
                },
                mode: if wifi_model == Some(WifiModel::AP) {
                    SettingMode::QrCode
                } else {
                    SettingMode::Settings { select: 0, editing: false }
                },
                ..old(self).state
            }),
            final(self).located == old(self).located,
            final(self).last_location == old(self).last_location,
            final(self).state.valid(),
    {
        self.state.running = true;
        self.state.need_render = true;
        if wifi_model.is_some() {
            self.state.wifi_model = wifi_model;
        }
        self.state.mode = match wifi_model {
            Some(WifiModel::AP) => SettingMode::QrCode,
            _ => SettingMode::Settings { select: 0, editing: false },
        };
    }

    /// Whether the web page is to be served: only while the code is shown.
    pub fn web_command(&mut self) -> (w: WebCommand)
        ensures
            final(self).state == (SettingState {
                web_service_running: old(self).state.mode is QrCode,
                ..old(self).state
            }),
            final(self).located == old(self).located,
            final(self).last_location == old(self).last_location,
            w == (if (old(self).state.mode is QrCode) == old(self).state.web_service_running {
                WebCommand::Keep
            } else if old(self).state.mode is QrCode {
                WebCommand::Start
            } else {
                WebCommand::Stop
            }),
    {
        let need: bool = match self.state.mode {
            SettingMode::QrCode => true,
            _ => false,
        };
        let running: bool = self.state.web_service_running;
        self.state.web_service_running = need;
        if need && !running {
            WebCommand::Start
        } else if !need && running {
            WebCommand::Stop
        } else {
            WebCommand::Keep
        }
    }

    /// Takes in the stored location, a city and its coordinates, where it could be read, when the
    /// search for the location is opened. Without coordinates there is none.
    pub fn load_last_location(&mut self, stored: Option<(String, String)>)
        ensures
            final(self).state == (SettingState { last_location_loaded: true, ..old(self).state }),
            pair(final(self).last_location) == (match pair(stored) {
                Some((name, latlon)) => if latlon.len() > 0 {
                    Some((name, latlon))
                } else {
                    None
                },
                None => None,
            }),
            final(self).located == old(self).located,
    {
        self.state.last_location_loaded = true;
        self.last_location = None;
        if let Some((name, latlon)) = stored {
            if !latlon.as_str().is_empty() {
                self.last_location = Some((name, latlon));
            }
        }
    }

    /// Takes in the location that was found, where one was.
    pub fn do_locate(&mut self, found: Option<(String, String)>)
        ensures
            final(self).state == (SettingState {
                locate_state: if found is Some {
                    LocatePhase::Success
                } else {
                    LocatePhase::Failed
                },
                need_render: true,
                ..old(self).state
            }),
            pair(final(self).located) == pair(found),
            final(self).last_location == old(self).last_location,
    {
        self.state.locate_state = if found.is_some() {
            LocatePhase::Success
        } else {
            LocatePhase::Failed
        };
        self.state.need_render = true;
        self.located = found;
    }

    /// What is looked up or searched for next: the stored location, then a new one.
    pub fn locate_tasks(&self) -> (r: (bool, bool))
        ensures
            r.0 == (self.state.mode is Locate && !self.state.last_location_loaded),
            r.1 == (self.state.mode is Locate && self.state.locate_state
                == LocatePhase::Requesting),
    {
        match self.state.mode {
            SettingMode::Locate => (
                !self.state.last_location_loaded,
                self.state.locate_state == LocatePhase::Requesting,
            ),
            _ => (false, false),
        }
    }

    /// Takes in that the device has got an address: only the code shows it.
    pub fn ip_arrived(&mut self)
        ensures
            final(self).state == (SettingState {
                need_render: old(self).state.need_render || old(self).state.mode is QrCode,
                ..old(self).state
            }),
            final(self).located == old(self).located,
            final(self).last_location == old(self).last_location,
    {
        if let SettingMode::QrCode = self.state.mode {
            self.state.need_render = true;
        }
    }

    /// How the panel refreshes once the page was drawn in a pass: after the first picture, which is
    /// shown in full, the list is shown quickly; the code goes on in full.
    pub fn drawn(&self, first: bool) -> (l: Lut)
        ensures
            l == (if first && self.state.mode is Settings {
                Lut::Quick
            } else {
                Lut::Keep
            }),
    {
        match self.state.mode {
            SettingMode::Settings { .. } if first => Lut::Quick,
            _ => Lut::Keep,
        }
    }

    /// Ends the page: the web page is no longer served, and the panel refreshes quickly.
    pub fn finish(&mut self) -> (r: (WebCommand, Lut))
        ensures
            final(self).state == (SettingState { web_service_running: false, ..old(self).state }),
            final(self).located == old(self).located,
            final(self).last_location == old(self).last_location,
            r.0 == (if old(self).state.web_service_running {
                WebCommand::Stop
            } else {
                WebCommand::Keep
            }),
            r.1 == Lut::Quick,
    {
        let w = if self.state.web_service_running {
            WebCommand::Stop
        } else {
            WebCommand::Keep
        };
        self.state.web_service_running = false;
        (w, Lut::Quick)
    }
}

/// A text that begins at a point of its base line.
pub open spec fn line_at(x: int, y: int) -> Anchor {
    Anchor {
        x: x as i32,
        y: y as i32,
        v: VPos::Baseline,
        h: HPos::Left,
        ink: Ink::Black,
        face: Face::Wqy12Bold,
    }
}

fn line_anchor(x: i32, y: i32) -> (a: Anchor)
    ensures
        a == line_at(x as int, y as int),
{
    Anchor {
        x,
        y,
        v: VPos::Baseline,
        h: HPos::Left,
        ink: Ink::Black,
        face: Face::Wqy12Bold,
    }
}

/// The line of a time, marked while it is edited.
pub open spec fn time_line(label: Seq<char>, t: u64, editing: bool) -> Seq<char> {
    if editing {
        label + ">>"@ + dec(t as nat) + "s<<"@
    } else {
        label + dec(t as nat) + "s"@
    }
}

/// The lines of the list of settings.
pub open spec fn setting_lines(s: SettingState, select: int, editing: bool) -> Seq<Seq<char>> {
    seq![
        time_line("阅读睡眠: "@, s.read_sleep_seconds, editing && select == 0),
        time_line("天气睡眠: "@, s.weather_sleep_seconds, editing && select == 1),
        "自动定位"@,
        "web配置"@,
        "返回"@,
    ]
}

/// What the list of settings looks like on a panel of this size.
pub open spec fn settings_ops(s: SettingState, select: int, editing: bool, w: u32, h: u32) -> Seq<
    Op,
> {
    seq![
        Op::Clear(Ink::White),
        Op::Menu(setting_lines(s, select, editing), select, Area { x: 0, y: 0, w, h }),
    ]
}

/// The lines about the location found before, and where the next one would go.
pub open spec fn last_location_ops(c: Seq<Op>, last: Option<(Seq<char>, Seq<char>)>) -> Seq<Op> {
    match last {
        Some((city, latlon)) => {
            let named = city.len() > 0;
            let placed = latlon.contains(':');
            let c1 = if named {
                c.push(Op::Text("城市:"@ + city, line_at(10, 48)))
            } else {
                c
            };
            let c2 = if placed {
                c1.push(
                    Op::Text(
                        "坐标:"@ + latlon,
                        line_at(
                            10,
                            if named {
                                68
                            } else {
                                48
                            },
                        ),
                    ),
                )
            } else {
                c1
            };
            if named || placed {
                c2
            } else {
                c2.push(Op::Text("未定位"@, line_at(10, 48)))
            }
        },
        None => c.push(Op::Text("未定位"@, line_at(10, 48))),
    }
}

/// What the search for the location looks like.
pub open spec fn locate_ops(
    phase: LocatePhase,
    located: Option<(Seq<char>, Seq<char>)>,
    last: Option<(Seq<char>, Seq<char>)>,
) -> Seq<Op> {
    let c = seq![Op::Clear(Ink::White)];
    match phase {
        LocatePhase::Idle => last_location_ops(
            c.push(Op::Text("自动定位"@, line_at(10, 20))),
            last,
        ).push(Op::Text("按左键开始定位"@, line_at(10, 100))).push(
            Op::Text("右键返回"@, line_at(10, 120)),
        ),
        LocatePhase::Requesting => c.push(Op::Text("正在定位..."@, line_at(10, 20))),
        LocatePhase::Success => {
            let (city, latlon) = match located {
                Some(p) => p,
                None => (seq![], seq![]),
            };
            c.push(Op::Text("定位成功"@, line_at(10, 20))).push(
                Op::Text("城市:"@ + city, line_at(10, 44)),
            ).push(Op::Text("经纬度:"@ + latlon, line_at(10, 64))).push(
                Op::Text("左键重新定位 右键返回"@, line_at(10, 92)),
            )
        },
        LocatePhase::Failed => c.push(Op::Text("定位失败"@, line_at(10, 20))).push(
            Op::Text("请检查网络"@, line_at(10, 44)),
        ).push(Op::Text("左键重试 右键返回"@, line_at(10, 72))),
    }
}

/// The address of the device's web page.
pub open spec fn web_address(ip: Seq<char>) -> Seq<char> {
    "http://"@ + ip + ":80"@
}

/// `c` with the hints beside the code, and the height below them.
pub open spec fn hint_ops(c: Seq<Op>, model: Option<WifiModel>, x: int) -> (Seq<Op>, int) {
    match model {
        Some(WifiModel::AP) => (
            c.push(Op::Text("手机连接设备wifi"@, line_at(x, 30))).push(
                Op::Text("热点后配网"@, line_at(x, 46)),
            ),
            62,
        ),
        Some(WifiModel::STA) => (
            c.push(Op::Text("扫码或输入地址配置"@, line_at(x, 30))).push(
                Op::Text("按中键返回菜单"@, line_at(x, 46)),
            ).push(Op::Text("长按左键10秒重置"@, line_at(x, 62))),
            78,
        ),
        None => (c, 46),
    }
}

/// What the code looks like at the second `now` on a panel of width `w`.
pub open spec fn code_ops(s: SettingState, ip: Seq<char>, w: u32, now: u64) -> Seq<Op> {
    let half = (w / 2) as u32;
    let x = half + 8;
    let c = seq![
        Op::Clear(Ink::White),
        Op::Qr(web_address(ip), Area { x: 0, y: 0, w: half, h: half }),
        Op::Text(
            if ip.len() == 0 {
                "正在连接网络"@
            } else {
                "地址："@ + web_address(ip)
            },
            line_at(x, 10),
        ),
    ];
    let (d, y) = hint_ops(c, s.wifi_model, x);
    if s.reinit {
        d.push(Op::Text("正在重置设备"@, line_at(x, y)))
    } else if s.long_start_time > 0 {
        d.push(
            Op::Text("已长按："@ + dec((now - s.long_start_time) as nat) + " 秒"@, line_at(x, y)),
        )
    } else {
        d
    }
}

impl SettingPage {
    /// The line of a time.
    fn show_time(label: &str, t: u64, editing: bool) -> (s: String)
        ensures
            s@ == time_line(label@, t, editing),
    {
        let digits = dec_text(t);
        if editing {
            let mut s = join3(label, ">>", digits.as_str());
            s.append("s<<");
            s
        } else {
            join3(label, digits.as_str(), "s")
        }
    }

    /// Draws the list of settings.
    fn render_settings(&self, select: usize, editing: bool, w: u32, h: u32) -> (c: Canvas)
        ensures
            c@ == settings_ops(self.state, select as int, editing, w, h),
    {
        let mut c = Canvas::new();
        c.clear(Ink::White);
        let mut items: Vec<String> = Vec::new();
        items.push(
            Self::show_time("阅读睡眠: ", self.state.read_sleep_seconds, editing && select == 0),
        );
        items.push(
            Self::show_time("天气睡眠: ", self.state.weather_sleep_seconds, editing && select == 1),
        );
        items.push("自动定位".to_owned());
        items.push("web配置".to_owned());
        items.push("返回".to_owned());
        proof {
            lemma_texts(items@);
            assert(texts(items@) =~= setting_lines(self.state, select as int, editing));
        }
        c.add_op(DrawOp::Menu(items, select, Area { x: 0, y: 0, w, h }));
        assert(c@ =~= settings_ops(self.state, select as int, editing, w, h));
        c
    }

    /// Draws what is known of the location found before.
    fn render_last_location(&self, c: &mut Canvas)
        ensures
            final(c)@ == last_location_ops(old(c)@, pair(self.last_location)),
    {
        let mut y: i32 = 48;
        let mut shown: bool = false;
        if let Some((city, latlon)) = &self.last_location {
            if !city.as_str().is_empty() {
                c.text(join("城市:", city.as_str()), line_anchor(10, y));
                y = 68;
                shown = true;
            }
            if has_char(latlon.as_str(), ':') {
                c.text(join("坐标:", latlon.as_str()), line_anchor(10, y));
                shown = true;
            }
        }
        if !shown {
            c.label("未定位", line_anchor(10, 48));
        }
    }

    /// Draws the search for the location.
    fn render_locate(&self) -> (c: Canvas)
        ensures
            c@ == locate_ops(
                self.state.locate_state,
                pair(self.located),
                pair(self.last_location),
            ),
    {
        let mut c = Canvas::new();
        c.clear(Ink::White);
        assert(c@ =~= seq![Op::Clear(Ink::White)]);
        match self.state.locate_state {
            LocatePhase::Idle => {
                c.label("自动定位", line_anchor(10, 20));
                self.render_last_location(&mut c);
                c.label("按左键开始定位", line_anchor(10, 100));
                c.label("右键返回", line_anchor(10, 120));
            },
            LocatePhase::Requesting => {
                c.label("正在定位...", line_anchor(10, 20));
            },
            LocatePhase::Success => {
                c.label("定位成功", line_anchor(10, 20));
                match &self.located {
                    Some((city, latlon)) => {
                        c.text(join("城市:", city.as_str()), line_anchor(10, 44));
                        c.text(join("经纬度:", latlon.as_str()), line_anchor(10, 64));
                    },
                    None => {
                        let empty = String::new();
                        c.text(join("城市:", empty.as_str()), line_anchor(10, 44));
                        c.text(join("经纬度:", empty.as_str()), line_anchor(10, 64));
                    },
                }
                c.label("左键重新定位 右键返回", line_anchor(10, 92));
            },
            LocatePhase::Failed => {
                c.label("定位失败", line_anchor(10, 20));
                c.label("请检查网络", line_anchor(10, 44));
                c.label("左键重试 右键返回", line_anchor(10, 72));
            },
        }
        c
    }

    /// Draws the code and the hints beside it.
    fn render_code(&self, ip: &str, w: u32, now: u64) -> (c: Canvas)
        requires
            w <= 0x1_0000,
            self.state.long_start_time <= now,
        ensures
            c@ == code_ops(self.state, ip@, w, now),
    {
        let mut c = Canvas::new();
        c.clear(Ink::White);
        let url = join3("http://", ip, ":80");
        let half: u32 = w / 2;
        let x: i32 = half as i32 + 8;
        c.add_op(DrawOp::Qr(url.clone(), Area { x: 0, y: 0, w: half, h: half }));
        if ip.is_empty() {
            c.label("正在连接网络", line_anchor(x, 10));
        } else {
            c.text(join("地址：", url.as_str()), line_anchor(x, 10));
        }
        proof {
            assert(c@ =~= seq![
                Op::Clear(Ink::White),
                Op::Qr(web_address(ip@), Area { x: 0, y: 0, w: half, h: half }),
                Op::Text(
                    if ip@.len() == 0 {
                        "正在连接网络"@
                    } else {
                        "地址："@ + web_address(ip@)
                    },
                    line_at(x as int, 10),
                ),
            ]);
        }
        let y: i32 = match self.state.wifi_model {
            Some(WifiModel::AP) => {
                c.label("手机连接设备wifi", line_anchor(x, 30));
                c.label("热点后配网", line_anchor(x, 46));
                62
            },
            Some(WifiModel::STA) => {
                c.label("扫码或输入地址配置", line_anchor(x, 30));
                c.label("按中键返回菜单", line_anchor(x, 46));
                c.label("长按左键10秒重置", line_anchor(x, 62));
                78
            },
            None => 46,
        };
        if self.state.reinit {
            c.label("正在重置设备", line_anchor(x, y));
        } else if self.state.long_start_time > 0 {
            let secs: u64 = now - self.state.long_start_time;
            c.text(join3("已长按：", dec_text(secs).as_str(), " 秒"), line_anchor(x, y));
        }
        c
    }

    /// Draws the page where that is due, at the second `now`, on a panel of this size. The second
    /// part of the result says that the device is to be reset then.
    pub fn render(&mut self, ip: &str, w: u32, h: u32, now: u64) -> (r: (Option<Canvas>, bool))
        requires
            w <= 0x1_0000,
            old(self).state.long_start_time <= now,
        ensures
            final(self).state == (SettingState { need_render: false, ..old(self).state }),
            final(self).located == old(self).located,
            final(self).last_location == old(self).last_location,
            r.0 is Some <==> old(self).state.need_render,
            r.0 is Some ==> r.0->0@ == (match old(self).state.mode {
                SettingMode::Settings { select, editing } => settings_ops(
                    old(self).state,
                    select as int,
                    editing,
                    w,
                    h,
                ),
                SettingMode::Locate => locate_ops(
                    old(self).state.locate_state,
                    pair(old(self).located),
                    pair(old(self).last_location),
                ),
                SettingMode::QrCode => code_ops(old(self).state, ip@, w, now),
            }),
            r.1 == (old(self).state.need_render && old(self).state.mode is QrCode && old(
                self,
            ).state.reinit),
    {
        if !self.state.need_render {
            return (None, false);
        }
        let (c, reset): (Canvas, bool) = match self.state.mode {
            SettingMode::Settings { select, editing } => (
                self.render_settings(select, editing, w, h),
                false,
            ),
            SettingMode::Locate => (self.render_locate(), false),
            SettingMode::QrCode => (self.render_code(ip, w, now), self.state.reinit),
        };
        self.state.need_render = false;
        (Some(c), reset)
    }
}

/// The lines of the settings do what they say: two times to change, the search for the place, the
/// page in the web, and the way back; they stand in this order.
#[verifier::rlimit(50)]
pub proof fn law_settings_do_what_they_say(s: SettingState, select: usize)
    requires
        s.mode == (SettingMode::Settings { select, editing: false }),
        select < 5,
    ensures
        ({
            let t = setting_lines(s, select as int, false)[select as int][0];
            let a = after(s, EventType::KeyShort(3), 0);
            &&& t == '阅' <==> select == 0
            &&& t == '天' <==> select == 1
            &&& t == '自' <==> select == 2
            &&& t == 'w' <==> select == 3
            &&& t == '返' <==> select == 4
            &&& t == '阅' || t == '天' ==> a.mode == (SettingMode::Settings { select, editing: true })
            &&& t == '自' ==> a.mode is Locate && a.locate_state == LocatePhase::Idle
            &&& t == 'w' ==> a.mode is QrCode
            &&& t == '返' && s.wifi_model == Some(WifiModel::STA) ==> !a.running
            &&& t != '返' ==> a.running == s.running
            &&& a.read_sleep_seconds == s.read_sleep_seconds && a.weather_sleep_seconds
                == s.weather_sleep_seconds
        }),
{
    reveal_strlit("阅读睡眠: ");
    reveal_strlit("天气睡眠: ");
    reveal_strlit("自动定位");
    reveal_strlit("web配置");
    reveal_strlit("返回");
}

/// A time that is changed goes up by five seconds with the first key and down with the second, the
/// one of the line that is edited and no other; what is shown reads back.
pub proof fn law_times_are_changed_by_five(s: SettingState, select: usize)
    requires
        s.mode == (SettingMode::Settings { select, editing: true }),
        select < 2,
        15 <= s.read_sleep_seconds <= 0xffff_ffff,
        15 <= s.weather_sleep_seconds <= 0xffff_ffff,
    ensures
        ({
            let a = after(s, EventType::KeyShort(1), 0);
            let b = after(s, EventType::KeyShort(2), 0);
            let line = setting_lines(s, select as int, true)[select as int];
            let t = if select == 0 {
                s.read_sleep_seconds
            } else {
                s.weather_sleep_seconds
            };
            &&& select == 0 ==> a.read_sleep_seconds == s.read_sleep_seconds + 5 && b.read_sleep_seconds
                == s.read_sleep_seconds - 5
            &&& select == 1 ==> a.weather_sleep_seconds == s.weather_sleep_seconds + 5
                && b.weather_sleep_seconds == s.weather_sleep_seconds - 5
            &&& select == 0 ==> a.weather_sleep_seconds == s.weather_sleep_seconds
                && b.weather_sleep_seconds == s.weather_sleep_seconds
            &&& select == 1 ==> a.read_sleep_seconds == s.read_sleep_seconds && b.read_sleep_seconds
                == s.read_sleep_seconds
            &&& num_of(line.subrange(8, line.len() - 3)) == t
        }),
{
    reveal_strlit("阅读睡眠: ");
    reveal_strlit("天气睡眠: ");
    reveal_strlit(">>");
    reveal_strlit("s<<");
    let line = setting_lines(s, select as int, true)[select as int];
    let t = if select == 0 {
        s.read_sleep_seconds
    } else {
        s.weather_sleep_seconds
    };
    law_numbers_read_back(t as nat);
    assert(line.subrange(8, line.len() - 3) =~= dec(t as nat));
}

/// The first key goes down the list of the settings and the second up.
pub proof fn law_keys_of_the_settings(s: SettingState, select: usize)
    requires
        s.mode == (SettingMode::Settings { select, editing: false }),
        select < 5,
    ensures
        select < 4 ==> after(s, EventType::KeyShort(1), 0).mode == (SettingMode::Settings {
            select: (select + 1) as usize,
            editing: false,
        }),
        select > 0 ==> after(s, EventType::KeyShort(2), 0).mode == (SettingMode::Settings {
            select: (select - 1) as usize,
            editing: false,
        }),
        select == 4 ==> after(s, EventType::KeyShort(1), 0).mode == s.mode,
        select == 0 ==> after(s, EventType::KeyShort(2), 0).mode == s.mode,
{
}

/// While the place is searched for no key does anything; before and after, the first key searches and
/// the others lead back to the list.
pub proof fn law_search_is_not_disturbed(s: SettingState)
    requires
        s.mode is Locate,
    ensures
        ({
            let busy = s.locate_state == LocatePhase::Requesting;
            let a = after(s, EventType::KeyShort(1), 0);
            let b = after(s, EventType::KeyShort(2), 0);
            let c = after(s, EventType::KeyShort(3), 0);
            &&& busy ==> a == s && b == s && c == s
            &&& !busy ==> a.locate_state == LocatePhase::Requesting && a.mode is Locate
            &&& !busy ==> b.mode == (SettingMode::Settings { select: 2, editing: false })
            &&& !busy ==> c.mode == (SettingMode::Settings { select: 2, editing: false })
        }),
{
}

} // verus!
