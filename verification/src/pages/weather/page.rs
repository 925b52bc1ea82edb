//! The weather page.
use vstd::prelude::*;

use crate::event::EventType;
use crate::model::daily::LocalTime;
use crate::pages::watch::{is_after_pass, pass_of, Pass, Sight, Watch};

verus! {

/// The weather page.
pub struct WeatherPage {
    pub running: bool,
    pub current_date: Option<LocalTime>,
    pub watch: Watch,
}

/// What is to be fetched after a key event.
#[derive(Clone, Copy, Debug, PartialEq, Eq, Structural)]
pub enum WeatherTask {
    Nothing,
    /// The forecast, with the page drawn before and after.
    Weather,
    /// The holidays, with the page drawn before and after.
    Holiday,
}

/// The task of a key event.
pub open spec fn task_of(e: EventType) -> WeatherTask {
    if e == EventType::KeyShort(1) {
        WeatherTask::Weather
    } else if e == EventType::KeyShort(2) {
        WeatherTask::Holiday
    } else {
        WeatherTask::Nothing
    }
}

impl WeatherPage {
    /// The page before it runs.
    pub fn new() -> (p: WeatherPage)
        ensures
            !p.running,
            p.current_date is None,
            p.watch == (Watch {
                need_render: false,
                wait_sync_time: true,
                last_refresh_ms: 0,
                weather_last_update: None,
                holiday_sync_second: 0,
            }),
    {
        WeatherPage { running: false, current_date: None, watch: Watch::new() }
    }

    /// The page begins to run, and is drawn.
    pub fn start(&mut self, now_ms: u64)
        ensures
            final(self).running,
            final(self).current_date == old(self).current_date,
            final(self).watch == (Watch {
                need_render: true,
                wait_sync_time: true,
                last_refresh_ms: now_ms,
                weather_last_update: None,
                holiday_sync_second: 0,
            }),
    {
        self.running = true;
        self.watch = Watch::start(now_ms);
    }

    /// The page ends.
    pub fn back(&mut self)
        ensures
            *final(self) == (WeatherPage { running: false, ..*old(self) }),
    {
        self.running = false;
    }

    /// Goes through a pass of the loop: looks at the clock, which shows `time` where it is running, at
    /// the forecast and at the holidays.
    pub fn run(&mut self, s: Sight<'_>, time: Option<LocalTime>) -> (p: Pass)
        requires
            old(self).watch.last_refresh_ms <= s.now_ms,
        ensures
            p == pass_of(old(self).watch, s),
            is_after_pass(final(self).watch, old(self).watch, s),
            final(self).running == old(self).running,
            final(self).current_date == (if p.take_time && time is Some {
                time
            } else {
                old(self).current_date
            }),
    {
        let p = self.watch.pass(s);
        if p.take_time && time.is_some() {
            self.current_date = time;
        }
        p
    }

    /// Handles a key event: the third key ends the page, and the others fetch anew. While something
    /// is fetched the page is to be drawn.
    pub fn handle_event(&mut self, e: EventType) -> (task: WeatherTask)
        ensures
            task == task_of(e),
            *final(self) == (if e == EventType::KeyShort(3) {
                WeatherPage { running: false, ..*old(self) }
            } else if !(task_of(e) is Nothing) {
                WeatherPage {
                    watch: Watch { need_render: true, ..old(self).watch },
                    ..*old(self)
                }
            } else {
                *old(self)
            }),
    {
        match e {
            EventType::KeyShort(1) => {
                self.watch.need_render = true;
                WeatherTask::Weather
            },
            EventType::KeyShort(2) => {
                self.watch.need_render = true;
                WeatherTask::Holiday
            },
            EventType::KeyShort(3) => {
                self.running = false;
                WeatherTask::Nothing
            },
            _ => WeatherTask::Nothing,
        }
    }
}

/// The first key fetches the forecast anew, the second the holidays, and no other anything.
pub proof fn law_keys_fetch_anew(e: EventType)
    ensures
        task_of(e) is Weather <==> e == EventType::KeyShort(1),
        task_of(e) is Holiday <==> e == EventType::KeyShort(2),
{
}

} // verus!
