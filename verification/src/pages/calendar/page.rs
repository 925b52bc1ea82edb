//! The calendar page.
use vstd::prelude::*;

use crate::event::EventType;
use crate::months::{month_after, month_before};
use crate::pages::watch::{is_after_pass, pass_of, Pass, Sight, Watch};
use crate::pages::weather::page::{task_of, WeatherTask};

verus! {

/// A day, and the time of the clock.
#[derive(Clone, Copy, Debug, PartialEq, Eq, Structural)]
pub struct Moment {
    pub year: i32,
    pub month: u8,
    pub day: u8,
    pub hour: u8,
    pub minute: u8,
}

impl Moment {
    /// There is such a moment.
    pub open spec fn valid(self) -> bool {
        &&& -9999 <= self.year <= 9999
        &&& 1 <= self.month <= 12
        &&& 1 <= self.day <= 31
        &&& self.hour < 24
        &&& self.minute < 60
    }

    /// There is a month after it, or before it.
    pub open spec fn can_turn(self, forward: bool) -> bool {
        if forward {
            self.month < 12 || self.year < 9999
        } else {
            self.month > 1 || self.year > -9999
        }
    }

    /// The months since the year nought.
    pub open spec fn months(self) -> int {
        self.year * 12 + self.month - 1
    }
}

/// The calendar page.
pub struct CalendarPage {
    pub running: bool,
    /// The moment that is shown.
    pub current_date: Option<Moment>,
    pub watch: Watch,
}

/// The month before the one shown, or after it, as it is shown: with today marked where it is the
/// current month of the year shown, and with its first day marked where it is another or the turn
/// leads to another year.
pub open spec fn turned(shown: Moment, now: Moment, forward: bool) -> Moment {
    let month: int = if forward {
        if shown.month == 12 {
            1
        } else {
            shown.month + 1
        }
    } else {
        if shown.month == 1 {
            12
        } else {
            shown.month - 1
        }
    };
    let year: int = if forward && shown.month == 12 {
        shown.year + 1
    } else if !forward && shown.month == 1 {
        shown.year - 1
    } else {
        shown.year as int
    };
    if now.month == month && now.year == year && year == shown.year {
        now
    } else {
        Moment { year: year as i32, month: month as u8, day: 1, ..shown }
    }
}

/// Turns to the month before or after.
pub fn turn(shown: Moment, now: Moment, forward: bool) -> (m: Moment)
    requires
        shown.valid(),
        shown.can_turn(forward),
    ensures
        m == turned(shown, now, forward),
        now.valid() ==> m.valid(),
{
    let month: u8 = if forward {
        month_after(shown.month)
    } else {
        month_before(shown.month)
    };
    let year: i32 = if forward {
        if shown.month < 12 {
            shown.year
        } else {
            shown.year + 1
        }
    } else {
        if shown.month > 1 {
            shown.year
        } else {
            shown.year - 1
        }
    };
    if now.month == month && now.year == year && year == shown.year {
        return now;
    }
    Moment { year, month, day: 1, ..shown }
}

/// A key event turns the month, where the clock is running.
pub open spec fn turns(e: EventType, now: Option<Moment>) -> bool {
    now is Some && (e == EventType::KeyLongEnd(1) || e == EventType::KeyLongEnd(2))
}

/// The page after a key event, with the clock showing `now` where it is running.
pub open spec fn event_date(shown: Option<Moment>, e: EventType, now: Option<Moment>) -> Option<
    Moment,
> {
    if now is None {
        shown
    } else if e == EventType::KeyLongEnd(3) {
        now
    } else if shown is Some && (e == EventType::KeyLongEnd(1) || e == EventType::KeyLongEnd(2)) {
        Some(turned(shown->0, now->0, e == EventType::KeyLongEnd(2)))
    } else {
        shown
    }
}

/// A key event has the page drawn.
pub open spec fn event_draws(shown: Option<Moment>, e: EventType, now: Option<Moment>) -> bool {
    ||| (e == EventType::KeyLongEnd(1) || e == EventType::KeyLongEnd(2)) && shown is Some
    ||| e == EventType::KeyLongEnd(3) && now is Some
    ||| e == EventType::KeyShort(1)
    ||| e == EventType::KeyShort(2)
}

impl CalendarPage {
    /// The page before it runs.
    pub fn new() -> (p: CalendarPage)
        ensures
            !p.running,
            p.current_date is None,
            p.watch == (Watch {
                need_render: false,
                wait_sync_time: true,
                last_refresh_ms: 0,
                weather_last_update: None,
                holiday_sync_second: 0,
            }),
    {
        CalendarPage { running: false, current_date: None, watch: Watch::new() }
    }

    /// The page begins to run, and is drawn.
    pub fn start(&mut self, now_ms: u64)
        ensures
            final(self).running,
            final(self).current_date == old(self).current_date,
            final(self).watch == (Watch {
                need_render: true,
                wait_sync_time: true,
                last_refresh_ms: now_ms,
                weather_last_update: None,
                holiday_sync_second: 0,
            }),
    {
        self.running = true;
        self.watch = Watch::start(now_ms);
    }

    /// The page ends.
    pub fn back(&mut self)
        ensures
            *final(self) == (CalendarPage { running: false, ..*old(self) }),
    {
        self.running = false;
    }

    /// Goes through a pass of the loop: looks at the clock, which shows `time` where it is running, at
    /// the forecast and at the holidays.
    pub fn run(&mut self, s: Sight<'_>, time: Option<Moment>) -> (p: Pass)
        requires
            old(self).watch.last_refresh_ms <= s.now_ms,
        ensures
            p == pass_of(old(self).watch, s),
            is_after_pass(final(self).watch, old(self).watch, s),
            final(self).running == old(self).running,
            final(self).current_date == (if p.take_time && time is Some {
                time
            } else {
                old(self).current_date
            }),
    {
        let p = self.watch.pass(s);
        if p.take_time && time.is_some() {
            self.current_date = time;
        }
        p
    }

    /// Handles a key event: the first two keys, held, turn the month, and the third shows today; the
    /// first two, pressed, fetch anew, and the third ends the page.
    pub fn handle_event(&mut self, e: EventType, now: Option<Moment>) -> (task: WeatherTask)
        requires
            old(self).current_date matches Some(d) ==> turns(e, now) ==> d.valid() && d.can_turn(
                e == EventType::KeyLongEnd(2),
            ),
        ensures
            task == task_of(e),
            final(self).running == (old(self).running && e != EventType::KeyShort(3)),
            final(self).current_date == event_date(old(self).current_date, e, now),
            final(self).watch == (Watch {
                need_render: old(self).watch.need_render || event_draws(
                    old(self).current_date,
                    e,
                    now,
                ),
                ..old(self).watch
            }),
    {
        match e {
            EventType::KeyLongEnd(1) | EventType::KeyLongEnd(2) => {
                if let Some(shown) = self.current_date {
                    if let Some(n) = now {
                        self.current_date = Some(turn(shown, n, e == EventType::KeyLongEnd(2)));
                    }
                    self.watch.need_render = true;
                }
                WeatherTask::Nothing
            },
            EventType::KeyLongEnd(3) => {
                if now.is_some() {
                    self.current_date = now;
                    self.watch.need_render = true;
                }
                WeatherTask::Nothing
            },
            EventType::KeyShort(1) => {
                self.watch.need_render = true;
                WeatherTask::Weather
            },
            EventType::KeyShort(2) => {
                self.watch.need_render = true;
                WeatherTask::Holiday
            },
            EventType::KeyShort(3) => {
                self.running = false;
                WeatherTask::Nothing
            },
            _ => WeatherTask::Nothing,
        }
    }
}

/// A turn leads to the next month or the one before.
pub proof fn law_turns_go_by_months(shown: Moment, now: Moment, forward: bool)
    requires
        shown.valid(),
        now.valid(),
    ensures
        turned(shown, now, forward).months() == shown.months() + (if forward {
            1int
        } else {
            -1
        }),
{
}

/// A month turned away from and back to is shown again.
pub proof fn law_there_and_back(shown: Moment, now: Moment, forward: bool)
    requires
        shown.valid(),
        now.valid(),
    ensures
        turned(turned(shown, now, forward), now, !forward).months() == shown.months(),
{
}

/// A turn within a year marks today in the current month, and every other turn the first day.
pub proof fn law_turn_marks_a_day(shown: Moment, now: Moment, forward: bool)
    requires
        shown.valid(),
        now.valid(),
    ensures
        ({
            let t = turned(shown, now, forward);
            &&& t.months() != now.months() ==> t.day == 1
            &&& t.months() == now.months() && t.year == shown.year ==> t == now
            &&& t.year != shown.year ==> t.day == 1
        }),
{
}

/// The first key, held, turns to the month before, the second to the one after, and the third shows
/// today.
pub proof fn law_held_keys_turn_the_month(shown: Moment, now: Moment)
    requires
        shown.valid(),
        now.valid(),
        shown.can_turn(true),
        shown.can_turn(false),
    ensures
        event_date(Some(shown), EventType::KeyLongEnd(1), Some(now))->0.months() == shown.months() - 1,
        event_date(Some(shown), EventType::KeyLongEnd(2), Some(now))->0.months() == shown.months() + 1,
        event_date(Some(shown), EventType::KeyLongEnd(3), Some(now)) == Some(now),
        event_date(Some(shown), EventType::KeyShort(1), Some(now)) == Some(shown),
        event_date(Some(shown), EventType::KeyLongEnd(1), None) == Some(shown),
{
}

/// The page is drawn for every key that changes what it shows or fetches anew, and for no other.
pub proof fn law_page_is_drawn_for_its_keys(shown: Option<Moment>, now: Option<Moment>, e: EventType)
    ensures
        event_date(shown, e, now) != shown ==> event_draws(shown, e, now),
        e == EventType::KeyShort(1) || e == EventType::KeyShort(2) ==> event_draws(shown, e, now),
        e == EventType::KeyShort(3) ==> !event_draws(shown, e, now),
        shown is None && (e == EventType::KeyLongEnd(1) || e == EventType::KeyLongEnd(2)) ==> !event_draws(
            shown,
            e,
            now,
        ),
        now is None && e == EventType::KeyLongEnd(3) ==> !event_draws(shown, e, now),
{
}

} // verus!
