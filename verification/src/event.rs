//! Key events: what a pressed key turns into.
use vstd::prelude::*;

verus! {

/// What the user did, with the number of the key.
#[derive(Clone, Copy, Debug, PartialEq, Eq, Structural)]
pub enum EventType {
    KeyShort(u32),
    KeyLongStart(u32),
    KeyLongIng(u32),
    KeyLongEnd(u32),
    KeyDouble(u32),
    WheelBack,
    WheelFront,
}

/// What a listener is told.
#[derive(Clone, Copy, Debug, PartialEq, Eq, Structural)]
pub struct EventInfo {
    pub ptr: Option<usize>,
}

/// A key counts as held above this many low readings out of a hundred.
pub const HELD_ABOVE: u32 = 80;

/// A key counts as released below this many low readings out of a hundred.
pub const RELEASED_BELOW: u32 = 2;

/// Held for longer than this many milliseconds, a press is long.
pub const LONG_PRESS_MS: u64 = 500;

/// A second press within this many milliseconds makes a double click.
pub const DOUBLE_CLICK_MS: u64 = 400;

/// While a key stays held, repeats are this many milliseconds apart.
pub const LONG_ING_INTERVAL_MS: u64 = 100;

/// How many listeners can be registered.
pub const LISTENER_MAX: usize = 20;

/// Follows one press of one key.
#[derive(Clone, Copy, Debug, PartialEq, Eq, Structural)]
pub struct KeyPress {
    pub begin_ms: u64,
    pub last_long_ing_ms: u64,
    pub is_long: bool,
    pub key_num: u32,
}

/// What to do after a key was looked at.
#[derive(Clone, Copy, Debug, PartialEq, Eq, Structural)]
pub enum KeyStep {
    /// Look at the key again in a millisecond.
    Wait,
    /// Tell the listeners, then look at the key again in a millisecond.
    Report(EventType),
    /// The key was let go early: see whether it is pressed a second time.
    AwaitSecond,
    /// Look at the key again at once.
    LookAgain,
    /// Tell the listeners; the press is over.
    Done(EventType),
}

impl KeyPress {
    /// A press that began at `now`.
    pub fn new(key_num: u32, now: u64) -> (k: KeyPress)
        ensures
            k == (KeyPress { begin_ms: now, last_long_ing_ms: now, is_long: false, key_num }),
    {
        KeyPress { begin_ms: now, last_long_ing_ms: now, is_long: false, key_num }
    }

    /// No time stamp lies after `now`.
    pub open spec fn at(self, now: u64) -> bool {
        self.begin_ms <= self.last_long_ing_ms <= now
    }

    /// What `low_times` low readings at `now` lead to.
    pub open spec fn step_for(self, low_times: u32, now: u64) -> KeyStep {
        if low_times > HELD_ABOVE {
            if now - self.begin_ms <= LONG_PRESS_MS {
                KeyStep::Wait
            } else if !self.is_long {
                KeyStep::Report(EventType::KeyLongStart(self.key_num))
            } else if now - self.last_long_ing_ms >= LONG_ING_INTERVAL_MS {
                KeyStep::Report(EventType::KeyLongIng(self.key_num))
            } else {
                KeyStep::Wait
            }
        } else if low_times < RELEASED_BELOW {
            if self.is_long {
                KeyStep::Done(EventType::KeyLongEnd(self.key_num))
            } else {
                KeyStep::AwaitSecond
            }
        } else {
            KeyStep::Wait
        }
    }

    /// Takes in how often out of a hundred readings the key was low.
    pub fn poll(&mut self, low_times: u32, now: u64) -> (step: KeyStep)
        requires
            old(self).at(now),
        ensures
            step == old(self).step_for(low_times, now),
            final(self).at(now),
            step is Report ==> *final(self) == (KeyPress {
                is_long: true,
                last_long_ing_ms: now,
                ..*old(self)
            }),
            !(step is Report) ==> *final(self) == *old(self),
    {
        if low_times > HELD_ABOVE {
            if now - self.begin_ms > LONG_PRESS_MS {
                if !self.is_long {
                    self.is_long = true;
                    self.last_long_ing_ms = now;
                    return KeyStep::Report(EventType::KeyLongStart(self.key_num));
                } else if now - self.last_long_ing_ms >= LONG_ING_INTERVAL_MS {
                    self.last_long_ing_ms = now;
                    return KeyStep::Report(EventType::KeyLongIng(self.key_num));
                }
            }
        } else if low_times < RELEASED_BELOW {
            if self.is_long {
                return KeyStep::Done(EventType::KeyLongEnd(self.key_num));
            } else {
                return KeyStep::AwaitSecond;
            }
        }
        KeyStep::Wait
    }

    /// Decides at `now` whether a second press is still waited for.
    pub fn await_second(&self, now: u64, double_click: bool) -> (step: KeyStep)
        requires
            self.begin_ms <= now,
        ensures
            step == (if !double_click || now - self.begin_ms > DOUBLE_CLICK_MS {
                KeyStep::Done(EventType::KeyShort(self.key_num))
            } else {
                KeyStep::LookAgain
            }),
    {
        if !double_click {
            return KeyStep::Done(EventType::KeyShort(self.key_num));
        }
        if now - self.begin_ms > DOUBLE_CLICK_MS {
            return KeyStep::Done(EventType::KeyShort(self.key_num));
        }
        KeyStep::LookAgain
    }

    /// Takes in the readings that were made while a second press was waited for.
    pub fn second_look(&self, low_times: u32) -> (step: KeyStep)
        ensures
            step == (if low_times > HELD_ABOVE {
                KeyStep::Done(EventType::KeyDouble(self.key_num))
            } else {
                KeyStep::AwaitSecond
            }),
    {
        if low_times > HELD_ABOVE {
            KeyStep::Done(EventType::KeyDouble(self.key_num))
        } else {
            KeyStep::AwaitSecond
        }
    }
}

/// Two reports of one long press are never closer together than the repeat interval, and the
/// first comes only once the press is long.
pub proof fn law_long_press_is_throttled(k: KeyPress, low_times: u32, now: u64)
    requires
        k.at(now),
        k.step_for(low_times, now) is Report,
    ensures
        now - k.begin_ms > LONG_PRESS_MS,
        k.is_long ==> now - k.last_long_ing_ms >= LONG_ING_INTERVAL_MS,
        k.step_for(low_times, now) == KeyStep::Report(EventType::KeyLongStart(k.key_num))
            <==> !k.is_long,
{
}

/// A press that was never reported long ends in a short or a double click, and one that was
/// ends in the end of a long press.
pub proof fn law_press_ends_as_it_went(k: KeyPress, low_times: u32, now: u64)
    requires
        k.at(now),
    ensures
        k.step_for(low_times, now) is Done ==> k.is_long && k.step_for(low_times, now)
            == KeyStep::Done(EventType::KeyLongEnd(k.key_num)),
        k.step_for(low_times, now) is AwaitSecond ==> !k.is_long,
{
}

/// How many good readings the voltage of the shared key line is averaged over.
pub const ADC_SAMPLES: u32 = 20;

/// After this many readings, good or bad, the line is given up.
pub const ADC_MAX_TRIES: u32 = 200;

/// Below this average the second key is pressed.
pub const AVG_KEY2: u32 = 200;

/// Above this average no key is pressed.
pub const AVG_NONE: u32 = 1000;

/// Tells the keys of the shared line apart by its voltage.
pub struct AdcJudge {
    pub need: u32,
    pub sum: u32,
    pub tries: u32,
    /// The readings taken in so far, `None` for each that failed.
    pub seen: Ghost<Seq<Option<u16>>>,
}

/// The key that an average reading belongs to, or nought for none.
pub open spec fn key_of_average(avg: int) -> usize {
    if avg > AVG_NONE {
        0
    } else if avg < AVG_KEY2 {
        2
    } else {
        3
    }
}

/// The good readings among `r`, in order.
pub open spec fn good_readings(r: Seq<Option<u16>>) -> Seq<u16>
    decreases r.len(),
{
    if r.len() == 0 {
        seq![]
    } else {
        let before = good_readings(r.drop_last());
        match r.last() {
            Some(v) => before.push(v),
            None => before,
        }
    }
}

/// The sum of some readings.
pub open spec fn sum_of(r: Seq<u16>) -> nat
    decreases r.len(),
{
    if r.len() == 0 {
        0
    } else {
        sum_of(r.drop_last()) + r.last() as nat
    }
}

impl AdcJudge {
    /// Nothing read yet.
    pub fn new() -> (j: AdcJudge)
        ensures
            j.open(),
            j.seen@ == Seq::<Option<u16>>::empty(),
    {
        let j = AdcJudge { need: ADC_SAMPLES, sum: 0, tries: 0, seen: Ghost(Seq::empty()) };
        assert(good_readings(Seq::<Option<u16>>::empty()) =~= Seq::<u16>::empty());
        j
    }

    /// No key has been decided on.
    pub open spec fn open(self) -> bool {
        let good = good_readings(self.seen@);
        &&& self.tries == self.seen@.len()
        &&& self.tries < ADC_MAX_TRIES
        &&& good.len() + self.need == ADC_SAMPLES
        &&& 0 < self.need
        &&& self.sum == sum_of(good)
        &&& self.sum <= 65535 * good.len()
    }

    /// Takes in one reading, `None` where it failed. The twentieth good reading decides by the
    /// average; the two hundredth reading gives up where too few were good.
    pub fn feed(&mut self, reading: Option<u16>) -> (key: Option<usize>)
        requires
            old(self).open(),
        ensures
            final(self).seen@ == old(self).seen@.push(reading),
            key == judged(final(self).seen@),
            key is None ==> final(self).open(),
    {
        let ghost all = self.seen@.push(reading);
        proof {
            assert(all.drop_last() =~= self.seen@);
            if let Some(v) = reading {
                assert(good_readings(all).drop_last() =~= good_readings(self.seen@));
            }
            self.seen@ = all;
        }
        self.tries = self.tries + 1;
        if let Some(v) = reading {
            self.sum = self.sum + v as u32;
            self.need = self.need - 1;
            if self.need == 0 {
                let avg: u32 = self.sum / ADC_SAMPLES;
                if avg > AVG_NONE {
                    return Some(0);
                }
                return Some(if avg < AVG_KEY2 { 2 } else { 3 });
            }
        }
        if self.tries >= ADC_MAX_TRIES {
            return Some(0);
        }
        None
    }
}

/// What the readings `r` decide: nothing while too few are good and more may come.
pub open spec fn judged(r: Seq<Option<u16>>) -> Option<usize> {
    if good_readings(r).len() >= ADC_SAMPLES {
        Some(key_of_average(sum_of(good_readings(r)) as int / ADC_SAMPLES as int))
    } else if r.len() >= ADC_MAX_TRIES {
        Some(0)
    } else {
        None
    }
}

/// Who is told of an event: the event, and what the call is given.
#[derive(Clone, Copy, Debug, PartialEq, Eq, Structural)]
pub struct Listener {
    pub event_type: EventType,
    pub ptr: Option<usize>,
    pub fixed: bool,
}

/// Those who are told of events, in the order in which they asked.
pub struct Listeners {
    pub list: Vec<Listener>,
}

/// Those among the first `n` who are told of an event, by their places.
pub open spec fn told(list: Seq<Listener>, e: EventType, n: int) -> Seq<(usize, EventInfo)>
    decreases n,
{
    if n <= 0 {
        seq![]
    } else if list[n - 1].event_type == e {
        told(list, e, n - 1).push(((n - 1) as usize, EventInfo { ptr: list[n - 1].ptr }))
    } else {
        told(list, e, n - 1)
    }
}

/// `list` with one more where there is room.
pub open spec fn joined(list: Seq<Listener>, l: Listener) -> Seq<Listener> {
    if list.len() < LISTENER_MAX {
        list.push(l)
    } else {
        list
    }
}

impl Listeners {
    /// Nobody.
    pub fn new() -> (l: Listeners)
        ensures
            l.list@.len() == 0,
    {
        Listeners { list: Vec::new() }
    }

    fn join(&mut self, l: Listener) -> (added: bool)
        ensures
            final(self).list@ == joined(old(self).list@, l),
            added == (old(self).list@.len() < LISTENER_MAX),
    {
        if self.list.len() < LISTENER_MAX {
            self.list.push(l);
            true
        } else {
            false
        }
    }

    /// Asks to be told of an event; says whether there was room.
    pub fn on(&mut self, event_type: EventType) -> (added: bool)
        ensures
            final(self).list@ == joined(
                old(self).list@,
                Listener { event_type, ptr: None, fixed: false },
            ),
            added == (old(self).list@.len() < LISTENER_MAX),
    {
        self.join(Listener { event_type, ptr: None, fixed: false })
    }

    /// Asks to be told of an event on behalf of a target.
    pub fn on_target(&mut self, event_type: EventType, target_ptr: usize) -> (added: bool)
        ensures
            final(self).list@ == joined(
                old(self).list@,
                Listener { event_type, ptr: Some(target_ptr), fixed: false },
            ),
            added == (old(self).list@.len() < LISTENER_MAX),
    {
        self.join(Listener { event_type, ptr: Some(target_ptr), fixed: false })
    }

    /// Asks to be told of an event on behalf of a target that stays.
    pub fn on_fixed(&mut self, event_type: EventType, target_ptr: usize) -> (added: bool)
        ensures
            final(self).list@ == joined(
                old(self).list@,
                Listener { event_type, ptr: Some(target_ptr), fixed: true },
            ),
            added == (old(self).list@.len() < LISTENER_MAX),
    {
        self.join(Listener { event_type, ptr: Some(target_ptr), fixed: true })
    }

    /// Nobody is told any more.
    pub fn clear(&mut self)
        ensures
            final(self).list@.len() == 0,
    {
        self.list = Vec::new();
    }

    /// Those who are told of an event, in their order.
    pub fn toggle_event(&self, event_type: EventType) -> (calls: Vec<(usize, EventInfo)>)
        ensures
            calls@ == told(self.list@, event_type, self.list@.len() as int),
    {
        let mut calls: Vec<(usize, EventInfo)> = Vec::new();
        let mut i: usize = 0;
        while i < self.list.len()
            invariant
                i <= self.list@.len(),
                calls@ =~= told(self.list@, event_type, i as int),
            decreases self.list@.len() - i,
        {
            if self.list[i].event_type == event_type {
                calls.push((i, EventInfo { ptr: self.list[i].ptr }));
            }
            i += 1;
        }
        calls
    }
}

/// One who asked for an event, with room left, is told of it.
pub proof fn law_who_asked_is_told(list: Seq<Listener>, l: Listener)
    requires
        list.len() < LISTENER_MAX,
    ensures
        ({
            let after = joined(list, l);
            let calls = told(after, l.event_type, after.len() as int);
            calls.len() > 0 && calls.last() == (list.len() as usize, EventInfo { ptr: l.ptr })
        }),
{
}

/// A press is long after half a second: before that it is awaited, then its beginning is told once,
/// and after that it is told again every tenth of a second, until the key is let go.
pub proof fn law_presses_are_long_after_half_a_second(k: KeyPress, now: u64)
    requires
        k.at(now),
    ensures
        now - k.begin_ms <= 500 ==> k.step_for(100, now) is Wait,
        now - k.begin_ms > 500 && !k.is_long ==> k.step_for(100, now) == KeyStep::Report(
            EventType::KeyLongStart(k.key_num),
        ),
        now - k.begin_ms > 500 && k.is_long && now - k.last_long_ing_ms >= 100 ==> k.step_for(100, now)
            == KeyStep::Report(EventType::KeyLongIng(k.key_num)),
        now - k.begin_ms > 500 && k.is_long && now - k.last_long_ing_ms < 100 ==> k.step_for(100, now) is Wait,
        k.is_long ==> k.step_for(0, now) == KeyStep::Done(EventType::KeyLongEnd(k.key_num)),
        !k.is_long ==> k.step_for(0, now) is AwaitSecond,
{
}

/// The keys that share a line are told apart by its voltage: the second pulls it lower than the
/// third, and without a key it is high.
pub proof fn law_keys_are_told_by_voltage(a: int, b: int)
    requires
        a <= b,
    ensures
        key_of_average(a) == 0 || key_of_average(a) == 2 || key_of_average(a) == 3,
        key_of_average(b) == 2 ==> key_of_average(a) == 2,
        key_of_average(a) == 0 ==> key_of_average(b) == 0,
        a < 200 <==> key_of_average(a) == 2,
        a > 1000 <==> key_of_average(a) == 0,
{
}

/// A key of the shared line is judged by the mean of twenty readings; with too many failed ones it is
/// taken for none, and before that it is not judged.
pub proof fn law_keys_are_judged_by_the_mean(r: Seq<Option<u16>>, v: u16)
    ensures
        good_readings(r).len() >= 20 ==> judged(r) == Some(
            key_of_average(sum_of(good_readings(r)) as int / 20),
        ),
        good_readings(r).len() < 20 && r.len() >= 200 ==> judged(r) == Some(0usize),
        good_readings(r).len() < 20 && r.len() < 200 ==> judged(r) is None,
        good_readings(r.push(Some(v))) == good_readings(r).push(v),
        good_readings(r.push(None)) == good_readings(r),
        sum_of(good_readings(r.push(Some(v)))) == sum_of(good_readings(r)) + v,
        good_readings(seq![]).len() == 0,
        sum_of(seq![]) == 0,
{
    assert(r.push(Some(v)).drop_last() =~= r);
    assert(r.push(None).drop_last() =~= r);
    let g = good_readings(r);
    assert(g.push(v).drop_last() =~= g);
}

} // verus!
