//! Alarm handles, the callback they carry, and what a callback's answer means.

use crate::timer::Timer;
use vstd::prelude::*;

verus! {

/// What a callback answers when its alarm has fired.
pub enum RetTimer {
    /// The firing is done: a repeating alarm goes on, any other ends.
    Okay,
    /// Not finished yet: an alarm with an interval waits one more interval.
    Continue,
    /// The alarm ends, whatever its configuration.
    Over,
}

/// An alarm: a callback with its scheduling parameters.
pub struct Handler<F> {
    /// The callback.
    pub factory: F,
    /// The id, 0 until the engine assigns one.
    pub time_id: u64,
    /// The due time, in microseconds; 0 until it is computed.
    pub tick_ms: u64,
    /// The interval between firings, in microseconds; 0 for a one-shot alarm.
    pub tick_step: u64,
    /// Whether an alarm with an interval fires again after `Okay`.
    pub is_repeat: bool,
    /// Whether the first firing is due at registration.
    pub at_once: bool,
}

/// The callback of an alarm. The engine calls it when the alarm is due and
/// hands itself over, so that the callback may add and delete alarms.
pub trait Factory: Sized {
    fn on_trigger(&mut self, timer: &mut Timer<Self>, id: u64) -> (ret: RetTimer)
        requires
            old(timer).wf(),
        ensures
            final(timer).wf(),
    ;
}

/// The sum of two instants, capped at the largest `u64`.
pub open spec fn saturating_sum(a: u64, b: u64) -> u64 {
    if a + b > u64::MAX {
        u64::MAX
    } else {
        (a + b) as u64
    }
}

/// The result policy: whether an alarm with interval `tick_step` ends after
/// its callback answered `ret`.
///
/// | answer   | one-shot | repeating | interval, not repeating |
/// |----------|----------|-----------|-------------------------|
/// | Okay     | ends     | goes on   | ends                    |
/// | Continue | ends     | goes on   | goes on                 |
/// | Over     | ends     | ends      | ends                    |
pub open spec fn removes_after(ret: RetTimer, tick_step: u64, is_repeat: bool) -> bool {
    match ret {
        RetTimer::Okay => tick_step == 0 || !is_repeat,
        RetTimer::Continue => tick_step == 0,
        RetTimer::Over => true,
    }
}

/// Applies the result policy.
pub fn is_remove(ret: &RetTimer, tick_step: u64, is_repeat: bool) -> (remove: bool)
    ensures
        remove == removes_after(*ret, tick_step, is_repeat),
{
    match ret {
        RetTimer::Okay => tick_step == 0 || !is_repeat,
        RetTimer::Continue => tick_step == 0,
        RetTimer::Over => true,
    }
}

impl<F> Handler<F> {
    /// Neither an interval nor a due time: such a handle is never scheduled.
    pub open spec fn is_malformed(&self) -> bool {
        self.tick_step == 0 && self.tick_ms == 0
    }

    /// The due time that the handle gets when it is scheduled at `now`: its
    /// own for a one-shot alarm, `now` for a first firing at once, else one
    /// interval after `now`.
    pub open spec fn due_at(&self, now: u64) -> u64 {
        if self.tick_step == 0 {
            self.tick_ms
        } else if self.at_once {
            now
        } else {
            saturating_sum(now, self.tick_step)
        }
    }

    /// The handle as it waits in the engine once scheduled at `now` under `id`.
    pub open spec fn scheduled_as(self, id: u64, now: u64) -> Handler<F> {
        Handler {
            factory: self.factory,
            time_id: id,
            tick_ms: self.due_at(now),
            tick_step: self.tick_step,
            is_repeat: self.is_repeat,
            at_once: self.tick_step == 0 && self.at_once,
        }
    }

    /// An alarm with an interval. An interval of 0 is taken as 1.
    pub fn new_step(factory: F, tick_step: u64, is_repeat: bool, at_once: bool) -> (handle:
        Handler<F>)
        ensures
            handle == (Handler {
                factory,
                time_id: 0,
                tick_ms: 0,
                tick_step: if tick_step == 0 { 1 } else { tick_step },
                is_repeat,
                at_once,
            }),
            !handle.is_malformed(),
    {
        let tick_step: u64 = if tick_step == 0 { 1 } else { tick_step };
        Handler { factory, time_id: 0, tick_ms: 0, tick_step, is_repeat, at_once }
    }

    /// A one-shot alarm, due at the absolute time `tick_ms`.
    pub fn new_at(factory: F, tick_ms: u64) -> (handle: Handler<F>)
        ensures
            handle == (Handler {
                factory,
                time_id: 0,
                tick_ms,
                tick_step: 0,
                is_repeat: false,
                at_once: false,
            }),
    {
        Handler { factory, time_id: 0, tick_ms, tick_step: 0, is_repeat: false, at_once: false }
    }

    /// The id, 0 until the engine assigns one.
    pub fn id(&self) -> (id: u64)
        ensures
            id == self.time_id,
    {
        self.time_id
    }

    /// The due time, in microseconds.
    pub fn due_time(&self) -> (due: u64)
        ensures
            due == self.tick_ms,
    {
        self.tick_ms
    }

    /// The interval, in microseconds; 0 for a one-shot alarm.
    pub fn interval(&self) -> (step: u64)
        ensures
            step == self.tick_step,
    {
        self.tick_step
    }
}

/// A one-shot alarm is due at the time it was given, whenever it is
/// scheduled, and ends after its firing, whatever the callback answers.
pub proof fn one_shot_fires_once<F>(handle: Handler<F>, id: u64, now: u64, ret: RetTimer)
    requires
        handle.tick_step == 0,
    ensures
        handle.scheduled_as(id, now).tick_ms == handle.tick_ms,
        removes_after(
            ret,
            handle.scheduled_as(id, now).tick_step,
            handle.scheduled_as(id, now).is_repeat,
        ),
{
}

/// A repeating alarm goes on after every answer but `Over`, which ends any
/// alarm.
pub proof fn repeating_goes_on(ret: RetTimer, tick_step: u64, is_repeat: bool)
    requires
        tick_step > 0,
    ensures
        removes_after(RetTimer::Over, tick_step, is_repeat),
        is_repeat ==> (removes_after(ret, tick_step, true) <==> ret == RetTimer::Over),
        !is_repeat ==> (removes_after(ret, tick_step, false) <==> ret != RetTimer::Continue),
{
}

/// Spacing: an alarm with interval `tick_step` that is scheduled again at
/// `now` is due a full interval later, unless that passes the largest `u64`;
/// the flag for a first firing at once is cleared by then.
pub proof fn rescheduled_a_full_interval_later<F>(handle: Handler<F>, id: u64, first: u64, now: u64)
    requires
        handle.tick_step > 0,
    ensures
        !handle.scheduled_as(id, first).at_once,
        handle.scheduled_as(id, first).scheduled_as(id, now).tick_ms == saturating_sum(
            now,
            handle.tick_step,
        ),
        now + handle.tick_step <= u64::MAX ==> handle.scheduled_as(id, first).scheduled_as(
            id,
            now,
        ).tick_ms - now == handle.tick_step,
{
}

/// First firing at once: a handle with the flag set is due at the instant of
/// its registration, before an interval has passed; without it, one interval
/// later.
pub proof fn first_firing_at_once<F>(handle: Handler<F>, id: u64, now: u64)
    requires
        handle.tick_step > 0,
    ensures
        handle.at_once ==> handle.scheduled_as(id, now).tick_ms == now,
        !handle.at_once ==> handle.scheduled_as(id, now).tick_ms == saturating_sum(
            now,
            handle.tick_step,
        ),
{
}

} // verus!
