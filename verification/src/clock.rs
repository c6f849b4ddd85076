//! When the repositories were last read.

use vstd::prelude::*;

use crate::dashboard::App;
use crate::event;
use crate::event::{Event, Response};

verus! {

/// Nanoseconds in a second.
pub const SECOND: u64 = 1_000_000_000;

/// Something that the dashboard did.
#[derive(Debug, Clone, Copy, PartialEq, Eq, Structural)]
pub enum Step {
    /// It did what was left to be done about an event.
    Event(Response),
    /// It carried out an action, whether or not the repositories were read anew for it.
    Action,
}

/// The time from which the next refresh is counted, in nanoseconds.
#[derive(Debug, Clone, Copy, PartialEq, Eq, Structural)]
pub struct RefreshClock {
    pub last: u64,
}

/// The time from which the next refresh is counted, after a step that was over at `now`: a refresh
/// that an event led to counts, one that an action led to does not.
pub open spec fn last_after(last: u64, step: Step, now: u64) -> u64 {
    if step == Step::Event(Response::Refresh) {
        now
    } else {
        last
    }
}

/// The whole seconds from `last` to `now`.
pub open spec fn seconds_between(last: u64, now: u64) -> u64 {
    if now >= last {
        ((now - last) / SECOND as int) as u64
    } else {
        0
    }
}

impl RefreshClock {
    /// A clock that counts from `now`.
    pub fn start(now: u64) -> (c: RefreshClock)
        ensures
            c.last == now,
    {
        RefreshClock { last: now }
    }

    /// The event that a moment passed.
    pub fn tick(&self, now: u64) -> (e: Event)
        ensures
            e == (Event::Tick { elapsed: seconds_between(self.last, now) }),
    {
        if now >= self.last {
            Event::Tick { elapsed: (now - self.last) / SECOND }
        } else {
            Event::Tick { elapsed: 0 }
        }
    }

    /// Takes note of a step that was over at `now`.
    pub fn advance(&mut self, step: Step, now: u64)
        ensures
            final(self).last == last_after(old(self).last, step, now),
    {
        if let Step::Event(Response::Refresh) = step {
            self.last = now;
        }
    }
}

/// Time leads to a refresh exactly ten seconds after the last refresh that an event led to, and
/// from then on.
pub proof fn time_refreshes_after_ten_seconds(a: App, last: u64, now: u64)
    ensures
        event::response(a, Event::Tick { elapsed: seconds_between(last, now) })
            == Response::Refresh <==> now >= last + event::REFRESH_SECONDS * SECOND,
{
}

/// What an action does leaves the time of the next refresh alone.
pub proof fn actions_leave_the_clock_alone(last: u64, now: u64)
    ensures
        last_after(last, Step::Action, now) == last,
{
}

/// Of all that the dashboard does, only a refresh that an event led to restarts the clock, at the
/// time at which it was over.
pub proof fn only_event_refreshes_restart_the_clock(last: u64, step: Step, now: u64)
    ensures
        step matches Step::Event(r) && r == Response::Refresh ==> last_after(last, step, now)
            == now,
        step matches Step::Event(r) && r != Response::Refresh ==> last_after(last, step, now)
            == last,
        step is Action ==> last_after(last, step, now) == last,
{
}

/// Time that has passed is counted in whole seconds of a thousand million nanoseconds.
pub proof fn time_is_counted_in_seconds(last: u64, now: u64)
    ensures
        now >= last ==> seconds_between(last, now) * 1_000_000_000 <= now - last < (
        seconds_between(last, now) + 1) * 1_000_000_000,
        now < last ==> seconds_between(last, now) == 0,
        seconds_between(last, now) >= 10 <==> now >= last + 10_000_000_000,
{
}

} // verus!
