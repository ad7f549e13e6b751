//! The schedule of a future that is polled again once per interval.
use vstd::prelude::*;

verus! {

/// The model of a schedule: its interval, the time it is next due and the
/// time it last ran, in nanoseconds on the monotonic clock.
pub struct ScheduleModel {
    pub interval: u128,
    pub next: u128,
    pub last: u128,
}

/// Whether a schedule in state `m` runs its future when polled at `now`, and
/// its state after: it runs when the time it last ran is not before the time
/// it is due, and then it last ran at `now` and is next due an interval later.
pub open spec fn schedule_poll(m: ScheduleModel, now: u128) -> (bool, ScheduleModel) {
    if m.last >= m.next {
        (true, ScheduleModel { interval: m.interval, next: (now + m.interval) as u128, last: now })
    } else {
        (false, m)
    }
}

/// The schedule of an interval future: the inner future is polled when the
/// time it last ran has reached the time it is due.
pub struct IntervalSchedule {
    interval: u128,
    next: u128,
    last: u128,
}

impl View for IntervalSchedule {
    type V = ScheduleModel;

    closed spec fn view(&self) -> ScheduleModel {
        ScheduleModel { interval: self.interval, next: self.next, last: self.last }
    }
}

impl IntervalSchedule {
    /// A schedule made at `now`: it last ran now and is due an interval
    /// later. The due time must fit the clock.
    pub fn new(interval: u128, now: u128) -> (r: Self)
        requires
            now + interval <= u128::MAX,
        ensures
            r@ == (ScheduleModel { interval, next: (now + interval) as u128, last: now }),
    {
        Self { interval, last: now, next: now + interval }
    }

    /// The schedule's interval.
    pub fn interval(&self) -> (r: u128)
        ensures
            r == self@.interval,
    {
        self.interval
    }

    /// Whether the schedule is due: a poll now runs the inner future.
    pub fn is_due(&self) -> (r: bool)
        ensures
            r == (self@.last >= self@.next),
            r == schedule_poll(self@, 0).0,
    {
        self.last >= self.next
    }

    /// Decides whether a poll at `now` runs the inner future. The due time
    /// must fit the clock when it runs.
    pub fn poll_at(&mut self, now: u128) -> (run: bool)
        requires
            old(self)@.last >= old(self)@.next ==> now + old(self)@.interval <= u128::MAX,
        ensures
            (run, final(self)@) == schedule_poll(old(self)@, now),
    {
        if self.last >= self.next {
            self.last = now;
            self.next = now + self.interval;
            true
        } else {
            false
        }
    }
}

/// A schedule made with a positive interval never runs its future: it last
/// ran before it is due, so every poll leaves it as it is. With a zero
/// interval it runs at every poll.
pub proof fn lemma_schedule_runs(interval: u128, made: u128, now: u128)
    requires
        made + interval <= u128::MAX,
    ensures
        ({
            let m = ScheduleModel { interval, next: (made + interval) as u128, last: made };
            &&& interval > 0 ==> schedule_poll(m, now) == (false, m)
            &&& interval == 0 ==> schedule_poll(m, now).0
        }),
{
}

} // verus!
