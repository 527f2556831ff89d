//! A soft deadline for the search.
use vstd::prelude::*;
use std::time::{Duration, Instant};

verus! {

/// The number of checks between two readings of the clock.
pub const CHECK_INTERVAL: u32 = 1024;

/// `std::time::Instant`, a point in time of which Verus knows nothing.
#[verifier::external_type_specification]
#[verifier::external_body]
pub struct ExInstant(Instant);

/// `Instant::clone`: the copy is the same point in time.
pub assume_specification[ <Instant as Clone>::clone ](instant: &Instant) -> (copy: Instant)
    ensures
        copy == *instant,
;

/// Reads the clock (`Instant::now`). Nothing is claimed of the reading.
#[verifier::external_body]
fn now() -> Instant {
    Instant::now()
}

/// The time that has passed since `start` (`Instant::elapsed`). Nothing is
/// claimed of it: it depends on when the call is made.
#[verifier::external_body]
fn time_since(start: &Instant) -> Duration {
    start.elapsed()
}

/// The whole milliseconds of a span of time (`Duration::as_millis`).
#[verifier::external_body]
fn whole_millis(span: &Duration) -> u128 {
    span.as_millis()
}

/// A deadline that the search checks as it goes. To keep the checks cheap,
/// the clock is read only at every 1024th check; once the deadline has
/// passed, every later check says so without another look at the clock.
#[derive(Clone)]
pub struct Timer {
    start_time: Instant,
    max_time_ms: u32,
    count: u32,
    is_time_up: bool,
}

/// What the checks of a timer depend on.
pub struct TimerView {
    /// The time that the search may take, in milliseconds.
    pub budget: u32,
    /// The number of checks since the clock was last read.
    pub count: u32,
    /// Whether the deadline was found to have passed.
    pub latched: bool,
}

impl View for Timer {
    type V = TimerView;

    closed spec fn view(&self) -> TimerView {
        TimerView { budget: self.max_time_ms, count: self.count, latched: self.is_time_up }
    }
}

impl TimerView {
    /// A timer that has not been checked yet.
    pub open spec fn fresh(budget: u32) -> TimerView {
        TimerView { budget, count: 0, latched: false }
    }

    /// The count after one more check: it starts again from zero when it
    /// reaches 1024.
    pub open spec fn next_count(count: u32) -> u32 {
        if count + 1 >= CHECK_INTERVAL {
            0
        } else {
            (count + 1) as u32
        }
    }

    /// The timer after one more check has been counted.
    pub open spec fn ticked(self) -> TimerView {
        TimerView { budget: self.budget, count: Self::next_count(self.count), latched: self.latched }
    }

    /// The timer after a reading of the clock, `elapsed_ms` milliseconds
    /// after the start: the deadline has passed if the budget is used up.
    pub open spec fn read(self, elapsed_ms: u128) -> TimerView {
        TimerView { budget: self.budget, count: self.count, latched: elapsed_ms >= self.budget }
    }

    /// The timer after one check, for which the clock would read
    /// `elapsed_ms`. A latched timer stays as it is. Otherwise the check is
    /// counted, and the clock is read if the count has come round to zero.
    pub open spec fn checked(self, elapsed_ms: u128) -> TimerView {
        if self.latched {
            self
        } else if self.ticked().count == 0 {
            self.ticked().read(elapsed_ms)
        } else {
            self.ticked()
        }
    }

    /// The timer after a run of checks, for which the clock would read
    /// `readings` one after the other.
    pub open spec fn run(self, readings: Seq<u128>) -> TimerView
        decreases readings.len(),
    {
        if readings.len() == 0 {
            self
        } else {
            self.run(readings.drop_last()).checked(readings.last())
        }
    }

    /// A run of fewer than 1024 checks of a fresh timer never looks at the
    /// clock: the timer is not up, whatever its budget.
    pub proof fn lemma_early_checks(budget: u32, readings: Seq<u128>)
        requires
            readings.len() < CHECK_INTERVAL,
        ensures
            Self::fresh(budget).run(readings) == (TimerView {
                budget,
                count: readings.len() as u32,
                latched: false,
            }),
        decreases readings.len(),
    {
        if readings.len() > 0 {
            Self::lemma_early_checks(budget, readings.drop_last());
        }
    }

    /// A timer without a budget is up at its 1024th check, the first that
    /// looks at the clock, and stays up.
    pub proof fn lemma_zero_budget_is_up(readings: Seq<u128>)
        requires
            readings.len() >= CHECK_INTERVAL,
        ensures
            Self::fresh(0).run(readings).latched,
        decreases readings.len(),
    {
        if readings.len() == CHECK_INTERVAL {
            Self::lemma_early_checks(0, readings.drop_last());
        } else {
            Self::lemma_zero_budget_is_up(readings.drop_last());
        }
    }

    /// A timer is never up as long as the clock reads less than its budget.
    pub proof fn lemma_within_budget_is_not_up(budget: u32, readings: Seq<u128>)
        requires
            forall|i: int| 0 <= i < readings.len() ==> #[trigger] readings[i] < budget,
        ensures
            !Self::fresh(budget).run(readings).latched,
            Self::fresh(budget).run(readings).budget == budget,
        decreases readings.len(),
    {
        if readings.len() > 0 {
            let front = readings.drop_last();
            assert forall|i: int| 0 <= i < front.len() implies #[trigger] front[i] < budget by {
                assert(front[i] == readings[i]);
            }
            Self::lemma_within_budget_is_not_up(budget, front);
        }
    }
}

impl Timer {
    /// A timer that starts now and allows `max_time_ms` milliseconds.
    pub fn new(max_time_ms: u32) -> (timer: Self)
        ensures
            timer@ == TimerView::fresh(max_time_ms),
    {
        Timer { start_time: now(), max_time_ms, count: 0, is_time_up: false }
    }

    /// Counts one check and says whether the clock is due to be read: it is
    /// at every 1024th check.
    pub fn tick(&mut self) -> (due: bool)
        ensures
            final(self)@ == old(self)@.ticked(),
            due == (final(self)@.count == 0),
    {
        // Increment count wrapped around 1024.
        self.count = if self.count >= CHECK_INTERVAL - 1 {
            0
        } else {
            self.count + 1
        };
        self.count == 0
    }

    /// Takes a reading of the clock, `elapsed_ms` milliseconds after the
    /// start: the deadline has passed if the budget is used up.
    pub fn latch(&mut self, elapsed_ms: u128) -> (up: bool)
        ensures
            final(self)@ == old(self)@.read(elapsed_ms),
            up == final(self)@.latched,
    {
        let up = elapsed_ms >= self.max_time_ms as u128;
        self.is_time_up = up;
        up
    }

    /// Checks the deadline (see [`TimerView::checked`]): the timer goes on
    /// as one check makes it, for what the clock reads at the time of the
    /// call, and the answer is whether it is latched then.
    pub fn is_time_up(&mut self) -> (up: bool)
        ensures
            exists|elapsed_ms: u128| final(self)@ == old(self)@.checked(elapsed_ms),
            up == final(self)@.latched,
    {
        if self.is_time_up {
            assert(self@ == old(self)@.checked(0));
            return true;
        }
        if self.tick() {
            let elapsed_ms = whole_millis(&time_since(&self.start_time));
            let up = self.latch(elapsed_ms);
            assert(self@ == old(self)@.checked(elapsed_ms));
            up
        } else {
            assert(self@ == old(self)@.checked(0));
            false
        }
    }

    /// The milliseconds that have passed since the timer was started.
    pub fn elapsed_ms(&self) -> u128 {
        whole_millis(&time_since(&self.start_time))
    }
}

} // verus!
