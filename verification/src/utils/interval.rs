//! A timer that fires when an interval has passed, and says how long it has
//! really been.

use std::time::{Duration, SystemTime};
use vstd::prelude::*;

verus! {

/// The whole milliseconds that a duration holds.
pub uninterp spec fn millis_of(d: Duration) -> nat;

/// `Duration::as_millis` returns the whole milliseconds of the duration.
pub assume_specification[ Duration::as_millis ](d: &Duration) -> (millis: u128)
    ensures
        millis == millis_of(*d),
;

/// `Duration::from_millis` makes the duration of that many milliseconds.
pub assume_specification[ Duration::from_millis ](millis: u64) -> (d: Duration)
    ensures
        millis_of(d) == millis,
;

/// `SystemTime::elapsed` since the Unix epoch: the time of the system clock,
/// or `None` if the clock stands before the epoch. Nothing is said of the
/// time itself.
#[verifier::external_body]
fn since_epoch() -> (elapsed: Option<Duration>) {
    SystemTime::UNIX_EPOCH.elapsed().ok()
}

/// A timer. All times are in milliseconds.
pub struct Interval {
    interval: u64,
    last: u64,
    delta: u64,
}

/// What a timer holds.
pub struct IntervalView {
    /// The time that must pass between two ticks.
    pub interval: nat,
    /// The time of the last tick, zero if there was none.
    pub last: nat,
    /// The time between the last two ticks, zero if there were not two.
    pub delta: nat,
}

impl View for Interval {
    type V = IntervalView;

    closed spec fn view(&self) -> IntervalView {
        IntervalView {
            interval: self.interval as nat,
            last: self.last as nat,
            delta: self.delta as nat,
        }
    }
}

/// Whether a timer in the state `v` ticks at the time `now`: more than the
/// interval has passed since the last tick.
pub open spec fn due(v: IntervalView, now: nat) -> bool {
    v.last + v.interval < now
}

/// The state of a timer that was in the state `v` after it has been asked at
/// the time `now`. A tick notes the time, and the time since the tick before
/// it if there was one.
pub open spec fn asked(v: IntervalView, now: nat) -> IntervalView {
    if due(v, now) {
        IntervalView {
            interval: v.interval,
            last: now,
            delta: if v.last != 0 {
                (now - v.last) as nat
            } else {
                0
            },
        }
    } else {
        v
    }
}

impl Interval {
    /// A timer that has not ticked yet, for an interval of `duration`, which
    /// must not be longer than `u64::MAX` milliseconds.
    pub fn new(duration: Duration) -> (timer: Interval)
        requires
            millis_of(duration) <= u64::MAX,
        ensures
            timer@ == (IntervalView { interval: millis_of(duration), last: 0, delta: 0 }),
    {
        Interval { interval: duration.as_millis() as u64, last: 0, delta: 0 }
    }

    /// A timer that has not ticked yet, for an interval of `duration`, or
    /// `None` if `duration` is longer than `u64::MAX` milliseconds.
    pub fn try_new(duration: Duration) -> (timer: Option<Interval>)
        ensures
            match timer {
                Some(timer) => millis_of(duration) <= u64::MAX && timer@ == (IntervalView {
                    interval: millis_of(duration),
                    last: 0,
                    delta: 0,
                }),
                None => millis_of(duration) > u64::MAX,
            },
    {
        if duration.as_millis() <= u64::MAX as u128 {
            Some(Interval::new(duration))
        } else {
            None
        }
    }

    /// Asks the timer at the time `now`, in milliseconds since the epoch.
    /// Returns whether it ticks.
    pub fn tick_at(&mut self, now: u64) -> (ticked: bool)
        ensures
            ticked == due(old(self)@, now as nat),
            final(self)@ == asked(old(self)@, now as nat),
    {
        if now > self.last && now - self.last > self.interval {
            self.delta = if self.last != 0 {
                now - self.last
            } else {
                0
            };
            self.last = now;
            true
        } else {
            false
        }
    }

    /// Asks the timer at the time of the system clock. Returns whether it
    /// ticks. Whatever the clock says, the timer does what [`Interval::tick_at`]
    /// does for some time; a clock that cannot be read counts as time zero,
    /// at which no timer ticks.
    pub fn tick(&mut self) -> (ticked: bool)
        ensures
            exists|now: nat|
                ticked == due(old(self)@, now) && final(self)@ == #[trigger] asked(
                    old(self)@,
                    now,
                ),
    {
        let now: u64 = match since_epoch() {
            Some(elapsed) => {
                let millis = elapsed.as_millis();
                if millis <= u64::MAX as u128 {
                    millis as u64
                } else {
                    0
                }
            },
            None => 0,
        };
        let ticked = self.tick_at(now);
        assert(ticked == due(old(self)@, now as nat) && self@ == asked(old(self)@, now as nat));
        ticked
    }

    /// The time between the last two ticks, zero if there were not two.
    pub fn delta(&self) -> (d: Duration)
        ensures
            millis_of(d) == self@.delta,
    {
        Duration::from_millis(self.delta)
    }
}

} // verus!
