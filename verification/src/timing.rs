//! The scheduler: one clock for each activity of the host loop, each with
//! its own period, polled together.

use vstd::prelude::*;
use crate::clock::{instant_now, micros_since};

verus! {

/// An activity that the host loop performs when its clock fires.
#[derive(Debug, Clone, Copy, PartialEq, Eq, Structural)]
pub enum DoTick {
    /// Run one instruction.
    Cpu,
    /// Show the screen.
    Display,
    /// Count the delay and sound timers down.
    SoundDelay,
}

/// Microseconds in one second.
pub const MICROS_PER_SECOND: u128 = 1_000_000;

/// A clock as plain values. Times are microseconds since the clock was
/// made.
pub struct Clock {
    /// The time between two firings.
    pub period: u128,
    /// The activity that a firing reports.
    pub activity: DoTick,
    /// The time of the last firing, or zero where the clock has not fired.
    pub last: u128,
}

impl Clock {
    /// The time that has passed at `now` since the last firing. A reading
    /// that lies before the last firing counts as no time at all.
    pub open spec fn elapsed(self, now: u128) -> int {
        if now >= self.last {
            now - self.last
        } else {
            0
        }
    }

    /// Whether the clock fires when polled at `now`: a whole period has
    /// passed since it last fired.
    pub open spec fn due(self, now: u128) -> bool {
        self.elapsed(now) >= self.period
    }

    /// The clock after it is polled at `now`: a clock that fires counts
    /// from `now` on, one that does not is unchanged.
    pub open spec fn polled(self, now: u128) -> Clock {
        if self.due(now) {
            Clock { last: now, ..self }
        } else {
            self
        }
    }
}

/// The clock of one activity.
pub struct Timer {
    freq: u128,
    activity: DoTick,
    origin: std::time::Instant,
    last: u128,
}

impl View for Timer {
    type V = Clock;

    closed spec fn view(&self) -> Clock {
        Clock { period: self.freq, activity: self.activity, last: self.last }
    }
}

/// The clocks that a sequence of timers stands for.
pub open spec fn clocks(timers: Seq<Timer>) -> Seq<Clock> {
    Seq::new(timers.len(), |k: int| timers[k]@)
}

/// The activities of the clocks that fire when clock `k` is polled at
/// `nows[k]`, in the order of the clocks.
pub open spec fn fired(clocks: Seq<Clock>, nows: Seq<u128>) -> Seq<DoTick>
    decreases clocks.len(),
{
    if clocks.len() == 0 || nows.len() == 0 {
        Seq::empty()
    } else {
        let before = fired(clocks.drop_last(), nows.drop_last());
        if clocks.last().due(nows.last()) {
            before.push(clocks.last().activity)
        } else {
            before
        }
    }
}

/// The clocks after clock `k` is polled at `nows[k]`.
pub open spec fn all_polled(clocks: Seq<Clock>, nows: Seq<u128>) -> Seq<Clock> {
    Seq::new(clocks.len(), |k: int| clocks[k].polled(nows[k]))
}

impl Timer {
    /// A clock for `activity` that fires `hz` times a second, counting from
    /// the moment of the call.
    pub fn new(hz: u32, activity: DoTick) -> (timer: Timer)
        requires
            hz > 0,
        ensures
            timer@ == (Clock { period: MICROS_PER_SECOND / (hz as u128), activity, last: 0 }),
    {
        Timer { freq: MICROS_PER_SECOND / hz as u128, activity, origin: instant_now(), last: 0 }
    }

    /// The time between two firings, in microseconds.
    pub fn period(&self) -> (period: u128)
        ensures
            period == self@.period,
    {
        self.freq
    }

    /// The activity that a firing reports.
    pub fn activity(&self) -> (activity: DoTick)
        ensures
            activity == self@.activity,
    {
        self.activity
    }

    /// The time of the last firing, in microseconds since the clock was
    /// made, or zero where it has not fired.
    pub fn last_fired(&self) -> (last: u128)
        ensures
            last == self@.last,
    {
        self.last
    }

    /// Polls the clock at the time `now`, in microseconds since the clock
    /// was made, and says whether it fired.
    pub fn try_tick_at(&mut self, now: u128) -> (fires: bool)
        ensures
            fires == old(self)@.due(now),
            final(self)@ == old(self)@.polled(now),
    {
        let elapsed = if now >= self.last {
            now - self.last
        } else {
            0
        };
        if elapsed >= self.freq {
            self.last = now;
            true
        } else {
            false
        }
    }

    /// Polls the clock at the present time and says whether it fired.
    pub fn try_tick(&mut self) -> (fires: bool)
        ensures
            exists|now: u128|
                fires == #[trigger] old(self)@.due(now) && final(self)@ == old(self)@.polled(now),
    {
        let now = micros_since(&self.origin);
        let fires = self.try_tick_at(now);
        assert(fires == old(self)@.due(now) && self@ == old(self)@.polled(now));
        fires
    }
}

/// Polls every clock at the present time and reports the activities of
/// those that fired, in the order of the clocks.
pub fn check_timers(timers: &mut [Timer]) -> (res: Vec<DoTick>)
    ensures
        final(timers)@.len() == old(timers)@.len(),
        exists|nows: Seq<u128>|
            nows.len() == old(timers)@.len() && res@ == #[trigger] fired(clocks(old(timers)@), nows)
                && clocks(final(timers)@) == all_polled(clocks(old(timers)@), nows),
{
    let mut res: Vec<DoTick> = Vec::new();
    let ghost mut nows: Seq<u128> = Seq::empty();
    let n = timers.len();
    let mut k: usize = 0;
    while k < n
        invariant
            k <= n,
            n == timers@.len(),
            n == old(timers)@.len(),
            nows.len() == k,
            res@ == fired(clocks(old(timers)@).take(k as int), nows),
            forall|j: int| 0 <= j < k ==> (#[trigger] timers@[j])@ == old(timers)@[j]@.polled(nows[j]),
            forall|j: int| k <= j < n ==> #[trigger] timers@[j] == old(timers)@[j],
        decreases n - k,
    {
        let ghost before = timers@[k as int]@;
        let fires = timers[k].try_tick();
        proof {
            let now = choose|now: u128|
                fires == #[trigger] before.due(now) && timers@[k as int]@ == before.polled(now);
            let ghost all = clocks(old(timers)@);
            assert(all.take(k + 1).drop_last() =~= all.take(k as int));
            assert(nows.push(now).drop_last() =~= nows);
            nows = nows.push(now);
        }
        if fires {
            res.push(timers[k].activity);
        }
        k += 1;
    }
    proof {
        let ghost all = clocks(old(timers)@);
        assert(all.take(n as int) =~= all);
        assert(clocks(timers@) =~= all_polled(all, nows));
    }
    res
}

} // verus!
