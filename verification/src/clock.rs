//! The tick clock: a monotonic fixed-rate tick counter, the source of "now"
//! for the whole simulation. Drift against wall-clock time is absorbed by
//! running extra steps per real frame (catch-up); when the backlog exceeds a
//! bounded budget the clock snaps forward instead, and reports the gap as a
//! discontinuity rather than simulating every missed tick.

use vstd::prelude::*;

verus! {

/// What one real frame did to the clock.
#[derive(Clone, Copy, PartialEq, Eq, Structural, Debug)]
pub enum CatchUpOutcome {
    /// Every due tick was stepped, one by one.
    Stepped { steps: u64 },
    /// The backlog exceeded the catch-up budget: the clock snapped forward
    /// over the whole gap, and upstream code must treat it as a
    /// fast-forward, not as individually simulated ticks.
    FastForward { gap: u64 },
}

pub struct TickClock {
    tick: u64,
    catchup_budget: u64,
}

impl TickClock {
    /// The current tick index.
    pub closed spec fn current(self) -> u64 {
        self.tick
    }

    /// The largest number of due ticks one frame may step one by one.
    pub closed spec fn budget(self) -> u64 {
        self.catchup_budget
    }

    pub fn new(initial: u64, catchup_budget: u64) -> (clock: TickClock)
        ensures
            clock.current() == initial,
            clock.budget() == catchup_budget,
    {
        TickClock { tick: initial, catchup_budget }
    }

    /// The current tick, without advancing.
    pub fn now(&self) -> (t: u64)
        ensures
            t == self.current(),
    {
        self.tick
    }

    /// Advances by exactly one tick: strictly monotonic, never backward.
    pub fn advance(&mut self) -> (t: u64)
        requires
            old(self).current() < u64::MAX,
        ensures
            final(self).current() == old(self).current() + 1,
            final(self).budget() == old(self).budget(),
            t == final(self).current(),
    {
        self.tick = self.tick + 1;
        self.tick
    }

    /// Absorbs one real frame's backlog of `due` ticks. Within the budget
    /// each tick is stepped; beyond it the clock snaps forward over the whole
    /// gap. Either way the clock ends exactly `due` ticks later: duration is
    /// never stretched, and the tick never moves backward.
    pub fn catch_up(&mut self, due: u64) -> (outcome: CatchUpOutcome)
        requires
            old(self).current() + due <= u64::MAX,
        ensures
            final(self).current() == old(self).current() + due,
            final(self).budget() == old(self).budget(),
            outcome == (if due <= old(self).budget() {
                CatchUpOutcome::Stepped { steps: due }
            } else {
                CatchUpOutcome::FastForward { gap: due }
            }),
    {
        if due <= self.catchup_budget {
            let mut stepped: u64 = 0;
            while stepped < due
                invariant
                    stepped <= due,
                    self.tick == old(self).tick + stepped,
                    self.catchup_budget == old(self).catchup_budget,
                    old(self).tick + due <= u64::MAX,
                decreases due - stepped,
            {
                self.tick = self.tick + 1;
                stepped = stepped + 1;
            }
            CatchUpOutcome::Stepped { steps: due }
        } else {
            self.tick = self.tick + due;
            CatchUpOutcome::FastForward { gap: due }
        }
    }
}

/// The tick after `n` single-tick advances: each advance moves the tick up
/// by exactly one, as `advance` ensures.
pub open spec fn tick_after_advances(initial: int, n: nat) -> int
    decreases n,
{
    if n == 0 {
        initial
    } else {
        tick_after_advances(initial, (n - 1) as nat) + 1
    }
}

/// Monotonic tick: `advance` called `n` times from tick `initial` yields
/// exactly `initial + n`, and the tick never decreases along the way.
pub proof fn lemma_advances_accumulate(initial: int, n: nat)
    ensures
        tick_after_advances(initial, n) == initial + n,
        forall|m: nat| m <= n ==> #[trigger] tick_after_advances(initial, m)
            <= tick_after_advances(initial, n),
    decreases n,
{
    if n > 0 {
        lemma_advances_accumulate(initial, (n - 1) as nat);
    }
}

} // verus!
