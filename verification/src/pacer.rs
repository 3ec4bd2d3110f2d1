//! Frame timing: the clock that measures each iteration of the loop, and the
//! minimum time an iteration has to take before its frame is presented.
//!
//! Instants and durations are whole nanoseconds on a monotonic clock that the
//! caller reads.

use vstd::prelude::*;

verus! {

/// The time from `since` to `now`; nothing when `now` is the earlier one.
pub open spec fn elapsed_between(since: u64, now: u64) -> int {
    if now >= since { now - since } else { 0 }
}

/// Whether at least `budget` has passed from `since` to `now`.
pub open spec fn budget_elapsed(since: u64, now: u64, budget: u64) -> bool {
    elapsed_between(since, now) >= budget
}

/// How the loop passes the time until the frame budget has passed.
#[derive(Clone, Copy, Debug, PartialEq, Eq, Structural)]
pub enum WaitStrategy {
    /// Cede the processor and look at the clock again: steady frame times,
    /// at the price of a busy processor.
    BusyYield,
    /// Sleep for what is left of the budget: an idle processor, at the price
    /// of less steady frame times.
    Sleep,
}

/// What the loop does after rendering a frame.
#[derive(Clone, Copy, Debug, PartialEq, Eq, Structural)]
pub enum PaceAction {
    /// The frame budget has not passed: cede the processor, then ask again.
    Yield,
    /// The frame budget has passed: present the frame.
    Present,
}

/// The instant at which the current iteration of the loop began.
#[derive(Clone, Copy, Debug, PartialEq, Eq, Structural)]
pub struct FrameClock {
    pub last_instant: u64,
}

impl FrameClock {
    /// A clock whose first iteration begins at `now`.
    pub fn start(now: u64) -> (r: FrameClock)
        ensures
            r.last_instant == now,
    {
        FrameClock { last_instant: now }
    }

    /// The time since the current iteration began. The clock is not changed.
    pub fn elapsed(&self, now: u64) -> (r: u64)
        ensures
            r == elapsed_between(self.last_instant, now),
    {
        if now >= self.last_instant {
            now - self.last_instant
        } else {
            0
        }
    }

    /// Ends the current iteration at `now` and begins the next one there.
    /// Returns how long the ended iteration took.
    pub fn tick(&mut self, now: u64) -> (delta: u64)
        ensures
            delta == elapsed_between(old(self).last_instant, now),
            final(self).last_instant == now,
    {
        let delta: u64 = self.elapsed(now);
        self.last_instant = now;
        delta
    }

    /// Whether the iteration has taken at least `min_frame` at `now`.
    pub fn budget_met(&self, now: u64, min_frame: u64) -> (r: bool)
        ensures
            r <==> budget_elapsed(self.last_instant, now, min_frame),
    {
        self.elapsed(now) >= min_frame
    }

    /// How much of `min_frame` is still to pass at `now`.
    pub fn remaining(&self, now: u64, min_frame: u64) -> (r: u64)
        ensures
            r == if budget_elapsed(self.last_instant, now, min_frame) {
                0
            } else {
                min_frame - elapsed_between(self.last_instant, now)
            },
    {
        let spent: u64 = self.elapsed(now);
        if spent >= min_frame {
            0
        } else {
            min_frame - spent
        }
    }

    /// One round of the wait for the frame budget: present if at least
    /// `min_frame` has passed since the iteration began, yield otherwise. The
    /// clock is not changed, so the next `tick` still measures from the
    /// beginning of the iteration.
    pub fn enforce_budget(&self, now: u64, min_frame: u64) -> (r: PaceAction)
        ensures
            r == PaceAction::Present <==> budget_elapsed(self.last_instant, now, min_frame),
            r == PaceAction::Yield <==> !budget_elapsed(self.last_instant, now, min_frame),
    {
        if self.budget_met(now, min_frame) {
            PaceAction::Present
        } else {
            PaceAction::Yield
        }
    }
}

/// The number of leading readings of the clock at which the frame budget has
/// not passed yet: how often a wait that takes these readings in turn yields
/// before it presents.
pub open spec fn yields_before_present(since: u64, readings: Seq<u64>, budget: u64) -> int
    decreases readings.len(),
{
    if readings.len() == 0 || budget_elapsed(since, readings[0], budget) {
        0
    } else {
        1 + yields_before_present(since, readings.skip(1), budget)
    }
}

/// Runs the wait for the frame budget over the given readings of the clock,
/// taken in turn. Returns the position of the reading at which the frame is
/// presented, or nothing if the budget has passed at none of them.
pub fn wait_for_budget(clock: &FrameClock, readings: &Vec<u64>, min_frame: u64) -> (r: Option<
    usize,
>)
    ensures
        match r {
            Some(at) => at < readings.len() && at == yields_before_present(
                clock.last_instant,
                readings@,
                min_frame,
            ),
            None => readings.len() == yields_before_present(
                clock.last_instant,
                readings@,
                min_frame,
            ),
        },
{
    let mut at: usize = 0;
    assert(readings@.skip(0) =~= readings@);
    while at < readings.len()
        invariant
            at <= readings.len(),
            yields_before_present(clock.last_instant, readings@, min_frame) == at
                + yields_before_present(clock.last_instant, readings@.skip(at as int), min_frame),
        decreases readings.len() - at,
    {
        let ghost rest = readings@.skip(at as int);
        assert(rest[0] == readings@[at as int]);
        assert(rest.skip(1) =~= readings@.skip(at + 1));
        match clock.enforce_budget(readings[at], min_frame) {
            PaceAction::Present => {
                return Some(at);
            },
            PaceAction::Yield => {
                at = at + 1;
            },
        }
    }
    assert(readings@.skip(at as int).len() == 0);
    None
}

/// The wait never presents before the frame budget has passed: at the reading
/// where it presents the budget has passed, and at every reading before that
/// it has not.
pub proof fn lemma_wait_respects_budget(since: u64, readings: Seq<u64>, budget: u64)
    ensures
        0 <= yields_before_present(since, readings, budget) <= readings.len(),
        forall|i: int|
            0 <= i < yields_before_present(since, readings, budget) ==> !budget_elapsed(
                since,
                #[trigger] readings[i],
                budget,
            ),
        yields_before_present(since, readings, budget) < readings.len() ==> budget_elapsed(
            since,
            readings[yields_before_present(since, readings, budget)],
            budget,
        ),
    decreases readings.len(),
{
    if readings.len() == 0 || budget_elapsed(since, readings[0], budget) {
    } else {
        let rest = readings.skip(1);
        lemma_wait_respects_budget(since, rest, budget);
        let n = yields_before_present(since, rest, budget);
        assert forall|i: int| 0 <= i < n + 1 implies !budget_elapsed(
            since,
            #[trigger] readings[i],
            budget,
        ) by {
            if i > 0 {
                assert(readings[i] == rest[i - 1]);
            }
        }
        if n < rest.len() {
            assert(rest[n] == readings[n + 1]);
        }
    }
}

/// On a clock that does not run backwards, a tick that follows a wait which
/// ended with `Present` measures at least the frame budget.
pub proof fn lemma_tick_after_present(since: u64, presented_at: u64, next: u64, budget: u64)
    requires
        budget_elapsed(since, presented_at, budget),
        presented_at <= next,
    ensures
        elapsed_between(since, next) >= budget,
{
}

} // verus!
