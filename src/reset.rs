//! The reset timer: a countdown that relaunches the ball a fixed delay after
//! a goal, exactly once per goal.
use vstd::prelude::*;

verus! {

/// Delay between a goal and the relaunch, in microseconds.
pub const RESET_DELAY: u64 = 2_000_000;

/// A one-shot countdown and the flag that says a relaunch is pending.
#[derive(Clone, Copy, Debug, PartialEq, Eq, Structural)]
pub struct ResetTimer {
    /// Microseconds from arming to relaunch.
    pub duration: u64,
    /// Microseconds counted so far; stops at `duration`.
    pub elapsed: u64,
    /// A goal was scored and the relaunch has not happened yet.
    pub armed: bool,
}

impl ResetTimer {
    pub open spec fn wf(self) -> bool {
        self.elapsed <= self.duration
    }

    /// The state after counting `dt` more microseconds; the relaunch, if it
    /// comes now, disarms the timer.
    pub open spec fn ticked(self, dt: int) -> ResetTimer {
        let e = if self.elapsed + dt < self.duration {
            (self.elapsed + dt) as u64
        } else {
            self.duration
        };
        ResetTimer { duration: self.duration, elapsed: e, armed: self.armed && e < self.duration }
    }

    /// Counting `dt` more microseconds brings the relaunch.
    pub open spec fn fires(self, dt: int) -> bool {
        self.armed && self.elapsed + dt >= self.duration
    }

    /// The state right after a goal: armed, counting from zero.
    pub open spec fn armed_now(self) -> ResetTimer {
        ResetTimer { duration: self.duration, elapsed: 0, armed: true }
    }

    /// A disarmed timer with the standard delay.
    pub fn new() -> (r: ResetTimer)
        ensures
            r.duration == RESET_DELAY,
            r.elapsed == 0,
            !r.armed,
            r.wf(),
    {
        ResetTimer { duration: RESET_DELAY, elapsed: 0, armed: false }
    }

    /// Arms the timer and restarts its countdown.
    pub fn arm(&mut self)
        ensures
            *final(self) == old(self).armed_now(),
            final(self).wf(),
    {
        self.elapsed = 0;
        self.armed = true;
    }

    /// Counts `dt` microseconds; returns whether the relaunch comes now.
    pub fn tick(&mut self, dt: u64) -> (fired: bool)
        requires
            old(self).wf(),
        ensures
            *final(self) == old(self).ticked(dt as int),
            fired == old(self).fires(dt as int),
            final(self).wf(),
    {
        if dt < self.duration - self.elapsed {
            self.elapsed = self.elapsed + dt;
        } else {
            self.elapsed = self.duration;
        }
        let fired = self.armed && self.elapsed >= self.duration;
        if fired {
            self.armed = false;
        }
        fired
    }
}

/// Microseconds in the first `n` frames of `dts`.
pub open spec fn total(dts: Seq<u64>, n: int) -> int
    decreases n,
{
    if n <= 0 || n > dts.len() {
        0
    } else {
        total(dts, n - 1) + dts[n - 1]
    }
}

/// The timer `t` after ticking through the first `n` frames of `dts`.
pub open spec fn run(t: ResetTimer, dts: Seq<u64>, n: int) -> ResetTimer
    decreases n,
{
    if n <= 0 || n > dts.len() {
        t
    } else {
        run(t, dts, n - 1).ticked(dts[n - 1] as int)
    }
}

proof fn lemma_run_armed(t: ResetTimer, dts: Seq<u64>, n: int)
    requires
        t.duration > 0,
        0 <= n <= dts.len(),
    ensures
        run(t.armed_now(), dts, n).duration == t.duration,
        run(t.armed_now(), dts, n).elapsed == if total(dts, n) < t.duration {
            total(dts, n)
        } else {
            t.duration as int
        },
        run(t.armed_now(), dts, n).armed == (total(dts, n) < t.duration),
    decreases n,
{
    if n > 0 {
        lemma_run_armed(t, dts, n - 1);
    }
}

/// After a goal, with no further goal, the relaunch comes in exactly one
/// frame: the one during which the time counted since the goal reaches the
/// delay. Until then the timer stays armed, and from then on it stays
/// disarmed.
pub proof fn lemma_relaunch_once(t: ResetTimer, dts: Seq<u64>)
    requires
        t.duration > 0,
    ensures
        forall|k: int|
            0 <= k < dts.len() ==> (#[trigger] run(t.armed_now(), dts, k)).fires(dts[k] as int)
                == (total(dts, k) < t.duration && t.duration <= total(dts, k + 1)),
        forall|k: int|
            0 <= k <= dts.len() ==> (#[trigger] run(t.armed_now(), dts, k)).armed == (total(
                dts,
                k,
            ) < t.duration),
{
    assert forall|k: int| 0 <= k < dts.len() implies (#[trigger] run(
        t.armed_now(),
        dts,
        k,
    )).fires(dts[k] as int) == (total(dts, k) < t.duration && t.duration <= total(dts, k + 1)) by {
        lemma_run_armed(t, dts, k);
    }
    assert forall|k: int| 0 <= k <= dts.len() implies (#[trigger] run(
        t.armed_now(),
        dts,
        k,
    )).armed == (total(dts, k) < t.duration) by {
        lemma_run_armed(t, dts, k);
    }
}

} // verus!
