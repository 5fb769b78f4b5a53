//! Fixed-timestep accumulator deciding how many logic updates to run per
//! rendered frame. Wall-clock time is measured by the embedding application
//! and fed in as elapsed microseconds; the accumulated backlog is clamped so
//! that a long stall never causes an unbounded burst of catch-up updates.

use vstd::prelude::*;

verus! {

/// Game time consumed by one logic update, in microseconds (1/60 s).
pub const FRAME_PERIOD_MICROS: u64 = 16666;

/// Cap on the accumulated backlog: 30 frame periods (about 0.5 s), so at most
/// 30 catch-up updates run after a stall.
pub const MAX_BACKLOG_MICROS: u64 = 30 * FRAME_PERIOD_MICROS;

/// Fixed-timestep accumulator. `tick` adds elapsed wall-clock time to the
/// backlog (clamped), and each `should_update` that reports true consumes one
/// frame period from it.
pub struct Timer {
    remaining: u64,
}

impl Timer {
    /// The accumulated game-time backlog not yet consumed by updates.
    pub closed spec fn backlog(&self) -> u64 {
        self.remaining
    }

    /// The backlog never exceeds the clamp.
    pub open spec fn wf(&self) -> bool {
        self.backlog() <= MAX_BACKLOG_MICROS
    }

    pub fn new() -> (t: Timer)
        ensures
            t.backlog() == 0,
            t.wf(),
    {
        Timer { remaining: 0 }
    }

    /// Add elapsed wall-clock time to the backlog, clamping the result to the
    /// maximum backlog.
    pub fn tick(&mut self, elapsed_micros: u64)
        requires
            old(self).wf(),
        ensures
            final(self).backlog() == if old(self).backlog() + elapsed_micros
                > MAX_BACKLOG_MICROS { MAX_BACKLOG_MICROS as int } else {
                old(self).backlog() + elapsed_micros },
            final(self).wf(),
    {
        if elapsed_micros >= MAX_BACKLOG_MICROS {
            self.remaining = MAX_BACKLOG_MICROS;
        } else {
            let sum = self.remaining + elapsed_micros;
            self.remaining = if sum > MAX_BACKLOG_MICROS { MAX_BACKLOG_MICROS } else { sum };
        }
    }

    /// Report whether one more logic update should run this frame, consuming
    /// one frame period from the backlog when it does.
    pub fn should_update(&mut self) -> (run: bool)
        ensures
            run == (old(self).backlog() >= FRAME_PERIOD_MICROS),
            final(self).backlog() == if run { (old(self).backlog()
                - FRAME_PERIOD_MICROS) as int } else { old(self).backlog() as int },
            old(self).wf() ==> final(self).wf(),
    {
        if self.remaining >= FRAME_PERIOD_MICROS {
            self.remaining = self.remaining - FRAME_PERIOD_MICROS;
            true
        } else {
            false
        }
    }
}

} // verus!
