//! Cadence of the background sampler.
//!
//! The sampler loop itself sleeps and reads the machine, which is not done
//! here. At each of its ticks it asks the schedule what is due: the process
//! table at every tick, the CPU and memory samplers once per interval.
//!
//! A CPU reading is the difference of two reads of the counters and means
//! something only if the reads lie a settle interval apart. The schedule
//! keeps the time of the last read and never lets its interval fall below the
//! settle interval, so the loop need not wait while it holds the shared state.

use vstd::prelude::*;

verus! {

/// Milliseconds between two refreshes of the CPU and memory samplers.
pub const METRICS_INTERVAL_MS: u64 = 1000;

/// Milliseconds for which the sampler loop pauses between two ticks.
pub const SAMPLER_PAUSE_MS: u64 = 50;

/// Least number of milliseconds between two reads of the CPU counters.
pub const SETTLE_MS: u64 = 500;

/// Milliseconds for which the foreground loop pauses between two frames.
pub const FRAME_PAUSE_MS: u64 = 16;

/// Milliseconds for which the foreground loop waits for a key press before
/// it draws the next frame.
pub const EVENT_WAIT_MS: u64 = 0;

/// What the sampler loop is to refresh at one tick.
#[derive(Clone, Copy, Debug, PartialEq, Eq, Structural)]
pub struct SamplerPlan {
    pub refresh_processes: bool,
    pub refresh_metrics: bool,
}

/// Milliseconds from `earlier` to `later`; 0 if `later` is not later.
pub open spec fn elapsed(earlier: u64, later: u64) -> nat {
    if later >= earlier {
        (later - earlier) as nat
    } else {
        0
    }
}

/// Mathematical model of a [`SamplerSchedule`].
pub struct ScheduleView {
    pub metrics_interval_ms: u64,
    pub last_metrics_ms: u64,
}

impl ScheduleView {
    /// The interval is at least the settle interval.
    pub open spec fn wf(self) -> bool {
        self.metrics_interval_ms >= SETTLE_MS
    }

    /// The samplers are due at `now_ms` if a full interval has passed since
    /// their last refresh.
    pub open spec fn metrics_due(self, now_ms: u64) -> bool {
        elapsed(self.last_metrics_ms, now_ms) >= self.metrics_interval_ms
    }

    /// The schedule after a tick at `now_ms`: a refresh that was due has been
    /// handed out and counts as done at `now_ms`.
    pub open spec fn ticked(self, now_ms: u64) -> ScheduleView {
        if self.metrics_due(now_ms) {
            ScheduleView {
                metrics_interval_ms: self.metrics_interval_ms,
                last_metrics_ms: now_ms,
            }
        } else {
            self
        }
    }
}

/// On a clock that does not run backwards, the refresh that follows a
/// refresh comes no sooner than the interval later, hence no sooner than the
/// settle interval later, and it comes with the first tick from then on.
pub proof fn lemma_refreshes_keep_interval(schedule: ScheduleView, first_ms: u64, second_ms: u64)
    requires
        schedule.wf(),
        first_ms <= second_ms,
        schedule.metrics_due(first_ms),
    ensures
        schedule.ticked(first_ms).wf(),
        schedule.ticked(first_ms).metrics_due(second_ms) <==> second_ms - first_ms
            >= schedule.metrics_interval_ms,
        schedule.ticked(first_ms).metrics_due(second_ms) ==> second_ms - first_ms >= SETTLE_MS,
{
}

/// When the CPU and memory samplers were last refreshed, and how long to wait
/// before the next refresh.
#[derive(Clone, Copy, Debug, PartialEq, Eq)]
pub struct SamplerSchedule {
    metrics_interval_ms: u64,
    last_metrics_ms: u64,
}

impl View for SamplerSchedule {
    type V = ScheduleView;

    closed spec fn view(&self) -> ScheduleView {
        ScheduleView {
            metrics_interval_ms: self.metrics_interval_ms,
            last_metrics_ms: self.last_metrics_ms,
        }
    }
}

impl SamplerSchedule {
    #[verifier::type_invariant]
    spec fn inv(self) -> bool {
        self@.wf()
    }

    /// A schedule that starts at `now_ms`, with the samplers counted as
    /// fresh, and refreshes them every [`METRICS_INTERVAL_MS`].
    pub fn new(now_ms: u64) -> (r: SamplerSchedule)
        ensures
            r@.metrics_interval_ms == METRICS_INTERVAL_MS,
            r@.last_metrics_ms == now_ms,
    {
        SamplerSchedule { metrics_interval_ms: METRICS_INTERVAL_MS, last_metrics_ms: now_ms }
    }

    /// A schedule that starts at `now_ms` and refreshes the samplers every
    /// `interval_ms`, or every [`SETTLE_MS`] if that is longer.
    pub fn with_interval(now_ms: u64, interval_ms: u64) -> (r: SamplerSchedule)
        ensures
            r@.metrics_interval_ms == if interval_ms >= SETTLE_MS {
                interval_ms
            } else {
                SETTLE_MS
            },
            r@.last_metrics_ms == now_ms,
    {
        let metrics_interval_ms = if interval_ms >= SETTLE_MS {
            interval_ms
        } else {
            SETTLE_MS
        };
        SamplerSchedule { metrics_interval_ms, last_metrics_ms: now_ms }
    }

    /// Milliseconds between two refreshes of the samplers; at least
    /// [`SETTLE_MS`].
    pub fn metrics_interval_ms(&self) -> (r: u64)
        ensures
            r == self@.metrics_interval_ms,
            r >= SETTLE_MS,
    {
        proof {
            use_type_invariant(self);
        }
        self.metrics_interval_ms
    }

    /// Time of the last refresh of the samplers.
    pub fn last_metrics_ms(&self) -> (r: u64)
        ensures
            r == self@.last_metrics_ms,
    {
        self.last_metrics_ms
    }

    /// Decides what to refresh at a tick at `now_ms`: the process table
    /// always, the CPU and memory samplers if they are due.
    pub fn tick(&mut self, now_ms: u64) -> (plan: SamplerPlan)
        ensures
            plan.refresh_processes,
            plan.refresh_metrics == old(self)@.metrics_due(now_ms),
            final(self)@ == old(self)@.ticked(now_ms),
            final(self)@.wf(),
    {
        proof {
            use_type_invariant(&*self);
        }
        let waited = if now_ms >= self.last_metrics_ms {
            now_ms - self.last_metrics_ms
        } else {
            0
        };
        let due = waited >= self.metrics_interval_ms;
        if due {
            self.last_metrics_ms = now_ms;
        }
        SamplerPlan { refresh_processes: true, refresh_metrics: due }
    }
}

} // verus!
