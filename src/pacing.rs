//! Playback pacing: which frame to show next and how long to sleep, so that
//! the long-run frame rate matches the target despite rendering time and
//! sleeps that overshoot. Times are whole nanoseconds.
use vstd::prelude::*;

verus! {

/// Longest frame interval, in nanoseconds, that a pacer runs with.
pub const MAX_FRAME_NANOS: u128 = 1_000_000_000_000_000_000_000_000_000;

/// Drift after one frame whose sleep was asked for `requested` and took
/// `actual`, starting from `error`: the overshoot is added, and once the
/// sum reaches a whole interval `frame_time` it is dropped to zero.
pub open spec fn next_drift(error: int, frame_time: int, requested: int, actual: int) -> int {
    let e = error + actual - requested;
    if e >= frame_time {
        0
    } else {
        e
    }
}

/// Whether the frame index moves on after such a frame: it does unless the
/// drift reached a whole interval, in which case the frame is shown again.
pub open spec fn advances(error: int, frame_time: int, requested: int, actual: int) -> bool {
    error + actual - requested < frame_time
}

/// Drift after the first `k` frames of a run whose sleeps were asked for
/// `requested[i]` and took `actual[i]`, starting from `error`.
pub open spec fn drift_after(
    error: int,
    frame_time: int,
    requested: Seq<int>,
    actual: Seq<int>,
    k: nat,
) -> int
    decreases k,
{
    if k == 0 {
        error
    } else {
        let prev = drift_after(error, frame_time, requested, actual, (k - 1) as nat);
        next_drift(prev, frame_time, requested[k - 1], actual[k - 1])
    }
}

/// However the sleeps of a run turn out, the drift stays below one frame
/// interval after every frame.
pub proof fn lemma_drift_stays_below_interval(
    error: int,
    frame_time: int,
    requested: Seq<int>,
    actual: Seq<int>,
    k: nat,
)
    requires
        frame_time > 0,
        error < frame_time,
    ensures
        drift_after(error, frame_time, requested, actual, k) < frame_time,
    decreases k,
{
    if k > 0 {
        lemma_drift_stays_below_interval(error, frame_time, requested, actual, (k - 1) as nat);
    }
}

/// The sleep for one frame: `requested` is the frame interval less the time
/// already spent on the frame, and may be negative; `duration` is what to
/// actually sleep, never negative.
pub struct SleepPlan {
    pub requested: i128,
    pub duration: u128,
}

/// Pacing state of a playback of frames `1 .. frame_count`.
pub struct Pacer {
    /// Target time per frame.
    pub frame_time: u128,
    /// One past the last frame index shown.
    pub frame_count: usize,
    /// The frame to show next.
    pub index: usize,
    /// Accumulated amount by which sleeps overshot what was asked.
    pub error: i128,
}

impl Pacer {
    /// The interval is positive and bounded, frames count from one, and the
    /// drift is below one interval.
    pub open spec fn wf(&self) -> bool {
        &&& 0 < self.frame_time <= MAX_FRAME_NANOS
        &&& self.index >= 1
        &&& self.error < self.frame_time
    }

    /// Whether every frame has been shown.
    pub open spec fn is_done(&self) -> bool {
        self.index >= self.frame_count
    }

    /// A pacer at frame 1 with no drift.
    pub fn new(frame_count: usize, frame_time: u128) -> (r: Pacer)
        requires
            0 < frame_time <= MAX_FRAME_NANOS,
        ensures
            r.frame_time == frame_time,
            r.frame_count == frame_count,
            r.index == 1,
            r.error == 0,
            r.wf(),
    {
        Pacer { frame_time, frame_count, index: 1, error: 0 }
    }

    /// The index of the frame to show now, or `None` once the index has
    /// reached `frame_count`.
    pub fn current_frame(&self) -> (r: Option<usize>)
        ensures
            r == (if self.is_done() {
                None
            } else {
                Some(self.index)
            }),
    {
        if self.index < self.frame_count {
            Some(self.index)
        } else {
            None
        }
    }

    /// The sleep after a frame that took `elapsed` to fetch and draw.
    pub fn plan_sleep(&self, elapsed: u64) -> (r: SleepPlan)
        requires
            self.wf(),
        ensures
            r.requested == self.frame_time - elapsed,
            r.duration == (if r.requested > 0 {
                r.requested as int
            } else {
                0
            }),
            r.duration <= self.frame_time,
    {
        let requested: i128 = self.frame_time as i128 - elapsed as i128;
        let duration: u128 = if requested > 0 {
            requested as u128
        } else {
            0
        };
        SleepPlan { requested, duration }
    }

    /// Records that the sleep of `plan` took `actual`, and moves on to the
    /// next frame, or holds the current one when the drift reached a whole
    /// interval (the drift then starts again from zero).
    pub fn record_sleep(&mut self, plan: SleepPlan, actual: u64) -> (advanced: bool)
        requires
            old(self).wf(),
            !old(self).is_done(),
            i128::MIN <= old(self).error + actual - plan.requested <= i128::MAX,
        ensures
            advanced == advances(
                old(self).error as int,
                old(self).frame_time as int,
                plan.requested as int,
                actual as int,
            ),
            final(self).error == next_drift(
                old(self).error as int,
                old(self).frame_time as int,
                plan.requested as int,
                actual as int,
            ),
            final(self).index == (if advanced {
                old(self).index + 1
            } else {
                old(self).index as int
            }),
            final(self).frame_time == old(self).frame_time,
            final(self).frame_count == old(self).frame_count,
            final(self).error < final(self).frame_time,
            final(self).wf(),
    {
        let e: i128 = self.error + actual as i128 - plan.requested;
        if e >= self.frame_time as i128 {
            self.error = 0;
            false
        } else {
            self.error = e;
            self.index = self.index + 1;
            true
        }
    }
}

} // verus!
