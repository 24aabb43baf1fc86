//! The counters of the direct preview: frames converted and the time spent
//! on them, reported and restarted every thousand frames.
use vstd::prelude::*;
use crate::nokhwa_camera::time_sum;

verus! {

/// Frames after which the counters are reported and restarted.
pub const REPORT_EVERY_FRAMES: u64 = 1000;

/// What is reported every thousand frames.
#[derive(Debug, Clone, Copy, PartialEq, Eq, Structural)]
pub struct PreviewReport {
    pub frames: u64,
    pub total_conversion_nanos: u128,
}

/// The frame count and total time after recording one more conversion of
/// `nanos`: both grow, and both restart on every thousandth frame.
pub open spec fn preview_step(counters: (int, int), nanos: u64) -> (int, int) {
    if counters.0 + 1 == REPORT_EVERY_FRAMES as int {
        (0, 0)
    } else {
        (counters.0 + 1, counters.1 + nanos)
    }
}

/// The counters after recording each of `conversions` in order, from zero.
pub open spec fn preview_replay(conversions: Seq<u64>) -> (int, int)
    decreases conversions.len(),
{
    if conversions.len() == 0 {
        (0, 0)
    } else {
        preview_step(preview_replay(conversions.drop_last()), conversions.last())
    }
}

/// After `n` recordings from new counters, the frame count is `n` modulo a
/// thousand (so it stays below a thousand and an average never divides by
/// zero while it is positive), and the total is the sum of the last that
/// many conversion times.
pub proof fn lemma_preview_replay(conversions: Seq<u64>)
    ensures
        preview_replay(conversions).0 == (conversions.len() as int) % (REPORT_EVERY_FRAMES as int),
        preview_replay(conversions).1 == time_sum(
            conversions.subrange(
                conversions.len() - (conversions.len() as int) % (REPORT_EVERY_FRAMES as int),
                conversions.len() as int,
            ),
        ),
    decreases conversions.len(),
{
    let n = conversions.len() as int;
    let r = REPORT_EVERY_FRAMES as int;
    if n == 0 {
        assert(conversions.subrange(0, 0).len() == 0);
    } else {
        let prev = conversions.drop_last();
        lemma_preview_replay(prev);
        let k0 = (n - 1) % r;
        if k0 + 1 == r {
            assert(n % r == 0);
            assert(conversions.subrange(n, n).len() == 0);
        } else {
            assert(n % r == k0 + 1);
            let window = conversions.subrange(n - (k0 + 1), n);
            assert(window.drop_last() =~= prev.subrange((n - 1) - k0, n - 1));
            assert(window.last() == conversions.last());
        }
    }
}

/// Frames converted since the last report and the time they took.
pub struct PreviewCounters {
    frame_count: u64,
    total_conversion_nanos: u128,
}

impl PreviewCounters {
    /// Frames counted since the last report.
    pub closed spec fn frames(&self) -> u64 {
        self.frame_count
    }

    /// Conversion time counted since the last report, in nanoseconds.
    pub closed spec fn total(&self) -> u128 {
        self.total_conversion_nanos
    }

    /// The counters never pass a report.
    pub closed spec fn wf(&self) -> bool {
        self.frame_count < REPORT_EVERY_FRAMES
    }

    /// Counters at zero.
    pub fn new() -> (counters: Self)
        ensures
            counters.wf(),
            counters.frames() == 0,
            counters.total() == 0,
    {
        PreviewCounters { frame_count: 0, total_conversion_nanos: 0 }
    }

    /// Counts one converted frame; on every thousandth, returns the report
    /// and restarts the counters.
    pub fn record_conversion(&mut self, conversion_nanos: u64) -> (report: Option<PreviewReport>)
        requires
            old(self).wf(),
            old(self).total() + conversion_nanos <= u128::MAX,
        ensures
            final(self).wf(),
            old(self).frames() + 1 == REPORT_EVERY_FRAMES ==> report == Some(
                PreviewReport {
                    frames: REPORT_EVERY_FRAMES,
                    total_conversion_nanos: (old(self).total() + conversion_nanos) as u128,
                },
            ) && final(self).frames() == 0 && final(self).total() == 0,
            old(self).frames() + 1 < REPORT_EVERY_FRAMES ==> report is None && final(self).frames()
                == old(self).frames() + 1 && final(self).total() == old(self).total() + conversion_nanos,
            (final(self).frames() as int, final(self).total() as int) == preview_step(
                (old(self).frames() as int, old(self).total() as int),
                conversion_nanos,
            ),
    {
        self.frame_count = self.frame_count + 1;
        self.total_conversion_nanos = self.total_conversion_nanos + conversion_nanos as u128;
        if self.frame_count % REPORT_EVERY_FRAMES == 0 {
            let report = PreviewReport {
                frames: self.frame_count,
                total_conversion_nanos: self.total_conversion_nanos,
            };
            self.frame_count = 0;
            self.total_conversion_nanos = 0;
            Some(report)
        } else {
            None
        }
    }

    /// The counters as they stand.
    pub fn snapshot(&self) -> (report: PreviewReport)
        ensures
            report == (PreviewReport { frames: self.frames(), total_conversion_nanos: self.total() }),
    {
        PreviewReport { frames: self.frame_count, total_conversion_nanos: self.total_conversion_nanos }
    }
}

} // verus!
