//! The progress estimator.
//!
//! A single long-lived loop samples the shared counters and the host's
//! cumulative I/O deltas.  Exact per-file byte totals arrive in bursts, so
//! the estimator anchors on the last exact total and extrapolates forward
//! with the host read delta until the next exact total arrives.  Its output
//! is advisory: a heuristic reading of noisy, partially stale samples,
//! never a correctness signal.

use vstd::prelude::*;

verus! {

/// Remaining time reported while bytes remain but the read rate is zero.
pub const ETA_UNKNOWN: u64 = u64::MAX;

/// Addition that stops at the top of the range instead of faulting.
pub open spec fn add_saturating(a: u64, b: u64) -> u64 {
    if a + b <= u64::MAX {
        (a + b) as u64
    } else {
        u64::MAX
    }
}

/// Subtraction that stops at zero instead of faulting.
pub open spec fn sub_saturating(a: u64, b: u64) -> u64 {
    if a >= b {
        (a - b) as u64
    } else {
        0u64
    }
}

/// The share of `total` covered by `done`, in whole percent.  Zero while no
/// line was decoded; unbounded (saturated) when lines were decoded but
/// nothing was ever reserved.
pub open spec fn percent_done_spec(done: u64, total: u64, lines: u64) -> u64 {
    if lines == 0 {
        0u64
    } else if total == 0 {
        u64::MAX
    } else if done * 100 / (total as int) <= u64::MAX {
        (done * 100 / (total as int)) as u64
    } else {
        u64::MAX
    }
}

/// Kept lines per decoded lines, in hundredths of a percent.  Zero while no
/// line was decoded.
pub open spec fn kept_ratio_spec(kept: u64, lines: u64) -> u64 {
    if lines == 0 {
        0u64
    } else if kept * 10000 / (lines as int) <= u64::MAX {
        (kept * 10000 / (lines as int)) as u64
    } else {
        u64::MAX
    }
}

/// The estimator's anchor: the last exact processed-byte total it saw, and
/// the running estimate extrapolated from host reads since then.
pub struct EstimatorState {
    pub last_accurate: u64,
    pub estimate: u64,
}

/// One reading of the shared counters plus the host read delta of the tick.
pub struct TickInput {
    pub decompressed_bytes: u64,
    pub decompressed_lines: u64,
    pub kept_lines: u64,
    pub processed_bytes: u64,
    pub to_be_processed_bytes: u64,
    pub read_delta: u64,
}

/// What one tick derives for display.
pub struct TickReport {
    pub estimate: u64,
    pub remaining_bytes: u64,
    pub eta_seconds: u64,
    pub percent_done: u64,
    pub kept_ratio: u64,
}

/// The share of `total` covered by `done`, in whole percent.
pub fn percent_done(done: u64, total: u64, lines: u64) -> (r: u64)
    ensures
        r == percent_done_spec(done, total, lines),
{
    if lines == 0 {
        0
    } else if total == 0 {
        u64::MAX
    } else {
        let p: u128 = (done as u128) * 100 / (total as u128);
        if p > u64::MAX as u128 {
            u64::MAX
        } else {
            p as u64
        }
    }
}

/// Kept lines per decoded lines, in hundredths of a percent.
pub fn kept_ratio(kept: u64, lines: u64) -> (r: u64)
    ensures
        r == kept_ratio_spec(kept, lines),
{
    if lines == 0 {
        0
    } else {
        let p: u128 = (kept as u128) * 10000 / (lines as u128);
        if p > u64::MAX as u128 {
            u64::MAX
        } else {
            p as u64
        }
    }
}

impl EstimatorState {
    pub fn new() -> (r: EstimatorState)
        ensures
            r.last_accurate == 0,
            r.estimate == 0,
    {
        EstimatorState { last_accurate: 0, estimate: 0 }
    }

    /// One estimator tick.  While the exact total stands still the estimate
    /// advances by the host read delta; a fresh exact total re-anchors it.
    /// The derived remaining time never divides by a zero rate: with bytes
    /// remaining and no reads it reports the sentinel instead.
    pub fn tick(&mut self, input: TickInput) -> (r: TickReport)
        ensures
            (input.processed_bytes == old(self).last_accurate ==> final(self).last_accurate
                == old(self).last_accurate && final(self).estimate == add_saturating(
                old(self).estimate,
                input.read_delta,
            )),
            (input.processed_bytes != old(self).last_accurate ==> final(self).last_accurate
                == input.processed_bytes && final(self).estimate == input.processed_bytes),
            r.estimate == final(self).estimate,
            r.remaining_bytes == sub_saturating(
                input.to_be_processed_bytes,
                final(self).estimate,
            ),
            (input.read_delta == 0 ==> r.eta_seconds == (if r.remaining_bytes == 0 {
                0u64
            } else {
                ETA_UNKNOWN
            })),
            (input.read_delta > 0 ==> r.eta_seconds == r.remaining_bytes / input.read_delta),
            r.percent_done == percent_done_spec(
                final(self).estimate,
                input.to_be_processed_bytes,
                input.decompressed_lines,
            ),
            r.kept_ratio == kept_ratio_spec(input.kept_lines, input.decompressed_lines),
    {
        if input.processed_bytes == self.last_accurate {
            self.estimate = self.estimate.saturating_add(input.read_delta);
        } else {
            self.last_accurate = input.processed_bytes;
            self.estimate = input.processed_bytes;
        }
        let remaining = input.to_be_processed_bytes.saturating_sub(self.estimate);
        let eta = if input.read_delta == 0 {
            if remaining == 0 {
                0
            } else {
                ETA_UNKNOWN
            }
        } else {
            remaining / input.read_delta
        };
        TickReport {
            estimate: self.estimate,
            remaining_bytes: remaining,
            eta_seconds: eta,
            percent_done: percent_done(
                self.estimate,
                input.to_be_processed_bytes,
                input.decompressed_lines,
            ),
            kept_ratio: kept_ratio(input.kept_lines, input.decompressed_lines),
        }
    }
}

} // verus!
