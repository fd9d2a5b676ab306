//! Task-local counters and the shared progress aggregator.
//!
//! Each task counts decoded bytes, decoded lines and kept lines on its own
//! and publishes them into the aggregator in coarse batches, so that many
//! concurrent tasks contend only rarely.  Every aggregator update is a plain
//! addition; the proof that no update can be lost under any interleaving of
//! batches is `lemma_no_lost_updates`.

use vstd::prelude::*;
use vstd::seq_lib::group_seq_properties;

verus! {

/// Publish a counter batch once this many decoded bytes have accumulated.
pub const PUBLISH_THRESHOLD: u64 = 500000000;

/// Additive counters shared by all tasks.  Fields only ever grow, except
/// for the one downward correction of `to_be_processed_bytes` when a task
/// is skipped after its input was already reserved.
pub struct Aggregator {
    pub decompressed_bytes: u64,
    pub decompressed_lines: u64,
    pub kept_lines: u64,
    pub processed_bytes: u64,
    pub to_be_processed_bytes: u64,
}

impl Aggregator {
    pub fn new() -> (r: Aggregator)
        ensures
            r.decompressed_bytes == 0,
            r.decompressed_lines == 0,
            r.kept_lines == 0,
            r.processed_bytes == 0,
            r.to_be_processed_bytes == 0,
    {
        Aggregator {
            decompressed_bytes: 0,
            decompressed_lines: 0,
            kept_lines: 0,
            processed_bytes: 0,
            to_be_processed_bytes: 0,
        }
    }

    /// One batch of decode progress from one task.
    pub fn add_decoded(&mut self, bytes: u64, lines: u64, kept: u64)
        requires
            old(self).decompressed_bytes + bytes <= u64::MAX,
            old(self).decompressed_lines + lines <= u64::MAX,
            old(self).kept_lines + kept <= u64::MAX,
        ensures
            final(self).decompressed_bytes == old(self).decompressed_bytes + bytes,
            final(self).decompressed_lines == old(self).decompressed_lines + lines,
            final(self).kept_lines == old(self).kept_lines + kept,
            final(self).processed_bytes == old(self).processed_bytes,
            final(self).to_be_processed_bytes == old(self).to_be_processed_bytes,
    {
        self.decompressed_bytes = self.decompressed_bytes + bytes;
        self.decompressed_lines = self.decompressed_lines + lines;
        self.kept_lines = self.kept_lines + kept;
    }

    /// The exact compressed size of one fully processed input.
    pub fn add_processed(&mut self, bytes: u64)
        requires
            old(self).processed_bytes + bytes <= u64::MAX,
        ensures
            final(self).processed_bytes == old(self).processed_bytes + bytes,
            final(self).decompressed_bytes == old(self).decompressed_bytes,
            final(self).decompressed_lines == old(self).decompressed_lines,
            final(self).kept_lines == old(self).kept_lines,
            final(self).to_be_processed_bytes == old(self).to_be_processed_bytes,
    {
        self.processed_bytes = self.processed_bytes + bytes;
    }

    /// Reserve the compressed size of a discovered input.
    pub fn reserve(&mut self, bytes: u64)
        requires
            old(self).to_be_processed_bytes + bytes <= u64::MAX,
        ensures
            final(self).to_be_processed_bytes == old(self).to_be_processed_bytes + bytes,
            final(self).decompressed_bytes == old(self).decompressed_bytes,
            final(self).decompressed_lines == old(self).decompressed_lines,
            final(self).kept_lines == old(self).kept_lines,
            final(self).processed_bytes == old(self).processed_bytes,
    {
        self.to_be_processed_bytes = self.to_be_processed_bytes + bytes;
    }

    /// Undo a reservation once, when a task is skipped before any decoding.
    pub fn correct_reservation(&mut self, bytes: u64)
        requires
            bytes <= old(self).to_be_processed_bytes,
        ensures
            final(self).to_be_processed_bytes == old(self).to_be_processed_bytes - bytes,
            final(self).decompressed_bytes == old(self).decompressed_bytes,
            final(self).decompressed_lines == old(self).decompressed_lines,
            final(self).kept_lines == old(self).kept_lines,
            final(self).processed_bytes == old(self).processed_bytes,
    {
        self.to_be_processed_bytes = self.to_be_processed_bytes - bytes;
    }
}

/// Counters owned by a single task.  `pending_*` is what has accumulated
/// since the last published batch; `published_*` is the ghost record of
/// what earlier batches added to the aggregator.
pub struct TaskCounters {
    pub pending_bytes: u64,
    pub pending_lines: u64,
    pub pending_kept: u64,
    pub published_bytes: Ghost<int>,
    pub published_lines: Ghost<int>,
    pub published_kept: Ghost<int>,
}

impl TaskCounters {
    pub open spec fn wf(self) -> bool {
        self.published_bytes@ >= 0 && self.published_lines@ >= 0 && self.published_kept@ >= 0
    }

    /// The running totals of one task, published and pending together.
    pub open spec fn total_bytes(self) -> int {
        self.published_bytes@ + self.pending_bytes
    }

    pub open spec fn total_lines(self) -> int {
        self.published_lines@ + self.pending_lines
    }

    pub open spec fn total_kept(self) -> int {
        self.published_kept@ + self.pending_kept
    }

    pub fn new() -> (r: TaskCounters)
        ensures
            r.wf(),
            r.total_bytes() == 0,
            r.total_lines() == 0,
            r.total_kept() == 0,
            r.pending_bytes == 0,
    {
        TaskCounters {
            pending_bytes: 0,
            pending_lines: 0,
            pending_kept: 0,
            published_bytes: Ghost(0),
            published_lines: Ghost(0),
            published_kept: Ghost(0),
        }
    }

    /// Account for one decoded line of `len` bytes, kept or dropped.
    pub fn record_line(&mut self, len: usize, kept: bool)
        requires
            old(self).wf(),
            old(self).pending_bytes + len <= u64::MAX,
            old(self).pending_lines < u64::MAX,
            old(self).pending_kept < u64::MAX,
        ensures
            final(self).wf(),
            final(self).total_bytes() == old(self).total_bytes() + len,
            final(self).total_lines() == old(self).total_lines() + 1,
            final(self).total_kept() == old(self).total_kept() + (if kept { 1int } else { 0int }),
            final(self).pending_bytes == old(self).pending_bytes + len,
            final(self).published_bytes == old(self).published_bytes,
            final(self).published_lines == old(self).published_lines,
            final(self).published_kept == old(self).published_kept,
    {
        self.pending_bytes = self.pending_bytes + (len as u64);
        self.pending_lines = self.pending_lines + 1;
        if kept {
            self.pending_kept = self.pending_kept + 1;
        }
    }

    /// Whether enough has accumulated to be worth a shared update.
    pub fn should_publish(&self) -> (r: bool)
        ensures
            r == (self.pending_bytes > PUBLISH_THRESHOLD),
    {
        self.pending_bytes > PUBLISH_THRESHOLD
    }

    /// Add the pending batch to the aggregator and reset it.  The task's
    /// totals are unchanged: what left `pending_*` is now published.
    pub fn publish(&mut self, agg: &mut Aggregator)
        requires
            old(self).wf(),
            old(agg).decompressed_bytes + old(self).pending_bytes <= u64::MAX,
            old(agg).decompressed_lines + old(self).pending_lines <= u64::MAX,
            old(agg).kept_lines + old(self).pending_kept <= u64::MAX,
        ensures
            final(self).wf(),
            final(self).total_bytes() == old(self).total_bytes(),
            final(self).total_lines() == old(self).total_lines(),
            final(self).total_kept() == old(self).total_kept(),
            final(self).pending_bytes == 0,
            final(self).pending_lines == 0,
            final(self).pending_kept == 0,
            final(agg).decompressed_bytes == old(agg).decompressed_bytes + old(self).pending_bytes,
            final(agg).decompressed_lines == old(agg).decompressed_lines + old(self).pending_lines,
            final(agg).kept_lines == old(agg).kept_lines + old(self).pending_kept,
            final(agg).processed_bytes == old(agg).processed_bytes,
            final(agg).to_be_processed_bytes == old(agg).to_be_processed_bytes,
    {
        agg.add_decoded(self.pending_bytes, self.pending_lines, self.pending_kept);
        self.published_bytes = Ghost(self.published_bytes@ + self.pending_bytes);
        self.published_lines = Ghost(self.published_lines@ + self.pending_lines);
        self.published_kept = Ghost(self.published_kept@ + self.pending_kept);
        self.pending_bytes = 0;
        self.pending_lines = 0;
        self.pending_kept = 0;
    }
}

/// The sum of a sequence of counter deltas.
pub open spec fn seq_sum(s: Seq<int>) -> int
    decreases s.len(),
{
    if s.len() == 0 {
        0
    } else {
        s[0] + seq_sum(s.drop_first())
    }
}

/// The sum of each task's own deltas, added up over all tasks.
pub open spec fn sum_of_task_sums(tasks: Seq<Seq<int>>) -> int
    decreases tasks.len(),
{
    if tasks.len() == 0 {
        0
    } else {
        seq_sum(tasks[0]) + sum_of_task_sums(tasks.drop_first())
    }
}

/// Removing one element removes exactly its contribution from the sum.
proof fn lemma_seq_sum_remove(s: Seq<int>, i: int)
    requires
        0 <= i < s.len(),
    ensures
        seq_sum(s) == s[i] + seq_sum(s.remove(i)),
    decreases s.len(),
{
    if i == 0 {
        assert(s.remove(0) =~= s.drop_first());
    } else {
        assert(s.remove(i).drop_first() =~= s.drop_first().remove(i - 1));
        lemma_seq_sum_remove(s.drop_first(), i - 1);
    }
}

/// The sum of a sequence depends only on its multiset of elements: any
/// reordering of the same additions reaches the same total.
pub proof fn lemma_seq_sum_multiset(a: Seq<int>, b: Seq<int>)
    requires
        a.to_multiset() == b.to_multiset(),
    ensures
        seq_sum(a) == seq_sum(b),
    decreases a.len(),
{
    broadcast use group_seq_properties;

    a.to_multiset_ensures();
    b.to_multiset_ensures();
    if a.len() == 0 {
        assert(b.to_multiset().len() == 0);
    } else {
        let x = a[0];
        assert(a.contains(x));
        assert(b.to_multiset().count(x) > 0);
        assert(b.contains(x));
        let j = choose|j: int| 0 <= j < b.len() && b[j] == x;
        lemma_seq_sum_remove(a, 0);
        lemma_seq_sum_remove(b, j);
        assert(a.remove(0).to_multiset() =~= a.to_multiset().remove(x));
        assert(b.remove(j).to_multiset() =~= b.to_multiset().remove(x));
        lemma_seq_sum_multiset(a.remove(0), b.remove(j));
    }
}

/// Concatenation adds the sums.
proof fn lemma_seq_sum_concat(a: Seq<int>, b: Seq<int>)
    ensures
        seq_sum(a + b) == seq_sum(a) + seq_sum(b),
    decreases a.len(),
{
    if a.len() == 0 {
        assert(a + b =~= b);
    } else {
        assert((a + b).drop_first() =~= a.drop_first() + b);
        lemma_seq_sum_concat(a.drop_first(), b);
    }
}

/// Flattening the per-task delta sequences preserves the grand total.
proof fn lemma_seq_sum_flatten(tasks: Seq<Seq<int>>)
    ensures
        seq_sum(tasks.flatten()) == sum_of_task_sums(tasks),
    decreases tasks.len(),
{
    if tasks.len() == 0 {
    } else {
        assert(tasks.flatten() == tasks.first() + tasks.drop_first().flatten());
        lemma_seq_sum_concat(tasks.first(), tasks.drop_first().flatten());
        lemma_seq_sum_flatten(tasks.drop_first());
    }
}

/// No update is lost: when the batches of many concurrent tasks reach the
/// aggregator in any interleaved order, the aggregated total equals the sum
/// of each task's own final counts.
pub proof fn lemma_no_lost_updates(tasks: Seq<Seq<int>>, interleaving: Seq<int>)
    requires
        interleaving.to_multiset() == tasks.flatten().to_multiset(),
    ensures
        seq_sum(interleaving) == sum_of_task_sums(tasks),
{
    lemma_seq_sum_multiset(interleaving, tasks.flatten());
    lemma_seq_sum_flatten(tasks);
}

} // verus!
