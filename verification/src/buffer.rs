//! Trailing-aware output buffering.
//!
//! Kept lines are joined with a single separator and the very last kept line
//! is written without one.  Because the stream is processed forward only, the
//! buffer holds each kept line back by one step: a line is committed (with a
//! separator) only once a newer kept line arrives, and the final pending line
//! is emitted bare when the stream ends.

use vstd::prelude::*;

verus! {

/// The separator written between two kept lines.
pub const SEPARATOR: u8 = 10;

/// The separator, as a one-byte sequence.
pub open spec fn sep_seq() -> Seq<u8> {
    seq![SEPARATOR]
}

/// Every line followed by the separator.
pub open spec fn terminated(lines: Seq<Seq<u8>>) -> Seq<u8>
    decreases lines.len(),
{
    if lines.len() == 0 {
        Seq::empty()
    } else {
        terminated(lines.drop_last()) + lines.last() + sep_seq()
    }
}

/// Lines joined by the separator, with no separator after the last line.
pub open spec fn join_lines(lines: Seq<Seq<u8>>) -> Seq<u8> {
    if lines.len() == 0 {
        Seq::empty()
    } else {
        terminated(lines.drop_last()) + lines.last()
    }
}

/// A single kept line is emitted exactly as it is, with no separator.
pub proof fn lemma_join_lines_single(lines: Seq<Seq<u8>>)
    requires
        lines.len() == 1,
    ensures
        join_lines(lines) == lines[0],
{
    assert(terminated(lines.drop_last()) + lines.last() =~= lines[0]);
}

/// With two or more kept lines the output is the join of all but the last,
/// then one separator, then the last line.
pub proof fn lemma_join_lines_step(lines: Seq<Seq<u8>>)
    requires
        lines.len() >= 2,
    ensures
        join_lines(lines) == join_lines(lines.drop_last()) + sep_seq() + lines.last(),
{
    let front = lines.drop_last();
    assert(terminated(front) == terminated(front.drop_last()) + front.last() + sep_seq());
    assert(terminated(front) + lines.last() =~= (join_lines(front) + sep_seq()) + lines.last());
}

/// One-line-lookback buffer: defers each kept line by one step so that the
/// true last kept line can be emitted without a trailing separator, and
/// hands back a chunk to write whenever the byte threshold is reached.
pub struct TrailingAwareBuffer {
    /// Bytes accumulated since the last flush.
    pub buf: Vec<u8>,
    /// The most recently kept line, not yet committed to `buf`.
    pub pending: Option<Vec<u8>>,
    /// Flush once `buf` reaches this many bytes.
    pub threshold: usize,
    /// All kept lines pushed so far.
    pub kept: Ghost<Seq<Seq<u8>>>,
    /// All bytes handed out in flush chunks so far.
    pub emitted: Ghost<Seq<u8>>,
}

impl TrailingAwareBuffer {
    /// The pending line is always the last kept line, and the bytes emitted
    /// so far plus the bytes still buffered are exactly the earlier kept
    /// lines, each followed by one separator.
    pub open spec fn wf(self) -> bool {
        if self.kept@.len() == 0 {
            &&& self.pending is None
            &&& self.buf@ == Seq::<u8>::empty()
            &&& self.emitted@ == Seq::<u8>::empty()
        } else {
            &&& self.pending matches Some(p) && p@ == self.kept@.last()
            &&& self.emitted@ + self.buf@ == terminated(self.kept@.drop_last())
        }
    }

    pub fn new(threshold: usize) -> (r: TrailingAwareBuffer)
        ensures
            r.wf(),
            r.kept@ == Seq::<Seq<u8>>::empty(),
            r.emitted@ == Seq::<u8>::empty(),
            r.threshold == threshold,
    {
        let r = TrailingAwareBuffer {
            buf: Vec::new(),
            pending: None,
            threshold,
            kept: Ghost(Seq::empty()),
            emitted: Ghost(Seq::empty()),
        };
        r
    }

    /// Record one kept line.  If a chunk is returned, it must be written to
    /// the output; the buffer accounts for it in `emitted`.
    pub fn push_kept(&mut self, line: Vec<u8>) -> (chunk: Option<Vec<u8>>)
        requires
            old(self).wf(),
        ensures
            final(self).wf(),
            final(self).threshold == old(self).threshold,
            final(self).kept@ == old(self).kept@.push(line@),
            (match chunk {
                Option::None => final(self).emitted@ == old(self).emitted@
                    && final(self).buf@.len() < old(self).threshold,
                Option::Some(c) => final(self).emitted@ == old(self).emitted@ + c@
                    && final(self).buf@.len() == 0,
            }),
    {
        let ghost old_kept = self.kept@;
        let mut prev: Option<Vec<u8>> = None;
        core::mem::swap(&mut prev, &mut self.pending);
        match prev {
            Some(mut p) => {
                self.buf.append(&mut p);
                self.buf.push(SEPARATOR);
                proof {
                    assert(self.emitted@ + self.buf@ =~= (self.emitted@
                        + old(self).buf@ + old_kept.last()) + sep_seq());
                    assert(self.emitted@ + self.buf@ =~= terminated(old_kept.drop_last())
                        + old_kept.last() + sep_seq());
                }
            },
            None => {},
        }
        self.pending = Some(line);
        self.kept = Ghost(old_kept.push(line@));
        proof {
            assert(self.kept@.drop_last() =~= old_kept);
            assert(self.kept@.last() == line@);
        }
        if self.buf.len() >= self.threshold {
            let mut out: Vec<u8> = Vec::new();
            core::mem::swap(&mut out, &mut self.buf);
            self.emitted = Ghost(self.emitted@ + out@);
            proof {
                assert(self.emitted@ + self.buf@ =~= self.emitted@);
            }
            Some(out)
        } else {
            None
        }
    }

    /// End of stream: the remaining buffered bytes plus the pending line,
    /// written without a trailing separator.  The second component tells
    /// whether any line was ever kept.
    pub fn finish(self) -> (r: (Vec<u8>, bool))
        requires
            self.wf(),
        ensures
            self.emitted@ + r.0@ == join_lines(self.kept@),
            r.1 == (self.kept@.len() > 0),
    {
        let TrailingAwareBuffer { buf: mut tail, pending, .. } = self;
        match pending {
            Some(mut p) => {
                tail.append(&mut p);
                proof {
                    assert(self.emitted@ + tail@ =~= (self.emitted@ + self.buf@)
                        + self.kept@.last());
                }
                (tail, true)
            },
            None => {
                proof {
                    assert(self.emitted@ + tail@ =~= Seq::<u8>::empty());
                }
                (tail, false)
            },
        }
    }
}

} // verus!
