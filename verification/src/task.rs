//! One file end to end: entry guards, line splitting, and the filtering run.
//!
//! A task is skipped at its entry guard, or it verifies the container
//! signature, filters the decoded lines, flushes, and finally reports
//! whether an empty output must be discarded.  A decode failure mid-stream
//! aborts the run with an error rather than partial output.

use vstd::prelude::*;
use crate::buffer::{SEPARATOR, TrailingAwareBuffer, join_lines};
use crate::codec;
use crate::codec::{zstd_decode_ok, zstd_decoded};
use crate::counters::{Aggregator, TaskCounters};
use crate::filter::{LineFilter, matching_lines};

verus! {

/// Entry-time conditions that end a task cleanly, without an error.
#[derive(Clone, Copy, Debug, PartialEq, Eq, Structural)]
pub enum SkipReason {
    /// The input file is empty.
    EmptyInput,
    /// The input's metadata cannot be read.
    UnreadableMetadata,
    /// The destination already exists; never overwrite it.
    OutputExists,
    /// The input does not carry the zstd signature.
    NotTargetFormat,
}

/// Failures of a running task.  A failure to create or finalize the
/// destination is the shell's I/O error and aborts only the owning task;
/// it never arises in the in-memory pipeline.
#[derive(Clone, Copy, Debug, PartialEq, Eq, Structural)]
pub enum TaskError {
    /// The container signature is malformed; nothing was read.
    InvalidFormat,
    /// The payload is corrupt mid-stream; partial output must not be
    /// interpreted as complete.
    CorruptStream,
}

/// The verdict of the entry guard, with the one downward correction owed
/// to the aggregator when an already-produced input was reserved.
pub struct EntryCheck {
    pub skip: Option<SkipReason>,
    pub reservation_correction: u64,
}

/// The entry guard of a task: decides, before any decoding, whether the
/// file is skipped, and how much of the reserved byte total to give back.
pub fn entry_guard(metadata_len: Option<u64>, output_exists: bool) -> (r: EntryCheck)
    ensures
        (match metadata_len {
            Option::None => r.skip == Some(SkipReason::UnreadableMetadata)
                && r.reservation_correction == 0,
            Option::Some(len) => {
                if len == 0 {
                    r.skip == Some(SkipReason::EmptyInput) && r.reservation_correction == 0
                } else if output_exists {
                    r.skip == Some(SkipReason::OutputExists) && r.reservation_correction == len
                } else {
                    r.skip is None && r.reservation_correction == 0
                }
            },
        }),
{
    match metadata_len {
        None => EntryCheck { skip: Some(SkipReason::UnreadableMetadata), reservation_correction: 0 },
        Some(len) => {
            if len == 0 {
                EntryCheck { skip: Some(SkipReason::EmptyInput), reservation_correction: 0 }
            } else if output_exists {
                EntryCheck { skip: Some(SkipReason::OutputExists), reservation_correction: len }
            } else {
                EntryCheck { skip: None, reservation_correction: 0 }
            }
        },
    }
}

/// The four signature bytes that open every zstd archive.
pub open spec fn zstd_magic() -> Seq<u8> {
    seq![0x28u8, 0xB5u8, 0x2Fu8, 0xFDu8]
}

/// Whether the archive bytes open with the zstd signature.
pub open spec fn has_zstd_magic(content: Seq<u8>) -> bool {
    content.len() >= 4 && content.subrange(0, 4) == zstd_magic()
}

/// Check a four-byte header against the zstd signature.
pub fn is_zstd_magic(header: &[u8; 4]) -> (r: bool)
    ensures
        r == (header@ == zstd_magic()),
{
    let r = header[0] == 0x28 && header[1] == 0xB5 && header[2] == 0x2F && header[3] == 0xFD;
    proof {
        if r {
            assert(header@ =~= zstd_magic());
        }
    }
    r
}

/// A line terminator's optional carriage return is not part of the line.
pub open spec fn chomp(line: Seq<u8>) -> Seq<u8> {
    if line.len() > 0 && line.last() == 13u8 {
        line.drop_last()
    } else {
        line
    }
}

/// Splitting `rest` into lines, with `cur` the partial line read so far:
/// a separator ends the current line (less a final carriage return), and a
/// non-empty final segment counts as a last line of its own.
pub open spec fn split_acc(rest: Seq<u8>, cur: Seq<u8>) -> Seq<Seq<u8>>
    decreases rest.len(),
{
    if rest.len() == 0 {
        if cur.len() == 0 {
            Seq::empty()
        } else {
            seq![cur]
        }
    } else if rest[0] == SEPARATOR {
        seq![chomp(cur)] + split_acc(rest.drop_first(), Seq::empty())
    } else {
        split_acc(rest.drop_first(), cur.push(rest[0]))
    }
}

/// The decoded text lines of a byte stream.
pub open spec fn split_lines_spec(s: Seq<u8>) -> Seq<Seq<u8>> {
    split_acc(s, Seq::empty())
}

/// The views of a vector of lines.
pub open spec fn line_views(lines: Seq<Vec<u8>>) -> Seq<Seq<u8>> {
    lines.map_values(|l: Vec<u8>| l@)
}

/// The bytes held by the lines together.
pub open spec fn total_len(lines: Seq<Seq<u8>>) -> int
    decreases lines.len(),
{
    if lines.len() == 0 {
        0
    } else {
        total_len(lines.drop_last()) + lines.last().len()
    }
}

/// Split decoded bytes into lines, as the streaming reader hands them out:
/// split at each separator, with an optional carriage return stripped
/// before it, and a non-empty unterminated tail kept as a final line.
pub fn split_lines(data: &Vec<u8>) -> (r: Vec<Vec<u8>>)
    ensures
        line_views(r@) == split_lines_spec(data@),
{
    let mut result: Vec<Vec<u8>> = Vec::new();
    let mut cur: Vec<u8> = Vec::new();
    let mut i: usize = 0;
    proof {
        assert(data@.skip(0) =~= data@);
    }
    while i < data.len()
        invariant
            i <= data@.len(),
            split_lines_spec(data@) == line_views(result@) + split_acc(
                data@.skip(i as int),
                cur@,
            ),
        decreases data@.len() - i,
    {
        let ghost rest = data@.skip(i as int);
        let ghost old_cur = cur@;
        let ghost old_result = result@;
        let b = data[i];
        proof {
            assert(rest[0] == b);
            assert(rest.drop_first() =~= data@.skip(i + 1));
        }
        if b == SEPARATOR {
            if cur.len() > 0 && cur[cur.len() - 1] == 13 {
                let _ = cur.pop();
            }
            proof {
                assert(cur@ == chomp(old_cur));
            }
            result.push(cur);
            cur = Vec::new();
            proof {
                assert(line_views(result@) =~= line_views(old_result).push(chomp(old_cur)));
                assert(line_views(old_result) + (seq![chomp(old_cur)] + split_acc(
                    data@.skip(i + 1),
                    Seq::empty(),
                )) =~= line_views(result@) + split_acc(data@.skip(i + 1), cur@));
            }
        } else {
            cur.push(b);
            proof {
                assert(cur@ == old_cur.push(b));
            }
        }
        i = i + 1;
    }
    proof {
        assert(data@.skip(data@.len() as int) =~= Seq::<u8>::empty());
    }
    if cur.len() > 0 {
        result.push(cur);
        proof {
            assert(line_views(result@) =~= split_lines_spec(data@));
        }
    } else {
        proof {
            assert(line_views(result@) + Seq::<Seq<u8>>::empty() =~= line_views(result@));
            assert(line_views(result@) =~= split_lines_spec(data@));
        }
    }
    result
}

/// The lines of a prefix hold no more bytes than all lines together.
proof fn lemma_total_len_prefix(s: Seq<Seq<u8>>, i: int)
    requires
        0 <= i <= s.len(),
    ensures
        total_len(s.subrange(0, i)) <= total_len(s),
    decreases s.len() - i,
{
    if i == s.len() {
        assert(s.subrange(0, i) =~= s);
    } else {
        assert(s.subrange(0, i + 1).drop_last() =~= s.subrange(0, i));
        lemma_total_len_prefix(s, i + 1);
    }
}

/// Concatenation adds the byte totals.
proof fn lemma_total_len_concat(a: Seq<Seq<u8>>, b: Seq<Seq<u8>>)
    ensures
        total_len(a + b) == total_len(a) + total_len(b),
    decreases b.len(),
{
    if b.len() == 0 {
        assert(a + b =~= a);
    } else {
        assert((a + b).drop_last() =~= a + b.drop_last());
        lemma_total_len_concat(a, b.drop_last());
    }
}

/// No more lines match than there are lines.
proof fn lemma_matching_lines_len(lines: Seq<Seq<u8>>, pattern: Seq<char>)
    ensures
        matching_lines(lines, pattern).len() <= lines.len(),
    decreases lines.len(),
{
    if lines.len() > 0 {
        lemma_matching_lines_len(lines.drop_last(), pattern);
    }
}

/// A single line holds exactly its own bytes.
proof fn lemma_total_len_single(x: Seq<u8>)
    ensures
        total_len(seq![x]) == x.len(),
{
    let s = seq![x];
    assert(s.last() == x);
    assert(s.drop_last() =~= Seq::<Seq<u8>>::empty());
    assert(total_len(s.drop_last()) == 0);
}

/// Splitting cannot make more bytes or more lines than the stream holds:
/// every line accounts for at least its separator or one payload byte.
proof fn lemma_split_acc_bounds(rest: Seq<u8>, cur: Seq<u8>)
    ensures
        total_len(split_acc(rest, cur)) <= rest.len() + cur.len(),
        split_acc(rest, cur).len() <= rest.len() + (if cur.len() > 0 {
            1int
        } else {
            0int
        }),
    decreases rest.len(),
{
    if rest.len() == 0 {
        if cur.len() > 0 {
            lemma_total_len_single(cur);
        }
    } else if rest[0] == SEPARATOR {
        lemma_split_acc_bounds(rest.drop_first(), Seq::empty());
        lemma_total_len_concat(seq![chomp(cur)], split_acc(rest.drop_first(), Seq::empty()));
        lemma_total_len_single(chomp(cur));
    } else {
        lemma_split_acc_bounds(rest.drop_first(), cur.push(rest[0]));
    }
}

/// Bounds of the split of a whole stream.
pub proof fn lemma_split_bounds(s: Seq<u8>)
    ensures
        total_len(split_lines_spec(s)) <= s.len(),
        split_lines_spec(s).len() <= s.len(),
{
    lemma_split_acc_bounds(s, Seq::empty());
}

/// What filtering one input leaves behind: the joined kept lines, or no
/// artifact at all, with notice of an empty output that must be discarded.
#[derive(Debug)]
pub struct FilterResult {
    /// The logical output bytes, if any are owed.
    pub artifact: Option<Vec<u8>>,
    /// True when an output was due but no line was ever kept, so a created
    /// artifact must be deleted rather than left empty.
    pub deleted_empty: bool,
}

/// Filter a file's decoded lines: keep each matching line, join the kept
/// lines with one separator and none after the last, and account every
/// decoded byte and line to the aggregator in coarse batches.
pub fn run_on_lines(
    lines: &Vec<Vec<u8>>,
    filter: &LineFilter,
    threshold: usize,
    no_write: bool,
    filesize: u64,
    agg: &mut Aggregator,
) -> (r: FilterResult)
    requires
        old(agg).decompressed_bytes + total_len(line_views(lines@)) <= u64::MAX,
        old(agg).decompressed_lines + lines@.len() <= u64::MAX,
        old(agg).kept_lines + lines@.len() <= u64::MAX,
        old(agg).processed_bytes + filesize <= u64::MAX,
    ensures
        ({
            let lv = line_views(lines@);
            let k = matching_lines(lv, filter.pattern());
            &&& (no_write ==> r.artifact is None && !r.deleted_empty)
            &&& (!no_write ==> r.deleted_empty == (k.len() == 0))
            &&& (!no_write && k.len() == 0 ==> r.artifact is None)
            &&& (!no_write && k.len() > 0 ==> (r.artifact matches Some(a) && a@ == join_lines(
                k,
            )))
            &&& final(agg).decompressed_bytes == old(agg).decompressed_bytes + total_len(lv)
            &&& final(agg).decompressed_lines == old(agg).decompressed_lines + lv.len()
            &&& final(agg).kept_lines == old(agg).kept_lines + k.len()
            &&& final(agg).processed_bytes == old(agg).processed_bytes + filesize
            &&& final(agg).to_be_processed_bytes == old(agg).to_be_processed_bytes
        }),
{
    let ghost lv = line_views(lines@);
    let ghost pat = filter.pattern();
    let mut counters = TaskCounters::new();
    let mut tab = TrailingAwareBuffer::new(threshold);
    let mut out: Vec<u8> = Vec::new();
    let mut i: usize = 0;
    proof {
        assert(lv.subrange(0, 0) =~= Seq::<Seq<u8>>::empty());
    }
    while i < lines.len()
        invariant
            i <= lv.len(),
            lv == line_views(lines@),
            pat == filter.pattern(),
            old(agg).decompressed_bytes + total_len(lv) <= u64::MAX,
            old(agg).decompressed_lines + lv.len() <= u64::MAX,
            old(agg).kept_lines + lv.len() <= u64::MAX,
            tab.wf(),
            counters.wf(),
            counters.total_bytes() == total_len(lv.subrange(0, i as int)),
            counters.total_lines() == i,
            counters.total_kept() == matching_lines(lv.subrange(0, i as int), pat).len(),
            agg.decompressed_bytes == old(agg).decompressed_bytes + counters.published_bytes@,
            agg.decompressed_lines == old(agg).decompressed_lines + counters.published_lines@,
            agg.kept_lines == old(agg).kept_lines + counters.published_kept@,
            agg.processed_bytes == old(agg).processed_bytes,
            agg.to_be_processed_bytes == old(agg).to_be_processed_bytes,
            (if no_write {
                tab.kept@ == Seq::<Seq<u8>>::empty() && out@ == Seq::<u8>::empty()
            } else {
                tab.kept@ == matching_lines(lv.subrange(0, i as int), pat) && out@ == tab.emitted@
            }),
        decreases lv.len() - i,
    {
        let ghost pv = lv.subrange(0, i as int);
        let ghost pv1 = lv.subrange(0, i + 1);
        proof {
            assert(pv1.drop_last() =~= pv);
            assert(pv1.last() == lines@[i as int]@);
            lemma_total_len_prefix(lv, i + 1);
            lemma_matching_lines_len(pv, pat);
        }
        let line = &lines[i];
        let matched = filter.is_match(line);
        counters.record_line(line.len(), matched);
        if matched && !no_write {
            let owned = codec::copy_bytes(line);
            match tab.push_kept(owned) {
                Some(mut c) => {
                    out.append(&mut c);
                },
                None => {},
            }
            proof {
                assert(tab.kept@ =~= matching_lines(pv1, pat));
            }
        } else {
            proof {
                if !no_write {
                    assert(tab.kept@ =~= matching_lines(pv1, pat));
                }
            }
        }
        if counters.should_publish() {
            proof {
                lemma_matching_lines_len(pv1, pat);
            }
            counters.publish(agg);
        }
        i = i + 1;
    }
    proof {
        assert(lv.subrange(0, lv.len() as int) =~= lv);
        lemma_matching_lines_len(lv, pat);
    }
    counters.publish(agg);
    agg.add_processed(filesize);
    let ghost k = matching_lines(lv, pat);
    if no_write {
        FilterResult { artifact: None, deleted_empty: false }
    } else {
        let (mut tail, wrote) = tab.finish();
        if wrote {
            out.append(&mut tail);
            FilterResult { artifact: Some(out), deleted_empty: false }
        } else {
            proof {
                assert(k.len() == 0);
            }
            FilterResult { artifact: None, deleted_empty: true }
        }
    }
}

/// `run_on_lines`, starting from the decoded bytes of one archive.
pub fn run_on_decoded(
    decoded: &Vec<u8>,
    filter: &LineFilter,
    threshold: usize,
    no_write: bool,
    filesize: u64,
    agg: &mut Aggregator,
) -> (r: FilterResult)
    requires
        old(agg).decompressed_bytes + decoded@.len() <= u64::MAX,
        old(agg).decompressed_lines + decoded@.len() <= u64::MAX,
        old(agg).kept_lines + decoded@.len() <= u64::MAX,
        old(agg).processed_bytes + filesize <= u64::MAX,
    ensures
        ({
            let lv = split_lines_spec(decoded@);
            let k = matching_lines(lv, filter.pattern());
            &&& (no_write ==> r.artifact is None && !r.deleted_empty)
            &&& (!no_write ==> r.deleted_empty == (k.len() == 0))
            &&& (!no_write && k.len() == 0 ==> r.artifact is None)
            &&& (!no_write && k.len() > 0 ==> (r.artifact matches Some(a) && a@ == join_lines(
                k,
            )))
            &&& final(agg).decompressed_bytes == old(agg).decompressed_bytes + total_len(lv)
            &&& final(agg).decompressed_lines == old(agg).decompressed_lines + lv.len()
            &&& final(agg).kept_lines == old(agg).kept_lines + k.len()
            &&& final(agg).processed_bytes == old(agg).processed_bytes + filesize
            &&& final(agg).to_be_processed_bytes == old(agg).to_be_processed_bytes
        }),
{
    proof {
        lemma_split_bounds(decoded@);
    }
    let lines = split_lines(decoded);
    run_on_lines(&lines, filter, threshold, no_write, filesize, agg)
}

/// The whole of one accepted input, with its counter totals.
#[derive(Debug)]
pub struct ArchiveOutcome {
    /// The logical output bytes, if any are owed.
    pub artifact: Option<Vec<u8>>,
    /// True when an output was due but no line was ever kept.
    pub deleted_empty: bool,
    /// Decoded payload bytes of this input.
    pub decoded_bytes: u64,
    /// Decoded lines of this input.
    pub decoded_lines: u64,
    /// Kept lines of this input.
    pub kept_lines: u64,
}

/// One archive end to end: verify the signature before anything else,
/// decode the payload under the window ceiling, then filter the lines.
/// A bad signature never reads a line; a corrupt payload aborts the run;
/// every well formed archive whose window fits the ceiling succeeds.
pub fn run_on_archive(
    content: &Vec<u8>,
    filter: &LineFilter,
    threshold: usize,
    no_write: bool,
    window_log_max: u32,
) -> (r: Result<ArchiveOutcome, TaskError>)
    ensures
        (r is Ok <==> has_zstd_magic(content@) && zstd_decode_ok(content@, window_log_max)),
        (r == Err::<ArchiveOutcome, TaskError>(TaskError::InvalidFormat) <==> !has_zstd_magic(
            content@,
        )),
        (r == Err::<ArchiveOutcome, TaskError>(TaskError::CorruptStream) <==> has_zstd_magic(
            content@,
        ) && !zstd_decode_ok(content@, window_log_max)),
        ({
            let lv = split_lines_spec(zstd_decoded(content@, window_log_max));
            let k = matching_lines(lv, filter.pattern());
            r matches Ok(out) ==> {
                &&& out.decoded_bytes == total_len(lv)
                &&& out.decoded_lines == lv.len()
                &&& out.kept_lines == k.len()
                &&& (no_write ==> out.artifact is None && !out.deleted_empty)
                &&& (!no_write ==> out.deleted_empty == (k.len() == 0))
                &&& (!no_write && k.len() == 0 ==> out.artifact is None)
                &&& (!no_write && k.len() > 0 ==> (out.artifact matches Some(a) && a@
                    == join_lines(k)))
            }
        }),
{
    if content.len() < 4 {
        return Err(TaskError::InvalidFormat);
    }
    let ok = content[0] == 0x28 && content[1] == 0xB5 && content[2] == 0x2F && content[3] == 0xFD;
    proof {
        assert(content@.subrange(0, 4).len() == 4);
        assert(content@.subrange(0, 4)[0] == content@[0]);
        assert(content@.subrange(0, 4)[1] == content@[1]);
        assert(content@.subrange(0, 4)[2] == content@[2]);
        assert(content@.subrange(0, 4)[3] == content@[3]);
        if ok {
            assert(content@.subrange(0, 4) =~= zstd_magic());
        }
    }
    if !ok {
        return Err(TaskError::InvalidFormat);
    }
    let decoded = match codec::decode_frames(content, window_log_max) {
        Some(d) => d,
        None => {
            return Err(TaskError::CorruptStream);
        },
    };
    let decoded_len = decoded.len();
    proof {
        assert(decoded@.len() == decoded_len);
        lemma_split_bounds(decoded@);
        lemma_matching_lines_len(split_lines_spec(decoded@), filter.pattern());
    }
    let mut agg = Aggregator::new();
    let fr = run_on_decoded(&decoded, filter, threshold, no_write, 0, &mut agg);
    Ok(
        ArchiveOutcome {
            artifact: fr.artifact,
            deleted_empty: fr.deleted_empty,
            decoded_bytes: agg.decompressed_bytes,
            decoded_lines: agg.decompressed_lines,
            kept_lines: agg.kept_lines,
        },
    )
}

} // verus!
