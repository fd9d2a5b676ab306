//! Re-encoding of output chunks and decoding of input archives.
//!
//! Compression is delegated to the `zstd` crate.  Each flushed chunk is
//! written either raw or as one self-contained zstd frame, so a compressed
//! output file is a concatenation of frames.  Decoding reconstructs the
//! payload of an in-memory archive under a configurable window ceiling.

use vstd::prelude::*;

verus! {

/// The single zstd frame that `zstd::stream::encode_all` produces for the
/// given bytes at the given level: a function of data and level alone.
pub uninterp spec fn zstd_frame(data: Seq<u8>, level: i32) -> Seq<u8>;

/// The payload that zstd streaming decode reconstructs from the given
/// archive bytes under the given window-log ceiling: a function of the
/// archive bytes and the ceiling alone.
pub uninterp spec fn zstd_decoded(data: Seq<u8>, window_log_max: u32) -> Seq<u8>;

/// Whether zstd streaming decode of the given archive bytes succeeds under
/// the given window-log ceiling.  Like the payload, the verdict is a
/// function of the bytes and the ceiling alone: the format fixes which
/// streams are well formed and which windows they demand.
pub uninterp spec fn zstd_decode_ok(data: Seq<u8>, window_log_max: u32) -> bool;

/// Relies on `zstd::stream::encode_all`: encoding into memory cannot fail
/// (the library clamps an out-of-range level and the in-memory sink is
/// infallible), and the result is one zstd frame holding exactly the input
/// bytes, determined by data and level.
#[verifier::external_body]
fn encode_frame_raw(data: &Vec<u8>, level: i32) -> (r: Vec<u8>)
    ensures
        r@ == zstd_frame(data@, level),
{
    zstd::stream::encode_all(data.as_slice(), level)
        .expect("encoding into memory cannot fail")
}

/// Relies on `zstd::stream::read::Decoder` (`new`, `window_log_max`,
/// `read_to_end`): streaming decode of the archive's frames with the given
/// back-reference window ceiling.  Decoding succeeds exactly on the well
/// formed streams whose window fits the ceiling; failure covers a corrupt
/// payload as well as a window larger than the ceiling.
#[verifier::external_body]
pub(crate) fn decode_frames(data: &Vec<u8>, window_log_max: u32) -> (r: Option<Vec<u8>>)
    ensures
        r is Some <==> zstd_decode_ok(data@, window_log_max),
        (r matches Some(v) ==> v@ == zstd_decoded(data@, window_log_max)),
{
    let mut dec = match zstd::stream::read::Decoder::new(data.as_slice()) {
        Ok(d) => d,
        Err(_) => return None,
    };
    if dec.window_log_max(window_log_max).is_err() {
        return None;
    }
    let mut out = Vec::new();
    match std::io::Read::read_to_end(&mut dec, &mut out) {
        Ok(_) => Some(out),
        Err(_) => None,
    }
}

/// A level inside the supported range is used as given; anything outside
/// falls back to 0, which selects the library-default level.
pub fn clamp_level(level: i32, min: i32, max: i32) -> (r: i32)
    ensures
        r == (if min <= level <= max { level as int } else { 0int }),
{
    if min <= level && level <= max {
        level
    } else {
        0
    }
}

/// Where the bytes of one task go: written as they are, or re-encoded as
/// one zstd frame per flushed chunk.  Selected once per task.
pub enum OutputSink {
    Raw,
    Zstd { level: i32 },
}

impl OutputSink {
    /// What the sink makes of a chunk.
    pub open spec fn transformed(self, data: Seq<u8>) -> Seq<u8> {
        match self {
            OutputSink::Raw => data,
            OutputSink::Zstd { level } => zstd_frame(data, level),
        }
    }

    /// Turn one flushed chunk into the bytes to persist.  Both sinks work
    /// in memory and always deliver the transformed bytes.
    pub fn transform(&self, chunk: &Vec<u8>) -> (r: Vec<u8>)
        ensures
            r@ == self.transformed(chunk@),
    {
        match self {
            OutputSink::Raw => copy_bytes(chunk),
            OutputSink::Zstd { level } => encode_frame_raw(chunk, *level),
        }
    }
}

/// A plain verified copy of a byte vector.
pub fn copy_bytes(v: &Vec<u8>) -> (r: Vec<u8>)
    ensures
        r@ == v@,
{
    let mut r: Vec<u8> = Vec::new();
    let mut i: usize = 0;
    while i < v.len()
        invariant
            i <= v@.len(),
            r@ == v@.subrange(0, i as int),
        decreases v@.len() - i,
    {
        r.push(v[i]);
        i = i + 1;
        proof {
            assert(r@ =~= v@.subrange(0, i as int));
        }
    }
    proof {
        assert(v@.subrange(0, v@.len() as int) =~= v@);
    }
    r
}

} // verus!
