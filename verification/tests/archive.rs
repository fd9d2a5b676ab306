use zfilter::codec::OutputSink;
use zfilter::counters::Aggregator;
use zfilter::filter::LineFilter;
use zfilter::task::{
    entry_guard, is_zstd_magic, run_on_archive, run_on_decoded, SkipReason, TaskError,
};

fn archive_of(payload: &[u8]) -> Vec<u8> {
    zstd::stream::encode_all(payload, 0).expect("encoding in-memory bytes succeeds")
}

#[test]
fn archive_is_decoded_filtered_and_counted() {
    let content = archive_of(b"a\nbx\nc\ndx");
    let filter = LineFilter::new("x").unwrap();
    let out = run_on_archive(&content, &filter, 4096, false, 27).expect("valid archive");
    assert_eq!(out.artifact.as_deref(), Some(b"bx\ndx".as_slice()));
    assert!(!out.deleted_empty);
    assert_eq!(out.decoded_bytes, 6);
    assert_eq!(out.decoded_lines, 4);
    assert_eq!(out.kept_lines, 2);
}

#[test]
fn archive_with_no_matches_reports_the_deletion() {
    let content = archive_of(b"one\ntwo\nthree");
    let filter = LineFilter::new("zzz").unwrap();
    let out = run_on_archive(&content, &filter, 4096, false, 27).expect("valid archive");
    assert!(out.artifact.is_none());
    assert!(out.deleted_empty);
    assert_eq!(out.decoded_lines, 3);
    assert_eq!(out.kept_lines, 0);
}

#[test]
fn bad_signature_fails_fast_as_invalid_format() {
    let filter = LineFilter::new("x").unwrap();
    let r = run_on_archive(&b"not a zstd file".to_vec(), &filter, 4096, false, 27);
    assert_eq!(r.unwrap_err(), TaskError::InvalidFormat);
    let r = run_on_archive(&b"ab".to_vec(), &filter, 4096, false, 27);
    assert_eq!(r.unwrap_err(), TaskError::InvalidFormat);
}

#[test]
fn corrupt_payload_behind_a_good_signature_is_a_corrupt_stream() {
    let filter = LineFilter::new("x").unwrap();
    let content = vec![0x28, 0xB5, 0x2F, 0xFD, 0xFF, 0xFF, 0xFF, 0xFF, 0xFF];
    let r = run_on_archive(&content, &filter, 4096, false, 27);
    assert_eq!(r.unwrap_err(), TaskError::CorruptStream);
}

#[test]
fn signature_check_accepts_exactly_the_magic_bytes() {
    assert!(is_zstd_magic(&[0x28, 0xB5, 0x2F, 0xFD]));
    assert!(!is_zstd_magic(&[0x28, 0xB5, 0x2F, 0xFE]));
    assert!(!is_zstd_magic(&[0x50, 0x4B, 0x03, 0x04]));
}

#[test]
fn reencoding_sink_produces_a_frame_that_decodes_back() {
    let sink = OutputSink::Zstd { level: 0 };
    let chunk = b"kept line one\nkept line two".to_vec();
    let frame = sink.transform(&chunk);
    assert_ne!(frame, chunk);
    assert!(is_zstd_magic(&[frame[0], frame[1], frame[2], frame[3]]));
    // The frame is itself a valid archive; decoding and keeping every line
    // reproduces the chunk exactly.
    let filter = LineFilter::new("^").unwrap();
    let out = run_on_archive(&frame, &filter, 4096, false, 27).expect("own frame decodes");
    assert_eq!(out.artifact.as_deref(), Some(chunk.as_slice()));
}

#[test]
fn raw_sink_hands_the_chunk_through() {
    let sink = OutputSink::Raw;
    let chunk = b"bytes".to_vec();
    assert_eq!(sink.transform(&chunk), chunk);
}

#[test]
fn decode_reconstructs_a_large_single_line_payload() {
    let payload = vec![7u8; 1 << 12];
    let content = archive_of(&payload);
    let filter = LineFilter::new("^").unwrap();
    let out = run_on_archive(&content, &filter, 4096, false, 27).expect("window large enough");
    assert_eq!(out.artifact.as_deref(), Some(payload.as_slice()));
    assert_eq!(out.decoded_bytes, 1 << 12);
    assert_eq!(out.decoded_lines, 1);
}

#[test]
fn run_on_decoded_matches_the_streamed_semantics() {
    let mut agg = Aggregator::new();
    let filter = LineFilter::new("x").unwrap();
    let r = run_on_decoded(&b"a\nbx\nc\ndx".to_vec(), &filter, 4096, false, 0, &mut agg);
    assert_eq!(r.artifact.as_deref(), Some(b"bx\ndx".as_slice()));
    assert_eq!(agg.decompressed_lines, 4);
    assert_eq!(agg.kept_lines, 2);
    assert_eq!(agg.decompressed_bytes, 6);
}

#[test]
fn entry_guard_skips_in_the_documented_order() {
    let r = entry_guard(None, false);
    assert_eq!(r.skip, Some(SkipReason::UnreadableMetadata));
    assert_eq!(r.reservation_correction, 0);

    let r = entry_guard(Some(0), true);
    assert_eq!(r.skip, Some(SkipReason::EmptyInput));
    assert_eq!(r.reservation_correction, 0);

    let r = entry_guard(Some(123), true);
    assert_eq!(r.skip, Some(SkipReason::OutputExists));
    assert_eq!(r.reservation_correction, 123);

    let r = entry_guard(Some(123), false);
    assert_eq!(r.skip, None);
    assert_eq!(r.reservation_correction, 0);
}

#[test]
fn existing_output_short_circuits_before_any_decoding() {
    // The guard's verdict depends only on the metadata and the existing
    // destination; the archive is never opened, so a re-run leaves an
    // existing artifact untouched.
    let r = entry_guard(Some(1), true);
    assert_eq!(r.skip, Some(SkipReason::OutputExists));
}

#[test]
fn window_ceiling_too_small_surfaces_as_a_decode_failure() {
    // A frame whose back-reference window exceeds the configured ceiling
    // must fail the decode rather than grow without bound.
    let payload = vec![42u8; 1 << 20];
    let content = archive_of(&payload);
    let filter = LineFilter::new("^").unwrap();
    let r = run_on_archive(&content, &filter, 4096, false, 10);
    assert_eq!(r.unwrap_err(), TaskError::CorruptStream);
}
