use zfilter::counters::Aggregator;
use zfilter::filter::LineFilter;
use zfilter::task::{run_on_lines, FilterResult};

fn lines_of(strs: &[&str]) -> Vec<Vec<u8>> {
    strs.iter().map(|s| s.as_bytes().to_vec()).collect()
}

fn run(
    strs: &[&str],
    pattern: &str,
    threshold: usize,
    no_write: bool,
    agg: &mut Aggregator,
) -> FilterResult {
    let filter = LineFilter::new(pattern).expect("pattern must compile");
    let lines = lines_of(strs);
    run_on_lines(&lines, &filter, threshold, no_write, 0, agg)
}

#[test]
fn example_two_matches_joined_without_trailing_separator() {
    let mut agg = Aggregator::new();
    let r = run(&["a", "bx", "c", "dx"], "x", 4096, false, &mut agg);
    assert_eq!(r.artifact.as_deref(), Some(b"bx\ndx".as_slice()));
    assert!(!r.deleted_empty);
}

#[test]
fn no_matching_line_leaves_no_artifact() {
    let mut agg = Aggregator::new();
    let r = run(
        &["a", "b", "c", "d", "e", "f", "g", "h", "i", "j"],
        "zzz",
        4096,
        false,
        &mut agg,
    );
    assert!(r.artifact.is_none());
    assert!(r.deleted_empty);
    assert_eq!(agg.decompressed_lines, 10);
    assert_eq!(agg.kept_lines, 0);
}

#[test]
fn single_matching_line_is_emitted_bare() {
    let mut agg = Aggregator::new();
    let r = run(&["a", "bx", "c"], "x", 4096, false, &mut agg);
    assert_eq!(r.artifact.as_deref(), Some(b"bx".as_slice()));
    assert!(!r.deleted_empty);
}

#[test]
fn flush_threshold_does_not_alter_the_output() {
    let input = ["alpha", "bx", "gamma", "dx", "ex", "zeta"];
    let mut expected: Option<Vec<u8>> = None;
    for threshold in [0usize, 1, 2, 3, 7, 4096] {
        let mut agg = Aggregator::new();
        let r = run(&input, "x", threshold, false, &mut agg);
        let bytes = r.artifact.expect("matches exist");
        match &expected {
            None => expected = Some(bytes),
            Some(e) => assert_eq!(&bytes, e),
        }
    }
    assert_eq!(expected.as_deref(), Some(b"bx\ndx\nex".as_slice()));
}

#[test]
fn empty_kept_line_still_counts_as_kept() {
    let mut agg = Aggregator::new();
    let r = run(&["", "a"], "^", 4096, false, &mut agg);
    assert_eq!(r.artifact.as_deref(), Some(b"\na".as_slice()));
    assert!(!r.deleted_empty);
    assert_eq!(agg.kept_lines, 2);
}

#[test]
fn no_write_produces_no_artifact_and_no_deletion_notice() {
    let mut agg = Aggregator::new();
    let r = run(&["a", "bx"], "x", 4096, true, &mut agg);
    assert!(r.artifact.is_none());
    assert!(!r.deleted_empty);
    assert_eq!(agg.decompressed_lines, 2);
    assert_eq!(agg.kept_lines, 1);
}

#[test]
fn aggregator_counts_equal_the_tasks_own_totals() {
    let mut agg = Aggregator::new();
    let r1 = run(&["aa", "bxb", "c"], "x", 4096, false, &mut agg);
    let r2 = run(&["dddd", "ex"], "x", 4096, false, &mut agg);
    assert!(r1.artifact.is_some());
    assert!(r2.artifact.is_some());
    // 2 + 3 + 1 bytes from the first task, 4 + 2 from the second.
    assert_eq!(agg.decompressed_bytes, 12);
    assert_eq!(agg.decompressed_lines, 5);
    assert_eq!(agg.kept_lines, 2);
}

#[test]
fn processed_bytes_carry_the_compressed_file_size() {
    let mut agg = Aggregator::new();
    let filter = LineFilter::new("x").unwrap();
    let lines = lines_of(&["a"]);
    let _ = run_on_lines(&lines, &filter, 4096, false, 777, &mut agg);
    assert_eq!(agg.processed_bytes, 777);
}
