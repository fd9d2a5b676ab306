use zfilter::task::split_lines;

fn split(s: &[u8]) -> Vec<Vec<u8>> {
    split_lines(&s.to_vec())
}

#[test]
fn splits_on_the_separator() {
    assert_eq!(split(b"a\nbb\nccc"), vec![b"a".to_vec(), b"bb".to_vec(), b"ccc".to_vec()]);
}

#[test]
fn trailing_separator_adds_no_empty_line() {
    assert_eq!(split(b"a\nb\n"), vec![b"a".to_vec(), b"b".to_vec()]);
}

#[test]
fn carriage_return_before_the_separator_is_stripped() {
    assert_eq!(split(b"a\r\nb"), vec![b"a".to_vec(), b"b".to_vec()]);
}

#[test]
fn lone_carriage_return_at_the_end_is_kept() {
    assert_eq!(split(b"a\r"), vec![b"a\r".to_vec()]);
}

#[test]
fn empty_input_has_no_lines() {
    assert_eq!(split(b""), Vec::<Vec<u8>>::new());
}

#[test]
fn adjacent_separators_make_empty_lines() {
    assert_eq!(split(b"a\n\nb"), vec![b"a".to_vec(), b"".to_vec(), b"b".to_vec()]);
}
