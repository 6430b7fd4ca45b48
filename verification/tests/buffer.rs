use pager_core::{line_len, segment_text, total_lines, LineSource, PagerError};
use ropey::Rope;

#[test]
fn total_lines_counts_the_line_breaks_plus_one() {
    assert_eq!(total_lines(&Rope::from_str("")), 1);
    assert_eq!(total_lines(&Rope::from_str("a")), 1);
    assert_eq!(total_lines(&Rope::from_str("a\nb\nc")), 3);
    assert_eq!(total_lines(&Rope::from_str("a\nb\nc\n")), 4);
}

#[test]
fn line_len_counts_characters_not_bytes() {
    let rope = Rope::from_str("héllo\nb\n\nlast");
    assert_eq!(line_len(&rope, 1), Ok(6));
    assert_eq!(line_len(&rope, 2), Ok(2));
    assert_eq!(line_len(&rope, 3), Ok(1));
    assert_eq!(line_len(&rope, 4), Ok(4));
}

#[test]
fn line_len_refuses_lines_outside_the_buffer() {
    let rope = Rope::from_str("a\nb\nc");
    assert_eq!(line_len(&rope, 0), Err(PagerError::BufferAccess));
    assert_eq!(line_len(&rope, 4), Err(PagerError::BufferAccess));
    assert_eq!(line_len(&rope, usize::MAX), Err(PagerError::BufferAccess));
    assert_eq!(line_len(&rope, 3), Ok(1));
}

#[test]
fn segment_text_slices_one_line() {
    let rope = Rope::from_str("first line\nsecond line\n");
    assert_eq!(segment_text(&rope, 1, 0, 5), Ok(String::from("first")));
    assert_eq!(segment_text(&rope, 1, 6, 10), Ok(String::from("line")));
    assert_eq!(segment_text(&rope, 2, 0, 6), Ok(String::from("second")));
    assert_eq!(segment_text(&rope, 2, 7, 12), Ok(String::from("line\n")));
    assert_eq!(segment_text(&rope, 2, 3, 3), Ok(String::new()));
    assert_eq!(segment_text(&rope, 3, 0, 0), Ok(String::new()));
}

#[test]
fn segment_text_refuses_what_lies_outside() {
    let rope = Rope::from_str("first line\nsecond line\n");
    assert_eq!(segment_text(&rope, 0, 0, 1), Err(PagerError::BufferAccess));
    assert_eq!(segment_text(&rope, 4, 0, 0), Err(PagerError::BufferAccess));
    assert_eq!(segment_text(&rope, 1, 5, 4), Err(PagerError::BufferAccess));
    assert_eq!(segment_text(&rope, 1, 0, 12), Err(PagerError::BufferAccess));
    assert_eq!(segment_text(&rope, 3, 0, 1), Err(PagerError::BufferAccess));
    assert_eq!(segment_text(&rope, 1, 0, 11), Ok(String::from("first line\n")));
}

#[test]
fn both_line_sources_answer_alike() {
    let rope = Rope::from_str("one\ntwo two\n\nfour");
    let lens = vec![4usize, 8, 1, 4];
    let from_rope = LineSource::Rope(&rope);
    let from_table = LineSource::Lengths(&lens);
    assert_eq!(from_rope.total_lines(), 4);
    assert_eq!(from_table.total_lines(), 4);
    for line_no in 0usize..7 {
        assert_eq!(from_rope.line_len(line_no), from_table.line_len(line_no));
    }
    assert_eq!(from_table.line_len(2), Ok(8));
    assert_eq!(from_table.line_len(0), Err(PagerError::BufferAccess));
    assert_eq!(from_table.line_len(5), Err(PagerError::BufferAccess));
}

#[test]
fn errors_have_their_own_messages() {
    assert_eq!(PagerError::InvalidWidth.message(), "the text area is zero columns wide");
    assert_eq!(
        PagerError::BufferAccess.message(),
        "a line or character range lies outside the buffer"
    );
    assert_ne!(PagerError::InvalidWidth, PagerError::BufferAccess);
}
