use pager_core::{Dims, LineSource, View};
use ropey::Rope;

fn dims(content_width: usize) -> Dims {
    Dims { content_width, height: 10, gutter_width: 4 }
}

#[test]
fn test_view_from_rope() {
    let rope = Rope::from_str("\nabcdefghijklmnopq\nx");
    let view = View::from_rope(&rope, dims(7));
    assert_eq!(view.dims, dims(7));
    assert_eq!(view.lines.len(), 3);
    assert_eq!(view.lines[0].line_no, 3);
    assert_eq!(view.lines[0].ranges, vec![(0..1)]);
    assert_eq!(view.lines[1].line_no, 2);
    assert_eq!(view.lines[1].ranges, vec![(0..7), (7..14), (14..18)]);
    assert_eq!(view.lines[2].line_no, 1);
    assert_eq!(view.lines[2].ranges, vec![(0..1)]);
}

#[test]
fn view_of_an_empty_rope_has_one_empty_line() {
    let view = View::from_rope(&Rope::new(), dims(7));
    assert_eq!(view.lines.len(), 1);
    assert_eq!(view.lines[0].line_no, 1);
    assert_eq!(view.lines[0].ranges, vec![(0..0)]);
}

#[test]
fn view_from_line_lengths_stands_in_reverse() {
    let lens = vec![0usize, 17, 1];
    let view = View::from_lines(&LineSource::Lengths(&lens), dims(7));
    let numbers: Vec<usize> = view.lines.iter().map(|l| l.line_no).collect();
    assert_eq!(numbers, vec![3, 2, 1]);
    assert_eq!(view.lines[0].ranges, vec![(0..1)]);
    assert_eq!(view.lines[1].ranges, vec![(0..7), (7..14), (14..17)]);
    assert_eq!(view.lines[2].ranges, vec![(0..0)]);
}

#[test]
fn view_of_no_lines_is_empty() {
    let lens: Vec<usize> = vec![];
    let view = View::from_lines(&LineSource::Lengths(&lens), dims(7));
    assert!(view.lines.is_empty());
}
