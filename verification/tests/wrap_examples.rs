use pager_core::{get_ranges, line_occupies};

#[test]
fn main_test_get_ranges() {
    assert_eq!(get_ranges(17, 7), vec![(0..7), (7..14), (14..17)]);
    assert_eq!(get_ranges(14, 7), vec![(0..7), (7..14)]);
    assert_eq!(get_ranges(1, 7), vec![(0..1)]);
    assert_eq!(get_ranges(0, 7), vec![(0..0)]);
}

#[test]
fn main_test_line_occupies() {
    let line = 100;
    let editor = 50;
    assert_eq!(2, line_occupies(line, editor));
    assert_eq!(3, line_occupies(101, 50));
    assert_eq!(1, line_occupies(0, 50));
    assert_eq!(5, line_occupies(201, 50));
}

/// The quotients and remainders that the row count is built from.
#[test]
fn do_math() {
    let answer = 100 as usize / 33 as usize;
    assert_eq!(answer, 3);
    let answer = 100 as usize % 33 as usize;
    assert_eq!(answer, 1);
    let answer = 16 as usize / 9 as usize;
    assert_eq!(answer, 1);
    let answer = 16 as usize % 9 as usize;
    assert_eq!(answer, 7);
}
