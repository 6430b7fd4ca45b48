use pager_core::wrap_planner::{get_ranges, line_occupies, plan, Segment};
use pager_core::PagerError;

fn seg(start: usize, end: usize, ordinal: usize) -> Segment {
    Segment { start, end, ordinal }
}

#[test]
fn view_test_get_ranges() {
    assert_eq!(get_ranges(17, 7), vec![(0..7), (7..14), (14..17)]);
    assert_eq!(get_ranges(14, 7), vec![(0..7), (7..14)]);
    assert_eq!(get_ranges(1, 7), vec![(0..1)]);
    assert_eq!(get_ranges(0, 7), vec![(0..0)]);
}

#[test]
fn view_test_line_occupies() {
    let line = 100;
    let editor = 50;
    assert_eq!(2, line_occupies(line, editor));
    assert_eq!(3, line_occupies(101, 50));
    assert_eq!(1, line_occupies(0, 50));
    assert_eq!(5, line_occupies(201, 50));
}

#[test]
fn plan_concrete_cases() {
    assert_eq!(plan(17, 7), Ok(vec![seg(0, 7, 0), seg(7, 14, 1), seg(14, 17, 2)]));
    assert_eq!(plan(14, 7), Ok(vec![seg(0, 7, 0), seg(7, 14, 1)]));
    assert_eq!(plan(1, 7), Ok(vec![seg(0, 1, 0)]));
}

#[test]
fn plan_of_empty_line_is_one_empty_segment() {
    for width in [1usize, 2, 7, 80, usize::MAX] {
        assert_eq!(plan(0, width), Ok(vec![seg(0, 0, 0)]));
    }
}

#[test]
fn plan_of_exact_fit_is_one_segment() {
    for width in [1usize, 2, 7, 80, usize::MAX] {
        assert_eq!(plan(width, width), Ok(vec![seg(0, width, 0)]));
    }
}

#[test]
fn plan_refuses_width_zero() {
    assert_eq!(plan(0, 0), Err(PagerError::InvalidWidth));
    assert_eq!(plan(17, 0), Err(PagerError::InvalidWidth));
}

#[test]
fn plan_tiles_the_line() {
    for line_len in 0usize..60 {
        for width in 1usize..12 {
            let segments = plan(line_len, width).unwrap();
            assert_eq!(segments.len(), line_occupies(line_len, width));
            assert_eq!(segments[0].start, 0);
            assert_eq!(segments[segments.len() - 1].end, line_len);
            for (i, s) in segments.iter().enumerate() {
                assert_eq!(s.ordinal, i);
                assert!(s.start <= s.end);
                assert!(s.end - s.start <= width);
                if line_len > 0 {
                    assert!(s.start < s.end);
                }
                if i + 1 < segments.len() {
                    assert_eq!(s.end - s.start, width);
                    assert_eq!(s.end, segments[i + 1].start);
                }
            }
            for c in 0..line_len {
                let holders = segments.iter().filter(|s| s.start <= c && c < s.end).count();
                assert_eq!(holders, 1);
            }
        }
    }
}

#[test]
fn plan_last_segment_holds_the_remainder() {
    let segments = plan(23, 5).unwrap();
    assert_eq!(segments.len(), 5);
    assert_eq!(segments[4], seg(20, 23, 4));
    let exact = plan(25, 5).unwrap();
    assert_eq!(exact.len(), 5);
    assert_eq!(exact[4], seg(20, 25, 4));
}

#[test]
fn plan_twice_gives_the_same() {
    for (line_len, width) in [(0usize, 3usize), (17, 7), (14, 7), (1000, 1), (5, 0)] {
        assert_eq!(plan(line_len, width), plan(line_len, width));
    }
    let first = plan(17, 7);
    let _other = plan(3, 2);
    assert_eq!(plan(17, 7), first);
}

#[test]
fn plan_agrees_with_get_ranges() {
    for line_len in 0usize..40 {
        for width in 1usize..9 {
            let ranges = get_ranges(line_len, width);
            let segments = plan(line_len, width).unwrap();
            assert_eq!(ranges.len(), segments.len());
            for (i, r) in ranges.iter().enumerate() {
                assert_eq!(segments[i], seg(r.start, r.end, i));
            }
        }
    }
}

#[test]
fn line_occupies_is_the_ceiling() {
    assert_eq!(line_occupies(0, 1), 1);
    assert_eq!(line_occupies(1, 1), 1);
    assert_eq!(line_occupies(7, 7), 1);
    assert_eq!(line_occupies(8, 7), 2);
    assert_eq!(line_occupies(14, 7), 2);
    assert_eq!(line_occupies(15, 7), 3);
    assert_eq!(line_occupies(17, 7), 3);
    assert_eq!(line_occupies(usize::MAX, 1), usize::MAX);
    assert_eq!(line_occupies(usize::MAX, 2), usize::MAX / 2 + 1);
    assert_eq!(line_occupies(usize::MAX, usize::MAX), 1);
}

#[test]
fn get_ranges_at_the_limit() {
    let ranges = get_ranges(usize::MAX, usize::MAX - 1);
    assert_eq!(ranges, vec![(0..usize::MAX - 1), (usize::MAX - 1..usize::MAX)]);
}
