use pager_core::{gutter_width, show_number, MIN_GUTTER_WIDTH};

#[test]
fn gutter_is_four_columns_up_to_9999_lines() {
    for total_lines in [0usize, 1, 9, 10, 99, 100, 999, 1000, 9998, 9999] {
        assert_eq!(gutter_width(total_lines), 4);
    }
}

#[test]
fn gutter_is_five_columns_from_10000_to_99999_lines() {
    for total_lines in [10_000usize, 10_001, 50_000, 99_998, 99_999] {
        assert_eq!(gutter_width(total_lines), 5);
    }
}

#[test]
fn gutter_grows_by_one_column_for_each_digit() {
    assert_eq!(gutter_width(100_000), 6);
    assert_eq!(gutter_width(999_999), 6);
    assert_eq!(gutter_width(1_000_000), 7);
    assert_eq!(gutter_width(9_999_999), 7);
    assert_eq!(gutter_width(10_000_000), 8);
    assert_eq!(gutter_width(4_294_967_295), 10);
    assert_eq!(gutter_width(usize::MAX), usize::MAX.to_string().len());
}

#[test]
fn gutter_is_least_width_that_holds_the_count() {
    let mut power: usize = 10_000;
    let mut width = 4;
    while power <= usize::MAX / 10 {
        assert_eq!(gutter_width(power - 1), width);
        assert_eq!(gutter_width(power), width + 1);
        power *= 10;
        width += 1;
    }
    assert!(gutter_width(7) >= MIN_GUTTER_WIDTH);
}

#[test]
fn only_the_first_row_of_a_line_is_numbered() {
    assert!(show_number(0));
    assert!(!show_number(1));
    assert!(!show_number(2));
    assert!(!show_number(usize::MAX));
}
