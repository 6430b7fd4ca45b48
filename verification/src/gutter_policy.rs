//! How wide the line-number gutter is, and which rows carry a number.
use vstd::prelude::*;

verus! {

/// The gutter never reserves fewer columns than this, so that it does not
/// jitter while the document is short.
pub const MIN_GUTTER_WIDTH: usize = 4;

/// Ten to the power `e`.
pub open spec fn pow10(e: nat) -> nat
    decreases e,
{
    if e == 0 {
        1
    } else {
        10 * pow10((e - 1) as nat)
    }
}

/// Number of digits of `n` written in decimal; zero has one digit.
pub open spec fn decimal_digits(n: nat) -> nat
    decreases n,
{
    if n < 10 {
        1
    } else {
        1 + decimal_digits(n / 10)
    }
}

/// Columns reserved for the line numbers of a document of `total_lines`
/// lines: the digits of `total_lines`, but at least `MIN_GUTTER_WIDTH`.
pub open spec fn gutter_width_spec(total_lines: nat) -> nat {
    if decimal_digits(total_lines) < MIN_GUTTER_WIDTH {
        MIN_GUTTER_WIDTH as nat
    } else {
        decimal_digits(total_lines)
    }
}

/// A number lies below ten to the power of its digit count, and, unless it
/// is zero, not below the power before.
pub proof fn lemma_decimal_digits_bounds(n: nat)
    ensures
        decimal_digits(n) >= 1,
        n < pow10(decimal_digits(n)),
        n > 0 ==> pow10((decimal_digits(n) - 1) as nat) <= n,
    decreases n,
{
    if n < 10 {
        assert(pow10(1) == 10) by {
            reveal_with_fuel(pow10, 2);
        }
        assert(pow10(0) == 1);
    } else {
        lemma_decimal_digits_bounds(n / 10);
        let d = decimal_digits(n / 10);
        assert(decimal_digits(n) == d + 1);
        assert(pow10(d + 1) == 10 * pow10(d));
        assert(pow10(d) == 10 * pow10((d - 1) as nat));
    }
}

/// The gutter width is the least width of at least `MIN_GUTTER_WIDTH`
/// columns in which `total_lines` can be printed: the count stays below ten
/// to that power, and a width above the minimum is needed, because the count
/// has reached ten to the power of the width before.
pub proof fn lemma_gutter_width_is_least(total_lines: nat)
    ensures
        gutter_width_spec(total_lines) >= MIN_GUTTER_WIDTH,
        total_lines < pow10(gutter_width_spec(total_lines)),
        gutter_width_spec(total_lines) > MIN_GUTTER_WIDTH ==> pow10(
            (gutter_width_spec(total_lines) - 1) as nat,
        ) <= total_lines,
{
    lemma_decimal_digits_bounds(total_lines);
    lemma_pow10_increases(decimal_digits(total_lines), gutter_width_spec(total_lines));
}

/// Powers of ten grow with the exponent.
pub proof fn lemma_pow10_increases(low: nat, high: nat)
    requires
        low <= high,
    ensures
        1 <= pow10(low) <= pow10(high),
    decreases high,
{
    if high == 0 {
    } else if low == high {
        lemma_pow10_increases(0, (high - 1) as nat);
    } else {
        lemma_pow10_increases(low, (high - 1) as nat);
    }
}

/// The bands of the gutter width: four columns up to 9999 lines, five from
/// 10000 to 99999.
pub proof fn lemma_gutter_width_bands(total_lines: nat)
    ensures
        total_lines <= 9999 ==> gutter_width_spec(total_lines) == 4,
        10000 <= total_lines <= 99999 ==> gutter_width_spec(total_lines) == 5,
{
    reveal_with_fuel(decimal_digits, 6);
}

/// And so on for every further digit: once the line count has reached ten
/// to the power of a width of at least `MIN_GUTTER_WIDTH`, and as long as it
/// stays below the next power, the gutter is one column wider than that.
pub proof fn lemma_gutter_width_grows_by_digit(total_lines: nat, width: nat)
    requires
        width >= MIN_GUTTER_WIDTH,
        pow10(width) <= total_lines < pow10(width + 1),
    ensures
        gutter_width_spec(total_lines) == width + 1,
{
    let g = gutter_width_spec(total_lines);
    lemma_gutter_width_is_least(total_lines);
    if g <= width {
        lemma_pow10_increases(g, width);
    } else if g > width + 1 {
        lemma_pow10_increases(width + 1, (g - 1) as nat);
    }
}

/// Width of the gutter, in columns, for a document of `total_lines` lines.
pub fn gutter_width(total_lines: usize) -> (width: usize)
    ensures
        width == gutter_width_spec(total_lines as nat),
        width >= MIN_GUTTER_WIDTH,
{
    let mut digits: usize = 1;
    let mut rest: usize = total_lines;
    while rest >= 10
        invariant
            digits >= 1,
            digits + decimal_digits(rest as nat) == 1 + decimal_digits(total_lines as nat),
            digits + rest <= 1 + total_lines,
        decreases rest,
    {
        rest = rest / 10;
        digits += 1;
    }
    if digits < MIN_GUTTER_WIDTH {
        MIN_GUTTER_WIDTH
    } else {
        digits
    }
}

/// Whether the row that shows the segment with this ordinal carries the
/// line number: only the first row of a line does; the rows that continue a
/// wrapped line have a blank gutter.
pub fn show_number(segment_ordinal: usize) -> (shown: bool)
    ensures
        shown == (segment_ordinal == 0),
{
    segment_ordinal == 0
}

} // verus!
