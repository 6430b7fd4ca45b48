//! Splitting one logical line into the segments that fit on a display row.
use crate::error::PagerError;
use std::ops::Range;
use vstd::prelude::*;

verus! {

/// Mathematical model of a segment: the half-open character range
/// `[start, end)` of one line, and its position among the line's segments.
pub struct Span {
    pub start: int,
    pub end: int,
    pub ordinal: int,
}

/// The portion of a logical line that is shown on one display row: the
/// characters `start..end`, as the `ordinal`-th row of the line (from zero).
#[derive(Clone, Copy, Debug, PartialEq, Eq, Structural)]
pub struct Segment {
    pub start: usize,
    pub end: usize,
    pub ordinal: usize,
}

impl View for Segment {
    type V = Span;

    open spec fn view(&self) -> Span {
        Span { start: self.start as int, end: self.end as int, ordinal: self.ordinal as int }
    }
}

impl DeepView for Segment {
    type V = Span;

    open spec fn deep_view(&self) -> Span {
        self.view()
    }
}

/// Number of display rows that a line of `line_len` characters occupies in a
/// text area `width` columns wide: one row for a line that fits (an empty
/// line included), otherwise the quotient `line_len / width` rounded up.
pub open spec fn rows_needed(line_len: int, width: int) -> int {
    if line_len <= width {
        1
    } else if line_len % width == 0 {
        line_len / width
    } else {
        line_len / width + 1
    }
}

/// `rows_needed` is the least number of rows of `width` columns that hold
/// `line_len` characters, and never less than one.
pub proof fn lemma_rows_needed_is_ceiling(line_len: int, width: int)
    requires
        0 <= line_len,
        1 <= width,
    ensures
        rows_needed(line_len, width) >= 1,
        rows_needed(line_len, width) * width >= line_len,
        line_len > 0 ==> (rows_needed(line_len, width) - 1) * width < line_len,
        line_len == 0 ==> rows_needed(line_len, width) == 1,
{
    let n = rows_needed(line_len, width);
    if line_len <= width {
        assert(n * width == width);
        assert((n - 1) * width == 0);
    } else {
        let q = line_len / width;
        let r = line_len % width;
        assert(line_len == q * width + r && 0 <= r < width && q >= 1) by (nonlinear_arith)
            requires
                q == line_len / width,
                r == line_len % width,
                line_len > width,
                width >= 1,
        ;
        if r == 0 {
            assert((q - 1) * width == q * width - width) by (nonlinear_arith);
        } else {
            assert((q + 1) * width == q * width + width) by (nonlinear_arith);
        }
    }
}

/// Every line needs at least one row.
pub proof fn lemma_rows_needed_positive(line_len: int, width: int)
    requires
        1 <= width,
    ensures
        rows_needed(line_len, width) >= 1,
{
    if line_len > width {
        lemma_rows_needed_is_ceiling(line_len, width);
    }
}

/// Compute how many rows of the text area a line needs.  A result above one
/// means that the line is cut into that many segments for wrapping.
pub fn line_occupies(line_len: usize, editor_width: usize) -> (n: usize)
    requires
        editor_width >= 1,
    ensures
        n == rows_needed(line_len as int, editor_width as int),
        n >= 1,
{
    if line_len <= editor_width {
        1
    } else {
        let mut n: usize = line_len / editor_width;
        if line_len % editor_width != 0 {
            assert(n < line_len) by (nonlinear_arith)
                requires
                    n == line_len / editor_width,
                    line_len % editor_width != 0,
                    editor_width >= 1,
                    line_len > editor_width,
            ;
            n += 1;
        }
        assert(n >= 1) by {
            lemma_rows_needed_is_ceiling(line_len as int, editor_width as int);
        }
        n
    }
}

/// The `i`-th segment of a line: it starts at `i * width` and runs for
/// `width` characters, or to the end of the line where that comes first.
pub open spec fn span_at(line_len: int, width: int, i: int) -> Span {
    Span {
        start: i * width,
        end: if (i + 1) * width <= line_len {
            (i + 1) * width
        } else {
            line_len
        },
        ordinal: i,
    }
}

/// The wrap plan of a line: its `rows_needed` segments in ascending order.
pub open spec fn plan_spec(line_len: int, width: int) -> Seq<Span> {
    Seq::new(rows_needed(line_len, width) as nat, |i: int| span_at(line_len, width, i))
}

/// The spans that a sequence of character ranges stands for, numbered in
/// the order in which they come.
pub open spec fn range_spans(ranges: Seq<Range<usize>>) -> Seq<Span> {
    Seq::new(
        ranges.len(),
        |i: int| Span { start: ranges[i].start as int, end: ranges[i].end as int, ordinal: i },
    )
}

/// Every segment of a plan lies inside the line, so its bounds fit wherever
/// the line length does.
proof fn lemma_span_bounds(line_len: int, width: int, i: int)
    requires
        0 <= line_len,
        1 <= width,
        0 <= i < rows_needed(line_len, width),
    ensures
        0 <= span_at(line_len, width, i).start <= span_at(line_len, width, i).end <= line_len,
        span_at(line_len, width, i).end - span_at(line_len, width, i).start <= width,
        i + 1 < rows_needed(line_len, width) ==> span_at(line_len, width, i).end == (i + 1)
            * width,
        i + 1 == rows_needed(line_len, width) ==> span_at(line_len, width, i).end == line_len,
        line_len > 0 ==> span_at(line_len, width, i).start < line_len,
        (i + 1) * width == i * width + width,
{
    let n = rows_needed(line_len, width);
    lemma_rows_needed_is_ceiling(line_len, width);
    assert((i + 1) * width == i * width + width) by (nonlinear_arith);
    assert(0 <= i * width) by (nonlinear_arith)
        requires
            0 <= i,
            1 <= width,
    ;
    assert(i * width <= (n - 1) * width) by (nonlinear_arith)
        requires
            i <= n - 1,
            1 <= width,
    ;
    if i + 1 < n {
        assert((i + 1) * width <= (n - 1) * width) by (nonlinear_arith)
            requires
                i + 1 <= n - 1,
                1 <= width,
        ;
    }
}

/// Cut a line of `line_len` characters into the character ranges that each
/// fill one row of a text area `width` columns wide.  An empty line yields
/// the single empty range `0..0`.
pub fn get_ranges(line_len: usize, width: usize) -> (ranges: Vec<Range<usize>>)
    requires
        width >= 1,
    ensures
        range_spans(ranges@) == plan_spec(line_len as int, width as int),
{
    let n = line_occupies(line_len, width);
    let mut ranges: Vec<Range<usize>> = Vec::new();
    let mut i: usize = 0;
    while i < n
        invariant
            width >= 1,
            n == rows_needed(line_len as int, width as int),
            i <= n,
            ranges@.len() == i,
            forall|j: int|
                0 <= j < i ==> {
                    &&& (#[trigger] ranges@[j]).start == span_at(
                        line_len as int,
                        width as int,
                        j,
                    ).start
                    &&& ranges@[j].end == span_at(line_len as int, width as int, j).end
                },
        decreases n - i,
    {
        proof {
            lemma_span_bounds(line_len as int, width as int, i as int);
        }
        let start = i * width;
        let end = if i == n - 1 {
            line_len
        } else {
            start + width
        };
        ranges.push(start..end);
        i += 1;
    }
    assert(range_spans(ranges@) =~= plan_spec(line_len as int, width as int));
    ranges
}

/// What `plan` owes its caller: a width of zero is refused as
/// `InvalidWidth`, and every other width yields the wrap plan of the line.
pub open spec fn plan_result(
    line_len: int,
    width: int,
    result: Result<Vec<Segment>, PagerError>,
) -> bool {
    match result {
        Ok(segments) => width >= 1 && segments.deep_view() == plan_spec(line_len, width),
        Err(e) => width == 0 && e == PagerError::InvalidWidth,
    }
}

/// Plan the wrapping of a line of `line_len` characters into rows of
/// `width` columns.  The segments come in ascending order; the `i`-th has
/// ordinal `i`.
pub fn plan(line_len: usize, width: usize) -> (result: Result<Vec<Segment>, PagerError>)
    ensures
        plan_result(line_len as int, width as int, result),
        result is Err <==> width == 0,
{
    if width == 0 {
        return Err(PagerError::InvalidWidth);
    }
    let ranges = get_ranges(line_len, width);
    let ghost spans = range_spans(ranges@);
    let mut segments: Vec<Segment> = Vec::new();
    let mut i: usize = 0;
    while i < ranges.len()
        invariant
            i <= ranges.len(),
            segments@.len() == i,
            spans == range_spans(ranges@),
            forall|j: int| 0 <= j < i ==> (#[trigger] segments@[j])@ == spans[j],
        decreases ranges.len() - i,
    {
        segments.push(Segment { start: ranges[i].start, end: ranges[i].end, ordinal: i });
        i += 1;
    }
    assert(segments.deep_view() =~= spans);
    Ok(segments)
}

/// Whether character position `c` lies in the span.
pub open spec fn span_contains(span: Span, c: int) -> bool {
    span.start <= c < span.end
}

/// Whether some span of the sequence holds character position `c`.
pub open spec fn covers(spans: Seq<Span>, c: int) -> bool {
    exists|i: int| 0 <= i < spans.len() && span_contains(#[trigger] spans[i], c)
}

/// The segments of a plan tile the line: there are `rows_needed` of them,
/// numbered from zero; the first starts at 0, each starts where the one
/// before it ended, and the last ends at `line_len`.  All but the last are
/// `width` characters long, none is longer, and on a line that is not empty
/// none is empty; the last of several holds the remainder of `line_len` by
/// `width`, or `width` characters where the division is exact.  The
/// positions that the segments cover are exactly those of the line,
/// `0 <= c < line_len`, and no position lies in two segments.
pub proof fn lemma_plan_tiles_line(line_len: int, width: int)
    requires
        0 <= line_len,
        1 <= width,
    ensures
        plan_spec(line_len, width).len() == rows_needed(line_len, width),
        plan_spec(line_len, width).len() >= 1,
        plan_spec(line_len, width).first().start == 0,
        plan_spec(line_len, width).last().end == line_len,
        line_len > width ==> plan_spec(line_len, width).last().end - plan_spec(
            line_len,
            width,
        ).last().start == (if line_len % width == 0 {
            width
        } else {
            line_len % width
        }),
        forall|i: int|
            #![trigger plan_spec(line_len, width)[i]]
            0 <= i < plan_spec(line_len, width).len() ==> {
                let s = plan_spec(line_len, width)[i];
                &&& s.ordinal == i
                &&& 0 <= s.start <= s.end <= line_len
                &&& s.end - s.start <= width
                &&& (line_len > 0 ==> s.start < s.end)
                &&& (i + 1 < plan_spec(line_len, width).len() ==> s.end - s.start == width && s.end
                    == plan_spec(line_len, width)[i + 1].start)
            },
        forall|c: int| #[trigger] covers(plan_spec(line_len, width), c) <==> 0 <= c < line_len,
        forall|c: int, i: int, j: int|
            0 <= i < plan_spec(line_len, width).len() && 0 <= j < plan_spec(line_len, width).len()
                && #[trigger] span_contains(plan_spec(line_len, width)[i], c)
                && #[trigger] span_contains(plan_spec(line_len, width)[j], c) ==> i == j,
{
    let plan = plan_spec(line_len, width);
    let n = rows_needed(line_len, width);
    lemma_rows_needed_is_ceiling(line_len, width);
    lemma_span_bounds(line_len, width, 0);
    lemma_span_bounds(line_len, width, n - 1);
    if line_len > width {
        let q = line_len / width;
        assert(line_len == q * width + line_len % width) by (nonlinear_arith)
            requires
                q == line_len / width,
                1 <= width,
        ;
        assert((q - 1) * width == q * width - width) by (nonlinear_arith);
    }
    assert forall|i: int| #![trigger plan[i]] 0 <= i < plan.len() implies {
        let s = plan[i];
        &&& s.ordinal == i
        &&& 0 <= s.start <= s.end <= line_len
        &&& s.end - s.start <= width
        &&& (line_len > 0 ==> s.start < s.end)
        &&& (i + 1 < plan.len() ==> s.end - s.start == width && s.end == plan[i + 1].start)
    } by {
        lemma_span_bounds(line_len, width, i);
        if i + 1 < plan.len() {
            lemma_span_bounds(line_len, width, i + 1);
        }
    }
    assert forall|c: int| #[trigger] covers(plan, c) <==> 0 <= c < line_len by {
        if 0 <= c < line_len {
            let i = c / width;
            assert(i * width <= c < (i + 1) * width && 0 <= i) by (nonlinear_arith)
                requires
                    i == c / width,
                    0 <= c,
                    1 <= width,
            ;
            assert(i < n) by (nonlinear_arith)
                requires
                    i * width <= c,
                    c < line_len,
                    line_len <= n * width,
                    1 <= width,
            ;
            lemma_span_bounds(line_len, width, i);
            assert(span_contains(plan[i], c));
        }
        if covers(plan, c) {
            let i = choose|i: int| 0 <= i < plan.len() && span_contains(#[trigger] plan[i], c);
            lemma_span_bounds(line_len, width, i);
        }
    }
    assert forall|c: int, i: int, j: int|
        0 <= i < plan.len() && 0 <= j < plan.len() && #[trigger] span_contains(plan[i], c)
            && #[trigger] span_contains(plan[j], c) implies i == j by {
        lemma_span_bounds(line_len, width, i);
        lemma_span_bounds(line_len, width, j);
        if i < j {
            assert((i + 1) * width <= j * width) by (nonlinear_arith)
                requires
                    i + 1 <= j,
                    1 <= width,
            ;
        }
        if j < i {
            assert((j + 1) * width <= i * width) by (nonlinear_arith)
                requires
                    j + 1 <= i,
                    1 <= width,
            ;
        }
    }
}

/// Planning is a function of its inputs: whatever two calls of `plan` on the
/// same line length and width return, they agree, in success or failure and
/// in every segment.
pub proof fn lemma_plan_is_deterministic(
    line_len: int,
    width: int,
    first: Result<Vec<Segment>, PagerError>,
    second: Result<Vec<Segment>, PagerError>,
)
    requires
        plan_result(line_len, width, first),
        plan_result(line_len, width, second),
    ensures
        first is Ok <==> second is Ok,
        first is Ok ==> first->Ok_0@ == second->Ok_0@,
        first is Err ==> first->Err_0 == second->Err_0,
{
    if first is Ok {
        let a = first->Ok_0;
        let b = second->Ok_0;
        assert(a.deep_view() == b.deep_view());
        assert(a@.len() == a.deep_view().len());
        assert(b@.len() == b.deep_view().len());
        assert forall|i: int| 0 <= i < a@.len() implies a@[i] == b@[i] by {
            assert(a@[i]@ == a.deep_view()[i]);
            assert(b@[i]@ == b.deep_view()[i]);
        }
        assert(a@ =~= b@);
    }
}

/// An empty line is planned as the single empty segment `(0, 0)`, and a line
/// that fills the width exactly as the single segment `(0, width)`: no empty
/// segment trails it.
pub proof fn lemma_plan_boundaries(width: int)
    requires
        1 <= width,
    ensures
        plan_spec(0, width) == seq![(Span { start: 0, end: 0, ordinal: 0 })],
        plan_spec(width, width) == seq![(Span { start: 0, end: width, ordinal: 0 })],
{
    assert(0 * width == 0 && 1 * width == width) by (nonlinear_arith);
    assert(plan_spec(0, width) =~= seq![Span { start: 0, end: 0, ordinal: 0 }]);
    assert(plan_spec(width, width) =~= seq![Span { start: 0, end: width, ordinal: 0 }]);
}

} // verus!
