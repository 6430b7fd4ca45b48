//! The viewport: which rows of the wrapped document are on screen.
use crate::buffer::LineSource;
use crate::error::PagerError;
use crate::gutter_policy::{gutter_width, gutter_width_spec, show_number};
use crate::wrap_planner::{
    lemma_rows_needed_is_ceiling, lemma_rows_needed_positive, plan, plan_spec, rows_needed, span_at,
    Segment, Span,
};
use vstd::prelude::*;

verus! {

/// Size of the display area, in character cells.
#[derive(Clone, Copy, Debug, PartialEq, Eq, Structural)]
pub struct Dims {
    /// Columns available for text, the gutter not counted.
    pub content_width: usize,
    /// Display rows.
    pub height: usize,
    /// Columns reserved for line numbers.
    pub gutter_width: usize,
}

impl Dims {
    /// The display area of a terminal of `term_width` by `term_height`
    /// cells that shows a document of `total_lines` lines: the gutter takes
    /// what the line count needs, the text gets the columns that are left,
    /// none if the terminal is no wider than the gutter.
    pub open spec fn spec_for_terminal(term_width: u16, term_height: u16, total_lines: nat) -> Dims {
        let gutter = gutter_width_spec(total_lines);
        Dims {
            content_width: if term_width >= gutter {
                (term_width - gutter) as usize
            } else {
                0
            },
            height: term_height as usize,
            gutter_width: gutter as usize,
        }
    }

    /// Lay out a terminal of `term_width` by `term_height` cells for a
    /// document of `total_lines` lines.
    pub fn for_terminal(term_width: u16, term_height: u16, total_lines: usize) -> (dims: Dims)
        ensures
            dims == Dims::spec_for_terminal(term_width, term_height, total_lines as nat),
            dims.gutter_width == gutter_width_spec(total_lines as nat),
            dims.content_width + dims.gutter_width == term_width || (dims.content_width == 0
                && term_width < dims.gutter_width),
    {
        let gutter = gutter_width(total_lines);
        let columns = term_width as usize;
        Dims {
            content_width: if columns >= gutter {
                columns - gutter
            } else {
                0
            },
            height: term_height as usize,
            gutter_width: gutter,
        }
    }

    /// Number of character cells of the text area, the gutter not counted.
    pub fn text_area_chars(&self) -> (cells: usize)
        requires
            self.content_width * self.height <= usize::MAX,
        ensures
            cells == self.content_width * self.height,
    {
        self.content_width * self.height
    }

    /// Number of characters that fit on one row of the text area.
    pub fn text_area_line_width(&self) -> (columns: usize)
        ensures
            columns == self.content_width,
    {
        self.content_width
    }
}

/// Mathematical model of a display row.
pub struct RowModel {
    pub row_index: int,
    pub line_no: int,
    pub span: Span,
    pub numbered: bool,
}

/// One row of the frame: display row `row_index` (from zero) shows the
/// given segment of logical line `line_no` (from one), with the line number
/// in the gutter if `show_line_number` is set.
#[derive(Clone, Copy, Debug, PartialEq, Eq, Structural)]
pub struct DisplayRow {
    pub row_index: usize,
    pub line_no: usize,
    pub segment: Segment,
    pub show_line_number: bool,
}

impl View for DisplayRow {
    type V = RowModel;

    open spec fn view(&self) -> RowModel {
        RowModel {
            row_index: self.row_index as int,
            line_no: self.line_no as int,
            span: self.segment@,
            numbered: self.show_line_number,
        }
    }
}

impl DeepView for DisplayRow {
    type V = RowModel;

    open spec fn deep_view(&self) -> RowModel {
        self.view()
    }
}

/// A segment together with the line it belongs to.
pub struct Placed {
    pub line_no: int,
    pub span: Span,
}

/// The segments of `count` consecutive lines, the first of them line
/// `first_line`, each line wrapped to `width` columns, one after another.
pub open spec fn wrapped_lines(lens: Seq<int>, first_line: int, count: nat, width: int) -> Seq<
    Placed,
>
    decreases count,
{
    if count == 0 {
        Seq::empty()
    } else {
        let line_no = first_line + count - 1;
        wrapped_lines(lens, first_line, (count - 1) as nat, width) + Seq::new(
            rows_needed(lens[line_no - 1], width) as nat,
            |i: int| Placed { line_no, span: span_at(lens[line_no - 1], width, i) },
        )
    }
}

/// Number of lines from `top_line` to the end of the document; none if
/// `top_line` is no line of the document.
pub open spec fn lines_from(lens: Seq<int>, top_line: int) -> nat {
    if 1 <= top_line <= lens.len() {
        (lens.len() - top_line + 1) as nat
    } else {
        0
    }
}

/// The row that shows a placed segment at display row `row_index`: the
/// gutter carries the line number on the first segment of a line only.
pub open spec fn row_of(row_index: int, placed: Placed) -> RowModel {
    RowModel {
        row_index,
        line_no: placed.line_no,
        span: placed.span,
        numbered: placed.span.ordinal == 0,
    }
}

/// The segments laid out one to a row, from display row 0 down.
pub open spec fn laid_out(doc: Seq<Placed>) -> Seq<RowModel> {
    Seq::new(doc.len(), |i: int| row_of(i, doc[i]))
}

/// The frame that a viewport shows: the lines from `top_line` on are wrapped
/// to the content width and laid out row after row, a line number on the
/// first row of each line, until the height is used up or the document
/// ends.  A frame is never padded: it can be shorter than the height.
pub open spec fn frame_spec(lens: Seq<int>, top_line: int, dims: Dims) -> Seq<RowModel> {
    let rows = laid_out(
        wrapped_lines(lens, top_line, lines_from(lens, top_line), dims.content_width as int),
    );
    if rows.len() <= dims.height {
        rows
    } else {
        rows.take(dims.height as int)
    }
}

/// The line number `target`, held inside a document of `total_lines` lines:
/// what lies before line 1 becomes 1, what lies after the last line becomes
/// the last line.
pub open spec fn clamp_line(target: int, total_lines: int) -> int {
    if target < 1 {
        1
    } else if target > total_lines {
        total_lines
    } else {
        target
    }
}

/// The scroll position and the display area.
#[derive(Clone, Copy, Debug, PartialEq, Eq, Structural)]
pub struct Viewport {
    /// The logical line, counted from 1, at display row 0.
    pub top_line: usize,
    pub dims: Dims,
}

/// Wrapping more lines only appends: the segments of the first `fewer`
/// lines open the segments of the first `more` lines.
proof fn lemma_wrapped_lines_prefix(
    lens: Seq<int>,
    first_line: int,
    fewer: nat,
    more: nat,
    width: int,
)
    requires
        fewer <= more,
    ensures
        wrapped_lines(lens, first_line, fewer, width).len() <= wrapped_lines(
            lens,
            first_line,
            more,
            width,
        ).len(),
        forall|i: int|
            0 <= i < wrapped_lines(lens, first_line, fewer, width).len() ==> wrapped_lines(
                lens,
                first_line,
                fewer,
                width,
            )[i] == #[trigger] wrapped_lines(lens, first_line, more, width)[i],
    decreases more,
{
    if fewer < more {
        lemma_wrapped_lines_prefix(lens, first_line, fewer, (more - 1) as nat, width);
    }
}

impl Viewport {
    /// Whether the anchor is a line of a document of `total_lines` lines.
    pub open spec fn wf(&self, total_lines: int) -> bool {
        1 <= self.top_line <= total_lines
    }

    /// A viewport at the top of the document.
    pub fn new(dims: Dims) -> (viewport: Viewport)
        ensures
            viewport.top_line == 1,
            viewport.dims == dims,
    {
        Viewport { top_line: 1, dims }
    }

    /// A viewport anchored at `start_line`, or at the nearest line of the
    /// document where `start_line` is none.
    pub fn starting_at(start_line: usize, dims: Dims, total_lines: usize) -> (viewport: Viewport)
        requires
            total_lines >= 1,
        ensures
            viewport.top_line == clamp_line(start_line as int, total_lines as int),
            viewport.dims == dims,
            viewport.wf(total_lines as int),
    {
        let top_line = if start_line < 1 {
            1
        } else if start_line > total_lines {
            total_lines
        } else {
            start_line
        };
        Viewport { top_line, dims }
    }

    /// Move the anchor by `delta` whole lines, down for a positive `delta`
    /// and up for a negative one, and hold it inside the document.
    pub fn scroll(&mut self, delta: isize, total_lines: usize)
        requires
            total_lines >= 1,
        ensures
            final(self).top_line == clamp_line(old(self).top_line + delta, total_lines as int),
            final(self).dims == old(self).dims,
            final(self).wf(total_lines as int),
    {
        let target: i128 = self.top_line as i128 + delta as i128;
        if target < 1 {
            self.top_line = 1;
        } else if target > total_lines as i128 {
            self.top_line = total_lines;
        } else {
            self.top_line = target as usize;
        }
    }

    /// Replace the display area.  The anchor stays where it is.
    pub fn resize(&mut self, new_dims: Dims)
        ensures
            final(self).dims == new_dims,
            final(self).top_line == old(self).top_line,
    {
        self.dims = new_dims;
    }

    /// The frame of this viewport over the given lines.
    ///
    /// A content width of zero is refused as `InvalidWidth`; else an anchor
    /// of zero, which is no line number, as `BufferAccess`.  An anchor past
    /// the last line shows an empty frame.
    pub fn visible_rows(&self, lines: &LineSource) -> (result: Result<Vec<DisplayRow>, PagerError>)
        ensures
            match result {
                Ok(rows) => {
                    &&& self.dims.content_width >= 1
                    &&& self.top_line >= 1
                    &&& rows.deep_view() == frame_spec(
                        lines.lens(),
                        self.top_line as int,
                        self.dims,
                    )
                },
                Err(e) => if self.dims.content_width == 0 {
                    e == PagerError::InvalidWidth
                } else {
                    e == PagerError::BufferAccess && self.top_line == 0
                },
            },
    {
        let width = self.dims.content_width;
        let height = self.dims.height;
        if width == 0 {
            return Err(PagerError::InvalidWidth);
        }
        if self.top_line == 0 {
            return Err(PagerError::BufferAccess);
        }
        let total = lines.total_lines();
        let ghost lens = lines.lens();
        let ghost top = self.top_line as int;
        let ghost all = lines_from(lens, top);
        let remaining = if self.top_line <= total {
            total - self.top_line + 1
        } else {
            0
        };
        let mut rows: Vec<DisplayRow> = Vec::new();
        let mut done: usize = 0;
        while rows.len() < height && done < remaining
            invariant
                width >= 1,
                width == self.dims.content_width,
                height == self.dims.height,
                lens == lines.lens(),
                total == lens.len(),
                top == self.top_line,
                top >= 1,
                all == lines_from(lens, top),
                remaining == all,
                done <= remaining,
                rows@.len() <= height,
                rows@.len() <= wrapped_lines(lens, top, done as nat, width as int).len(),
                rows@.len() < height ==> rows@.len() == wrapped_lines(
                    lens,
                    top,
                    done as nat,
                    width as int,
                ).len(),
                forall|i: int|
                    0 <= i < rows@.len() ==> (#[trigger] rows@[i])@ == row_of(
                        i,
                        wrapped_lines(lens, top, done as nat, width as int)[i],
                    ),
            decreases remaining - done,
        {
            let line_no = self.top_line + done;
            let ghost before = wrapped_lines(lens, top, done as nat, width as int);
            let ghost after = wrapped_lines(lens, top, (done + 1) as nat, width as int);
            let line_len = match lines.line_len(line_no) {
                Ok(n) => n,
                Err(e) => {
                    return Err(e);
                },
            };
            let segments = match plan(line_len, width) {
                Ok(segments) => segments,
                Err(e) => {
                    return Err(e);
                },
            };
            proof {
                assert(lens[line_no - 1] == line_len);
                assert(after =~= before + Seq::new(
                    rows_needed(line_len as int, width as int) as nat,
                    |i: int|
                        Placed {
                            line_no: line_no as int,
                            span: span_at(line_len as int, width as int, i),
                        },
                ));
                assert(segments.deep_view().len() == segments@.len());
                assert forall|i: int| 0 <= i < segments@.len() implies (#[trigger] after[before.len()
                    + i]) == (Placed { line_no: line_no as int, span: segments@[i]@ }) by {
                    assert(segments@[i]@ == segments.deep_view()[i]);
                }
            }
            let mut j: usize = 0;
            while j < segments.len() && rows.len() < height
                invariant
                    j <= segments@.len(),
                    rows@.len() == before.len() + j,
                    rows@.len() <= height,
                    after.len() == before.len() + segments@.len(),
                    segments.deep_view() == plan_spec(line_len as int, width as int),
                    forall|i: int|
                        0 <= i < segments@.len() ==> (#[trigger] after[before.len() + i]) == (Placed {
                            line_no: line_no as int,
                            span: segments@[i]@,
                        }),
                    forall|i: int|
                        0 <= i < before.len() ==> before[i] == #[trigger] after[i],
                    forall|i: int|
                        0 <= i < rows@.len() ==> (#[trigger] rows@[i])@ == row_of(i, after[i]),
                decreases segments@.len() - j,
            {
                let segment = segments[j];
                let ghost index = rows@.len() as int;
                rows.push(
                    DisplayRow {
                        row_index: rows.len(),
                        line_no,
                        segment,
                        show_line_number: show_number(segment.ordinal),
                    },
                );
                proof {
                    assert(after[before.len() + j] == (Placed {
                        line_no: line_no as int,
                        span: segments@[j as int]@,
                    }));
                    assert(rows@[index]@ == row_of(index, after[index]));
                }
                j += 1;
            }
            done += 1;
        }
        proof {
            lemma_wrapped_lines_prefix(lens, top, done as nat, all, width as int);
            assert(rows.deep_view() =~= frame_spec(lens, top, self.dims));
        }
        Ok(rows)
    }
}

/// Scrolling never leaves the document: whatever the anchor was and
/// whatever the distance, the new anchor is one of the lines 1 to
/// `total_lines`.
pub proof fn lemma_scroll_stays_in_document(top_line: int, delta: int, total_lines: int)
    requires
        total_lines >= 1,
    ensures
        1 <= clamp_line(top_line + delta, total_lines) <= total_lines,
{
}

/// Scrolling is monotone.  From an anchor inside the document, a scroll down
/// never moves the anchor up and a scroll up never moves it down; the anchor
/// moves for real until it is held at the last or the first line; and two
/// scrolls in the same direction end where one scroll by their sum ends.
pub proof fn lemma_scroll_is_monotone(top_line: int, first: int, second: int, total_lines: int)
    requires
        1 <= top_line <= total_lines,
        (first >= 0 && second >= 0) || (first <= 0 && second <= 0),
    ensures
        first >= 0 && second >= 0 ==> top_line <= clamp_line(top_line + first, total_lines)
            <= clamp_line(
            clamp_line(top_line + first, total_lines) + second,
            total_lines,
        ),
        first <= 0 && second <= 0 ==> top_line >= clamp_line(top_line + first, total_lines)
            >= clamp_line(
            clamp_line(top_line + first, total_lines) + second,
            total_lines,
        ),
        first > 0 && top_line < total_lines ==> top_line < clamp_line(
            top_line + first,
            total_lines,
        ),
        first < 0 && top_line > 1 ==> top_line > clamp_line(top_line + first, total_lines),
        clamp_line(clamp_line(top_line + first, total_lines) + second, total_lines) == clamp_line(
            top_line + first + second,
            total_lines,
        ),
{
}

/// Every frame opens with the anchor line, wrapped to the width in force.
/// So after a resize, which keeps the anchor, the rows of the anchor line
/// are those of its plan at the new width, as many as the new height lets
/// through, the first of them numbered.
pub proof fn lemma_frame_opens_with_top_line(lens: Seq<int>, top_line: int, dims: Dims)
    requires
        1 <= top_line <= lens.len(),
        dims.content_width >= 1,
        lens[top_line - 1] >= 0,
    ensures
        forall|i: int|
            0 <= i < rows_needed(lens[top_line - 1], dims.content_width as int) && i
                < dims.height ==> i < frame_spec(lens, top_line, dims).len() && (#[trigger] frame_spec(
                lens,
                top_line,
                dims,
            )[i]) == (RowModel {
                row_index: i,
                line_no: top_line,
                span: plan_spec(lens[top_line - 1], dims.content_width as int)[i],
                numbered: i == 0,
            }),
{
    let width = dims.content_width as int;
    let all = lines_from(lens, top_line);
    assert(wrapped_lines(lens, top_line, 0, width).len() == 0);
    assert(wrapped_lines(lens, top_line, 1, width) =~= Seq::new(
        rows_needed(lens[top_line - 1], width) as nat,
        |i: int| Placed { line_no: top_line, span: span_at(lens[top_line - 1], width, i) },
    ));
    lemma_wrapped_lines_prefix(lens, top_line, 1, all, width);
}

/// Whether `next` comes right after `row` in the wrapped document: the
/// next segment of the same line, or, after the last segment of a line, the
/// first segment of the line below.
pub open spec fn follows(lens: Seq<int>, width: int, row: RowModel, next: RowModel) -> bool {
    if row.span.ordinal + 1 < rows_needed(lens[row.line_no - 1], width) {
        next.line_no == row.line_no && next.span.ordinal == row.span.ordinal + 1
    } else {
        next.line_no == row.line_no + 1 && next.span.ordinal == 0
    }
}

/// Whether row `i + 1` of the frame comes right after row `i`.
pub open spec fn follows_at(lens: Seq<int>, width: int, frame: Seq<RowModel>, i: int) -> bool {
    follows(lens, width, frame[i], frame[i + 1])
}

/// The same shape, stated of the segments of `count` wrapped lines.
proof fn lemma_wrapped_lines_shape(lens: Seq<int>, first_line: int, count: nat, width: int)
    requires
        1 <= width,
        1 <= first_line,
        count > 0 ==> first_line + count - 1 <= lens.len(),
    ensures
        wrapped_lines(lens, first_line, count, width).len() >= count,
        count > 0 ==> {
            let doc = wrapped_lines(lens, first_line, count, width);
            &&& doc.first().line_no == first_line
            &&& doc.first().span.ordinal == 0
            &&& doc.last().line_no == first_line + count - 1
            &&& doc.last().span.ordinal + 1 == rows_needed(lens[first_line + count - 2], width)
        },
        forall|i: int|
            #![trigger wrapped_lines(lens, first_line, count, width)[i]]
            0 <= i < wrapped_lines(lens, first_line, count, width).len() ==> {
                let placed = wrapped_lines(lens, first_line, count, width)[i];
                &&& first_line <= placed.line_no < first_line + count
                &&& 0 <= placed.span.ordinal < rows_needed(lens[placed.line_no - 1], width)
                &&& placed.span == span_at(lens[placed.line_no - 1], width, placed.span.ordinal)
            },
        forall|i: int|
            0 <= i && i + 1 < wrapped_lines(lens, first_line, count, width).len()
                ==> #[trigger] follows_at(
                lens,
                width,
                laid_out(wrapped_lines(lens, first_line, count, width)),
                i,
            ),
    decreases count,
{
    if count > 0 {
        let line_no = first_line + count - 1;
        let before = wrapped_lines(lens, first_line, (count - 1) as nat, width);
        let needed = rows_needed(lens[line_no - 1], width);
        let line = Seq::new(
            needed as nat,
            |i: int| Placed { line_no, span: span_at(lens[line_no - 1], width, i) },
        );
        let doc = wrapped_lines(lens, first_line, count, width);
        assert(doc == before + line);
        lemma_rows_needed_positive(lens[line_no - 1], width);
        lemma_wrapped_lines_shape(lens, first_line, (count - 1) as nat, width);
        assert(doc.last() == line[needed - 1]);
        if count > 1 {
            assert(doc.first() == before.first());
        } else {
            assert(doc.first() == line[0]);
        }
        assert forall|i: int| #![trigger doc[i]] 0 <= i < doc.len() implies {
            let placed = doc[i];
            &&& first_line <= placed.line_no < first_line + count
            &&& 0 <= placed.span.ordinal < rows_needed(lens[placed.line_no - 1], width)
            &&& placed.span == span_at(lens[placed.line_no - 1], width, placed.span.ordinal)
        } by {
            if i < before.len() {
                assert(doc[i] == before[i]);
            } else {
                assert(doc[i] == line[i - before.len()]);
            }
        }
        let rows = laid_out(doc);
        let rows_before = laid_out(before);
        assert forall|i: int| 0 <= i && i + 1 < doc.len() implies #[trigger] follows_at(
            lens,
            width,
            rows,
            i,
        ) by {
            if i + 1 < before.len() {
                assert(doc[i] == before[i] && doc[i + 1] == before[i + 1]);
                assert(follows_at(lens, width, rows_before, i));
            } else if i + 1 == before.len() {
                assert(doc[i] == before.last());
                assert(doc[i + 1] == line[0]);
            } else {
                assert(doc[i] == line[i - before.len()]);
                assert(doc[i + 1] == line[i + 1 - before.len()]);
            }
        }
    }
}

/// The rows of a frame follow the document without a gap.  A frame has at
/// most `height` rows, numbered from zero.  It opens with the first segment
/// of the anchor line; each row shows a segment of the plan of a line of
/// the document, numbered exactly if it is the first of its line; each
/// further row comes right after the row above; and a frame that leaves
/// rows of the display unused ends with the last segment of the last line.
pub proof fn lemma_frame_follows_document(lens: Seq<int>, top_line: int, dims: Dims)
    requires
        1 <= top_line,
        dims.content_width >= 1,
    ensures
        frame_spec(lens, top_line, dims).len() <= dims.height,
        top_line > lens.len() ==> frame_spec(lens, top_line, dims).len() == 0,
        top_line <= lens.len() && dims.height > 0 ==> {
            let frame = frame_spec(lens, top_line, dims);
            &&& frame.len() > 0
            &&& frame.first().line_no == top_line
            &&& frame.first().span.ordinal == 0
        },
        forall|i: int|
            #![trigger frame_spec(lens, top_line, dims)[i]]
            0 <= i < frame_spec(lens, top_line, dims).len() ==> {
                let row = frame_spec(lens, top_line, dims)[i];
                &&& row.row_index == i
                &&& top_line <= row.line_no <= lens.len()
                &&& 0 <= row.span.ordinal < rows_needed(
                    lens[row.line_no - 1],
                    dims.content_width as int,
                )
                &&& row.span == plan_spec(
                    lens[row.line_no - 1],
                    dims.content_width as int,
                )[row.span.ordinal]
                &&& row.numbered == (row.span.ordinal == 0)
            },
        forall|i: int|
            0 <= i && i + 1 < frame_spec(lens, top_line, dims).len() ==> #[trigger] follows_at(
                lens,
                dims.content_width as int,
                frame_spec(lens, top_line, dims),
                i,
            ),
        0 < frame_spec(lens, top_line, dims).len() < dims.height ==> {
            let last = frame_spec(lens, top_line, dims).last();
            &&& last.line_no == lens.len()
            &&& last.span.ordinal + 1 == rows_needed(
                lens[lens.len() - 1],
                dims.content_width as int,
            )
        },
{
    let width = dims.content_width as int;
    let count = lines_from(lens, top_line);
    let doc = wrapped_lines(lens, top_line, count, width);
    let frame = frame_spec(lens, top_line, dims);
    let rows = laid_out(doc);
    lemma_wrapped_lines_shape(lens, top_line, count, width);
    assert forall|i: int| #![trigger frame[i]] 0 <= i < frame.len() implies {
        let row = frame[i];
        &&& row.row_index == i
        &&& top_line <= row.line_no <= lens.len()
        &&& 0 <= row.span.ordinal < rows_needed(lens[row.line_no - 1], width)
        &&& row.span == plan_spec(lens[row.line_no - 1], width)[row.span.ordinal]
        &&& row.numbered == (row.span.ordinal == 0)
    } by {
        assert(frame[i] == row_of(i, doc[i]));
    }
    assert forall|i: int| 0 <= i && i + 1 < frame.len() implies #[trigger] follows_at(
        lens,
        width,
        frame,
        i,
    ) by {
        assert(frame[i] == rows[i] && frame[i + 1] == rows[i + 1]);
        assert(follows_at(lens, width, rows, i));
    }
    if 0 < frame.len() < dims.height {
        assert(frame.last() == row_of(doc.len() - 1, doc.last()));
    }
    if top_line <= lens.len() && dims.height > 0 {
        assert(frame.first() == row_of(0, doc.first()));
    }
}

/// In a narrower text area a line needs at least as many rows.
pub proof fn lemma_narrower_needs_no_fewer_rows(line_len: int, wide: int, narrow: int)
    requires
        0 <= line_len,
        1 <= narrow <= wide,
    ensures
        rows_needed(line_len, narrow) >= rows_needed(line_len, wide),
{
    lemma_rows_needed_is_ceiling(line_len, narrow);
    lemma_rows_needed_is_ceiling(line_len, wide);
    let n = rows_needed(line_len, narrow);
    let w = rows_needed(line_len, wide);
    if n < w {
        assert(n * narrow <= (w - 1) * wide) by (nonlinear_arith)
            requires
                1 <= n <= w - 1,
                1 <= narrow <= wide,
        ;
    }
}

} // verus!
