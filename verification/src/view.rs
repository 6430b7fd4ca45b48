//! A whole document, wrapped ahead of time.
use crate::buffer::{line_lens, LineSource};
use crate::viewport::Dims;
use crate::wrap_planner::{get_ranges, plan_spec, range_spans};
use ropey::Rope;
use std::collections::VecDeque;
use std::ops::Range;
use vstd::prelude::*;
use vstd::view::View as _;

verus! {

/// A line number, counted from 1.
pub type LineNo = usize;

/// One logical line and the character ranges it is wrapped into.
pub struct Line {
    pub line_no: LineNo,
    pub ranges: Vec<Range<usize>>,
}

/// The wrap plan of every line of a document, for one display area.  The
/// lines stand in reverse: the last line of the document comes first.
pub struct View {
    pub lines: VecDeque<Line>,
    pub dims: Dims,
}

impl View {
    /// Whether this view is the wrapping of a document with the given line
    /// lengths: one entry for each line, the last line first, each with its
    /// number and with its plan at the content width of `dims`.
    pub open spec fn wraps(&self, lens: Seq<int>) -> bool {
        &&& self.lines@.len() == lens.len()
        &&& forall|k: int|
            0 <= k < lens.len() ==> {
                &&& (#[trigger] self.lines@[k]).line_no == lens.len() - k
                &&& range_spans(self.lines@[k].ranges@) == plan_spec(
                    lens[lens.len() - 1 - k],
                    self.dims.content_width as int,
                )
            }
    }

    /// Wrap every line of the source for the display area `dims`.
    pub fn from_lines(lines: &LineSource, dims: Dims) -> (view: View)
        requires
            dims.content_width >= 1,
        ensures
            view.dims == dims,
            view.wraps(lines.lens()),
    {
        let total = lines.total_lines();
        let ghost lens = lines.lens();
        let mut dq: VecDeque<Line> = VecDeque::new();
        let mut i: usize = 0;
        while i < total
            invariant
                i <= total,
                total == lens.len(),
                lens == lines.lens(),
                dims.content_width >= 1,
                dq@.len() == i,
                forall|k: int|
                    0 <= k < i ==> {
                        &&& (#[trigger] dq@[k]).line_no == i - k
                        &&& range_spans(dq@[k].ranges@) == plan_spec(
                            lens[i - 1 - k],
                            dims.content_width as int,
                        )
                    },
            decreases total - i,
        {
            let line_no: LineNo = i + 1;
            let ranges = match lines.line_len(line_no) {
                Ok(line_len) => get_ranges(line_len, dims.content_width),
                Err(_) => Vec::new(),
            };
            let ghost before = dq@;
            dq.push_front(Line { line_no, ranges });
            proof {
                assert forall|k: int| 0 <= k < i + 1 implies {
                    &&& (#[trigger] dq@[k]).line_no == i + 1 - k
                    &&& range_spans(dq@[k].ranges@) == plan_spec(
                        lens[i - k],
                        dims.content_width as int,
                    )
                } by {
                    if k > 0 {
                        assert(dq@[k] == before[k - 1]);
                    }
                }
            }
            i += 1;
        }
        View { lines: dq, dims }
    }

    /// Wrap every line of a rope for the display area `dims`.
    pub fn from_rope(r: &Rope, dims: Dims) -> (view: View)
        requires
            dims.content_width >= 1,
        ensures
            view.dims == dims,
            view.wraps(line_lens(*r)),
    {
        View::from_lines(&LineSource::Rope(r), dims)
    }
}

} // verus!
