//! The controller: what each input event does to the session.
//!
//! The pager itself performs no input or output.  Its caller reads an event,
//! hands it to `Pager::handle`, and carries out the action that comes back.
use crate::buffer::{line_lens, rope_lines, segment_text, total_lines, LineSource};
use crate::error::PagerError;
use crate::viewport::{clamp_line, frame_spec, Dims, DisplayRow, Viewport};
use ropey::Rope;
use vstd::prelude::*;

verus! {

/// Whether the session goes on.
#[derive(Clone, Copy, Debug, PartialEq, Eq, Structural)]
pub enum PagerState {
    /// Events are read and handled.
    Running,
    /// The session has ended; nothing is handled any more.
    Terminating,
}

/// An input event, as far as the pager tells events apart.
#[derive(Clone, Copy, Debug, PartialEq, Eq, Structural)]
pub enum Event {
    /// The quit key.
    Quit,
    /// A navigation key or the mouse wheel: move by so many lines, down if
    /// positive, up if negative.
    Scroll(isize),
    /// The terminal has a new size, in character cells.
    Resize { width: u16, height: u16 },
    /// A mouse button went down at this terminal position.
    MousePress { x: u16, y: u16 },
    /// Anything else.
    Unknown,
}

/// What the caller is to do after an event.
#[derive(Clone, Copy, Debug, PartialEq, Eq, Structural)]
pub enum Action {
    /// Draw the frame anew.
    Render,
    /// Draw a marker at this terminal position.
    MarkPosition { x: u16, y: u16 },
    /// Put the terminal back as it was and leave the event loop.
    ResetTerminal,
    /// Nothing.
    Nothing,
}

/// The outcome of one event: the state and viewport that follow, and the
/// action owed.
#[derive(Clone, Copy, Debug, PartialEq, Eq, Structural)]
pub struct Step {
    pub state: PagerState,
    pub viewport: Viewport,
    pub action: Action,
}

/// The transition relation of the pager, over a document of `total_lines`
/// lines.
///
/// While running: the quit key ends the session and asks for the terminal
/// to be reset; a scroll moves the anchor within the document and a resize
/// lays the display out anew with the anchor kept, and both ask for a
/// render; a mouse press asks for a marker; anything else does nothing.
/// Once terminating, every event does nothing.
pub open spec fn step_spec(
    state: PagerState,
    viewport: Viewport,
    total_lines: nat,
    event: Event,
) -> Step {
    match state {
        PagerState::Terminating => Step { state, viewport, action: Action::Nothing },
        PagerState::Running => match event {
            Event::Quit => Step {
                state: PagerState::Terminating,
                viewport,
                action: Action::ResetTerminal,
            },
            Event::Scroll(delta) => Step {
                state,
                viewport: Viewport {
                    top_line: clamp_line(viewport.top_line + delta, total_lines as int) as usize,
                    dims: viewport.dims,
                },
                action: Action::Render,
            },
            Event::Resize { width, height } => Step {
                state,
                viewport: Viewport {
                    top_line: viewport.top_line,
                    dims: Dims::spec_for_terminal(width, height, total_lines),
                },
                action: Action::Render,
            },
            Event::MousePress { x, y } => Step {
                state,
                viewport,
                action: Action::MarkPosition { x, y },
            },
            Event::Unknown => Step { state, viewport, action: Action::Nothing },
        },
    }
}

/// Decide what an event does, given the state, the viewport and the number
/// of lines of the document.
pub fn step(state: PagerState, viewport: Viewport, total_lines: usize, event: Event) -> (next:
    Step)
    requires
        total_lines >= 1,
    ensures
        next == step_spec(state, viewport, total_lines as nat, event),
{
    match state {
        PagerState::Terminating => Step { state, viewport, action: Action::Nothing },
        PagerState::Running => match event {
            Event::Quit => Step {
                state: PagerState::Terminating,
                viewport,
                action: Action::ResetTerminal,
            },
            Event::Scroll(delta) => {
                let mut moved = viewport;
                moved.scroll(delta, total_lines);
                Step { state, viewport: moved, action: Action::Render }
            },
            Event::Resize { width, height } => {
                let mut resized = viewport;
                resized.resize(Dims::for_terminal(width, height, total_lines));
                Step { state, viewport: resized, action: Action::Render }
            },
            Event::MousePress { x, y } => Step {
                state,
                viewport,
                action: Action::MarkPosition { x, y },
            },
            Event::Unknown => Step { state, viewport, action: Action::Nothing },
        },
    }
}

/// The terminating state is absorbing: no event leads out of it, moves the
/// viewport or asks for anything.
pub proof fn lemma_terminating_is_absorbing(viewport: Viewport, total_lines: nat, event: Event)
    ensures
        step_spec(PagerState::Terminating, viewport, total_lines, event) == (Step {
            state: PagerState::Terminating,
            viewport,
            action: Action::Nothing,
        }),
{
}

/// No event moves the anchor out of the document, and only a scroll moves
/// it at all.
pub proof fn lemma_step_keeps_anchor(
    state: PagerState,
    viewport: Viewport,
    total_lines: nat,
    event: Event,
)
    requires
        viewport.wf(total_lines as int),
        total_lines <= usize::MAX,
    ensures
        step_spec(state, viewport, total_lines, event).viewport.wf(total_lines as int),
        !(state == PagerState::Running && event is Scroll) ==> step_spec(
            state,
            viewport,
            total_lines,
            event,
        ).viewport.top_line == viewport.top_line,
{
}

/// A pager session: the text buffer, the viewport onto it, and whether the
/// session still runs.  The anchor of the viewport is always a line of the
/// buffer.
pub struct Pager {
    buf: Rope,
    viewport: Viewport,
    state: PagerState,
}

impl Pager {
    #[verifier::type_invariant]
    spec fn anchored(self) -> bool {
        self.viewport.wf(rope_lines(self.buf).len() as int)
    }

    /// The text buffer of the session.
    pub closed spec fn buffer(&self) -> Rope {
        self.buf
    }

    /// The viewport of the session.
    pub closed spec fn current_viewport(&self) -> Viewport {
        self.viewport
    }

    /// The state of the session.
    pub closed spec fn current_state(&self) -> PagerState {
        self.state
    }

    /// Number of lines of the buffer.
    pub open spec fn line_count(&self) -> nat {
        rope_lines(self.buffer()).len()
    }

    /// Start a session on `buf` in a terminal of `term_width` by
    /// `term_height` cells: running, anchored at the first line, the gutter
    /// as wide as the line count needs.
    pub fn new(buf: Rope, term_width: u16, term_height: u16) -> (pager: Pager)
        ensures
            pager.buffer() == buf,
            pager.current_state() == PagerState::Running,
            pager.current_viewport() == (Viewport {
                top_line: 1,
                dims: Dims::spec_for_terminal(term_width, term_height, rope_lines(buf).len()),
            }),
    {
        let total = total_lines(&buf);
        let dims = Dims::for_terminal(term_width, term_height, total);
        Pager { buf, viewport: Viewport::new(dims), state: PagerState::Running }
    }

    /// Start a session as `new` does, but anchored at `start_line`, or at
    /// the nearest line of the buffer where `start_line` is none.
    pub fn starting_at(buf: Rope, term_width: u16, term_height: u16, start_line: usize) -> (pager:
        Pager)
        ensures
            pager.buffer() == buf,
            pager.current_state() == PagerState::Running,
            pager.current_viewport() == (Viewport {
                top_line: clamp_line(start_line as int, rope_lines(buf).len() as int) as usize,
                dims: Dims::spec_for_terminal(term_width, term_height, rope_lines(buf).len()),
            }),
    {
        let total = total_lines(&buf);
        let dims = Dims::for_terminal(term_width, term_height, total);
        Pager {
            buf,
            viewport: Viewport::starting_at(start_line, dims, total),
            state: PagerState::Running,
        }
    }

    /// Handle one event: update the session as `step_spec` says and return
    /// the action that the caller owes.
    pub fn handle(&mut self, event: Event) -> (action: Action)
        ensures
            final(self).buffer() == old(self).buffer(),
            (Step {
                state: final(self).current_state(),
                viewport: final(self).current_viewport(),
                action,
            }) == step_spec(
                old(self).current_state(),
                old(self).current_viewport(),
                old(self).line_count(),
                event,
            ),
            final(self).current_viewport().wf(final(self).line_count() as int),
    {
        proof {
            use_type_invariant(&*self);
        }
        let total = total_lines(&self.buf);
        let next = step(self.state, self.viewport, total, event);
        self.viewport = next.viewport;
        self.state = next.state;
        next.action
    }

    /// The state of the session.
    pub fn state(&self) -> (state: PagerState)
        ensures
            state == self.current_state(),
    {
        self.state
    }

    /// Whether events are still handled.
    pub fn is_running(&self) -> (running: bool)
        ensures
            running == (self.current_state() == PagerState::Running),
    {
        match self.state {
            PagerState::Running => true,
            PagerState::Terminating => false,
        }
    }

    /// The viewport of the session; its anchor is a line of the buffer.
    pub fn viewport(&self) -> (viewport: Viewport)
        ensures
            viewport == self.current_viewport(),
            viewport.wf(self.line_count() as int),
    {
        proof {
            use_type_invariant(self);
        }
        self.viewport
    }

    /// Number of lines of the buffer.
    pub fn total_lines(&self) -> (n: usize)
        ensures
            n == self.line_count(),
            n >= 1,
    {
        total_lines(&self.buf)
    }

    /// The frame to draw: the rows of the viewport over the buffer.  The
    /// only error is `InvalidWidth`, where the terminal leaves no column to
    /// the text.
    pub fn visible_rows(&self) -> (result: Result<Vec<DisplayRow>, PagerError>)
        ensures
            match result {
                Ok(rows) => {
                    &&& self.current_viewport().dims.content_width >= 1
                    &&& rows.deep_view() == frame_spec(
                        line_lens(self.buffer()),
                        self.current_viewport().top_line as int,
                        self.current_viewport().dims,
                    )
                },
                Err(e) => e == PagerError::InvalidWidth && self.current_viewport().dims.content_width
                    == 0,
            },
    {
        proof {
            use_type_invariant(self);
        }
        self.viewport.visible_rows(&LineSource::Rope(&self.buf))
    }

    /// The text that a row of the frame shows.  A row that does not lie in
    /// the buffer is a `BufferAccess` error.
    pub fn row_text(&self, row: &DisplayRow) -> (result: Result<String, PagerError>)
        ensures
            match result {
                Ok(text) => {
                    &&& 1 <= row.line_no <= self.line_count()
                    &&& row.segment.start <= row.segment.end <= rope_lines(
                        self.buffer(),
                    )[row.line_no - 1].len()
                    &&& text@ == rope_lines(self.buffer())[row.line_no - 1].subrange(
                        row.segment.start as int,
                        row.segment.end as int,
                    )
                },
                Err(e) => {
                    &&& e == PagerError::BufferAccess
                    &&& !(1 <= row.line_no <= self.line_count() && row.segment.start
                        <= row.segment.end <= rope_lines(self.buffer())[row.line_no - 1].len())
                },
            },
    {
        segment_text(&self.buf, row.line_no, row.segment.start, row.segment.end)
    }
}

} // verus!
