//! Viewport and line-wrapping engine of a terminal text pager.
//!
//! Given a rope-structured text buffer and a character grid of fixed width
//! and height, the crate computes which slice of which logical line occupies
//! which display row, keeps the scroll anchor inside the document, and turns
//! input events into viewport updates.  Every function carries a contract
//! that Verus proves; the few calls into `ropey` stand behind small trusted
//! wrappers in the `buffer` module.
pub mod buffer;
pub mod error;
pub mod gutter_policy;
pub mod pager;
pub mod view;
pub mod viewport;
pub mod wrap_planner;

pub use buffer::{line_len, segment_text, total_lines, LineSource};
pub use error::PagerError;
pub use gutter_policy::{gutter_width, show_number, MIN_GUTTER_WIDTH};
pub use pager::{step, Action, Event, Pager, PagerState, Step};
pub use view::{Line, LineNo, View};
pub use viewport::{Dims, DisplayRow, Viewport};
pub use wrap_planner::{get_ranges, line_occupies, plan, Segment};
