//! The text buffer, as the engine reads it.
//!
//! The buffer is a `ropey::Rope`.  Verus cannot look inside one, so this
//! module names what a rope holds, `rope_lines`, and states in a handful of
//! trusted wrappers what the rope's queries return in terms of that name.
//! Everything else in the crate is verified against those statements.
use crate::error::PagerError;
use ropey::{Rope, RopeSlice};
use vstd::prelude::*;

verus! {

/// `ropey::Rope`, made known to the verifier as an opaque type.
#[verifier::external_type_specification]
#[verifier::external_body]
pub struct ExRope(Rope);

/// `ropey::RopeSlice`, made known to the verifier as an opaque type.
#[verifier::external_type_specification]
#[verifier::external_body]
pub struct ExRopeSlice<'a>(RopeSlice<'a>);

/// The lines of a rope, in order, each as the characters it holds (its line
/// break included, where it has one).
pub uninterp spec fn rope_lines(rope: Rope) -> Seq<Seq<char>>;

/// The characters of a rope slice.
pub uninterp spec fn slice_chars(slice: RopeSlice) -> Seq<char>;

/// The character length of every line of a rope.
pub open spec fn line_lens(rope: Rope) -> Seq<int> {
    Seq::new(rope_lines(rope).len(), |i: int| rope_lines(rope)[i].len() as int)
}

/// `Rope::len_lines`.  Trusted: the result is the number of lines of the
/// rope, and a rope has at least one line (the count is that of its line
/// breaks plus one).
#[verifier::external_body]
fn rope_len_lines(rope: &Rope) -> (n: usize)
    ensures
        n == rope_lines(*rope).len(),
        n >= 1,
{
    rope.len_lines()
}

/// `Rope::line`.  Trusted: for an index below the line count, which the
/// call needs so as not to panic, the result is that line of the rope.
#[verifier::external_body]
fn rope_line<'a>(rope: &'a Rope, line_idx: usize) -> (line: RopeSlice<'a>)
    requires
        line_idx < rope_lines(*rope).len(),
    ensures
        slice_chars(line) == rope_lines(*rope)[line_idx as int],
{
    rope.line(line_idx)
}

/// `RopeSlice::len_chars`.  Trusted: the result is the number of characters
/// of the slice.
#[verifier::external_body]
fn slice_len_chars(slice: &RopeSlice) -> (n: usize)
    ensures
        n == slice_chars(*slice).len(),
{
    slice.len_chars()
}

/// `RopeSlice::slice` on the range `start..end`.  Trusted: for
/// `start <= end <= len_chars()`, which the call needs so as not to panic,
/// the result holds the characters of the slice from `start` up to `end`.
#[verifier::external_body]
fn slice_range<'a>(slice: &RopeSlice<'a>, start: usize, end: usize) -> (part: RopeSlice<'a>)
    requires
        start <= end <= slice_chars(*slice).len(),
    ensures
        slice_chars(part) == slice_chars(*slice).subrange(start as int, end as int),
{
    slice.slice(start..end)
}

/// `String::from` for a `RopeSlice`.  Trusted: the string holds the
/// characters of the slice.
#[verifier::external_body]
fn slice_to_string(slice: RopeSlice) -> (text: String)
    ensures
        text@ == slice_chars(slice),
{
    String::from(slice)
}

/// Number of lines of the buffer; never zero.
pub fn total_lines(rope: &Rope) -> (n: usize)
    ensures
        n == line_lens(*rope).len(),
        n >= 1,
{
    rope_len_lines(rope)
}

/// Character length of line `line_no`, counted from 1.  A line number
/// outside `1..=total_lines` is a `BufferAccess` error.
pub fn line_len(rope: &Rope, line_no: usize) -> (result: Result<usize, PagerError>)
    ensures
        match result {
            Ok(n) => 1 <= line_no <= line_lens(*rope).len() && n == line_lens(*rope)[line_no - 1],
            Err(e) => e == PagerError::BufferAccess && (line_no == 0 || line_no > line_lens(
                *rope,
            ).len()),
        },
{
    if line_no == 0 || line_no > rope_len_lines(rope) {
        return Err(PagerError::BufferAccess);
    }
    let line = rope_line(rope, line_no - 1);
    Ok(slice_len_chars(&line))
}

/// The characters `start..end` of line `line_no`, counted from 1, as a
/// string.  A line number outside the buffer, or a range that is reversed or
/// reaches past the end of the line, is a `BufferAccess` error.
pub fn segment_text(rope: &Rope, line_no: usize, start: usize, end: usize) -> (result: Result<
    String,
    PagerError,
>)
    ensures
        match result {
            Ok(text) => {
                &&& 1 <= line_no <= rope_lines(*rope).len()
                &&& start <= end <= rope_lines(*rope)[line_no - 1].len()
                &&& text@ == rope_lines(*rope)[line_no - 1].subrange(start as int, end as int)
            },
            Err(e) => {
                &&& e == PagerError::BufferAccess
                &&& !(1 <= line_no <= rope_lines(*rope).len() && start <= end <= rope_lines(
                    *rope,
                )[line_no - 1].len())
            },
        },
{
    if line_no == 0 || line_no > rope_len_lines(rope) {
        return Err(PagerError::BufferAccess);
    }
    let line = rope_line(rope, line_no - 1);
    if start > end || end > slice_len_chars(&line) {
        return Err(PagerError::BufferAccess);
    }
    Ok(slice_to_string(slice_range(&line, start, end)))
}

/// Where the engine takes line lengths from: a rope, or a table of lengths
/// that the caller has at hand.
pub enum LineSource<'a> {
    Rope(&'a Rope),
    Lengths(&'a Vec<usize>),
}

impl<'a> LineSource<'a> {
    /// The character length of every line, in order.
    pub open spec fn lens(&self) -> Seq<int> {
        match self {
            LineSource::Rope(rope) => line_lens(**rope),
            LineSource::Lengths(table) => Seq::new(table@.len(), |i: int| table@[i] as int),
        }
    }

    /// Number of lines of the source.
    pub fn total_lines(&self) -> (n: usize)
        ensures
            n == self.lens().len(),
    {
        match self {
            LineSource::Rope(rope) => total_lines(rope),
            LineSource::Lengths(table) => table.len(),
        }
    }

    /// Character length of line `line_no`, counted from 1.  A line number
    /// outside `1..=total_lines` is a `BufferAccess` error.
    pub fn line_len(&self, line_no: usize) -> (result: Result<usize, PagerError>)
        ensures
            match result {
                Ok(n) => 1 <= line_no <= self.lens().len() && n == self.lens()[line_no - 1],
                Err(e) => e == PagerError::BufferAccess && (line_no == 0 || line_no
                    > self.lens().len()),
            },
    {
        match self {
            LineSource::Rope(rope) => line_len(rope, line_no),
            LineSource::Lengths(table) => {
                if line_no == 0 || line_no > table.len() {
                    Err(PagerError::BufferAccess)
                } else {
                    Ok(table[line_no - 1])
                }
            },
        }
    }
}

} // verus!
