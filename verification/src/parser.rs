//! Source positions and spans attached to fragments of a parsed document.

use vstd::prelude::*;

verus! {

/// A place in the source text: byte offset, line and column, all counted from zero.
#[derive(Clone, Copy, Debug, PartialEq, Eq, Structural)]
pub struct SourcePosition {
    pub index: usize,
    pub line: usize,
    pub col: usize,
}

impl SourcePosition {
    pub fn new(index: usize, line: usize, col: usize) -> (pos: SourcePosition)
        ensures
            pos.index == index,
            pos.line == line,
            pos.col == col,
    {
        SourcePosition { index, line, col }
    }

    /// The position of the first character of a source text.
    pub fn new_origin() -> (pos: SourcePosition)
        ensures
            pos.index == 0,
            pos.line == 0,
            pos.col == 0,
    {
        SourcePosition { index: 0, line: 0, col: 0 }
    }

    pub fn index(&self) -> (index: usize)
        ensures
            index == self.index,
    {
        self.index
    }

    pub fn line(&self) -> (line: usize)
        ensures
            line == self.line,
    {
        self.line
    }

    pub fn column(&self) -> (col: usize)
        ensures
            col == self.col,
    {
        self.col
    }
}

/// An item together with the span of source text it was read from.
#[derive(Debug)]
pub struct Spanning<T> {
    pub item: T,
    pub start: SourcePosition,
    pub end: SourcePosition,
}

impl<T> Spanning<T> {
    pub fn start_end(start: &SourcePosition, end: &SourcePosition, item: T) -> (spanned: Spanning<T>)
        ensures
            spanned.item == item,
            spanned.start == *start,
            spanned.end == *end,
    {
        Spanning { item, start: *start, end: *end }
    }

    /// An item with no known place in the source: both ends at the origin.
    pub fn unlocated(item: T) -> (spanned: Spanning<T>)
        ensures
            spanned.item == item,
            spanned.start == (SourcePosition { index: 0, line: 0, col: 0 }),
            spanned.end == (SourcePosition { index: 0, line: 0, col: 0 }),
    {
        Spanning { item, start: SourcePosition::new_origin(), end: SourcePosition::new_origin() }
    }
}

} // verus!
