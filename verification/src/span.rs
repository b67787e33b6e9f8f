//! Source positions. `line` and `col` are 1-based and `col` counts Unicode
//! scalar values. A span covers `start` inclusively and `end` exclusively.
use vstd::prelude::*;

verus! {

/// A position in a single source text.
#[derive(Debug, Clone, Copy, PartialEq, Eq, Structural)]
pub struct Position {
    pub line: u32,
    pub col: u32,
}

impl Position {
    pub fn new(line: u32, col: u32) -> (p: Self)
        ensures
            p.line == line,
            p.col == col,
    {
        Position { line, col }
    }
}

/// A range in a single source text: `start` included, `end` excluded.
#[derive(Debug, Clone, Copy, PartialEq, Eq, Structural)]
pub struct Span {
    pub start: Position,
    pub end: Position,
}

impl Span {
    pub fn new(start: Position, end: Position) -> (s: Self)
        ensures
            s.start == start,
            s.end == end,
    {
        Span { start, end }
    }

    /// A zero-width span, used to express an insertion point.
    pub fn point(pos: Position) -> (s: Self)
        ensures
            s.start == pos,
            s.end == pos,
    {
        Span { start: pos, end: pos }
    }

    /// The span from the start of `self` to the end of `other`.
    pub fn to(self, other: Span) -> (s: Span)
        ensures
            s.start == self.start,
            s.end == other.end,
    {
        Span { start: self.start, end: other.end }
    }
}

} // verus!
