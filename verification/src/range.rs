//! Positions and ranges in a file, counted in lines.

use vstd::prelude::*;

verus! {

/// A place in a file: its line, its column and its byte offset.
#[derive(Clone, Copy, Debug, PartialEq, Eq, Structural)]
pub struct Position {
    pub line: usize,
    pub character: usize,
    pub byte_offset: usize,
}

impl Position {
    pub fn new(line: usize, character: usize, byte_offset: usize) -> (res: Self)
        ensures
            res == (Position { line, character, byte_offset }),
    {
        Position { line, character, byte_offset }
    }
}

/// The stretch of a file from one position to another, both included.
#[derive(Clone, Copy, Debug, PartialEq, Eq, Structural)]
pub struct Range {
    pub start_position: Position,
    pub end_position: Position,
}

/// The range that covers the whole lines `start..=end`.
pub open spec fn line_range(start: int, end: int) -> Range {
    Range {
        start_position: Position { line: start as usize, character: 0, byte_offset: 0 },
        end_position: Position { line: end as usize, character: 0, byte_offset: 0 },
    }
}

impl Range {
    pub fn new(start_position: Position, end_position: Position) -> (res: Self)
        ensures
            res == (Range { start_position, end_position }),
    {
        Range { start_position, end_position }
    }

    pub fn start_line(&self) -> (res: usize)
        ensures
            res == self.start_position.line,
    {
        self.start_position.line
    }

    pub fn end_line(&self) -> (res: usize)
        ensures
            res == self.end_position.line,
    {
        self.end_position.line
    }
}

} // verus!
