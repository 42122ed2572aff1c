//! Positions and spans in named source files.
use vstd::prelude::*;

verus! {

/// A position in a named source file.
#[derive(Debug, Clone, Copy, PartialEq, Eq, Hash)]
pub struct SourceLocation {
    /// Line number (1-indexed; 0 for generated code).
    pub line: usize,
    /// Column number (1-indexed; 0 for generated code).
    pub column: usize,
    /// File path.
    pub file: &'static str,
}

impl SourceLocation {
    /// The location at `line` and `column` of `file`.
    pub fn new(line: usize, column: usize, file: &'static str) -> (r: Self)
        ensures
            r.line == line,
            r.column == column,
            r.file == file,
    {
        SourceLocation { line, column, file }
    }

    /// The location given to generated code: line and column 0 of the file
    /// `"generated"`.
    pub fn generated() -> (r: Self)
        ensures
            r.line == 0,
            r.column == 0,
            r.file@ == "generated"@,
    {
        SourceLocation { line: 0, column: 0, file: "generated" }
    }
}

impl Default for SourceLocation {
    fn default() -> (r: Self)
        ensures
            r.line == 0,
            r.column == 0,
            r.file@ == "generated"@,
    {
        SourceLocation::generated()
    }
}

/// A stretch of source text.
#[derive(Debug, Clone, Copy, PartialEq, Eq)]
pub struct SourceSpan {
    /// Where it starts.
    pub start: SourceLocation,
    /// Where it ends.
    pub end: SourceLocation,
}

impl SourceSpan {
    /// The span from `start` to `end`.
    pub fn new(start: SourceLocation, end: SourceLocation) -> (r: Self)
        ensures
            r.start == start,
            r.end == end,
    {
        SourceSpan { start, end }
    }

    /// The span that starts and ends at `location`.
    pub fn point(location: SourceLocation) -> (r: Self)
        ensures
            r.start == location,
            r.end == location,
    {
        SourceSpan { start: location, end: location }
    }
}

} // verus!
