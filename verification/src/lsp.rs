use vstd::prelude::*;

verus! {

/// A zero-based line and character offset in a text document.
#[derive(Debug, Copy, Clone, PartialEq, Eq, Structural)]
pub struct Position {
    pub line: u32,
    pub character: u32,
}

/// A range in a text document, from `start` to the exclusive `end`.
#[derive(Debug, Copy, Clone, PartialEq, Eq, Structural)]
pub struct Range {
    pub start: Position,
    pub end: Position,
}

impl Range {
    /// The range between two zero-based (line, character) positions given as
    /// `usize`, each narrowed to `u32` as an `as` cast narrows it (keeping the
    /// low 32 bits).
    pub fn from_usize(start_line: usize, start_character: usize, end_line: usize, end_character: usize) -> (r: Range)
        ensures
            r == (Range {
                start: Position { line: start_line as u32, character: start_character as u32 },
                end: Position { line: end_line as u32, character: end_character as u32 },
            }),
    {
        Range {
            start: Position {
                line: #[verifier::truncate] (start_line as u32),
                character: #[verifier::truncate] (start_character as u32),
            },
            end: Position {
                line: #[verifier::truncate] (end_line as u32),
                character: #[verifier::truncate] (end_character as u32),
            },
        }
    }
}

} // verus!
