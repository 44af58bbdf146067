//! Positions in a source text, for error reporting.

use vstd::prelude::*;

verus! {

/// A half-open range `[start, end)` of character offsets into the input of one lexer.
///
/// `lexer` identifies the lexer that holds the input; two locations belong
/// together only if they name the same lexer.
#[derive(Clone, Copy, Debug, PartialEq, Eq, Structural)]
pub struct SourceLocation {
    /// Identity of the lexer holding the input.
    pub lexer: usize,
    /// Start offset, zero-based inclusive.
    pub start: usize,
    /// End offset, zero-based exclusive.
    pub end: usize,
}

impl SourceLocation {
    pub fn new(lexer: usize, start: usize, end: usize) -> (loc: Self)
        ensures
            loc == (SourceLocation { lexer, start, end }),
    {
        SourceLocation { lexer, start, end }
    }

    /// The location that spans from `first` to `second`, given in order of
    /// appearance: `first` alone if there is no `second`, the merged range if
    /// both come from the same lexer, and nothing otherwise.
    pub open spec fn spec_range(
        first: Option<SourceLocation>,
        second: Option<SourceLocation>,
    ) -> Option<SourceLocation> {
        match (first, second) {
            (Some(a), None) => Some(a),
            (Some(a), Some(b)) => if a.lexer == b.lexer {
                Some(SourceLocation { lexer: a.lexer, start: a.start, end: b.end })
            } else {
                None
            },
            _ => None,
        }
    }

    /// Merges two locations, given in order of appearance.
    pub fn range(first: Option<&SourceLocation>, second: Option<&SourceLocation>) -> (merged:
        Option<SourceLocation>)
        ensures
            merged == Self::spec_range(
                match first {
                    Some(a) => Some(*a),
                    None => None,
                },
                match second {
                    Some(b) => Some(*b),
                    None => None,
                },
            ),
    {
        match (first, second) {
            (Some(first_loc), None) => Some(*first_loc),
            (Some(first_loc), Some(second_loc)) => {
                if first_loc.lexer == second_loc.lexer {
                    Some(SourceLocation::new(first_loc.lexer, first_loc.start, second_loc.end))
                } else {
                    None
                }
            },
            _ => None,
        }
    }
}

} // verus!
