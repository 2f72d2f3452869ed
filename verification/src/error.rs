//! The ways in which a schedule's notation can be refused.

use vstd::prelude::*;

verus! {

/// Why a text was refused.
#[derive(Copy, Clone, Debug, PartialEq, Eq, Structural, Hash)]
pub enum ParseError {
    /// A range is not of the form `HH:MM-HH:MM`, or names an hour or a minute
    /// that no clock shows.
    MalformedSpan,
    /// The text cannot be taken apart into day-group clauses.
    MalformedSpec,
}

} // verus!
