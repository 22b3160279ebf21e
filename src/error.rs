//! The errors of the timeline core.

use vstd::prelude::*;

verus! {

/// Why an operation of the timeline core failed.
#[derive(Clone, Copy, Debug, PartialEq, Eq, Structural)]
pub enum TimelineError {
    /// An insertion names a parent category that the category index does not hold.
    UnknownCategory,
    /// An identifier is already taken by another record.
    DuplicateIdentifier,
    /// A point in time of a kind that cannot be resolved to a calendar date.
    UnresolvedTime,
    /// A point in time that names a day that does not exist in the calendar.
    InvalidDate,
    /// An aggregate over the points of interest of an empty repository.
    EmptyRepository,
}

} // verus!
