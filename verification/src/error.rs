use vstd::prelude::*;

verus! {

/// The ways in which a layout operation can be refused.
#[derive(Clone, Copy, Debug, PartialEq, Eq, Structural)]
pub enum LayoutError {
    /// A column, row or child that the operation names does not exist,
    /// or a position does not fit the coordinate range.
    OutOfRange,
    /// No assignment of sizes within the items' bounds adds up to the
    /// requested size.
    InvalidConstraints,
    /// The cell is already occupied, or the child is already recorded.
    DuplicateAssignment,
}

} // verus!
