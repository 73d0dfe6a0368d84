//! Row addressing primitives.

use vstd::prelude::*;

verus! {

/// Index into table/column rows.
pub type RowOffset = usize;

/// Sub-range for slicing views and columns.
#[derive(Clone, Copy, PartialEq, Eq, Structural, Debug)]
pub struct RowRange {
    /// Index of the first row of the range.
    pub offset: usize,
    /// Count of rows in the range.
    pub rows: usize,
}

} // verus!
