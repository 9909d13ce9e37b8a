use vstd::prelude::*;

verus! {

/// Why a call was refused.
#[derive(Clone, Copy, Debug, PartialEq, Eq, Structural)]
pub enum KnnError {
    /// Two lengths that must agree do not: two vectors that are measured
    /// against each other, a per-column vector and the column count of a
    /// table, the labels and the rows of a table, or the rows of a table
    /// among themselves.
    DimensionMismatch,
    /// A table without rows was handed to an operation that needs one.
    EmptyDataset,
    /// A column whose spread is zero cannot be rescaled.
    ZeroVariance,
}

} // verus!
