//! The ways in which a merge run ends early.

use vstd::prelude::*;

verus! {

/// Why a merge run stopped before the sources were exhausted together.
#[derive(Clone, Debug, PartialEq, Eq)]
pub enum MergeError {
    /// Some sources produced a record for `row` and others had none left:
    /// `read` of `expected` sources advanced.
    PartialExhaustion { row: usize, read: usize, expected: usize },
    /// The records of `row` do not all describe the same variant.
    ConsistencyMismatch { row: usize },
    /// Reading from the source with this identifier failed.
    ReadFailure { source: String },
}

/// The mathematical value of a [`MergeError`].
pub enum MergeErrorView {
    PartialExhaustion { row: usize, read: usize, expected: usize },
    ConsistencyMismatch { row: usize },
    ReadFailure { source: Seq<char> },
}

impl View for MergeError {
    type V = MergeErrorView;

    open spec fn view(&self) -> MergeErrorView {
        match self {
            MergeError::PartialExhaustion { row, read, expected } => {
                MergeErrorView::PartialExhaustion { row: *row, read: *read, expected: *expected }
            },
            MergeError::ConsistencyMismatch { row } => MergeErrorView::ConsistencyMismatch {
                row: *row,
            },
            MergeError::ReadFailure { source } => MergeErrorView::ReadFailure { source: source@ },
        }
    }
}

} // verus!
