//! The error taxonomy of the pipeline. Errors are data: they are returned
//! in-band and the consumer decides how to react.

use vstd::prelude::*;

verus! {

/// Everything that can go wrong between a raw frame and an emitted event.
#[derive(Clone, PartialEq, Debug)]
pub enum DataError {
    /// A sequence-number invariant broke: the delta's `update_id` did not
    /// follow the book's last applied revision (or used the reserved
    /// initial value). Recovered by resynchronising from a snapshot.
    InvalidSequence { prev_last_update_id: u64, first_update_id: u64 },
    /// A delta arrived while the updater was still awaiting its initial
    /// snapshot; the delta is dropped.
    SnapshotMissing,
    /// A frame could not be decoded; the frame is dropped and the
    /// connection stays up. The reason holds a short description with any
    /// offending input elided to a bounded prefix.
    DecodeError { reason: String },
    /// A frame referred to a subscription key that the transformer does
    /// not own; the frame is dropped.
    UnknownSubscription,
    /// The transport reported a terminal condition for the connection.
    Transport,
}

impl DataError {
    /// A short label for the error kind, for logging by unverified callers.
    pub fn label(&self) -> (r: &'static str)
        ensures
            r@ == match self {
                DataError::InvalidSequence { .. } => "invalid sequence"@,
                DataError::SnapshotMissing => "snapshot missing"@,
                DataError::DecodeError { .. } => "decode error"@,
                DataError::UnknownSubscription => "unknown subscription"@,
                DataError::Transport => "transport"@,
            },
    {
        match self {
            DataError::InvalidSequence { .. } => "invalid sequence",
            DataError::SnapshotMissing => "snapshot missing",
            DataError::DecodeError { .. } => "decode error",
            DataError::UnknownSubscription => "unknown subscription",
            DataError::Transport => "transport",
        }
    }
}

} // verus!
