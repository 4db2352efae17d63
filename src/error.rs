use vstd::prelude::*;

verus! {

/// The failures that the check-in core reports.
#[derive(Clone, Copy, Debug, PartialEq, Eq, Structural)]
pub enum CheckinError {
    /// No snapshot has been stored yet.
    NotFound,
    /// A stored snapshot does not describe a valid ledger.
    MalformedSnapshot,
    /// A session marker is not an RFC 3339 timestamp.
    MalformedMarker,
    /// Reading or writing the snapshot failed.
    IoError,
    /// The ledger holds no entry yet.
    EmptyLedger,
    /// Today's counter has reached the largest value it can hold.
    CounterFull,
}

} // verus!
