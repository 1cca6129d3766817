use vstd::prelude::*;

verus! {

/// Every way a computation of this library can fail. None is retried
/// internally; a failed call leaves the state it was given unchanged.
#[derive(Clone, Copy, Debug, PartialEq, Eq, Structural)]
pub enum MyError {
    /// Policy parameters are unusable (a period that is not positive).
    InvalidConfig,
    /// A policy discriminant outside the known set.
    UnknownPolicy,
    /// The query time lies before the start of the stake.
    InvalidInterval,
    /// An intermediate or final amount does not fit in 64 unsigned bits.
    ArithmeticOverflow,
    /// The pool-share policy met a boundary at which nothing was staked.
    DivisionByZero,
    /// A snapshot older than the latest one was offered.
    NonMonotonicTimestamp,
    /// A snapshot at the latest timestamp was offered with another total.
    ConflictingSnapshot,
    /// The query time precedes the earliest snapshot.
    NoHistory,
}

} // verus!
