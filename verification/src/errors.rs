//! The closed error enumerations, one per constructor family, so that a
//! caller of each family can match exhaustively on exactly the failures that
//! family can produce.

use vstd::prelude::*;

verus! {

/// Failure of the until-null constructors, which truncate at the first null.
#[derive(Clone, Copy, Debug, PartialEq, Eq, Structural)]
pub enum FromSliceUntilNulError {
    /// An invalid unit stands at this index, before any null.
    InvalidChar(usize),
    /// The input holds no null unit at all.
    NoNul,
}

/// Failure of the with-null constructors, which demand exactly one trailing
/// null.
#[derive(Clone, Copy, Debug, PartialEq, Eq, Structural)]
pub enum FromSliceWithNulError {
    /// An invalid unit stands at this index, before any null.
    InvalidChar(usize),
    /// A null unit stands at this index, before the last position.
    InteriorNul(usize),
    /// The input is empty or its last unit is not null.
    NotNulTerminated,
}

/// Failure of ingestion from an unaligned source.
#[derive(Clone, Copy, Debug, PartialEq, Eq, Structural)]
pub enum UnalignedCStr16Error {
    /// An invalid unit stands at this index, before any null.
    InvalidChar(usize),
    /// A null unit stands at this index, before the last position.
    InteriorNul(usize),
    /// The source is empty or its last unit is not null.
    NotNulTerminated,
    /// The destination cannot hold the whole source.
    BufferTooSmall,
}

/// Failure of encoding a native string into caller-supplied storage.
#[derive(Clone, Copy, Debug, PartialEq, Eq, Structural)]
pub enum FromStrWithBufError {
    /// The unit emitted for this index of the encoding is not valid UCS-2.
    InvalidChar(usize),
    /// The native string itself holds a null character, emitted at this
    /// index of the encoding.
    InteriorNul(usize),
    /// The storage cannot hold the encoded units and the trailing null.
    BufferTooSmall,
}

} // verus!
