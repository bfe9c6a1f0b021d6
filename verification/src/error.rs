//! Failure kinds shared by the whole crate.

use vstd::prelude::*;

verus! {

/// Everything that can go wrong while handling Crash Log data.
#[derive(Debug)]
pub enum Error {
    /// No source yielded any record.
    NoCrashLogFound,
    /// Buffer too short or structurally impossible header.
    InvalidHeader,
    /// Header type outside the known range.
    InvalidHeaderType(u16),
    /// Record type not in the known table.
    InvalidRecordType(u8),
    /// The collateral manager has no entry for this product.
    InvalidProductID(u32),
    /// No decode definition matched this record version.
    MissingDecodeDefinitions(crate::header::Version),
    /// Malformed integer in a CSV cell; holds the offending text.
    ParseIntError(String),
    /// Non-UTF-8 decode definition.
    Utf8Error,
    /// Collateral tree access failure.
    Io,
}

} // verus!
