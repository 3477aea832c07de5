//! Structured errors for the record store.
//!
//! Every failure is returned to the caller as an inspectable value with
//! enough context (expected vs. found checksum, requested vs. available
//! length) to log or make a recovery decision.
use vstd::prelude::*;

verus! {

/// An error produced by the record store.
#[derive(Debug, Clone, Copy, PartialEq, Eq, Structural)]
pub enum Error {
    /// A write was attempted on a read-only data file; no bytes were touched.
    ReadOnly,
    /// Decoded bytes failed integrity validation: the stored checksum does
    /// not equal the checksum recomputed over the rest of the record.
    ChecksumMismatch { expected: u32, found: u32 },
    /// Fewer bytes were available than a record declared it needs.
    Truncated { needed: u128, available: u64 },
    /// A read returned fewer bytes than the caller requested.
    LengthMismatch { requested: u64, available: u64 },
    /// A data-file name has no extension to carry its numeric identifier.
    MissingExtension,
    /// A data-file name's extension is not a valid numeric identifier.
    InvalidId,
}

} // verus!
