//! The persistence primitive of an append-only, log-structured key/value
//! store: how records are encoded to bytes, how they are verified on
//! read, and how one appending writer and random-offset readers share a
//! file through independent cursors.
//!
//! - [`crc32`]: the 32-bit checksum, its incremental extension and its
//!   reversible masking transform.
//! - [`bytes`]: big-endian encoding of the fixed-width header fields.
//! - [`datafile`]: the record codec ([`datafile::Entry`]) and the
//!   append-only record store ([`datafile::DataFile`]).
//! - [`filehandle`]: the dual-cursor positioned handle under the store.
//! - [`utils`]: clock access and segment-file naming.
//! - [`error`]: the structured errors every failure is reported as.
pub mod bytes;
pub mod crc32;
pub mod datafile;
pub mod error;
pub mod filehandle;
pub mod utils;
