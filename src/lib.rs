//! Reader for files in NASA's Common Data Format (CDF).
//!
//! The whole file is handed over as bytes; the reader walks the record graph
//! and returns an owning tree of the records it found, or a typed error.

/// Integers laid out as bytes, most or least significant first.
pub mod bytes;

/// Errors raised while decoding.
pub mod error;

/// The decoder: the bytes, a cursor into them and the state gathered on the way.
pub mod decode;

/// Encodings, byte orders and versions.
pub mod repr;

/// The primitive value types and their decoders.
pub mod types;

/// The records of a CDF file.
pub mod record;

/// The decoded file as a whole.
pub mod cdf;

/// Decoding of fixed-width integers from bytes.
pub mod traits;
