//! Errors that abort the encoding of one column.

use vstd::prelude::*;

verus! {

/// An error raised while encoding a symbol column.  Any error aborts the
/// current column's encoding entirely: no partial page is ever emitted.
#[derive(Debug)]
pub enum ParquetError {
    /// The global table's `offsets` array lacks an entry for a referenced
    /// key, or a record's declared code-unit count would read past the end
    /// of the `chars` buffer.  Indicates corrupt or mismatched input data.
    Layout { msg: String },
    /// A record's code-unit sequence is not valid UTF-16 (for example an
    /// unpaired surrogate).
    Utf16Decode,
}

/// The kind of a `ParquetError`, for use in specifications.
pub enum ErrKind {
    Layout,
    Utf16,
}

/// The kind of an error value.
pub open spec fn kind_of(e: ParquetError) -> ErrKind {
    match e {
        ParquetError::Layout { .. } => ErrKind::Layout,
        ParquetError::Utf16Decode => ErrKind::Utf16,
    }
}

/// Relies on std's string formatting to describe a key missing from the
/// offsets array.  The description is for humans; nothing is proved of it.
#[verifier::external_body]
pub(crate) fn fmt_missing_key(key: u32) -> String {
    format!("could not find symbol with key {key} in global map")
}

/// Relies on std's string formatting to describe a record read that would
/// pass the end of the character data.
#[verifier::external_body]
pub(crate) fn fmt_out_of_bounds(offset: u64) -> String {
    format!("global symbol map character data too small, offset {offset} out of bounds")
}

/// Relies on std's string formatting to describe definition levels whose
/// encoding outgrows the 4-byte length prefix.
#[verifier::external_body]
pub(crate) fn fmt_levels_overflow(len: usize) -> String {
    format!("definition levels too long, {len} bytes do not fit a 32-bit length")
}

} // verus!
