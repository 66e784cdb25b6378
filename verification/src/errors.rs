//! Error kinds surfaced by the library.

use vstd::prelude::*;

verus! {

/// Why an operation failed.
///
/// `Network` carries the HTTP status code of the offending response; the
/// response body stays with the caller that made the request.
#[derive(Debug, Clone, Copy, PartialEq, Eq, Structural)]
pub enum ImgError {
    /// Invalid configuration: bad flag combination, unsupported compression
    /// method, or a push without a user name.
    Config,
    /// Underlying file read, write, open or seek failed.
    Io,
    /// The byte source ended before the declared size was consumed.
    ShortRead,
    /// Descriptor bytes rejected: bad version magic, zero chunk size, or a
    /// length mismatch.
    DescriptorParse,
    /// Trailer rejected: the file is too small to hold one.
    TrailerTooSmall,
    /// Trailer rejected: the size field is not an eight-digit decimal.
    TrailerLengthParse,
    /// Trailer rejected: checksum of the payload differs from the stored one.
    TrailerCrcMismatch,
    /// Trailer payload is not the expected JSON document.
    JsonParse,
    /// A request got an unexpected HTTP status code.
    Network(u16),
    /// The server's chunk list does not match the descriptor's chunk count.
    ProtocolMismatch,
    /// Credential check failed.
    Auth,
    /// The server never reported the upload as full within the poll budget.
    ValidationTimeout,
    /// The enclosing operation was cancelled.
    Cancelled,
}

} // verus!
