//! The errors the reader core reports.

use vstd::prelude::*;

verus! {

/// Everything that can go wrong while reading one entry's payload.
#[derive(Clone, Copy, PartialEq, Eq, Structural, Debug)]
pub enum ZipError {
    /// The computed CRC-32 of the produced bytes differs from the expected
    /// checksum. A data-integrity error, never an I/O error.
    CRC32CheckError,
    /// The stored (uncompressed) method is not self-terminating, so a
    /// declared compressed size is mandatory and none was supplied.
    MissingCompressedSize,
    /// The declared method needs one of the self-terminating decoders, which
    /// the asynchronous layer around this library drives; the verified core
    /// decodes only the stored method.
    UnsupportedCompression,
    /// The underlying byte source failed; propagated verbatim, never retried.
    UpstreamReadError,
    /// The produced bytes are not valid UTF-8; reported before the checksum
    /// is even considered.
    StringNotUtf8,
}

} // verus!
