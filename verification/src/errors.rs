//! Closed error taxonomy for the pipeline.
//!
//! Structural failures (bad root, store unavailable) abort an operation.
//! During a scan, per-item failures (one unreadable or undecodable image)
//! are caught, counted and skipped, never escalated. Rendering to
//! human-readable text happens only at the outermost (unverified) boundary.

use vstd::prelude::*;

verus! {

/// What went wrong with an operation as a whole.
#[derive(Clone, Copy, Debug, PartialEq, Eq, Structural)]
pub enum GalleryError {
    /// The requested scan root is not a directory.
    InvalidRoot,
    /// The cache store could not be opened, prepared, or written.
    StoreUnavailable,
    /// An image could not be decoded.
    DecodeFailed,
    /// A decoded image could not be re-encoded.
    EncodeFailed,
    /// A filesystem read failed.
    IoFailure,
    /// The requested file does not exist.
    NotFound,
    /// The requested file's extension is outside the allow-list.
    UnsupportedFormat,
}

} // verus!
