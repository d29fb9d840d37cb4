//! Transient records flowing through a scan.

use vstd::prelude::*;

verus! {

/// One gallery entry reported to the caller: display name and full path.
pub struct GalleryItem {
    pub name: String,
    pub path: String,
}

/// One progress report: 1-based index, total item count, and display name.
pub struct ProgressEvent {
    pub current: usize,
    pub total: usize,
    pub name: String,
}

/// A discovered image handed to the classify pass: its path and its current
/// modification time, or `None` when the metadata could not be read.
pub struct SourceImage {
    pub path: String,
    pub modified_unix: Option<i64>,
}

/// Work item for the generation pass: created on a cache miss, consumed
/// exactly once by the thumbnail generator.
pub struct PendingThumbnail {
    pub image_path: String,
    pub cache_key: String,
    pub modified_unix: i64,
}

/// Result of one successful generation, awaiting batch persistence.
pub struct GeneratedThumbnail {
    pub cache_key: String,
    pub source_path: String,
    pub modified_unix: i64,
    pub blob: Vec<u8>,
    pub mime: String,
}

} // verus!
