//! Thumbnail cache-and-generation pipeline for an image gallery viewer.
//!
//! Given a folder, the library discovers supported images, produces bounded
//! preview renditions, and serves them from a durable keyed cache, avoiding
//! redundant decode/resize work across runs.

use vstd::prelude::*;

mod cancel;
mod classify;
mod encode;
mod errors;
mod keys;
mod scan;
mod store;
mod thumb;
mod types;
mod walker;

pub use cancel::CancelToken;
pub use classify::{file_name_of, is_supported_image, mime_type_for_path};
pub use encode::{data_url, full_image_data_url};
pub use errors::GalleryError;
pub use keys::{cache_key_for_path, to_hex};
pub use scan::{classify_pass, load_thumbnail_core, scan_folder_core, ClassifyOutput, ScanReport};
pub use store::CacheStore;
pub use thumb::{generate_one_if_active, generate_pending_thumbnail, generate_thumbnail_blob};
pub use walker::{DirEntry, EntryKind, WalkState};
pub use types::{GalleryItem, GeneratedThumbnail, PendingThumbnail, ProgressEvent, SourceImage};

verus! {

} // verus!
