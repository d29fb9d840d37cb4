//! Thumbnail generation: decode an image, produce a rendition whose longer
//! side is bounded by the requested size (aspect ratio preserved, no
//! upscaling), and re-encode it as PNG regardless of the source format.
//! Pure per item and therefore the unit of parallel work.

use rayon::iter::{IntoParallelIterator, ParallelIterator};
use vstd::prelude::*;
use vstd::string::StringExecFns;

use crate::cancel::CancelToken;
use crate::errors::GalleryError;
use crate::types::{GeneratedThumbnail, PendingThumbnail};

verus! {

/// Relies on the image crate: `open` decodes the file at `path` (format
/// inferred from content/extension), `thumbnail` produces a rendition
/// bounded by `max_dim` on both axes preserving aspect ratio, and
/// `PngEncoder` re-encodes the pixels as PNG.
#[verifier::external_body]
fn render_png_thumbnail(path: &str, max_dim: u32) -> (r: Result<Vec<u8>, GalleryError>)
    ensures
        r is Err ==> r->Err_0 == GalleryError::DecodeFailed || r->Err_0
            == GalleryError::EncodeFailed,
{
    let img = image::open(path).map_err(|_| GalleryError::DecodeFailed)?;
    let thumb = img.thumbnail(max_dim, max_dim);
    let rgba = thumb.to_rgba8();
    let (width, height) = image::GenericImageView::dimensions(&thumb);
    let mut out: Vec<u8> = Vec::new();
    image::ImageEncoder::write_image(
        image::codecs::png::PngEncoder::new(&mut out),
        &rgba,
        width,
        height,
        image::ExtendedColorType::Rgba8,
    ).map_err(|_| GalleryError::EncodeFailed)?;
    Ok(out)
}

/// Decodes the image at `path` and returns the bounded PNG rendition with
/// its fixed content type.
pub fn generate_thumbnail_blob(path: &str, thumbnail_size: u32) -> (r: Result<
    (Vec<u8>, String),
    GalleryError,
>)
    ensures
        r is Ok ==> r->Ok_0.1@ == "image/png"@,
        r is Err ==> r->Err_0 == GalleryError::DecodeFailed || r->Err_0
            == GalleryError::EncodeFailed,
{
    match render_png_thumbnail(path, thumbnail_size) {
        Ok(blob) => Ok((blob, String::from_str("image/png"))),
        Err(e) => Err(e),
    }
}

/// Whether a generated thumbnail is the outcome of exactly this work item.
pub open spec fn matches_pending(g: GeneratedThumbnail, p: PendingThumbnail) -> bool {
    &&& g.cache_key@ == p.cache_key@
    &&& g.source_path@ == p.image_path@
    &&& g.modified_unix == p.modified_unix
    &&& g.mime@ == "image/png"@
}

/// Generates the thumbnail for one work item, keeping the item's key, path
/// and timestamp on the result.
pub fn generate_pending_thumbnail(pending: &PendingThumbnail, thumbnail_size: u32) -> (r: Result<
    GeneratedThumbnail,
    GalleryError,
>)
    ensures
        r is Ok ==> matches_pending(r->Ok_0, *pending),
        r is Err ==> r->Err_0 == GalleryError::DecodeFailed || r->Err_0
            == GalleryError::EncodeFailed,
{
    match generate_thumbnail_blob(pending.image_path.as_str(), thumbnail_size) {
        Ok((blob, mime)) => Ok(
            GeneratedThumbnail {
                cache_key: pending.cache_key.clone(),
                source_path: pending.image_path.clone(),
                modified_unix: pending.modified_unix,
                blob,
                mime,
            },
        ),
        Err(e) => Err(e),
    }
}

/// Runs one unit of generation work. A worker that observes a cancel
/// request, or whose generation fails, simply omits its output.
pub fn generate_one_if_active(
    pending: &PendingThumbnail,
    thumbnail_size: u32,
    cancel: &CancelToken,
) -> (r: Option<GeneratedThumbnail>)
    ensures
        r is Some ==> matches_pending(r->0, *pending),
{
    if cancel.is_cancelled() {
        return None;
    }
    match generate_pending_thumbnail(pending, thumbnail_size) {
        Ok(generated) => Some(generated),
        Err(_) => None,
    }
}

/// Whether a generated thumbnail is the outcome of one of the given work
/// items.
pub open spec fn from_some_pending(g: GeneratedThumbnail, pending: Seq<PendingThumbnail>) -> bool {
    exists|j: int| 0 <= j < pending.len() && matches_pending(g, #[trigger] pending[j])
}

/// Relies on rayon's parallel iterator: maps every work item through
/// `generate_one_if_active` on a bounded worker pool and collects, in
/// unspecified order, those that produced output.
#[verifier::external_body]
pub(crate) fn par_generate(
    pending: Vec<PendingThumbnail>,
    thumbnail_size: u32,
    cancel: &CancelToken,
) -> (r: Vec<GeneratedThumbnail>)
    ensures
        forall|k: int| 0 <= k < r@.len() ==> from_some_pending(#[trigger] r@[k], pending@),
{
    pending
        .into_par_iter()
        .filter_map(|p| generate_one_if_active(&p, thumbnail_size, cancel))
        .collect()
}

} // verus!
