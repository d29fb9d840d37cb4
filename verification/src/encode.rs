//! Data-URL assembly: `data:<mime>;base64,<payload>` strings for thumbnails
//! and full-resolution images.

use vstd::prelude::*;
use vstd::string::StringExecFns;

use crate::classify::{mime_type_for_path, spec_mime_for};
use crate::errors::GalleryError;

verus! {

/// The standard base64 encoding of a byte sequence; a pure function of its
/// input.
pub uninterp spec fn base64_of(bytes: Seq<u8>) -> Seq<char>;

/// Relies on base64's `STANDARD` engine: the encoding depends on the input
/// bytes alone, and the padded output holds four characters for every three
/// input bytes, rounded up.
#[verifier::external_body]
fn base64_encode(bytes: &[u8]) -> (r: String)
    ensures
        r@ == base64_of(bytes@),
        r@.len() == 4 * ((bytes@.len() + 2) / 3),
{
    base64::Engine::encode(&base64::engine::general_purpose::STANDARD, bytes)
}

/// A `data:` URL carrying `blob` base64-encoded under content type `mime`.
pub open spec fn spec_data_url(mime: Seq<char>, blob: Seq<u8>) -> Seq<char> {
    "data:"@ + mime + ";base64,"@ + base64_of(blob)
}

/// Assembles the data URL for an encoded image.
pub fn data_url(mime: &str, blob: &Vec<u8>) -> (r: String)
    ensures
        r@ == spec_data_url(mime@, blob@),
{
    let mut out = String::from_str("data:");
    out.append(mime);
    out.append(";base64,");
    let payload = base64_encode(blob.as_slice());
    out.append(payload.as_str());
    proof {
        assert(out@ =~= spec_data_url(mime@, blob@));
    }
    out
}

/// Turns the raw bytes of a full-resolution image file into a data URL with
/// the MIME type derived from the path's extension; rejects paths outside
/// the allow-list.
pub fn full_image_data_url(path: &str, bytes: &Vec<u8>) -> (r: Result<String, GalleryError>)
    ensures
        r is Ok <==> spec_mime_for(path@) is Some,
        r is Ok ==> r->Ok_0@ == spec_data_url(spec_mime_for(path@)->Some_0, bytes@),
        r is Err ==> r->Err_0 == GalleryError::UnsupportedFormat,
{
    match mime_type_for_path(path) {
        Some(mime) => Ok(data_url(mime, bytes)),
        None => Err(GalleryError::UnsupportedFormat),
    }
}

} // verus!
