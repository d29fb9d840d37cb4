use base64::Engine;
use std::io::Write;
use thumbcache::{
    classify_pass, load_thumbnail_core, scan_folder_core, CacheStore, CancelToken, DirEntry,
    EntryKind, GalleryError, SourceImage, WalkState,
};

fn png_file(dir: &std::path::Path, width: u32, height: u32) -> tempfile::NamedTempFile {
    let f = tempfile::Builder::new().suffix(".png").tempfile_in(dir).unwrap();
    let img = image::RgbImage::new(width, height);
    img.save(f.path()).unwrap();
    f
}

fn jpg_file(dir: &std::path::Path, width: u32, height: u32) -> tempfile::NamedTempFile {
    let f = tempfile::Builder::new().suffix(".jpg").tempfile_in(dir).unwrap();
    let img = image::RgbImage::new(width, height);
    img.save(f.path()).unwrap();
    f
}

fn path_str(f: &tempfile::NamedTempFile) -> String {
    f.path().to_str().unwrap().to_string()
}

fn name_of(path: &str) -> &str {
    path.rsplit('/').next().unwrap()
}

/// Walks a simulated listing of the photo folder and returns the sorted
/// image paths, as the traversal driver would.
fn walk_photo_folder(root: &str, listing: Vec<DirEntry>) -> Vec<String> {
    let mut walk = WalkState::new(root.to_string(), true).unwrap();
    walk.pop_directory().unwrap();
    walk.absorb_entries(listing);
    while walk.pop_directory().is_some() {}
    walk.into_sorted_images()
}

#[test]
fn scan_caches_all_supported_images_and_is_idempotent() {
    let root = tempfile::tempdir().unwrap();
    let sub = tempfile::Builder::new().prefix("sub").tempdir_in(root.path()).unwrap();
    let a = png_file(root.path(), 40, 30);
    let b = jpg_file(root.path(), 20, 50);
    let c = png_file(sub.path(), 10, 10);
    let mut notes = tempfile::Builder::new().suffix(".txt").tempfile_in(root.path()).unwrap();
    notes.write_all(b"not an image").unwrap();

    let listing = vec![
        DirEntry { path: path_str(&a), kind: EntryKind::RegularFile },
        DirEntry { path: path_str(&b), kind: EntryKind::RegularFile },
        DirEntry { path: notes.path().to_str().unwrap().to_string(), kind: EntryKind::RegularFile },
        DirEntry { path: path_str(&c), kind: EntryKind::RegularFile },
    ];
    let images = walk_photo_folder(root.path().to_str().unwrap(), listing);
    assert_eq!(images.len(), 3);
    let mut expected = vec![path_str(&a), path_str(&b), path_str(&c)];
    expected.sort();
    assert_eq!(images, expected);

    let entries: Vec<SourceImage> = images
        .iter()
        .map(|p| SourceImage { path: p.clone(), modified_unix: Some(100) })
        .collect();

    let mut store = CacheStore::open(":memory:").unwrap();
    let cancel = CancelToken::new();
    let report = scan_folder_core(&mut store, &entries, 64, &cancel).unwrap();
    assert!(!report.cancelled);
    assert_eq!(report.skipped, 0);
    assert_eq!(report.items.len(), 3);
    for (item, path) in report.items.iter().zip(images.iter()) {
        assert_eq!(&item.path, path);
        assert_eq!(item.name, name_of(path));
    }
    assert_eq!(report.progress.len(), 3);
    for (i, ev) in report.progress.iter().enumerate() {
        assert_eq!(ev.current, i + 1);
        assert_eq!(ev.total, 3);
        assert_eq!(ev.name, name_of(&images[i]));
    }
    assert_eq!(store.row_count().unwrap(), 3);

    // Second scan of the unchanged folder: same items, and the classify
    // pass finds everything fresh, so the generator would run zero times.
    let classified = classify_pass(&store, &entries, &cancel);
    assert_eq!(classified.pending.len(), 0);
    assert_eq!(classified.items.len(), 3);
    let report2 = scan_folder_core(&mut store, &entries, 64, &cancel).unwrap();
    assert!(!report2.cancelled);
    assert_eq!(report2.items.len(), 3);
    for (i1, i2) in report.items.iter().zip(report2.items.iter()) {
        assert_eq!(i1.name, i2.name);
        assert_eq!(i1.path, i2.path);
    }
    assert_eq!(store.row_count().unwrap(), 3);
}

#[test]
fn modified_file_is_regenerated_under_same_key() {
    let root = tempfile::tempdir().unwrap();
    let a = png_file(root.path(), 16, 16);
    let entries = vec![SourceImage { path: path_str(&a), modified_unix: Some(100) }];
    let mut store = CacheStore::open(":memory:").unwrap();
    let cancel = CancelToken::new();
    scan_folder_core(&mut store, &entries, 32, &cancel).unwrap();
    assert_eq!(store.row_count().unwrap(), 1);

    // Content rewritten and mtime bumped: the next classify treats the
    // entry as a miss and a scan overwrites the same row.
    let img = image::RgbImage::new(24, 24);
    img.save(a.path()).unwrap();
    let bumped = vec![SourceImage { path: path_str(&a), modified_unix: Some(101) }];
    let classified = classify_pass(&store, &bumped, &cancel);
    assert_eq!(classified.pending.len(), 1);
    scan_folder_core(&mut store, &bumped, 32, &cancel).unwrap();
    assert_eq!(store.row_count().unwrap(), 1);
    let key = thumbcache::cache_key_for_path(&path_str(&a));
    assert!(store.lookup_fresh(&key, 101).unwrap().is_some());
    assert!(store.lookup_fresh(&key, 100).unwrap().is_none());
}

#[test]
fn cancelled_scan_persists_nothing() {
    let root = tempfile::tempdir().unwrap();
    let a = png_file(root.path(), 16, 16);
    let b = png_file(root.path(), 16, 16);
    let entries = vec![
        SourceImage { path: path_str(&a), modified_unix: Some(1) },
        SourceImage { path: path_str(&b), modified_unix: Some(1) },
    ];
    let mut store = CacheStore::open(":memory:").unwrap();
    let cancel = CancelToken::new();
    cancel.request();
    let report = scan_folder_core(&mut store, &entries, 32, &cancel).unwrap();
    assert!(report.cancelled);
    assert!(report.items.len() <= entries.len());
    assert_eq!(store.row_count().unwrap(), 0);

    // Re-armed token: the same scan then completes.
    cancel.reset();
    let report = scan_folder_core(&mut store, &entries, 32, &cancel).unwrap();
    assert!(!report.cancelled);
    assert_eq!(store.row_count().unwrap(), 2);
}

#[test]
fn unreadable_metadata_skips_item_not_scan() {
    let root = tempfile::tempdir().unwrap();
    let a = png_file(root.path(), 16, 16);
    let entries = vec![
        SourceImage { path: "/nowhere/ghost.png".to_string(), modified_unix: None },
        SourceImage { path: path_str(&a), modified_unix: Some(7) },
    ];
    let mut store = CacheStore::open(":memory:").unwrap();
    let cancel = CancelToken::new();
    let report = scan_folder_core(&mut store, &entries, 32, &cancel).unwrap();
    assert!(!report.cancelled);
    assert_eq!(report.skipped, 1);
    assert_eq!(report.items.len(), 1);
    // The surviving item is the readable image, under its own name.
    assert_eq!(report.items[0].path, path_str(&a));
    assert_eq!(report.items[0].name, name_of(&path_str(&a)));
    assert_eq!(report.progress.len(), 2);
    assert_eq!(store.row_count().unwrap(), 1);
}

#[test]
fn undecodable_image_is_dropped_from_results() {
    let root = tempfile::tempdir().unwrap();
    let mut fake = tempfile::Builder::new().suffix(".png").tempfile_in(root.path()).unwrap();
    fake.write_all(b"this is not a png").unwrap();
    let a = png_file(root.path(), 16, 16);
    let entries = vec![
        SourceImage { path: fake.path().to_str().unwrap().to_string(), modified_unix: Some(1) },
        SourceImage { path: path_str(&a), modified_unix: Some(1) },
    ];
    let mut store = CacheStore::open(":memory:").unwrap();
    let cancel = CancelToken::new();
    let report = scan_folder_core(&mut store, &entries, 32, &cancel).unwrap();
    assert!(!report.cancelled);
    // Both items are reported; only the decodable one is cached.
    assert_eq!(report.items.len(), 2);
    assert_eq!(store.row_count().unwrap(), 1);
}

#[test]
fn get_thumbnail_returns_bounded_png_data_url() {
    let root = tempfile::tempdir().unwrap();
    let a = png_file(root.path(), 300, 200);
    let path = path_str(&a);
    let mut store = CacheStore::open(":memory:").unwrap();
    let url = load_thumbnail_core(&mut store, &path, 4242, 128).unwrap();
    assert!(url.starts_with("data:image/png;base64,"));
    let payload = &url["data:image/png;base64,".len()..];
    let bytes = base64::engine::general_purpose::STANDARD.decode(payload).unwrap();
    let thumb = image::load_from_memory(&bytes).unwrap();
    let (w, h) = (image::GenericImageView::dimensions(&thumb).0,
                  image::GenericImageView::dimensions(&thumb).1);
    assert!(w <= 128 && h <= 128);
    assert_eq!(w, 128);
    assert_eq!(store.row_count().unwrap(), 1);

    // Same path and timestamp again: served from the cache, same URL.
    let url2 = load_thumbnail_core(&mut store, &path, 4242, 128).unwrap();
    assert_eq!(url, url2);
    assert_eq!(store.row_count().unwrap(), 1);

    // Bumped timestamp: regenerated in place, still one row.
    let url3 = load_thumbnail_core(&mut store, &path, 4243, 128).unwrap();
    assert!(url3.starts_with("data:image/png;base64,"));
    assert_eq!(store.row_count().unwrap(), 1);
}

#[test]
fn get_thumbnail_rejects_unsupported_format() {
    let mut store = CacheStore::open(":memory:").unwrap();
    let err = load_thumbnail_core(&mut store, "/photos/notes.txt", 1, 128).unwrap_err();
    assert_eq!(err, GalleryError::UnsupportedFormat);
    assert_eq!(store.row_count().unwrap(), 0);
}

#[test]
fn get_thumbnail_reports_decode_failure() {
    let root = tempfile::tempdir().unwrap();
    let mut fake = tempfile::Builder::new().suffix(".png").tempfile_in(root.path()).unwrap();
    fake.write_all(b"garbage bytes").unwrap();
    let mut store = CacheStore::open(":memory:").unwrap();
    let err =
        load_thumbnail_core(&mut store, fake.path().to_str().unwrap(), 1, 128).unwrap_err();
    assert_eq!(err, GalleryError::DecodeFailed);
    assert_eq!(store.row_count().unwrap(), 0);
}

#[test]
fn generate_pending_thumbnail_keeps_work_item_fields() {
    let root = tempfile::tempdir().unwrap();
    let a = png_file(root.path(), 48, 24);
    let pending = thumbcache::PendingThumbnail {
        image_path: path_str(&a),
        cache_key: "k-test".to_string(),
        modified_unix: 77,
    };
    let generated = thumbcache::generate_pending_thumbnail(&pending, 12).unwrap();
    assert_eq!(generated.cache_key, "k-test");
    assert_eq!(generated.source_path, path_str(&a));
    assert_eq!(generated.modified_unix, 77);
    assert_eq!(generated.mime, "image/png");
    assert!(!generated.blob.is_empty());
}

#[test]
fn generate_thumbnail_blob_reports_png() {
    let root = tempfile::tempdir().unwrap();
    let a = png_file(root.path(), 64, 32);
    let (blob, mime) = thumbcache::generate_thumbnail_blob(&path_str(&a), 16).unwrap();
    assert_eq!(mime, "image/png");
    let thumb = image::load_from_memory(&blob).unwrap();
    let (w, h) = image::GenericImageView::dimensions(&thumb);
    assert!(w <= 16 && h <= 16);
}
