use thumbcache::{CacheStore, GalleryError, GeneratedThumbnail};

fn entry(key: &str, path: &str, modified: i64, blob: &[u8], mime: &str) -> GeneratedThumbnail {
    GeneratedThumbnail {
        cache_key: key.to_string(),
        source_path: path.to_string(),
        modified_unix: modified,
        blob: blob.to_vec(),
        mime: mime.to_string(),
    }
}

#[test]
fn open_creates_empty_store() {
    let store = CacheStore::open(":memory:").unwrap();
    assert_eq!(store.row_count().unwrap(), 0);
}

#[test]
fn open_fails_on_unwritable_path() {
    let dir = tempfile::tempdir().unwrap();
    // A directory cannot be opened as a database file.
    match CacheStore::open(dir.path().to_str().unwrap()) {
        Ok(_) => panic!("opening a directory as a database must fail"),
        Err(err) => assert_eq!(err, GalleryError::StoreUnavailable),
    }
}

#[test]
fn lookup_hits_only_on_matching_timestamp() {
    let mut store = CacheStore::open(":memory:").unwrap();
    store.upsert(&entry("k1", "/p/a.png", 100, &[1, 2, 3], "image/png")).unwrap();
    let (blob, mime) = store.lookup_fresh("k1", 100).unwrap().unwrap();
    assert_eq!(blob, vec![1, 2, 3]);
    assert_eq!(mime, "image/png");
    // Stale timestamp: a miss, never a partial or stale return.
    assert!(store.lookup_fresh("k1", 101).unwrap().is_none());
    // Unknown key: a miss.
    assert!(store.lookup_fresh("k2", 100).unwrap().is_none());
}

#[test]
fn upsert_overwrites_same_key_in_place() {
    let mut store = CacheStore::open(":memory:").unwrap();
    store.upsert(&entry("k1", "/p/a.png", 100, &[1], "image/png")).unwrap();
    assert_eq!(store.row_count().unwrap(), 1);
    // Same key, bumped timestamp and new blob: row count stays 1.
    store.upsert(&entry("k1", "/p/a.png", 200, &[9, 9], "image/png")).unwrap();
    assert_eq!(store.row_count().unwrap(), 1);
    assert!(store.lookup_fresh("k1", 100).unwrap().is_none());
    let (blob, _) = store.lookup_fresh("k1", 200).unwrap().unwrap();
    assert_eq!(blob, vec![9, 9]);
}

#[test]
fn batch_upsert_persists_all_entries() {
    let mut store = CacheStore::open(":memory:").unwrap();
    store
        .upsert_batch(&vec![
            entry("k1", "/p/a.png", 1, &[1], "image/png"),
            entry("k2", "/p/b.jpg", 2, &[2], "image/png"),
            entry("k1", "/p/a.png", 3, &[3], "image/png"),
        ])
        .unwrap();
    // Three upserts, two distinct keys; the later write to k1 wins.
    assert_eq!(store.row_count().unwrap(), 2);
    let (blob, _) = store.lookup_fresh("k1", 3).unwrap().unwrap();
    assert_eq!(blob, vec![3]);
    assert!(store.lookup_fresh("k2", 2).unwrap().is_some());
}

#[test]
fn batch_upsert_of_nothing_changes_nothing() {
    let mut store = CacheStore::open(":memory:").unwrap();
    store.upsert_batch(&Vec::new()).unwrap();
    assert_eq!(store.row_count().unwrap(), 0);
}

#[test]
fn store_survives_reopen() {
    let dir = tempfile::tempdir().unwrap();
    let db = dir.path().join("thumbnail_cache.sqlite");
    let db_path = db.to_str().unwrap();
    {
        let mut store = CacheStore::open(db_path).unwrap();
        store.upsert(&entry("k1", "/p/a.png", 100, &[5], "image/png")).unwrap();
    }
    let store = CacheStore::open(db_path).unwrap();
    assert_eq!(store.row_count().unwrap(), 1);
    let (blob, _) = store.lookup_fresh("k1", 100).unwrap().unwrap();
    assert_eq!(blob, vec![5]);
}
