use thumbcache::{DirEntry, EntryKind, GalleryError, WalkState};

fn file(path: &str) -> DirEntry {
    DirEntry { path: path.to_string(), kind: EntryKind::RegularFile }
}

fn dir(path: &str) -> DirEntry {
    DirEntry { path: path.to_string(), kind: EntryKind::Directory }
}

#[test]
fn invalid_root_rejected() {
    match WalkState::new("/photos".to_string(), false) {
        Ok(_) => panic!("a non-directory root must be rejected"),
        Err(err) => assert_eq!(err, GalleryError::InvalidRoot),
    }
}

#[test]
fn walk_filters_and_recurses() {
    let mut walk = WalkState::new("/photos".to_string(), true).unwrap();
    let root = walk.pop_directory().unwrap();
    assert_eq!(root, "/photos");
    walk.absorb_entries(vec![
        file("/photos/b.jpg"),
        file("/photos/notes.txt"),
        dir("/photos/sub"),
        file("/photos/a.png"),
        DirEntry { path: "/photos/socket".to_string(), kind: EntryKind::Other },
    ]);
    let sub = walk.pop_directory().unwrap();
    assert_eq!(sub, "/photos/sub");
    walk.absorb_entries(vec![file("/photos/sub/c.png"), file("/photos/sub/readme.md")]);
    assert!(walk.pop_directory().is_none());
    assert!(walk.is_done());
    let images = walk.into_sorted_images();
    assert_eq!(images, vec!["/photos/a.png", "/photos/b.jpg", "/photos/sub/c.png"]);
}

#[test]
fn unreadable_directory_is_skipped_not_fatal() {
    // The walker hands out "/photos/denied"; the traversal driver finds it
    // unreadable and simply absorbs nothing for it.
    let mut walk = WalkState::new("/photos".to_string(), true).unwrap();
    walk.pop_directory().unwrap();
    walk.absorb_entries(vec![dir("/photos/denied"), file("/photos/ok.png"), dir("/photos/open")]);
    while let Some(d) = walk.pop_directory() {
        if d == "/photos/open" {
            walk.absorb_entries(vec![file("/photos/open/deep.gif")]);
        }
        // "/photos/denied": unreadable, skipped with a warning upstream.
    }
    let images = walk.into_sorted_images();
    assert_eq!(images, vec!["/photos/ok.png", "/photos/open/deep.gif"]);
}

#[test]
fn sorted_images_are_sorted_by_path() {
    let mut walk = WalkState::new("/r".to_string(), true).unwrap();
    walk.pop_directory().unwrap();
    walk.absorb_entries(vec![
        file("/r/z.png"),
        file("/r/a/b.png"),
        file("/r/m.png"),
        file("/r/a.png"),
    ]);
    let images = walk.into_sorted_images();
    assert_eq!(images, vec!["/r/a.png", "/r/a/b.png", "/r/m.png", "/r/z.png"]);
}
