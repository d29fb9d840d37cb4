use sha2::Digest;
use thumbcache::{cache_key_for_path, file_name_of, is_supported_image, mime_type_for_path, to_hex};

#[test]
fn supported_extensions_accepted() {
    assert!(is_supported_image("/photos/a.jpg"));
    assert!(is_supported_image("/photos/a.jpeg"));
    assert!(is_supported_image("/photos/a.png"));
    assert!(is_supported_image("/photos/a.gif"));
    assert!(is_supported_image("/photos/a.bmp"));
    assert!(is_supported_image("/photos/a.webp"));
    assert!(is_supported_image("/photos/a.tif"));
    assert!(is_supported_image("/photos/a.tiff"));
}

#[test]
fn extension_check_is_case_insensitive() {
    assert!(is_supported_image("/photos/a.PNG"));
    assert!(is_supported_image("/photos/a.JpEg"));
    assert!(is_supported_image("b.TIFF"));
}

#[test]
fn unsupported_extensions_rejected() {
    assert!(!is_supported_image("/photos/notes.txt"));
    assert!(!is_supported_image("/photos/tool.exe"));
    assert!(!is_supported_image("/photos/archive.png.zip"));
    assert!(!is_supported_image("/photos/noextension"));
    assert!(!is_supported_image("/photos/trailingdot."));
    assert!(!is_supported_image(""));
}

#[test]
fn hidden_files_have_no_extension() {
    assert!(!is_supported_image("/photos/.png"));
    assert!(mime_type_for_path("/photos/.png").is_none());
}

#[test]
fn mime_types_match_extensions() {
    assert_eq!(mime_type_for_path("a.jpg"), Some("image/jpeg"));
    assert_eq!(mime_type_for_path("a.JPEG"), Some("image/jpeg"));
    assert_eq!(mime_type_for_path("/d/a.png"), Some("image/png"));
    assert_eq!(mime_type_for_path("a.gif"), Some("image/gif"));
    assert_eq!(mime_type_for_path("a.bmp"), Some("image/bmp"));
    assert_eq!(mime_type_for_path("a.webp"), Some("image/webp"));
    assert_eq!(mime_type_for_path("a.tif"), Some("image/tiff"));
    assert_eq!(mime_type_for_path("a.tiff"), Some("image/tiff"));
    assert_eq!(mime_type_for_path("a.txt"), None);
    assert_eq!(mime_type_for_path("a"), None);
}

#[test]
fn mime_and_support_agree() {
    let paths = ["a.jpg", "b.PNG", "c.txt", "d", ".gif", "e.webp", "f.doc"];
    for p in paths {
        assert_eq!(is_supported_image(p), mime_type_for_path(p).is_some());
    }
}

#[test]
fn file_names_extracted() {
    assert_eq!(file_name_of("/photos/sub/c.png"), "c.png");
    assert_eq!(file_name_of("plain.png"), "plain.png");
    assert_eq!(file_name_of("/photos/"), "");
}

#[test]
fn cache_key_is_deterministic() {
    let k1 = cache_key_for_path("/photos/a.png");
    let k2 = cache_key_for_path("/photos/a.png");
    assert_eq!(k1, k2);
}

#[test]
fn cache_key_distinguishes_paths() {
    let k1 = cache_key_for_path("/photos/a.png");
    let k2 = cache_key_for_path("/photos/b.png");
    assert_ne!(k1, k2);
}

#[test]
fn cache_key_is_hex_of_sha256() {
    let key = cache_key_for_path("/photos/a.png");
    assert_eq!(key.len(), 64);
    assert!(key.chars().all(|c| c.is_ascii_hexdigit() && !c.is_ascii_uppercase()));
    // SHA-256 of the exact path bytes, independently computed.
    let digest = sha2::Sha256::digest("/photos/a.png".as_bytes());
    let mut expected = String::new();
    for b in digest {
        expected.push_str(&format!("{:02x}", b));
    }
    assert_eq!(key, expected);
}

#[test]
fn hex_encoding_exact() {
    assert_eq!(to_hex(&[]), "");
    assert_eq!(to_hex(&[0x00, 0xff, 0x1a]), "00ff1a");
}
