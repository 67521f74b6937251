use vodlib::snapshot::FileEntry;
use vodlib::thumbs::{find_existing_thumbnail, normalize_thumbnail_extension};

fn entry(path: &str) -> FileEntry {
    FileEntry { path: path.to_string(), mtime_ms: 0, content: None }
}

// =========================================================
// normalize_thumbnail_extension
// =========================================================

#[test]
fn normalize_jpg() {
    assert_eq!(normalize_thumbnail_extension(Some("jpg".to_string())), "jpg");
}

#[test]
fn normalize_jpeg_to_jpg() {
    assert_eq!(normalize_thumbnail_extension(Some("jpeg".to_string())), "jpg");
}

#[test]
fn normalize_png() {
    assert_eq!(normalize_thumbnail_extension(Some("png".to_string())), "png");
}

#[test]
fn normalize_webp() {
    assert_eq!(normalize_thumbnail_extension(Some("webp".to_string())), "webp");
}

#[test]
fn normalize_gif() {
    assert_eq!(normalize_thumbnail_extension(Some("gif".to_string())), "gif");
}

#[test]
fn normalize_none_default_jpg() {
    assert_eq!(normalize_thumbnail_extension(None), "jpg");
}

#[test]
fn normalize_unknown_default_jpg() {
    assert_eq!(normalize_thumbnail_extension(Some("bmp".to_string())), "jpg");
}

#[test]
fn normalize_leading_dot() {
    assert_eq!(normalize_thumbnail_extension(Some(".png".to_string())), "png");
}

#[test]
fn normalize_uppercase() {
    assert_eq!(normalize_thumbnail_extension(Some("JPEG".to_string())), "jpg");
}

#[test]
fn normalize_whitespace() {
    assert_eq!(normalize_thumbnail_extension(Some("  webp  ".to_string())), "webp");
}

// =========================================================
// find_existing_thumbnail
// =========================================================

#[test]
fn find_thumbnail_new_format() {
    let entries = vec![entry("/lib/thumbnails/abc123.jpg")];
    let result = find_existing_thumbnail(&entries, "abc123");
    assert!(result.is_some());
}

#[test]
fn find_thumbnail_old_format() {
    let entries = vec![entry("/lib/thumbnails/Title [abc123].webp")];
    let result = find_existing_thumbnail(&entries, "abc123");
    assert!(result.is_some());
}

#[test]
fn find_thumbnail_not_found() {
    let entries = vec![entry("/lib/thumbnails/other.jpg")];
    let result = find_existing_thumbnail(&entries, "xyz");
    assert!(result.is_none());
}

#[test]
fn find_thumbnail_nonexistent_dir() {
    let entries: Vec<FileEntry> = Vec::new();
    let result = find_existing_thumbnail(&entries, "id");
    assert!(result.is_none());
}

#[test]
fn find_thumbnail_non_image_ignored() {
    let entries = vec![entry("/lib/thumbnails/abc123.txt")];
    let result = find_existing_thumbnail(&entries, "abc123");
    assert!(result.is_none());
}
