use vodlib::paths::{
    extract_id_from_filename, info_base_name, is_live_chat_file, library_comments_dir,
    library_metadata_dir, library_thumbnails_dir, library_videos_dir, normalized_library_root,
    resolve_library_root_dir, sanitize_filename_component, sanitize_path_component,
};

// =========================================================
// resolve_library_root_dir
// =========================================================

#[test]
fn resolve_root_plain_dir() {
    let root = resolve_library_root_dir("/home/user/library");
    assert_eq!(root, "/home/user/library");
}

#[test]
fn resolve_root_videos_child() {
    let root = resolve_library_root_dir("/home/user/library/videos");
    assert_eq!(root, "/home/user/library");
}

#[test]
fn resolve_root_comments_child() {
    let root = resolve_library_root_dir("/home/user/library/comments");
    assert_eq!(root, "/home/user/library");
}

#[test]
fn resolve_root_metadata_child() {
    let root = resolve_library_root_dir("/home/user/library/metadata");
    assert_eq!(root, "/home/user/library");
}

#[test]
fn resolve_root_contents_child() {
    let root = resolve_library_root_dir("/home/user/library/contents");
    assert_eq!(root, "/home/user/library");
}

#[test]
fn resolve_root_thumbnails_child() {
    let root = resolve_library_root_dir("/home/user/library/thumbnails");
    assert_eq!(root, "/home/user/library");
}

#[test]
fn resolve_root_case_insensitive() {
    let root = resolve_library_root_dir("/home/user/library/Videos");
    assert_eq!(root, "/home/user/library");
}

#[test]
fn resolve_root_unknown_child_kept() {
    let root = resolve_library_root_dir("/home/user/library/other");
    assert_eq!(root, "/home/user/library/other");
}

// =========================================================
// normalized_library_root
// =========================================================

#[test]
fn normalized_root_strips_child() {
    let root = normalized_library_root("/data/lib/videos");
    assert!(root.ends_with("lib") || root.contains("lib"));
    assert!(!root.ends_with("videos"));
}

// =========================================================
// library_*_dir
// =========================================================

#[test]
fn library_videos_dir_appends() {
    let dir = library_videos_dir("/data/lib");
    assert!(dir.ends_with("videos"));
    assert_eq!(dir, "/data/lib/videos");
}

#[test]
fn library_comments_dir_appends() {
    let dir = library_comments_dir("/data/lib");
    assert!(dir.ends_with("comments"));
}

#[test]
fn library_metadata_dir_appends() {
    let dir = library_metadata_dir("/data/lib");
    assert!(dir.ends_with("metadata"));
}

#[test]
fn library_thumbnails_dir_appends() {
    let dir = library_thumbnails_dir("/data/lib");
    assert!(dir.ends_with("thumbnails"));
}

// =========================================================
// sanitize_filename_component
// =========================================================

#[test]
fn sanitize_filename_normal() {
    assert_eq!(sanitize_filename_component("hello-world_1"), "hello-world_1");
}

#[test]
fn sanitize_filename_special_chars() {
    assert_eq!(sanitize_filename_component("a/b:c*d"), "a_b_c_d");
}

#[test]
fn sanitize_filename_empty() {
    assert_eq!(sanitize_filename_component(""), "unknown");
}

#[test]
fn sanitize_filename_whitespace_only() {
    assert_eq!(sanitize_filename_component("   "), "unknown");
}

#[test]
fn sanitize_filename_all_special() {
    assert_eq!(sanitize_filename_component("***"), "unknown");
}

#[test]
fn sanitize_filename_truncate_60() {
    let long = "a".repeat(100);
    let result = sanitize_filename_component(&long);
    assert_eq!(result.len(), 60);
}

#[test]
fn sanitize_filename_leading_trailing_underscores() {
    // After replacing, leading and trailing underscores are trimmed.
    assert_eq!(sanitize_filename_component("!hello!"), "hello");
}

// =========================================================
// sanitize_path_component
// =========================================================

#[test]
fn sanitize_path_normal() {
    assert_eq!(sanitize_path_component("Hello World", 255), "Hello World");
}

#[test]
fn sanitize_path_control_chars() {
    assert_eq!(sanitize_path_component("a\x00b\x1Fc", 255), "a_b_c");
}

#[test]
fn sanitize_path_forbidden_chars() {
    assert_eq!(sanitize_path_component("a<b>c:d", 255), "a_b_c_d");
}

#[test]
fn sanitize_path_empty() {
    assert_eq!(sanitize_path_component("", 255), "unknown");
}

#[test]
fn sanitize_path_trailing_dots_spaces() {
    assert_eq!(sanitize_path_component("test.. ", 255), "test");
}

#[test]
fn sanitize_path_truncate() {
    let long = "a".repeat(300);
    let result = sanitize_path_component(&long, 100);
    assert_eq!(result.len(), 100);
}

#[test]
fn sanitize_path_all_invalid() {
    // Forbidden characters are replaced with '_'; underscores are not stripped.
    assert_eq!(sanitize_path_component("<<<>>>", 255), "______");
}

// =========================================================
// extract_id_from_filename
// =========================================================

#[test]
fn extract_id_standard() {
    assert_eq!(
        extract_id_from_filename("Some Title [abc123].mp4"),
        Some("abc123".to_string())
    );
}

#[test]
fn extract_id_multiple_brackets_uses_last() {
    assert_eq!(
        extract_id_from_filename("[old] Title [xyz789].webm"),
        Some("xyz789".to_string())
    );
}

#[test]
fn extract_id_no_brackets() {
    assert_eq!(extract_id_from_filename("no_brackets.mp4"), None);
}

#[test]
fn extract_id_empty_brackets() {
    assert_eq!(extract_id_from_filename("Title [].mp4"), None);
}

#[test]
fn extract_id_spaces_trimmed() {
    assert_eq!(
        extract_id_from_filename("Title [ abc ].mp4"),
        Some("abc".to_string())
    );
}

// =========================================================
// info_base_name
// =========================================================

#[test]
fn info_base_name_strips_info_suffix() {
    assert_eq!(
        info_base_name("Title [abc].info.json"),
        Some("Title [abc]".to_string())
    );
}

#[test]
fn info_base_name_no_info_suffix() {
    assert_eq!(
        info_base_name("Title [abc].json"),
        Some("Title [abc]".to_string())
    );
}

#[test]
fn info_base_name_just_stem() {
    assert_eq!(info_base_name("readme.txt"), Some("readme".to_string()));
}

// =========================================================
// is_live_chat_file
// =========================================================

#[test]
fn live_chat_file_true() {
    assert!(is_live_chat_file("Title [abc].live_chat.json"));
}

#[test]
fn live_chat_file_case_insensitive() {
    assert!(is_live_chat_file("Title [abc].LIVE_CHAT.JSON"));
}

#[test]
fn live_chat_file_false_info_json() {
    assert!(!is_live_chat_file("Title [abc].info.json"));
}

#[test]
fn live_chat_file_false_regular() {
    assert!(!is_live_chat_file("Title [abc].mp4"));
}
