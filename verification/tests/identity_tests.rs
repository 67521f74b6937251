use vodlib::comments::{comments_file_exists, get_comments, CommentsError};
use vodlib::identity::{find_comments_file, find_info_json};
use vodlib::index::{resolve_video_file, VideoIndexState};
use vodlib::snapshot::FileEntry;

fn entry(path: &str, content: Option<&str>) -> FileEntry {
    FileEntry {
        path: path.to_string(),
        mtime_ms: 0,
        content: content.map(|c| c.to_string()),
    }
}

fn entry_at(path: &str, mtime_ms: u64) -> FileEntry {
    FileEntry { path: path.to_string(), mtime_ms, content: None }
}

// =========================================================
// find_info_json
// =========================================================

#[test]
fn find_info_json_found() {
    let dir = "/lib/metadata";
    let file_path = "/lib/metadata/Title [testid123].info.json";
    let entries = vec![entry(file_path, Some("{\"id\":\"testid123\"}"))];
    let _ = dir;
    let result = find_info_json(&entries, "testid123");
    assert!(result.is_some());
    assert_eq!(result.unwrap(), file_path);
}

#[test]
fn find_info_json_not_found() {
    let entries = vec![entry(
        "/lib/metadata/Other [other].info.json",
        Some("{\"id\":\"other\"}"),
    )];
    let result = find_info_json(&entries, "nonexistent");
    assert!(result.is_none());
}

#[test]
fn find_info_json_nonexistent_dir() {
    let entries: Vec<FileEntry> = Vec::new();
    assert!(find_info_json(&entries, "any").is_none());
}

#[test]
fn find_info_json_case_insensitive_named_file() {
    let entries = vec![
        entry("/lib/metadata/Other Show [zzz].info.json", Some("{\"id\":\"zzz\"}")),
        entry("/lib/metadata/Show [abc123].info.json", Some("{\"id\":\"abc123\"}")),
        entry("/lib/metadata/Third [qqq].info.json", Some("{\"id\":\"qqq\"}")),
    ];
    let result = find_info_json(&entries, "ABC123");
    assert_eq!(result, Some("/lib/metadata/Show [abc123].info.json".to_string()));
}

#[test]
fn find_info_json_by_content_when_name_plain() {
    let entries = vec![
        entry("/lib/metadata/plain.info.json", Some("{\"display_id\":\"vid42\"}")),
    ];
    let result = find_info_json(&entries, "VID42");
    assert_eq!(result, Some("/lib/metadata/plain.info.json".to_string()));
}

// =========================================================
// find_comments_file
// =========================================================

#[test]
fn find_comments_file_by_name_match() {
    let dir = "/tmp/lib";
    let entries = vec![entry(
        "/tmp/lib/Title [abc123].live_chat.json",
        Some("{\"video_id\":\"abc123\"}"),
    )];
    let result = find_comments_file(&entries, dir, "abc123");
    assert!(result.is_some());
    assert!(result.unwrap().contains("abc123"));
}

#[test]
fn find_comments_file_not_found() {
    let dir = "/tmp/lib";
    let entries = vec![entry("/tmp/lib/other.txt", Some("data"))];
    let result = find_comments_file(&entries, dir, "xyz");
    assert!(result.is_none());
}

#[test]
fn find_comments_file_nonexistent_dir() {
    let entries: Vec<FileEntry> = Vec::new();
    let result = find_comments_file(&entries, "/nonexistent/dir", "any");
    assert!(result.is_none());
}

#[test]
fn find_comments_file_prefers_chat_over_comments() {
    let dir = "/lib/metadata";
    let entries = vec![
        entry("/lib/metadata/Show [abc].comments.json", None),
        entry("/lib/metadata/Show [abc].live_chat.json", None),
    ];
    let result = find_comments_file(&entries, dir, "abc");
    assert_eq!(result, Some("/lib/metadata/Show [abc].live_chat.json".to_string()));
}

#[test]
fn find_comments_file_info_sibling() {
    let dir = "/lib/metadata";
    let entries = vec![
        entry("/lib/metadata/My Show.info.json", Some("{\"id\":\"hidden9\"}")),
        entry("/lib/metadata/My Show.live_chat.json", None),
    ];
    let result = find_comments_file(&entries, dir, "hidden9");
    assert_eq!(result, Some("/lib/metadata/My Show.live_chat.json".to_string()));
}

#[test]
fn find_comments_file_single_candidate_fallback() {
    let dir = "/lib/metadata";
    let entries = vec![
        entry("/lib/metadata/legacy.comments.json", Some("{}")),
        entry("/lib/metadata/unrelated.txt", None),
    ];
    let result = find_comments_file(&entries, dir, "whatever");
    assert_eq!(result, Some("/lib/metadata/legacy.comments.json".to_string()));
}

// =========================================================
// comments_file_exists / get_comments
// =========================================================

#[test]
fn comments_file_exists_false_for_info_only() {
    let metadata = vec![entry(
        "/lib/metadata/Show [abc].info.json",
        Some("{\"id\":\"abc\"}"),
    )];
    let comments: Vec<FileEntry> = Vec::new();
    assert!(!comments_file_exists(
        &metadata,
        &comments,
        "/lib/metadata",
        "/lib/comments",
        true,
        "abc"
    ));
}

#[test]
fn comments_file_exists_true_for_chat() {
    let metadata = vec![entry("/lib/metadata/Show [abc].live_chat.json", None)];
    let comments: Vec<FileEntry> = Vec::new();
    assert!(comments_file_exists(
        &metadata,
        &comments,
        "/lib/metadata",
        "/lib/comments",
        true,
        "abc"
    ));
}

#[test]
fn get_comments_not_found() {
    let metadata: Vec<FileEntry> = Vec::new();
    let comments: Vec<FileEntry> = Vec::new();
    let r = get_comments(&metadata, &comments, "/m", "/c", "abc", None);
    assert_eq!(r.unwrap_err(), CommentsError::NotFound);
}

#[test]
fn get_comments_unreadable() {
    let metadata = vec![entry("/m/Show [abc].comments.json", None)];
    let comments: Vec<FileEntry> = Vec::new();
    let r = get_comments(&metadata, &comments, "/m", "/c", "abc", None);
    assert_eq!(r.unwrap_err(), CommentsError::Unreadable);
}

#[test]
fn get_comments_parses_and_limits() {
    let body = "[{\"author\":\"A\",\"text\":\"one\"},{\"author\":\"B\",\"text\":\"two\"},{\"author\":\"C\",\"text\":\"three\"}]";
    let metadata = vec![entry("/m/Show [abc].comments.json", Some(body))];
    let comments: Vec<FileEntry> = Vec::new();
    let r = get_comments(&metadata, &comments, "/m", "/c", "abc", Some(2)).unwrap();
    assert_eq!(r.len(), 2);
    assert_eq!(r[0].author, "A");
    assert_eq!(r[1].author, "B");
}

// =========================================================
// resolve_video_file: cache behavior
// =========================================================

#[test]
fn resolve_video_twice_second_is_cache_hit() {
    let mut state = VideoIndexState::new();
    let entries = vec![
        entry_at("/lib/videos/Show [abc123].mp4", 10),
        entry_at("/lib/videos/Other [zzz].mp4", 20),
    ];
    let (first, hit1) = resolve_video_file(&mut state, "abc123", "Show", "/lib", true, &entries);
    assert_eq!(first, Some("/lib/videos/Show [abc123].mp4".to_string()));
    assert!(!hit1);
    let (second, hit2) = resolve_video_file(&mut state, "abc123", "Show", "/lib", true, &entries);
    assert_eq!(second, first);
    assert!(hit2);
}

#[test]
fn resolve_video_stale_cache_entry_evicted() {
    let mut state = VideoIndexState::new();
    let old_entries = vec![entry_at("/lib/videos/Old [abc].mp4", 5)];
    let (first, _) = resolve_video_file(&mut state, "abc", "Old", "/lib", true, &old_entries);
    assert_eq!(first, Some("/lib/videos/Old [abc].mp4".to_string()));
    // The file was replaced on disk; the remembered path no longer exists.
    let new_entries = vec![entry_at("/lib/videos/New [abc].mp4", 9)];
    let (second, hit) = resolve_video_file(&mut state, "abc", "Old", "/lib", true, &new_entries);
    assert!(!hit);
    assert_eq!(second, Some("/lib/videos/New [abc].mp4".to_string()));
}

#[test]
fn resolve_video_picks_latest_id_match() {
    let mut state = VideoIndexState::new();
    let entries = vec![
        entry_at("/lib/videos/Show [dup].mp4", 100),
        entry_at("/lib/videos/Show redownload [dup].mp4", 200),
    ];
    let (found, _) = resolve_video_file(&mut state, "dup", "Show", "/lib", true, &entries);
    assert_eq!(found, Some("/lib/videos/Show redownload [dup].mp4".to_string()));
}

#[test]
fn resolve_video_title_match_when_no_id() {
    let mut state = VideoIndexState::new();
    let entries = vec![
        entry_at("/lib/videos/My Great Video.mp4", 50),
        entry_at("/lib/videos/unrelated.mkv", 80),
    ];
    let (found, _) = resolve_video_file(
        &mut state,
        "noid",
        "My Great Video",
        "/lib",
        true,
        &entries,
    );
    assert_eq!(found, Some("/lib/videos/My Great Video.mp4".to_string()));
}

#[test]
fn resolve_video_missing_dir_returns_none() {
    let mut state = VideoIndexState::new();
    let entries: Vec<FileEntry> = Vec::new();
    let (found, hit) = resolve_video_file(&mut state, "abc", "t", "/lib", false, &entries);
    assert!(found.is_none());
    assert!(!hit);
}

#[test]
fn resolve_video_root_switch_clears_cache() {
    let mut state = VideoIndexState::new();
    let entries = vec![entry_at("/a/videos/Show [k1].mp4", 1)];
    let (r1, _) = resolve_video_file(&mut state, "k1", "Show", "/a", true, &entries);
    assert!(r1.is_some());
    let other = vec![entry_at("/b/videos/Show [k1].webm", 1)];
    let (r2, hit2) = resolve_video_file(&mut state, "k1", "Show", "/b", true, &other);
    assert!(!hit2);
    assert_eq!(r2, Some("/b/videos/Show [k1].webm".to_string()));
}
