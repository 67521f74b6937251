use vodlib::index::{ensure_video_index_root, update_video_index_from_scan, VideoIndexState};
use vodlib::json::Json;
use vodlib::meta::parse_video_metadata_value;
use vodlib::meta::{merge_channel_items, parse_channel_listing};
use vodlib::snapshot::FileEntry;
use vodlib::store::{
    backup_entry_target, backup_version_accepted, error_log_file_name, has_timestamp_pattern,
    select_stale_live_records, select_superseded_live_records, settings_version_accepted,
    tool_archive_entry_target, BackupEntryTarget,
};
use vodlib::text::{
    contains_str, i64_to_string, parse_i64, parse_u64, split_lines, to_lower_string, trim_str,
    u64_to_string,
};

// =========================================================
// text utilities
// =========================================================

#[test]
fn lowercase_maps_ascii_only() {
    assert_eq!(to_lower_string("AbC-123"), "abc-123");
    assert_eq!(to_lower_string(""), "");
}

#[test]
fn trim_both_ends() {
    assert_eq!(trim_str("  hello \t"), "hello");
    assert_eq!(trim_str("nothing"), "nothing");
    assert_eq!(trim_str("   "), "");
}

#[test]
fn substring_search() {
    assert!(contains_str("hello world", "o wo"));
    assert!(contains_str("abc", ""));
    assert!(!contains_str("abc", "abcd"));
    assert!(!contains_str("abc", "x"));
}

#[test]
fn parse_u64_values() {
    assert_eq!(parse_u64("0"), Some(0));
    assert_eq!(parse_u64("67890"), Some(67890));
    assert_eq!(parse_u64("+42"), Some(42));
    assert_eq!(parse_u64("18446744073709551615"), Some(u64::MAX));
    assert_eq!(parse_u64("18446744073709551616"), None);
    assert_eq!(parse_u64(""), None);
    assert_eq!(parse_u64("12a"), None);
    assert_eq!(parse_u64("-1"), None);
}

#[test]
fn parse_i64_values() {
    assert_eq!(parse_i64("1700000000000000"), Some(1700000000000000));
    assert_eq!(parse_i64("-25"), Some(-25));
    assert_eq!(parse_i64("9223372036854775807"), Some(i64::MAX));
    assert_eq!(parse_i64("-9223372036854775808"), Some(i64::MIN));
    assert_eq!(parse_i64("9223372036854775808"), None);
    assert_eq!(parse_i64("x"), None);
}

#[test]
fn format_integers() {
    assert_eq!(i64_to_string(0), "0");
    assert_eq!(i64_to_string(1700000000000), "1700000000000");
    assert_eq!(i64_to_string(-45), "-45");
    assert_eq!(u64_to_string(905), "905");
}

#[test]
fn split_lines_like_std() {
    let lines = split_lines("a\nb\r\nc");
    assert_eq!(lines, vec!["a".to_string(), "b".to_string(), "c".to_string()]);
    let trailing = split_lines("x\n");
    assert_eq!(trailing, vec!["x".to_string()]);
    assert!(split_lines("").is_empty());
}

// =========================================================
// metadata record parsing
// =========================================================

fn obj(entries: Vec<(&str, Json)>) -> Json {
    Json::Obj(entries.into_iter().map(|(k, v)| (k.to_string(), v)).collect())
}

fn text(s: &str) -> Json {
    Json::Text(s.to_string())
}

#[test]
fn video_metadata_fields() {
    let value = obj(vec![
        ("id", text("rt1")),
        ("title", text("Round Trip")),
        ("channel", text("TestCh")),
        ("duration", Json::Int(300)),
        ("is_live", Json::Bool(false)),
        ("was_live", Json::Bool(false)),
        ("view_count", Json::Int(5000)),
        ("like_count", Json::Int(200)),
        ("comment_count", Json::Int(30)),
        ("tags", Json::Arr(vec![text("test"), text("round-trip")])),
        ("categories", Json::Arr(vec![text("Education")])),
        ("availability", text("public")),
        ("language", text("en")),
        ("age_limit", Json::Int(0)),
    ]);
    let meta = parse_video_metadata_value(&value);
    assert_eq!(meta.id.as_deref(), Some("rt1"));
    assert_eq!(meta.title.as_deref(), Some("Round Trip"));
    assert_eq!(meta.channel.as_deref(), Some("TestCh"));
    assert_eq!(meta.duration_sec, Some(300));
    assert_eq!(meta.is_live, Some(false));
    assert_eq!(meta.was_live, Some(false));
    assert_eq!(meta.view_count, Some(5000));
    assert_eq!(meta.like_count, Some(200));
    assert_eq!(meta.comment_count, Some(30));
    assert_eq!(meta.availability.as_deref(), Some("public"));
    assert_eq!(meta.language.as_deref(), Some("en"));
    assert_eq!(meta.age_limit, Some(0));
    let tags = meta.tags.unwrap();
    assert_eq!(tags, vec!["test".to_string(), "round-trip".to_string()]);
}

#[test]
fn video_metadata_uploader_fallback() {
    let value = obj(vec![("uploader", text("SomeOne"))]);
    let meta = parse_video_metadata_value(&value);
    assert_eq!(meta.channel.as_deref(), Some("SomeOne"));
}

// =========================================================
// channel listing
// =========================================================

#[test]
fn channel_listing_filters_and_builds_urls() {
    let value = obj(vec![
        ("channel_id", text("UCX")),
        (
            "entries",
            Json::Arr(vec![
                obj(vec![("id", text("v1")), ("title", text("Video One")), ("url", text("v1"))]),
                obj(vec![("id", text("UCX")), ("title", text("Channel Row"))]),
                obj(vec![("id", text("v2")), ("title", text("Channel - Videos"))]),
                obj(vec![
                    ("id", text("v3")),
                    ("title", text("Video Three")),
                    ("url", text("https://example.com/watch")),
                ]),
                obj(vec![("title", text("No Id Row"))]),
            ]),
        ),
    ]);
    let items = parse_channel_listing(&value).unwrap();
    assert_eq!(items.len(), 2);
    assert_eq!(items[0].id, "v1");
    assert_eq!(items[0].url, "https://www.youtube.com/watch?v=v1");
    assert_eq!(items[1].id, "v3");
    assert_eq!(items[1].url, "https://example.com/watch");
}

#[test]
fn channel_listing_without_entries_is_nothing() {
    let value = obj(vec![("other", Json::Int(1))]);
    assert!(parse_channel_listing(&value).is_none());
}

#[test]
fn channel_merge_deduplicates_by_id() {
    let a = obj(vec![(
        "entries",
        Json::Arr(vec![
            obj(vec![("id", text("x")), ("title", text("First"))]),
            obj(vec![("id", text("y")), ("title", text("Second"))]),
        ]),
    )]);
    let b = obj(vec![(
        "entries",
        Json::Arr(vec![
            obj(vec![("id", text("y")), ("title", text("Duplicate"))]),
            obj(vec![("id", text("z")), ("title", text("Third"))]),
        ]),
    )]);
    let mut merged = Vec::new();
    merge_channel_items(&mut merged, parse_channel_listing(&a).unwrap());
    merge_channel_items(&mut merged, parse_channel_listing(&b).unwrap());
    assert_eq!(merged.len(), 3);
    assert_eq!(merged[0].id, "x");
    assert_eq!(merged[1].id, "y");
    assert_eq!(merged[1].title, "Second");
    assert_eq!(merged[2].id, "z");
}

// =========================================================
// persisted store helpers
// =========================================================

#[test]
fn schema_versions_accepted_at_or_below_known() {
    assert!(settings_version_accepted(0));
    assert!(settings_version_accepted(1));
    assert!(!settings_version_accepted(2));
    assert!(backup_version_accepted(2));
    assert!(!backup_version_accepted(3));
}

#[test]
fn backup_entries_classified_by_name() {
    assert_eq!(backup_entry_target("settings/app.json"), Some(BackupEntryTarget::Settings));
    assert_eq!(backup_entry_target("index/videos.json"), Some(BackupEntryTarget::Videos));
    assert_eq!(backup_entry_target("other.bin"), None);
}

#[test]
fn tool_archive_entries_classified_by_suffix() {
    assert_eq!(
        tool_archive_entry_target("ffmpeg-release/bin/ffmpeg.exe"),
        Some("ffmpeg.exe".to_string())
    );
    assert_eq!(
        tool_archive_entry_target("ffmpeg-release\\bin\\ffprobe.exe"),
        Some("ffprobe.exe".to_string())
    );
    assert_eq!(tool_archive_entry_target("doc/readme.txt"), None);
}

#[test]
fn error_log_name_is_sanitized() {
    assert_eq!(
        error_log_file_name(1700000000123, "comments_download", "ab/c"),
        "1700000000123_comments_download_ab_c.log"
    );
}

#[test]
fn timestamp_pattern_detection() {
    assert!(has_timestamp_pattern("Show 2026-02-14 02_09 [videoId].info.json"));
    assert!(!has_timestamp_pattern("Show [videoId].info.json"));
}

#[test]
fn stale_live_records_selected() {
    let entries = vec![
        FileEntry {
            path: "/m/Show 2026-02-14 02_09 [liveX].info.json".to_string(),
            mtime_ms: 0,
            content: None,
        },
        FileEntry { path: "/m/Show [liveX].info.json".to_string(), mtime_ms: 0, content: None },
        FileEntry {
            path: "/m/Other 2026-02-14 02_09 [other].info.json".to_string(),
            mtime_ms: 0,
            content: None,
        },
    ];
    let doomed = select_stale_live_records(&entries, "livex");
    assert_eq!(doomed, vec!["/m/Show 2026-02-14 02_09 [liveX].info.json".to_string()]);
}

#[test]
fn superseded_records_all_go_when_current_exists() {
    let entries = vec![
        FileEntry {
            path: "/m/Show 2026-02-14 02_09 [liveY].info.json".to_string(),
            mtime_ms: 10,
            content: None,
        },
        FileEntry { path: "/m/Show [liveY].info.json".to_string(), mtime_ms: 5, content: None },
        FileEntry {
            path: "/m/Show 2026-02-14 03_20 [liveY].info.json".to_string(),
            mtime_ms: 20,
            content: None,
        },
    ];
    let doomed = select_superseded_live_records(&entries, "livey");
    assert_eq!(
        doomed,
        vec![
            "/m/Show 2026-02-14 02_09 [liveY].info.json".to_string(),
            "/m/Show 2026-02-14 03_20 [liveY].info.json".to_string(),
        ]
    );
}

#[test]
fn superseded_records_keep_newest_timestamped() {
    let entries = vec![
        FileEntry {
            path: "/m/Show 2026-02-14 02_09 [liveZ].info.json".to_string(),
            mtime_ms: 10,
            content: None,
        },
        FileEntry {
            path: "/m/Show 2026-02-14 03_20 [liveZ].info.json".to_string(),
            mtime_ms: 30,
            content: None,
        },
        FileEntry {
            path: "/m/Show 2026-02-14 01_00 [liveZ].info.json".to_string(),
            mtime_ms: 20,
            content: None,
        },
    ];
    let doomed = select_superseded_live_records(&entries, "livez");
    assert_eq!(
        doomed,
        vec![
            "/m/Show 2026-02-14 02_09 [liveZ].info.json".to_string(),
            "/m/Show 2026-02-14 01_00 [liveZ].info.json".to_string(),
        ]
    );
}

#[test]
fn superseded_records_single_record_stays() {
    let entries = vec![FileEntry {
        path: "/m/Show 2026-02-14 02_09 [liveQ].info.json".to_string(),
        mtime_ms: 10,
        content: None,
    }];
    let doomed = select_superseded_live_records(&entries, "liveq");
    assert!(doomed.is_empty());
}

// =========================================================
// the video index fold
// =========================================================

#[test]
fn scan_fold_keys_videos_by_embedded_id_or_stem() {
    let mut state = VideoIndexState::new();
    ensure_video_index_root(&mut state, "/lib");
    let entries = vec![
        FileEntry { path: "/lib/videos/Show [k1].mp4".to_string(), mtime_ms: 0, content: None },
        FileEntry { path: "/lib/videos/Plain Name.webm".to_string(), mtime_ms: 0, content: None },
        FileEntry { path: "/lib/videos/notes.txt".to_string(), mtime_ms: 0, content: None },
    ];
    let pairs = vec![("K2".to_string(), "Plain Name".to_string())];
    update_video_index_from_scan(&mut state, "/lib", &entries, &pairs);
    assert_eq!(state.cache_get("k1"), Some("/lib/videos/Show [k1].mp4".to_string()));
    assert_eq!(state.cache_get("k2"), Some("/lib/videos/Plain Name.webm".to_string()));
    assert_eq!(state.cache_get("k3"), None);
}

#[test]
fn files_matching_id_selected_case_insensitively() {
    let entries = vec![
        FileEntry { path: "/v/Show [Del1].mp4".to_string(), mtime_ms: 0, content: None },
        FileEntry { path: "/v/unrelated.mp4".to_string(), mtime_ms: 0, content: None },
        FileEntry { path: "/v/Show [DEL1].info.json".to_string(), mtime_ms: 0, content: None },
    ];
    let doomed = vodlib::store::select_files_matching_id(&entries, "del1");
    assert_eq!(
        doomed,
        vec!["/v/Show [Del1].mp4".to_string(), "/v/Show [DEL1].info.json".to_string()]
    );
}
