use vodlib::json::Json;
use vodlib::models::LocalFileCheckItem;
use vodlib::probe::parse_probe_output;
use vodlib::reconcile::{get_local_metadata_by_ids, get_metadata_index, verify_local_files};
use vodlib::snapshot::FileEntry;

fn entry(path: &str, content: Option<&str>) -> FileEntry {
    FileEntry {
        path: path.to_string(),
        mtime_ms: 0,
        content: content.map(|c| c.to_string()),
    }
}

fn item(id: &str, title: &str, video: bool, comments: bool) -> LocalFileCheckItem {
    LocalFileCheckItem {
        id: id.to_string(),
        title: title.to_string(),
        check_video: video,
        check_comments: comments,
    }
}

#[test]
fn empty_library_fails_every_requested_check() {
    let none: Vec<FileEntry> = Vec::new();
    let items = vec![
        item("a1", "First", true, true),
        item("b2", "Second", true, false),
        item("c3", "Third", false, true),
    ];
    let results = verify_local_files(false, &none, &none, &none, "/lib/comments", "/lib/metadata", &items);
    assert_eq!(results.len(), 3);
    assert!(!results[0].video_ok);
    assert!(!results[0].comments_ok);
    assert!(!results[1].video_ok);
    assert!(results[1].comments_ok);
    assert!(results[2].video_ok);
    assert!(!results[2].comments_ok);
    assert_eq!(results[0].id, "a1");
}

#[test]
fn video_found_by_embedded_id() {
    let videos = vec![entry("/lib/videos/Show [vid1].mp4", None)];
    let none: Vec<FileEntry> = Vec::new();
    let items = vec![item("VID1", "Show", true, false)];
    let results = verify_local_files(true, &videos, &none, &none, "/lib/comments", "/lib/metadata", &items);
    assert!(results[0].video_ok);
    assert!(results[0].comments_ok);
}

#[test]
fn video_found_by_info_base_name() {
    let videos = vec![entry("/lib/videos/My Recording.mp4", None)];
    let metadata = vec![entry(
        "/lib/metadata/My Recording.info.json",
        Some("{\"video_id\":\"hidden7\"}"),
    )];
    let none: Vec<FileEntry> = Vec::new();
    let items = vec![item("hidden7", "", true, false)];
    let results = verify_local_files(true, &videos, &none, &metadata, "/lib/comments", "/lib/metadata", &items);
    assert!(results[0].video_ok);
}

#[test]
fn video_not_found_when_nothing_matches() {
    let videos = vec![entry("/lib/videos/Other [zzz].mp4", None)];
    let none: Vec<FileEntry> = Vec::new();
    let items = vec![item("nope", "Unrelated Title", true, false)];
    let results = verify_local_files(true, &videos, &none, &none, "/lib/comments", "/lib/metadata", &items);
    assert!(!results[0].video_ok);
}

#[test]
fn comments_found_by_embedded_id() {
    let none: Vec<FileEntry> = Vec::new();
    let comments = vec![entry("/lib/comments/Show [c9].live_chat.json", None)];
    let items = vec![item("c9", "Show", false, true)];
    let results = verify_local_files(true, &none, &comments, &none, "/lib/comments", "/lib/metadata", &items);
    assert!(results[0].comments_ok);
}

#[test]
fn comments_found_by_info_sibling() {
    let none: Vec<FileEntry> = Vec::new();
    let metadata = vec![
        entry("/lib/metadata/My Show.info.json", Some("{\"id\":\"sib1\"}")),
        entry("/lib/metadata/My Show.comments.json", None),
        entry("/lib/metadata/Unrelated [q].comments.json", None),
    ];
    let items = vec![item("sib1", "My Show", false, true)];
    let results = verify_local_files(true, &none, &none, &metadata, "/lib/comments", "/lib/metadata", &items);
    assert!(results[0].comments_ok);
}

#[test]
fn comments_single_file_fallback() {
    let none: Vec<FileEntry> = Vec::new();
    let comments = vec![entry("/lib/comments/legacy.comments.json", None)];
    let items = vec![item("unrelated", "t", false, true)];
    let results = verify_local_files(true, &none, &comments, &none, "/lib/comments", "/lib/metadata", &items);
    assert!(results[0].comments_ok);
}

#[test]
fn metadata_index_lists_ids_once() {
    let metadata = vec![
        entry("/lib/metadata/Show [i1].info.json", None),
        entry("/lib/metadata/Show [i1].live_chat.json", None),
        entry("/lib/metadata/plain.info.json", Some("{\"id\":\"i2\"}")),
        entry("/lib/metadata/Show [i1] again.info.json", None),
    ];
    let comments = vec![entry("/lib/comments/Old [c1].comments.json", None)];
    let index = get_metadata_index(&metadata, &comments);
    assert_eq!(index.info_ids, vec!["i1".to_string(), "i2".to_string()]);
    assert_eq!(index.chat_ids, vec!["i1".to_string(), "c1".to_string()]);
}

#[test]
fn local_metadata_found_per_id() {
    let metadata = vec![
        entry(
            "/lib/metadata/Show [m1].info.json",
            Some("{\"id\":\"m1\",\"title\":\"First\"}"),
        ),
        entry(
            "/lib/metadata/Other [m2].info.json",
            Some("{\"id\":\"m2\",\"title\":\"Second\"}"),
        ),
        entry(
            "/lib/metadata/Dup [m1].info.json",
            Some("{\"id\":\"m1\",\"title\":\"Ignored\"}"),
        ),
    ];
    let comments: Vec<FileEntry> = Vec::new();
    let ids = vec!["M1".to_string(), "m2".to_string()];
    let found = get_local_metadata_by_ids(&metadata, &comments, &ids);
    assert_eq!(found.len(), 2);
    assert_eq!(found[0].id, "m1");
    assert_eq!(found[0].metadata.title.as_deref(), Some("First"));
    assert_eq!(found[1].id, "m2");
}

#[test]
fn probe_output_first_streams_win() {
    fn obj(entries: Vec<(&str, Json)>) -> Json {
        Json::Obj(entries.into_iter().map(|(k, v)| (k.to_string(), v)).collect())
    }
    fn text(s: &str) -> Json {
        Json::Text(s.to_string())
    }
    let value = obj(vec![
        (
            "format",
            obj(vec![("duration", text("12.5")), ("format_name", text("mov,mp4"))]),
        ),
        (
            "streams",
            Json::Arr(vec![
                obj(vec![("codec_type", text("audio")), ("codec_name", text("aac"))]),
                obj(vec![
                    ("codec_type", text("video")),
                    ("codec_name", text("h264")),
                    ("width", Json::Int(1920)),
                    ("height", Json::Int(1080)),
                ]),
                obj(vec![("codec_type", text("video")), ("codec_name", text("vp9"))]),
            ]),
        ),
    ]);
    let info = parse_probe_output(&value);
    assert_eq!(info.video_codec.as_deref(), Some("h264"));
    assert_eq!(info.audio_codec.as_deref(), Some("aac"));
    assert_eq!(info.width, Some(1920));
    assert_eq!(info.height, Some(1080));
    assert_eq!(info.duration_text.as_deref(), Some("12.5"));
    assert_eq!(info.container.as_deref(), Some("mov,mp4"));
}

#[test]
fn probe_output_codec_tag_fallback() {
    fn obj(entries: Vec<(&str, Json)>) -> Json {
        Json::Obj(entries.into_iter().map(|(k, v)| (k.to_string(), v)).collect())
    }
    let value = obj(vec![(
        "streams",
        Json::Arr(vec![obj(vec![
            ("codec_type", Json::Text("video".to_string())),
            ("codec_tag_string", Json::Text("avc1".to_string())),
        ])]),
    )]);
    let info = parse_probe_output(&value);
    assert_eq!(info.video_codec.as_deref(), Some("avc1"));
}

#[test]
fn comments_two_unrelated_files_fail() {
    let none: Vec<FileEntry> = Vec::new();
    let comments = vec![
        entry("/lib/comments/a.comments.json", None),
        entry("/lib/comments/b.comments.json", None),
    ];
    let items = vec![item("unrelated", "t", false, true)];
    let results = verify_local_files(true, &none, &comments, &none, "/lib/comments", "/lib/metadata", &items);
    assert!(!results[0].comments_ok);
}
