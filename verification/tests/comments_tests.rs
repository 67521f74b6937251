use vodlib::json::Json;
use vodlib::models::CommentItem;
use vodlib::parser::{
    extract_runs, extract_text, find_live_chat_renderer, find_video_offset_ms,
    parse_comment_item, parse_comments_lines, parse_comments_value, parse_live_chat_content,
    parse_live_chat_item,
};

fn obj(entries: Vec<(&str, Json)>) -> Json {
    Json::Obj(entries.into_iter().map(|(k, v)| (k.to_string(), v)).collect())
}

fn text(s: &str) -> Json {
    Json::Text(s.to_string())
}

// =========================================================
// extract_text
// =========================================================

#[test]
fn extract_text_simple_text() {
    let value = obj(vec![("simpleText", text("Hello"))]);
    assert_eq!(extract_text(&value), Some("Hello".to_string()));
}

#[test]
fn extract_text_runs() {
    let value = obj(vec![(
        "runs",
        Json::Arr(vec![obj(vec![("text", text("A"))]), obj(vec![("text", text("B"))])]),
    )]);
    assert_eq!(extract_text(&value), Some("AB".to_string()));
}

#[test]
fn extract_text_runs_with_emoji() {
    let value = obj(vec![(
        "runs",
        Json::Arr(vec![
            obj(vec![("text", text("hi "))]),
            obj(vec![("emoji", obj(vec![("emojiId", text("😀"))]))]),
        ]),
    )]);
    assert_eq!(extract_text(&value), Some("hi 😀".to_string()));
}

#[test]
fn extract_text_empty_runs() {
    let value = obj(vec![("runs", Json::Arr(vec![]))]);
    assert_eq!(extract_text(&value), None);
}

#[test]
fn extract_text_no_fields() {
    let value = obj(vec![]);
    assert_eq!(extract_text(&value), None);
}

// =========================================================
// extract_runs
// =========================================================

#[test]
fn extract_runs_text_only() {
    let value = obj(vec![("runs", Json::Arr(vec![obj(vec![("text", text("Hello"))])]))]);
    let runs = extract_runs(&value).unwrap();
    assert_eq!(runs.len(), 1);
    assert_eq!(runs[0].text, Some("Hello".to_string()));
    assert!(runs[0].emoji.is_none());
}

#[test]
fn extract_runs_emoji_with_id() {
    let emoji = obj(vec![
        ("emojiId", text("UC_emoji")),
        ("isCustomEmoji", Json::Bool(true)),
        (
            "image",
            obj(vec![
                ("thumbnails", Json::Arr(vec![obj(vec![("url", text("https://img/e.png"))])])),
                (
                    "accessibility",
                    obj(vec![("accessibilityData", obj(vec![("label", text("fire"))]))]),
                ),
            ]),
        ),
    ]);
    let value = obj(vec![("runs", Json::Arr(vec![obj(vec![("emoji", emoji)])]))]);
    let runs = extract_runs(&value).unwrap();
    assert_eq!(runs.len(), 1);
    let emoji = runs[0].emoji.as_ref().unwrap();
    assert_eq!(emoji.id.as_deref(), Some("UC_emoji"));
    assert_eq!(emoji.is_custom, Some(true));
    assert_eq!(emoji.label.as_deref(), Some("fire"));
}

#[test]
fn extract_runs_empty_array() {
    let value = obj(vec![("runs", Json::Arr(vec![]))]);
    assert!(extract_runs(&value).is_none());
}

#[test]
fn extract_runs_no_runs_key() {
    let value = obj(vec![("other", text("val"))]);
    assert!(extract_runs(&value).is_none());
}

// =========================================================
// find_video_offset_ms
// =========================================================

#[test]
fn find_offset_direct_number() {
    let value = obj(vec![("videoOffsetTimeMsec", Json::Int(12345))]);
    assert_eq!(find_video_offset_ms(&value), Some(12345));
}

#[test]
fn find_offset_string_value() {
    let value = obj(vec![("videoOffsetTimeMsec", text("67890"))]);
    assert_eq!(find_video_offset_ms(&value), Some(67890));
}

#[test]
fn find_offset_nested() {
    let value = obj(vec![(
        "wrapper",
        obj(vec![("inner", obj(vec![("videoOffsetTimeMsec", Json::Int(100))]))]),
    )]);
    assert_eq!(find_video_offset_ms(&value), Some(100));
}

#[test]
fn find_offset_in_array() {
    let value = Json::Arr(vec![obj(vec![("videoOffsetTimeMsec", Json::Int(200))])]);
    assert_eq!(find_video_offset_ms(&value), Some(200));
}

#[test]
fn find_offset_absent() {
    let value = obj(vec![("other", text("value"))]);
    assert_eq!(find_video_offset_ms(&value), None);
}

// =========================================================
// find_live_chat_renderer
// =========================================================

fn simple_renderer(author: &str) -> Json {
    obj(vec![("authorName", obj(vec![("simpleText", text(author))]))])
}

#[test]
fn find_renderer_text_message() {
    let value = obj(vec![("liveChatTextMessageRenderer", simple_renderer("User"))]);
    assert!(find_live_chat_renderer(&value).is_some());
}

#[test]
fn find_renderer_paid_message() {
    let value = obj(vec![("liveChatPaidMessageRenderer", simple_renderer("User"))]);
    assert!(find_live_chat_renderer(&value).is_some());
}

#[test]
fn find_renderer_membership() {
    let value = obj(vec![("liveChatMembershipItemRenderer", simple_renderer("User"))]);
    assert!(find_live_chat_renderer(&value).is_some());
}

#[test]
fn find_renderer_add_chat_item_action() {
    let value = obj(vec![(
        "addChatItemAction",
        obj(vec![(
            "item",
            obj(vec![("liveChatTextMessageRenderer", simple_renderer("User"))]),
        )]),
    )]);
    assert!(find_live_chat_renderer(&value).is_some());
}

#[test]
fn find_renderer_replay_chat() {
    let value = obj(vec![(
        "replayChatItemAction",
        obj(vec![(
            "actions",
            Json::Arr(vec![obj(vec![(
                "addChatItemAction",
                obj(vec![(
                    "item",
                    obj(vec![("liveChatTextMessageRenderer", simple_renderer("U"))]),
                )]),
            )])]),
        )]),
    )]);
    assert!(find_live_chat_renderer(&value).is_some());
}

#[test]
fn find_renderer_none() {
    let value = obj(vec![("other", text("data"))]);
    assert!(find_live_chat_renderer(&value).is_none());
}

// =========================================================
// parse_comment_item
// =========================================================

#[test]
fn parse_comment_normal() {
    let value = obj(vec![
        ("author", text("TestUser")),
        ("text", text("Great video!")),
        ("like_count", Json::Int(5)),
        ("_time_text", text("3 days ago")),
    ]);
    let item = parse_comment_item(&value).unwrap();
    assert_eq!(item.author, "TestUser");
    assert_eq!(item.text, "Great video!");
    assert_eq!(item.like_count, Some(5));
    assert_eq!(item.published_at, Some("3 days ago".to_string()));
}

#[test]
fn parse_comment_content_field() {
    let value = obj(vec![("author", text("User")), ("content", text("Alt text field"))]);
    let item = parse_comment_item(&value).unwrap();
    assert_eq!(item.text, "Alt text field");
}

#[test]
fn parse_comment_timestamp_fallback() {
    let value = obj(vec![
        ("author", text("User")),
        ("text", text("hi")),
        ("timestamp", Json::Int(1700000000)),
    ]);
    let item = parse_comment_item(&value).unwrap();
    assert_eq!(item.published_at, Some("1700000000".to_string()));
}

#[test]
fn parse_comment_no_author() {
    let value = obj(vec![("text", text("orphan"))]);
    assert!(parse_comment_item(&value).is_none());
}

// =========================================================
// parse_comments_value
// =========================================================

#[test]
fn parse_comments_value_array() {
    let value = Json::Arr(vec![
        obj(vec![("author", text("A")), ("text", text("hi"))]),
        obj(vec![("author", text("B")), ("text", text("bye"))]),
    ]);
    let items = parse_comments_value(&value);
    assert_eq!(items.len(), 2);
}

#[test]
fn parse_comments_value_object_with_comments() {
    let value = obj(vec![(
        "comments",
        Json::Arr(vec![obj(vec![("author", text("X")), ("text", text("test"))])]),
    )]);
    let items = parse_comments_value(&value);
    assert_eq!(items.len(), 1);
    assert_eq!(items[0].author, "X");
}

#[test]
fn parse_comments_value_empty_array() {
    let value = Json::Arr(vec![]);
    let items = parse_comments_value(&value);
    assert!(items.is_empty());
}

// =========================================================
// parse_comments_lines (newline-delimited records)
// =========================================================

#[test]
fn parse_comments_lines_jsonl() {
    let content = "{\"author\":\"A\",\"text\":\"line1\"}\n{\"author\":\"B\",\"text\":\"line2\"}";
    let items = parse_comments_lines(content);
    assert_eq!(items.len(), 2);
    assert_eq!(items[0].text, "line1");
    assert_eq!(items[1].text, "line2");
}

#[test]
fn parse_comments_lines_invalid_json() {
    let content = "not json\n{\"author\":\"A\",\"text\":\"ok\"}";
    let items = parse_comments_lines(content);
    assert_eq!(items.len(), 1);
}

// =========================================================
// parse_live_chat_item
// =========================================================

#[test]
fn parse_live_chat_text_message() {
    let value = obj(vec![(
        "liveChatTextMessageRenderer",
        obj(vec![
            ("authorName", obj(vec![("simpleText", text("Chatter"))])),
            ("message", obj(vec![("simpleText", text("Hello stream!"))])),
            ("timestampUsec", text("1700000000000000")),
        ]),
    )]);
    let item = parse_live_chat_item(&value).unwrap();
    assert_eq!(item.author, "Chatter");
    assert_eq!(item.text, "Hello stream!");
    assert_eq!(item.published_at, Some("1700000000000".to_string()));
}

#[test]
fn parse_live_chat_empty_message() {
    let value = obj(vec![(
        "liveChatTextMessageRenderer",
        obj(vec![
            ("authorName", obj(vec![("simpleText", text("User"))])),
            ("message", obj(vec![("simpleText", text(""))])),
        ]),
    )]);
    assert!(parse_live_chat_item(&value).is_none());
}

#[test]
fn parse_live_chat_with_offset() {
    let value = obj(vec![(
        "replayChatItemAction",
        obj(vec![
            ("videoOffsetTimeMsec", text("5000")),
            (
                "actions",
                Json::Arr(vec![obj(vec![(
                    "addChatItemAction",
                    obj(vec![(
                        "item",
                        obj(vec![(
                            "liveChatTextMessageRenderer",
                            obj(vec![
                                ("authorName", obj(vec![("simpleText", text("User"))])),
                                ("message", obj(vec![("simpleText", text("Replay msg"))])),
                            ]),
                        )]),
                    )]),
                )])]),
            ),
        ]),
    )]);
    let item = parse_live_chat_item(&value).unwrap();
    assert_eq!(item.offset_ms, Some(5000));
    assert_eq!(item.author, "User");
    assert_eq!(item.text, "Replay msg");
}

// =========================================================
// parse_live_chat_content
// =========================================================

#[test]
fn parse_live_chat_content_array() {
    let content = "[{\"liveChatTextMessageRenderer\":{\"authorName\":{\"simpleText\":\"A\"},\"message\":{\"simpleText\":\"msg1\"}}},{\"liveChatTextMessageRenderer\":{\"authorName\":{\"simpleText\":\"B\"},\"message\":{\"simpleText\":\"msg2\"}}}]";
    let items = parse_live_chat_content(content);
    assert_eq!(items.len(), 2);
}

#[test]
fn parse_live_chat_content_jsonl() {
    let content = "{\"liveChatTextMessageRenderer\":{\"authorName\":{\"simpleText\":\"A\"},\"message\":{\"simpleText\":\"line\"}}}\n";
    let items = parse_live_chat_content(content);
    assert_eq!(items.len(), 1);
}

#[test]
fn parse_live_chat_content_empty() {
    let items = parse_live_chat_content("{}");
    assert!(items.is_empty());
}

// =========================================================
// ordering across mixed well-formed and malformed lines
// =========================================================

#[test]
fn parse_comments_lines_keeps_order_and_count() {
    let content = "{\"author\":\"A\",\"text\":\"first\"}\nbroken\n{\"author\":\"B\"}\n{\"text\":\"no author\"}\n{\"author\":\"C\",\"text\":\"third\"}";
    let items: Vec<CommentItem> = parse_comments_lines(content);
    assert_eq!(items.len(), 3);
    assert_eq!(items[0].author, "A");
    assert_eq!(items[0].text, "first");
    assert_eq!(items[1].author, "B");
    assert_eq!(items[2].text, "third");
}
