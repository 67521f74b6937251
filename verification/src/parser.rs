use vstd::prelude::*;

use crate::json::{
    jv_as_arr, jv_as_bool, jv_as_i64, jv_as_str, jv_as_u64, jv_entries_get, jv_entries_height,
    jv_get, jv_get_str, jv_height, jv_of, jv_of_entries, jv_of_seq, jv_seq_height,
    lemma_jv_entries_height, lemma_jv_get_height, lemma_jv_of_entries,
    lemma_jv_of_seq, lemma_jv_seq_height, parse_json, parse_json_spec, Json, Jv,
};
use crate::models::{CommentEmoji, CommentEmojiV, CommentItem, CommentItemV, CommentRun, CommentRunV};
use crate::text::{
    i64_to_string, div1000_trunc, parse_i64, parse_u64, spec_div1000_trunc, spec_i64_string,
    spec_lines, spec_parse_i64, spec_parse_u64, split_lines, trim_spec, trim_str, views_of,
};

verus! {

/// The label under an emoji's image accessibility data.
pub open spec fn emoji_label(emoji: Jv) -> Option<Seq<char>> {
    match jv_get(emoji, "image"@) {
        Some(img) => match jv_get(img, "accessibility"@) {
            Some(acc) => match jv_get(acc, "accessibilityData"@) {
                Some(ad) => jv_get_str(ad, "label"@),
                None => None,
            },
            None => None,
        },
        None => None,
    }
}

/// The first shortcut an emoji declares.
pub open spec fn emoji_first_shortcut(emoji: Jv) -> Option<Seq<char>> {
    match jv_get(emoji, "shortcuts"@) {
        Some(Jv::Arr(a)) => if a.len() > 0 {
            jv_as_str(a[0])
        } else {
            None
        },
        _ => None,
    }
}

/// The image address of an emoji: the last thumbnail's address.
pub open spec fn emoji_image_url(emoji: Jv) -> Option<Seq<char>> {
    match jv_get(emoji, "image"@) {
        Some(img) => match jv_get(img, "thumbnails"@) {
            Some(Jv::Arr(a)) => if a.len() > 0 {
                jv_get_str(a[a.len() - 1], "url"@)
            } else {
                None
            },
            _ => None,
        },
        None => None,
    }
}

/// The text one run contributes to the flattened message: literal text, or an
/// emoji rendered through the fallback chain id, accessibility label, first
/// shortcut, else nothing.
pub open spec fn run_text_piece(run: Jv) -> Seq<char> {
    match jv_get_str(run, "text"@) {
        Some(t) => t,
        None => match jv_get(run, "emoji"@) {
            Some(emoji) => match jv_get_str(emoji, "emojiId"@) {
                Some(id) => id,
                None => match emoji_label(emoji) {
                    Some(l) => l,
                    None => match emoji_first_shortcut(emoji) {
                        Some(sc) => sc,
                        None => Seq::empty(),
                    },
                },
            },
            None => Seq::empty(),
        },
    }
}

/// The concatenation of every run's contribution, in order.
pub open spec fn runs_text(runs: Seq<Jv>) -> Seq<char>
    decreases runs.len(),
{
    if runs.len() == 0 {
        Seq::empty()
    } else {
        run_text_piece(runs[0]) + runs_text(runs.drop_first())
    }
}

/// The assembled text of a message value: a pre-rendered string where one is
/// given, else the flattened runs when they contribute anything.
pub open spec fn spec_extract_text(v: Jv) -> Option<Seq<char>> {
    match jv_get_str(v, "simpleText"@) {
        Some(t) => Some(t),
        None => match jv_get(v, "runs"@) {
            Some(Jv::Arr(runs)) => if runs_text(runs).len() > 0 {
                Some(runs_text(runs))
            } else {
                None
            },
            _ => None,
        },
    }
}

/// The rich fragment one run yields, when it yields one: a text run, or an
/// emoji run that resolves at least one of id, label and image address.
pub open spec fn spec_run_item(run: Jv) -> Option<CommentRunV> {
    match jv_get_str(run, "text"@) {
        Some(t) => Some(CommentRunV { text: Some(t), emoji: None }),
        None => match jv_get(run, "emoji"@) {
            Some(emoji) => {
                let id = jv_get_str(emoji, "emojiId"@);
                let label = emoji_label(emoji);
                let url = emoji_image_url(emoji);
                let is_custom = match jv_get(emoji, "isCustomEmoji"@) {
                    Some(j) => jv_as_bool(j),
                    None => None,
                };
                if id is None && label is None && url is None {
                    None
                } else {
                    Some(
                        CommentRunV {
                            text: None,
                            emoji: Some(CommentEmojiV { id, url, label, is_custom }),
                        },
                    )
                }
            },
            None => None,
        },
    }
}

/// The rich fragments of a list of runs, dropped runs left out.
pub open spec fn spec_runs_items(runs: Seq<Jv>) -> Seq<CommentRunV>
    decreases runs.len(),
{
    if runs.len() == 0 {
        Seq::empty()
    } else {
        match spec_run_item(runs[0]) {
            Some(r) => seq![r] + spec_runs_items(runs.drop_first()),
            None => spec_runs_items(runs.drop_first()),
        }
    }
}

/// The rich fragments of a message value, when there are any.
pub open spec fn spec_extract_runs(v: Jv) -> Option<Seq<CommentRunV>> {
    match jv_get(v, "runs"@) {
        Some(Jv::Arr(runs)) => {
            let items = spec_runs_items(runs);
            if items.len() == 0 {
                None
            } else {
                Some(items)
            }
        },
        _ => None,
    }
}

/// The integer under `key`, when it fits a `u64`.
pub open spec fn jv_get_u64(v: Jv, key: Seq<char>) -> Option<u64> {
    match jv_get(v, key) {
        Some(j) => jv_as_u64(j),
        None => None,
    }
}

/// The integer under `key`, when it fits an `i64`.
pub open spec fn jv_get_i64(v: Jv, key: Seq<char>) -> Option<i64> {
    match jv_get(v, key) {
        Some(j) => jv_as_i64(j),
        None => None,
    }
}

/// One plain comment record: requires an author string; text falls back from
/// `text` to `content` to empty; the published time falls back from the
/// human-readable form to the numeric timestamp.
pub open spec fn spec_parse_comment_item(v: Jv) -> Option<CommentItemV> {
    match jv_get_str(v, "author"@) {
        None => None,
        Some(author) => Some(
            CommentItemV {
                author,
                author_photo_url: None,
                text: match jv_get_str(v, "text"@) {
                    Some(t) => t,
                    None => match jv_get_str(v, "content"@) {
                        Some(t) => t,
                        None => Seq::empty(),
                    },
                },
                runs: None,
                like_count: jv_get_u64(v, "like_count"@),
                published_at: match jv_get_str(v, "_time_text"@) {
                    Some(t) => Some(t),
                    None => match jv_get_i64(v, "timestamp"@) {
                        Some(ts) => Some(spec_i64_string(ts as int)),
                        None => None,
                    },
                },
                offset_ms: None,
            },
        ),
    }
}

/// The label under an emoji's image accessibility data.
fn emoji_label_exec(emoji: &Json) -> (r: Option<String>)
    ensures
        r.deep_view() == emoji_label(emoji@),
{
    match emoji.get("image") {
        Some(img) => match img.get("accessibility") {
            Some(acc) => match acc.get("accessibilityData") {
                Some(ad) => ad.get_string("label"),
                None => None,
            },
            None => None,
        },
        None => None,
    }
}

/// The first shortcut an emoji declares.
fn emoji_first_shortcut_exec(emoji: &Json) -> (r: Option<String>)
    ensures
        r.deep_view() == emoji_first_shortcut(emoji@),
{
    match emoji.get("shortcuts") {
        Some(sc) => match sc.as_arr() {
            Some(a) => if a.len() > 0 {
                match a[0].as_str() {
                    Some(s) => Some(s.clone()),
                    None => None,
                }
            } else {
                None
            },
            None => None,
        },
        None => None,
    }
}

/// The image address of an emoji: the last thumbnail's address.
fn emoji_image_url_exec(emoji: &Json) -> (r: Option<String>)
    ensures
        r.deep_view() == emoji_image_url(emoji@),
{
    match emoji.get("image") {
        Some(img) => match img.get("thumbnails") {
            Some(th) => match th.as_arr() {
                Some(a) => if a.len() > 0 {
                    a[a.len() - 1].get_string("url")
                } else {
                    None
                },
                None => None,
            },
            None => None,
        },
        None => None,
    }
}

fn run_text_piece_exec(run: &Json) -> (r: String)
    ensures
        r@ == run_text_piece(run@),
{
    match run.get_string("text") {
        Some(t) => t,
        None => match run.get("emoji") {
            Some(emoji) => match emoji.get_string("emojiId") {
                Some(id) => id,
                None => match emoji_label_exec(emoji) {
                    Some(l) => l,
                    None => match emoji_first_shortcut_exec(emoji) {
                        Some(sc) => sc,
                        None => String::new(),
                    },
                },
            },
            None => String::new(),
        },
    }
}

/// Assembles a message's text, as the flattened form of its runs or its
/// pre-rendered string.
pub fn extract_text(v: &Json) -> (r: Option<String>)
    ensures
        r.deep_view() == spec_extract_text(v@),
{
    match v.get_string("simpleText") {
        Some(t) => Some(t),
        None => match v.get("runs") {
            Some(rs) => match rs.as_arr() {
                Some(runs) => {
                    let n = runs.len();
                    let mut out = String::new();
                    proof {
                        assert(jv_of_seq(runs@).skip(0) =~= jv_of_seq(runs@));
                        assert(out@ + runs_text(jv_of_seq(runs@)) =~= runs_text(jv_of_seq(runs@)));
                    }
                    for i in 0..n
                        invariant
                            n == runs@.len(),
                            jv_as_arr(rs@) == Some(jv_of_seq(runs@)),
                            jv_of_seq(runs@).len() == n,
                            forall|k: int|
                                0 <= k < n ==> jv_of_seq(runs@)[k] == jv_of(runs@[k]),
                            runs_text(jv_of_seq(runs@)) == out@ + runs_text(
                                jv_of_seq(runs@).skip(i as int),
                            ),
                    {
                        let piece = run_text_piece_exec(&runs[i]);
                        proof {
                            let full = jv_of_seq(runs@);
                            assert(full.skip(i as int)[0] == full[i as int]);
                            assert(full.skip(i as int).drop_first() =~= full.skip(i as int + 1));
                        }
                        out.append(piece.as_str());
                    }
                    proof {
                        assert(jv_of_seq(runs@).skip(n as int) =~= Seq::<Jv>::empty());
                        assert(out@ + runs_text(Seq::<Jv>::empty()) =~= out@);
                    }
                    if out.unicode_len() > 0 {
                        Some(out)
                    } else {
                        None
                    }
                },
                None => None,
            },
            None => None,
        },
    }
}

fn run_item_exec(run: &Json) -> (r: Option<CommentRun>)
    ensures
        r.deep_view() == spec_run_item(run@),
{
    match run.get_string("text") {
        Some(t) => Some(CommentRun { text: Some(t), emoji: None }),
        None => match run.get("emoji") {
            Some(emoji) => {
                let id = emoji.get_string("emojiId");
                let label = emoji_label_exec(emoji);
                let url = emoji_image_url_exec(emoji);
                let is_custom = match emoji.get("isCustomEmoji") {
                    Some(j) => j.as_bool(),
                    None => None,
                };
                if id.is_none() && label.is_none() && url.is_none() {
                    None
                } else {
                    Some(
                        CommentRun {
                            text: None,
                            emoji: Some(CommentEmoji { id, url, label, is_custom }),
                        },
                    )
                }
            },
            None => None,
        },
    }
}

/// Collects a message's rich fragments, when it has any.
pub fn extract_runs(v: &Json) -> (r: Option<Vec<CommentRun>>)
    ensures
        r.deep_view() == spec_extract_runs(v@),
{
    match v.get("runs") {
        Some(rs) => match rs.as_arr() {
            Some(runs) => {
                let n = runs.len();
                let mut out: Vec<CommentRun> = Vec::new();
                proof {
                    assert(jv_of_seq(runs@).skip(0) =~= jv_of_seq(runs@));
                    assert(out.deep_view() + spec_runs_items(jv_of_seq(runs@)) =~= spec_runs_items(
                        jv_of_seq(runs@),
                    ));
                }
                for i in 0..n
                    invariant
                        n == runs@.len(),
                        jv_as_arr(rs@) == Some(jv_of_seq(runs@)),
                        jv_of_seq(runs@).len() == n,
                        forall|k: int| 0 <= k < n ==> jv_of_seq(runs@)[k] == jv_of(runs@[k]),
                        spec_runs_items(jv_of_seq(runs@)) == out.deep_view() + spec_runs_items(
                            jv_of_seq(runs@).skip(i as int),
                        ),
                {
                    let ghost old_out = out.deep_view();
                    proof {
                        let full = jv_of_seq(runs@);
                        assert(full.skip(i as int)[0] == full[i as int]);
                        assert(full.skip(i as int).drop_first() =~= full.skip(i as int + 1));
                    }
                    match run_item_exec(&runs[i]) {
                        Some(item) => {
                            out.push(item);
                            proof {
                                assert(out.deep_view() =~= old_out + seq![
                                    spec_run_item(jv_of(runs@[i as int]))->Some_0,
                                ]);
                                assert(out.deep_view() + spec_runs_items(
                                    jv_of_seq(runs@).skip(i as int + 1),
                                ) =~= spec_runs_items(jv_of_seq(runs@)));
                            }
                        },
                        None => {},
                    }
                }
                proof {
                    assert(jv_of_seq(runs@).skip(n as int) =~= Seq::<Jv>::empty());
                    assert(out.deep_view() + spec_runs_items(Seq::<Jv>::empty()) =~= out.deep_view());
                }
                if out.len() == 0 {
                    None
                } else {
                    Some(out)
                }
            },
            None => None,
        },
        None => None,
    }
}

/// Parses one plain comment record.
pub fn parse_comment_item(v: &Json) -> (r: Option<CommentItem>)
    ensures
        r.deep_view() == spec_parse_comment_item(v@),
{
    let author = match v.get_string("author") {
        Some(a) => a,
        None => {
            return None;
        },
    };
    let text = match v.get_string("text") {
        Some(t) => t,
        None => match v.get_string("content") {
            Some(t) => t,
            None => String::new(),
        },
    };
    let like_count = match v.get("like_count") {
        Some(j) => j.as_u64(),
        None => None,
    };
    let published_at = match v.get_string("_time_text") {
        Some(t) => Some(t),
        None => match v.get("timestamp") {
            Some(j) => match j.as_i64() {
                Some(ts) => Some(i64_to_string(ts)),
                None => None,
            },
            None => None,
        },
    };
    Some(
        CommentItem {
            author,
            author_photo_url: None,
            text,
            runs: None,
            like_count,
            published_at,
            offset_ms: None,
        },
    )
}

/// The recognized chat event shape inside an envelope: one of the four known
/// renderer keys directly, else a bounded search through the add-item wrapper
/// and the replay wrapper's action list, first find wins.
pub open spec fn spec_find_renderer(v: Jv) -> Option<Jv>
    decreases jv_height(v), 0nat, 0nat,
{
    if jv_get(v, "liveChatTextMessageRenderer"@) is Some {
        jv_get(v, "liveChatTextMessageRenderer"@)
    } else if jv_get(v, "liveChatPaidMessageRenderer"@) is Some {
        jv_get(v, "liveChatPaidMessageRenderer"@)
    } else if jv_get(v, "liveChatMembershipItemRenderer"@) is Some {
        jv_get(v, "liveChatMembershipItemRenderer"@)
    } else if jv_get(v, "liveChatPaidStickerRenderer"@) is Some {
        jv_get(v, "liveChatPaidStickerRenderer"@)
    } else {
        let from_add = match jv_get(v, "addChatItemAction"@) {
            Some(add) => match jv_get(add, "item"@) {
                Some(item) => {
                    proof {
                        lemma_jv_get_height(v, "addChatItemAction"@);
                        lemma_jv_get_height(add, "item"@);
                    }
                    spec_find_renderer(item)
                },
                None => None,
            },
            None => None,
        };
        if from_add is Some {
            from_add
        } else {
            match jv_get(v, "replayChatItemAction"@) {
                Some(replay) => match jv_get(replay, "actions"@) {
                    Some(acts) => match acts {
                        Jv::Arr(actions) => {
                            proof {
                                lemma_jv_get_height(v, "replayChatItemAction"@);
                                lemma_jv_get_height(replay, "actions"@);
                                assert(jv_seq_height(actions) < jv_height(acts));
                            }
                            spec_find_renderer_list(actions)
                        },
                        _ => None,
                    },
                    None => None,
                },
                None => None,
            }
        }
    }
}

/// The first renderer found in a list of replay actions.
pub open spec fn spec_find_renderer_list(s: Seq<Jv>) -> Option<Jv>
    decreases jv_seq_height(s), 1nat, s.len(),
{
    if s.len() == 0 {
        None
    } else {
        let r = {
            proof {
                lemma_jv_seq_height(s, 0);
            }
            spec_find_renderer(s[0])
        };
        if r is Some {
            r
        } else {
            spec_find_renderer_list(s.drop_first())
        }
    }
}

/// Finds the recognized renderer inside an envelope.
#[verifier::loop_isolation(false)]
pub fn find_live_chat_renderer<'a>(v: &'a Json) -> (r: Option<&'a Json>)
    ensures
        match r {
            Some(j) => spec_find_renderer(v@) == Some(j@),
            None => spec_find_renderer(v@) is None,
        },
    decreases jv_height(v@), 0nat, 0nat,
{
    if let Some(r) = v.get("liveChatTextMessageRenderer") {
        return Some(r);
    }
    if let Some(r) = v.get("liveChatPaidMessageRenderer") {
        return Some(r);
    }
    if let Some(r) = v.get("liveChatMembershipItemRenderer") {
        return Some(r);
    }
    if let Some(r) = v.get("liveChatPaidStickerRenderer") {
        return Some(r);
    }
    if let Some(add) = v.get("addChatItemAction") {
        if let Some(item) = add.get("item") {
            proof {
                lemma_jv_get_height(v@, "addChatItemAction"@);
                lemma_jv_get_height(add@, "item"@);
            }
            if let Some(found) = find_live_chat_renderer(item) {
                return Some(found);
            }
        }
    }
    if let Some(replay) = v.get("replayChatItemAction") {
        if let Some(acts) = replay.get("actions") {
            if let Some(actions) = acts.as_arr() {
                proof {
                    lemma_jv_get_height(v@, "replayChatItemAction"@);
                    lemma_jv_get_height(replay@, "actions"@);
                    lemma_jv_of_seq(actions@);
                    assert(jv_of_seq(actions@).skip(0) =~= jv_of_seq(actions@));
                }
                let n = actions.len();
                for i in 0..n
                    invariant
                        n == actions@.len(),
                        jv_as_arr(acts@) == Some(jv_of_seq(actions@)),
                        jv_of_seq(actions@).len() == n,
                        forall|k: int| 0 <= k < n ==> jv_of_seq(actions@)[k] == jv_of(actions@[k]),
                        jv_seq_height(jv_of_seq(actions@)) < jv_height(v@),
                        spec_find_renderer_list(jv_of_seq(actions@))
                            == spec_find_renderer_list(jv_of_seq(actions@).skip(i as int)),
                {
                    proof {
                        let full = jv_of_seq(actions@);
                        assert(full.skip(i as int)[0] == full[i as int]);
                        assert(full.skip(i as int).drop_first() =~= full.skip(i as int + 1));
                        lemma_jv_seq_height(full, i as int);
                    }
                    if let Some(found) = find_live_chat_renderer(&actions[i]) {
                        return Some(found);
                    }
                }
                proof {
                    assert(jv_of_seq(actions@).skip(n as int) =~= Seq::<Jv>::empty());
                }
            }
        }
    }
    None
}

/// The millisecond offset a value carries, accepting a number or a numeric
/// string under the offset key, else searching every nested container depth
/// first, objects before their order of entries, first find wins.
pub open spec fn spec_find_offset(v: Jv) -> Option<u64>
    decreases jv_height(v), 0nat, 0nat,
{
    match v {
        Jv::Obj(entries) => {
            let direct = match jv_entries_get(entries, "videoOffsetTimeMsec"@) {
                Some(raw) => match jv_as_u64(raw) {
                    Some(n) => Some(n),
                    None => match jv_as_str(raw) {
                        Some(t) => spec_parse_u64(t),
                        None => None,
                    },
                },
                None => None,
            };
            if direct is Some {
                direct
            } else {
                spec_find_offset_entries(entries)
            }
        },
        Jv::Arr(items) => spec_find_offset_list(items),
        _ => None,
    }
}

/// The first offset found under an object's entries, in order.
pub open spec fn spec_find_offset_entries(s: Seq<(Seq<char>, Jv)>) -> Option<u64>
    decreases jv_entries_height(s), 1nat, s.len(),
{
    if s.len() == 0 {
        None
    } else {
        let r = {
            proof {
                lemma_jv_entries_height(s, 0);
            }
            spec_find_offset(s[0].1)
        };
        if r is Some {
            r
        } else {
            spec_find_offset_entries(s.drop_first())
        }
    }
}

/// The first offset found among an array's items, in order.
pub open spec fn spec_find_offset_list(s: Seq<Jv>) -> Option<u64>
    decreases jv_seq_height(s), 1nat, s.len(),
{
    if s.len() == 0 {
        None
    } else {
        let r = {
            proof {
                lemma_jv_seq_height(s, 0);
            }
            spec_find_offset(s[0])
        };
        if r is Some {
            r
        } else {
            spec_find_offset_list(s.drop_first())
        }
    }
}

/// Recovers the video-relative offset from anywhere in an envelope.
#[verifier::loop_isolation(false)]
pub fn find_video_offset_ms(v: &Json) -> (r: Option<u64>)
    ensures
        r == spec_find_offset(v@),
    decreases jv_height(v@), 0nat, 0nat,
{
    match v {
        Json::Obj(entries) => {
            if let Some(raw) = v.get("videoOffsetTimeMsec") {
                if let Some(n) = raw.as_u64() {
                    return Some(n);
                }
                if let Some(t) = raw.as_str() {
                    if let Some(p) = parse_u64(t.as_str()) {
                        return Some(p);
                    }
                }
            }
            let ghost full = jv_of_entries(entries@);
            proof {
                lemma_jv_of_entries(entries@);
                assert(v@ == Jv::Obj(full));
                assert(full.skip(0) =~= full);
            }
            let n = entries.len();
            for i in 0..n
                invariant
                    n == entries@.len(),
                    full == jv_of_entries(entries@),
                    full.len() == n,
                    forall|t: int| 0 <= t < n ==> full[t] == (
                        entries@[t].0@,
                        jv_of(entries@[t].1),
                    ),
                    v@ == Jv::Obj(full),
                    spec_find_offset_entries(full) == spec_find_offset_entries(
                        full.skip(i as int),
                    ),
            {
                proof {
                    assert(full.skip(i as int)[0] == full[i as int]);
                    assert(full.skip(i as int).drop_first() =~= full.skip(i as int + 1));
                    lemma_jv_entries_height(full, i as int);
                    assert(jv_entries_height(full) < jv_height(v@));
                }
                if let Some(found) = find_video_offset_ms(&entries[i].1) {
                    return Some(found);
                }
            }
            proof {
                assert(full.skip(n as int) =~= Seq::<(Seq<char>, Jv)>::empty());
            }
            None
        },
        Json::Arr(items) => {
            let ghost full = jv_of_seq(items@);
            proof {
                lemma_jv_of_seq(items@);
                assert(v@ == Jv::Arr(full));
                assert(full.skip(0) =~= full);
            }
            let n = items.len();
            for i in 0..n
                invariant
                    n == items@.len(),
                    full == jv_of_seq(items@),
                    full.len() == n,
                    forall|t: int| 0 <= t < n ==> full[t] == jv_of(items@[t]),
                    v@ == Jv::Arr(full),
                    spec_find_offset_list(full) == spec_find_offset_list(full.skip(i as int)),
            {
                proof {
                    assert(full.skip(i as int)[0] == full[i as int]);
                    assert(full.skip(i as int).drop_first() =~= full.skip(i as int + 1));
                    lemma_jv_seq_height(full, i as int);
                    assert(jv_seq_height(full) < jv_height(v@));
                }
                if let Some(found) = find_video_offset_ms(&items[i]) {
                    return Some(found);
                }
            }
            proof {
                assert(full.skip(n as int) =~= Seq::<Jv>::empty());
            }
            None
        },
        _ => None,
    }
}

/// The rich fragments of the message under `key`, when both are there.
pub open spec fn opt_field_runs(renderer: Jv, key: Seq<char>) -> Option<Seq<CommentRunV>> {
    match jv_get(renderer, key) {
        Some(m) => spec_extract_runs(m),
        None => None,
    }
}

/// The assembled text of the message under `key`, when both are there.
pub open spec fn opt_field_text(renderer: Jv, key: Seq<char>) -> Option<Seq<char>> {
    match jv_get(renderer, key) {
        Some(m) => spec_extract_text(m),
        None => None,
    }
}

/// A chat renderer's rich fragments: the message, else the header subtext,
/// else the subtext.
pub open spec fn renderer_runs(r: Jv) -> Option<Seq<CommentRunV>> {
    match opt_field_runs(r, "message"@) {
        Some(x) => Some(x),
        None => match opt_field_runs(r, "headerSubtext"@) {
            Some(x) => Some(x),
            None => opt_field_runs(r, "subtext"@),
        },
    }
}

/// A chat renderer's plain text, with the same fallback order, else empty.
pub open spec fn renderer_text(r: Jv) -> Seq<char> {
    match opt_field_text(r, "message"@) {
        Some(t) => t,
        None => match opt_field_text(r, "headerSubtext"@) {
            Some(t) => t,
            None => match opt_field_text(r, "subtext"@) {
                Some(t) => t,
                None => Seq::empty(),
            },
        },
    }
}

/// A chat renderer's author name, or the fixed placeholder when none
/// resolves.
pub open spec fn renderer_author(r: Jv) -> Seq<char> {
    match opt_field_text(r, "authorName"@) {
        Some(a) => a,
        None => "unknown"@,
    }
}

/// The author's last photo thumbnail address.
pub open spec fn renderer_photo(r: Jv) -> Option<Seq<char>> {
    match jv_get(r, "authorPhoto"@) {
        Some(p) => match jv_get(p, "thumbnails"@) {
            Some(Jv::Arr(a)) => if a.len() > 0 {
                jv_get_str(a[a.len() - 1], "url"@)
            } else {
                None
            },
            _ => None,
        },
        None => None,
    }
}

/// A chat renderer's published time: the microsecond timestamp scaled to
/// milliseconds, else the readable timestamp text.
pub open spec fn renderer_published(r: Jv) -> Option<Seq<char>> {
    match jv_get_str(r, "timestampUsec"@) {
        Some(t) => match spec_parse_i64(t) {
            Some(us) => Some(spec_i64_string(spec_div1000_trunc(us as int))),
            None => opt_field_text(r, "timestampText"@),
        },
        None => opt_field_text(r, "timestampText"@),
    }
}

/// One chat message out of an envelope: a recognized renderer whose text or
/// fragments carry something; an all-empty message is dropped.
pub open spec fn spec_parse_live_chat_item(v: Jv) -> Option<CommentItemV> {
    match spec_find_renderer(v) {
        None => None,
        Some(renderer) => {
            let text = renderer_text(renderer);
            let runs = renderer_runs(renderer);
            if trim_spec(text).len() == 0 && runs is None {
                None
            } else {
                Some(
                    CommentItemV {
                        author: renderer_author(renderer),
                        author_photo_url: renderer_photo(renderer),
                        text,
                        runs,
                        like_count: None,
                        published_at: renderer_published(renderer),
                        offset_ms: spec_find_offset(v),
                    },
                )
            }
        },
    }
}

fn opt_field_runs_exec(renderer: &Json, key: &str) -> (r: Option<Vec<CommentRun>>)
    ensures
        r.deep_view() == opt_field_runs(renderer@, key@),
{
    match renderer.get(key) {
        Some(m) => extract_runs(m),
        None => None,
    }
}

fn opt_field_text_exec(renderer: &Json, key: &str) -> (r: Option<String>)
    ensures
        r.deep_view() == opt_field_text(renderer@, key@),
{
    match renderer.get(key) {
        Some(m) => extract_text(m),
        None => None,
    }
}

/// Parses one live-chat envelope into a normalized message.
pub fn parse_live_chat_item(v: &Json) -> (r: Option<CommentItem>)
    ensures
        r.deep_view() == spec_parse_live_chat_item(v@),
{
    let renderer = match find_live_chat_renderer(v) {
        Some(r) => r,
        None => {
            return None;
        },
    };
    let text = match opt_field_text_exec(renderer, "message") {
        Some(t) => t,
        None => match opt_field_text_exec(renderer, "headerSubtext") {
            Some(t) => t,
            None => match opt_field_text_exec(renderer, "subtext") {
                Some(t) => t,
                None => String::new(),
            },
        },
    };
    let runs = match opt_field_runs_exec(renderer, "message") {
        Some(x) => Some(x),
        None => match opt_field_runs_exec(renderer, "headerSubtext") {
            Some(x) => Some(x),
            None => opt_field_runs_exec(renderer, "subtext"),
        },
    };
    let trimmed = trim_str(text.as_str());
    if trimmed.as_str().unicode_len() == 0 && runs.is_none() {
        return None;
    }
    let author = match opt_field_text_exec(renderer, "authorName") {
        Some(a) => a,
        None => "unknown".to_owned(),
    };
    let author_photo_url = match renderer.get("authorPhoto") {
        Some(p) => match p.get("thumbnails") {
            Some(th) => match th.as_arr() {
                Some(a) => if a.len() > 0 {
                    a[a.len() - 1].get_string("url")
                } else {
                    None
                },
                None => None,
            },
            None => None,
        },
        None => None,
    };
    let published_at = match renderer.get_str("timestampUsec") {
        Some(t) => match parse_i64(t.as_str()) {
            Some(us) => Some(i64_to_string(div1000_trunc(us))),
            None => opt_field_text_exec(renderer, "timestampText"),
        },
        None => opt_field_text_exec(renderer, "timestampText"),
    };
    let offset_ms = find_video_offset_ms(v);
    Some(
        CommentItem {
            author,
            author_photo_url,
            text,
            runs,
            like_count: None,
            published_at,
            offset_ms,
        },
    )
}

/// The plain comment records among an array, in order.
pub open spec fn spec_parse_items(arr: Seq<Jv>) -> Seq<CommentItemV>
    decreases arr.len(),
{
    if arr.len() == 0 {
        Seq::empty()
    } else {
        match spec_parse_comment_item(arr[0]) {
            Some(c) => seq![c] + spec_parse_items(arr.drop_first()),
            None => spec_parse_items(arr.drop_first()),
        }
    }
}

/// The chat messages among an array of envelopes, in order.
pub open spec fn spec_chat_items(arr: Seq<Jv>) -> Seq<CommentItemV>
    decreases arr.len(),
{
    if arr.len() == 0 {
        Seq::empty()
    } else {
        match spec_parse_live_chat_item(arr[0]) {
            Some(c) => seq![c] + spec_chat_items(arr.drop_first()),
            None => spec_chat_items(arr.drop_first()),
        }
    }
}

/// The comments a single parsed value holds: an array of records, or an
/// object wrapping one under its comments key.
pub open spec fn spec_parse_comments_value(v: Jv) -> Seq<CommentItemV> {
    match v {
        Jv::Arr(arr) => spec_parse_items(arr),
        _ => match jv_get(v, "comments"@) {
            Some(Jv::Arr(arr)) => spec_parse_items(arr),
            _ => Seq::empty(),
        },
    }
}

/// Collects the comments of one parsed value.
#[verifier::loop_isolation(false)]
pub fn parse_comments_value(v: &Json) -> (r: Vec<CommentItem>)
    ensures
        r.deep_view() == spec_parse_comments_value(v@),
{
    let arr: &Vec<Json> = match v {
        Json::Arr(a) => a,
        _ => match v.get("comments") {
            Some(c) => match c.as_arr() {
                Some(a) => a,
                None => {
                    let out: Vec<CommentItem> = Vec::new();
                    proof {
                        assert(out.deep_view() =~= Seq::<CommentItemV>::empty());
                    }
                    return out;
                },
            },
            None => {
                let out: Vec<CommentItem> = Vec::new();
                proof {
                    assert(out.deep_view() =~= Seq::<CommentItemV>::empty());
                }
                return out;
            },
        },
    };
    let ghost full = jv_of_seq(arr@);
    proof {
        lemma_jv_of_seq(arr@);
        assert(full.skip(0) =~= full);
    }
    let n = arr.len();
    let mut out: Vec<CommentItem> = Vec::new();
    proof {
        assert(out.deep_view() + spec_parse_items(full) =~= spec_parse_items(full));
    }
    for i in 0..n
        invariant
            n == arr@.len(),
            full == jv_of_seq(arr@),
            spec_parse_items(full) == out.deep_view() + spec_parse_items(full.skip(i as int)),
    {
        let ghost old_out = out.deep_view();
        proof {
            assert(full.skip(i as int)[0] == full[i as int]);
            assert(full.skip(i as int).drop_first() =~= full.skip(i as int + 1));
        }
        match parse_comment_item(&arr[i]) {
            Some(c) => {
                out.push(c);
                proof {
                    assert(out.deep_view() =~= old_out + seq![
                        spec_parse_comment_item(full[i as int])->Some_0,
                    ]);
                    assert(out.deep_view() + spec_parse_items(full.skip(i as int + 1))
                        =~= spec_parse_items(full));
                }
            },
            None => {},
        }
    }
    proof {
        assert(full.skip(n as int) =~= Seq::<Jv>::empty());
        assert(out.deep_view() + spec_parse_items(Seq::<Jv>::empty()) =~= out.deep_view());
    }
    out
}

/// The records on each well-formed line, in order: a line that does not parse
/// or does not hold a comment yields nothing.
pub open spec fn spec_lines_items(lines: Seq<Seq<char>>) -> Seq<CommentItemV>
    decreases lines.len(),
{
    if lines.len() == 0 {
        Seq::empty()
    } else {
        let head = match parse_json_spec(lines[0]) {
            Some(v) => spec_parse_comment_item(v),
            None => None,
        };
        match head {
            Some(c) => seq![c] + spec_lines_items(lines.drop_first()),
            None => spec_lines_items(lines.drop_first()),
        }
    }
}

/// What parsing newline-delimited comment records yields.
pub open spec fn spec_parse_comments_lines(s: Seq<char>) -> Seq<CommentItemV> {
    spec_lines_items(spec_lines(s))
}

/// Parses newline-delimited comment records, skipping bad lines one by one.
#[verifier::loop_isolation(false)]
pub fn parse_comments_lines(content: &str) -> (r: Vec<CommentItem>)
    ensures
        r.deep_view() == spec_parse_comments_lines(content@),
{
    let lines = split_lines(content);
    let ghost lv = spec_lines(content@);
    proof {
        assert(lv.skip(0) =~= lv);
    }
    let n = lines.len();
    let mut out: Vec<CommentItem> = Vec::new();
    proof {
        assert(out.deep_view() + spec_lines_items(lv) =~= spec_lines_items(lv));
    }
    for i in 0..n
        invariant
            n == lines@.len(),
            lv == views_of(lines@),
            lv == spec_lines(content@),
            spec_lines_items(lv) == out.deep_view() + spec_lines_items(lv.skip(i as int)),
    {
        let ghost old_out = out.deep_view();
        proof {
            assert(lv.skip(i as int)[0] == lv[i as int]);
            assert(lv[i as int] == lines@[i as int]@);
            assert(lv.skip(i as int).drop_first() =~= lv.skip(i as int + 1));
        }
        match parse_json(lines[i].as_str()) {
            Some(v) => match parse_comment_item(&v) {
                Some(c) => {
                    out.push(c);
                    proof {
                        assert(out.deep_view() =~= old_out + seq![c.deep_view()]);
                        assert(out.deep_view() + spec_lines_items(lv.skip(i as int + 1))
                            =~= spec_lines_items(lv));
                    }
                },
                None => {},
            },
            None => {},
        }
    }
    proof {
        assert(lv.skip(n as int) =~= Seq::<Seq<char>>::empty());
        assert(out.deep_view() + spec_lines_items(Seq::<Seq<char>>::empty()) =~= out.deep_view());
    }
    out
}

/// The chat messages on each well-formed line, in order.
pub open spec fn spec_chat_lines_items(lines: Seq<Seq<char>>) -> Seq<CommentItemV>
    decreases lines.len(),
{
    if lines.len() == 0 {
        Seq::empty()
    } else {
        let head = match parse_json_spec(lines[0]) {
            Some(v) => spec_parse_live_chat_item(v),
            None => None,
        };
        match head {
            Some(c) => seq![c] + spec_chat_lines_items(lines.drop_first()),
            None => spec_chat_lines_items(lines.drop_first()),
        }
    }
}

/// What parsing a live-chat replay file yields: a top-level array of
/// envelopes when it holds any message, a single envelope, else the envelopes
/// line by line.
pub open spec fn spec_parse_live_chat_content(s: Seq<char>) -> Seq<CommentItemV> {
    let arr_items = match parse_json_spec(s) {
        Some(Jv::Arr(arr)) => spec_chat_items(arr),
        _ => Seq::empty(),
    };
    let single = match parse_json_spec(s) {
        Some(v) => if !(v is Arr) {
            spec_parse_live_chat_item(v)
        } else {
            None
        },
        None => None,
    };
    if arr_items.len() > 0 {
        arr_items
    } else if single is Some {
        seq![single->Some_0]
    } else {
        spec_chat_lines_items(spec_lines(s))
    }
}

/// Parses live-chat replay text in any of its on-disk shapes.
#[verifier::loop_isolation(false)]
#[verifier::rlimit(60)]
pub fn parse_live_chat_content(content: &str) -> (r: Vec<CommentItem>)
    ensures
        r.deep_view() == spec_parse_live_chat_content(content@),
{
    match parse_json(content) {
        Some(v) => {
            match &v {
                Json::Arr(arr) => {
                    let ghost full = jv_of_seq(arr@);
                    proof {
                        lemma_jv_of_seq(arr@);
                        assert(full.skip(0) =~= full);
                    }
                    let n = arr.len();
                    let mut out: Vec<CommentItem> = Vec::new();
                    proof {
                        assert(out.deep_view() + spec_chat_items(full) =~= spec_chat_items(full));
                    }
                    for i in 0..n
                        invariant
                            n == arr@.len(),
                            full == jv_of_seq(arr@),
                            spec_chat_items(full) == out.deep_view() + spec_chat_items(
                                full.skip(i as int),
                            ),
                    {
                        let ghost old_out = out.deep_view();
                        proof {
                            assert(full.skip(i as int)[0] == full[i as int]);
                            assert(full.skip(i as int).drop_first() =~= full.skip(i as int + 1));
                        }
                        match parse_live_chat_item(&arr[i]) {
                            Some(c) => {
                                out.push(c);
                                proof {
                                    assert(out.deep_view() =~= old_out + seq![
                                        spec_parse_live_chat_item(full[i as int])->Some_0,
                                    ]);
                                    assert(out.deep_view() + spec_chat_items(
                                        full.skip(i as int + 1),
                                    ) =~= spec_chat_items(full));
                                }
                            },
                            None => {},
                        }
                    }
                    proof {
                        assert(full.skip(n as int) =~= Seq::<Jv>::empty());
                        assert(out.deep_view() + spec_chat_items(Seq::<Jv>::empty())
                            =~= out.deep_view());
                    }
                    if out.len() > 0 {
                        return out;
                    }
                },
                _ => {
                    if let Some(c) = parse_live_chat_item(&v) {
                        let ghost cv = c.deep_view();
                        let mut out: Vec<CommentItem> = Vec::new();
                        out.push(c);
                        proof {
                            assert(out.deep_view() =~= seq![cv]);
                        }
                        return out;
                    }
                },
            }
        },
        None => {},
    }
    let lines = split_lines(content);
    let ghost lv = spec_lines(content@);
    proof {
        assert(lv.skip(0) =~= lv);
    }
    let n = lines.len();
    let mut out: Vec<CommentItem> = Vec::new();
    proof {
        assert(out.deep_view() + spec_chat_lines_items(lv) =~= spec_chat_lines_items(lv));
    }
    for i in 0..n
        invariant
            n == lines@.len(),
            lv == views_of(lines@),
            lv == spec_lines(content@),
            spec_chat_lines_items(lv) == out.deep_view() + spec_chat_lines_items(
                lv.skip(i as int),
            ),
    {
        let ghost old_out = out.deep_view();
        proof {
            assert(lv.skip(i as int)[0] == lv[i as int]);
            assert(lv[i as int] == lines@[i as int]@);
            assert(lv.skip(i as int).drop_first() =~= lv.skip(i as int + 1));
        }
        match parse_json(lines[i].as_str()) {
            Some(v) => match parse_live_chat_item(&v) {
                Some(c) => {
                    out.push(c);
                    proof {
                        assert(out.deep_view() =~= old_out + seq![c.deep_view()]);
                        assert(out.deep_view() + spec_chat_lines_items(lv.skip(i as int + 1))
                            =~= spec_chat_lines_items(lv));
                    }
                },
                None => {},
            },
            None => {},
        }
    }
    proof {
        assert(lv.skip(n as int) =~= Seq::<Seq<char>>::empty());
        assert(out.deep_view() + spec_chat_lines_items(Seq::<Seq<char>>::empty())
            =~= out.deep_view());
    }
    out
}

/// What parsing one comment artifact yields: live-chat shapes for a chat
/// file; otherwise one JSON value, else the records line by line.
pub open spec fn spec_parse_comment_content(s: Seq<char>, is_chat: bool) -> Seq<CommentItemV> {
    if is_chat {
        spec_parse_live_chat_content(s)
    } else {
        match parse_json_spec(s) {
            Some(v) => spec_parse_comments_value(v),
            None => spec_parse_comments_lines(s),
        }
    }
}

/// Turns raw comment or chat text into the normalized items. Unparsable
/// input yields fewer items, never an error.
pub fn parse_comment_content(content: &str, is_chat: bool) -> (r: Vec<CommentItem>)
    ensures
        r.deep_view() == spec_parse_comment_content(content@, is_chat),
{
    if is_chat {
        parse_live_chat_content(content)
    } else {
        match parse_json(content) {
            Some(v) => parse_comments_value(&v),
            None => parse_comments_lines(content),
        }
    }
}

/// The comment one newline-delimited line carries, when it parses and holds
/// one.
pub open spec fn line_comment(l: Seq<char>) -> Option<CommentItemV> {
    match parse_json_spec(l) {
        Some(v) => spec_parse_comment_item(v),
        None => None,
    }
}

proof fn lemma_lines_items_push(lines: Seq<Seq<char>>, x: Seq<char>)
    ensures
        spec_lines_items(lines.push(x)) == spec_lines_items(lines) + (match line_comment(x) {
            Some(c) => seq![c],
            None => Seq::<CommentItemV>::empty(),
        }),
    decreases lines.len(),
{
    if lines.len() == 0 {
        let pushed = lines.push(x);
        assert(pushed.len() == 1);
        assert(pushed[0] == x);
        assert(pushed.drop_first() =~= Seq::<Seq<char>>::empty());
        assert(spec_lines_items(pushed.drop_first()) =~= Seq::<CommentItemV>::empty());
        match line_comment(x) {
            Some(c) => {
                assert(spec_lines_items(pushed) == seq![c] + spec_lines_items(
                    pushed.drop_first(),
                ));
                assert(spec_lines_items(pushed) =~= seq![c]);
                assert(spec_lines_items(lines) + seq![c] =~= seq![c]);
            },
            None => {
                assert(spec_lines_items(pushed) == spec_lines_items(pushed.drop_first()));
                assert(spec_lines_items(lines) + Seq::<CommentItemV>::empty() =~= Seq::<
                    CommentItemV,
                >::empty());
            },
        }
    } else {
        lemma_lines_items_push(lines.drop_first(), x);
        assert(lines.push(x)[0] == lines[0]);
        assert(lines.push(x).drop_first() =~= lines.drop_first().push(x));
        let tail_opt = (match line_comment(x) {
            Some(c) => seq![c],
            None => Seq::<CommentItemV>::empty(),
        });
        match line_comment(lines[0]) {
            Some(c) => {
                assert(seq![c] + (spec_lines_items(lines.drop_first()) + tail_opt) =~= (seq![c]
                    + spec_lines_items(lines.drop_first())) + tail_opt);
            },
            None => {},
        }
    }
}

/// With well-formed and malformed newline-delimited records interleaved, the
/// parsed items are exactly the well-formed lines' comments, one each, in the
/// lines' original order.
pub proof fn lemma_parse_lines_exact(lines: Seq<Seq<char>>)
    ensures
        spec_lines_items(lines) == lines.filter_map(|l: Seq<char>| line_comment(l)),
    decreases lines.len(),
{
    let f = |l: Seq<char>| line_comment(l);
    if lines.len() == 0 {
        assert(spec_lines_items(lines) =~= lines.filter_map(f));
    } else {
        lemma_parse_lines_exact(lines.drop_last());
        lemma_lines_items_push(lines.drop_last(), lines.last());
        assert(lines.drop_last().push(lines.last()) =~= lines);
        match f(lines.last()) {
            Some(c) => {
                assert(lines.filter_map(f) == lines.drop_last().filter_map(f) + seq![c]);
            },
            None => {
                assert(lines.filter_map(f) == lines.drop_last().filter_map(f));
                assert(spec_lines_items(lines.drop_last()) + Seq::<CommentItemV>::empty()
                    =~= spec_lines_items(lines.drop_last()));
            },
        }
    }
}

/// The items of one artifact, cut to a requested limit.
pub open spec fn spec_limited(items: Seq<CommentItemV>, limit: Option<usize>) -> Seq<
    CommentItemV,
> {
    match limit {
        Some(l) => if items.len() > l {
            items.take(l as int)
        } else {
            items
        },
        None => items,
    }
}

/// Parses one comment artifact and keeps at most `limit` items.
pub fn parse_comments_with_limit(content: &str, is_chat: bool, limit: Option<usize>) -> (r: Vec<
    CommentItem,
>)
    ensures
        r.deep_view() == spec_limited(spec_parse_comment_content(content@, is_chat), limit),
{
    let mut items = parse_comment_content(content, is_chat);
    if let Some(l) = limit {
        if items.len() > l {
            let ghost before = items.deep_view();
            items.truncate(l);
            proof {
                assert(items.deep_view() =~= before.take(l as int));
            }
        }
    }
    items
}

} // verus!
