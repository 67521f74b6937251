use vstd::prelude::*;

use crate::json::{jv_as_arr, jv_as_str, jv_get, jv_get_str, jv_of, jv_of_seq, lemma_jv_of_seq, Json, Jv};
use crate::models::{VideoMetadata, VideoMetadataV};
use crate::parser::{jv_get_i64, jv_get_u64};
use crate::text::{
    chars_of, contains_seq, contains_str, lower, match_at, starts_with_str,
    starts_with_seq, str_eq, string_of, to_lower_string, trim_spec, trim_str, views_of,
};

verus! {

/// The string values among an array's items, in order.
pub open spec fn jv_str_items(arr: Seq<Jv>) -> Seq<Seq<char>>
    decreases arr.len(),
{
    if arr.len() == 0 {
        Seq::empty()
    } else {
        match jv_as_str(arr[0]) {
            Some(s) => seq![s] + jv_str_items(arr.drop_first()),
            None => jv_str_items(arr.drop_first()),
        }
    }
}

/// The optional list of strings under `key`.
pub open spec fn jv_get_str_list(v: Jv, key: Seq<char>) -> Option<Seq<Seq<char>>> {
    match jv_get(v, key) {
        Some(Jv::Arr(arr)) => Some(jv_str_items(arr)),
        _ => None,
    }
}

#[verifier::loop_isolation(false)]
fn get_str_list(v: &Json, key: &str) -> (r: Option<Vec<String>>)
    ensures
        r.deep_view() == jv_get_str_list(v@, key@),
{
    match v.get(key) {
        Some(a) => match a.as_arr() {
            Some(arr) => {
                let ghost full = jv_of_seq(arr@);
                proof {
                    assert(full.skip(0) =~= full);
                }
                let n = arr.len();
                let mut out: Vec<String> = Vec::new();
                proof {
                    assert(out.deep_view() + jv_str_items(full) =~= jv_str_items(full));
                }
                for i in 0..n
                    invariant
                        n == arr@.len(),
                        full == jv_of_seq(arr@),
                        jv_as_arr(a@) == Some(full),
                        full.len() == n,
                        forall|k: int| 0 <= k < n ==> full[k] == jv_of(arr@[k]),
                        jv_str_items(full) == out.deep_view() + jv_str_items(
                            full.skip(i as int),
                        ),
                {
                    let ghost old_out = out.deep_view();
                    proof {
                        assert(full.skip(i as int)[0] == full[i as int]);
                        assert(full.skip(i as int).drop_first() =~= full.skip(i as int + 1));
                    }
                    match arr[i].as_str() {
                        Some(s) => {
                            let item = s.clone();
                            out.push(item);
                            proof {
                                assert(out.deep_view() =~= old_out + seq![
                                    jv_as_str(full[i as int])->Some_0,
                                ]);
                                assert(out.deep_view() + jv_str_items(full.skip(i as int + 1))
                                    =~= jv_str_items(full));
                            }
                        },
                        None => {},
                    }
                }
                proof {
                    assert(full.skip(n as int) =~= Seq::<Jv>::empty());
                    assert(out.deep_view() + jv_str_items(Seq::<Jv>::empty()) =~= out.deep_view());
                }
                Some(out)
            },
            None => None,
        },
        None => None,
    }
}

/// The channel name of a record: its channel, uploader or channel-title
/// field, in that order.
pub open spec fn jv_channel_name(v: Jv) -> Option<Seq<char>> {
    match jv_get_str(v, "channel"@) {
        Some(s) => Some(s),
        None => match jv_get_str(v, "uploader"@) {
            Some(s) => Some(s),
            None => jv_get_str(v, "channel_title"@),
        },
    }
}

fn channel_name(v: &Json) -> (r: Option<String>)
    ensures
        r.deep_view() == jv_channel_name(v@),
{
    match v.get_string("channel") {
        Some(s) => Some(s),
        None => match v.get_string("uploader") {
            Some(s) => Some(s),
            None => v.get_string("channel_title"),
        },
    }
}

/// The structured record a metadata value denotes, field by field.
pub open spec fn spec_video_metadata(v: Jv) -> VideoMetadataV {
    VideoMetadataV {
        id: jv_get_str(v, "id"@),
        title: jv_get_str(v, "title"@),
        channel: jv_channel_name(v),
        thumbnail: jv_get_str(v, "thumbnail"@),
        url: jv_get_str(v, "url"@),
        webpage_url: jv_get_str(v, "webpage_url"@),
        duration_sec: jv_get_u64(v, "duration"@),
        upload_date: jv_get_str(v, "upload_date"@),
        release_timestamp: jv_get_i64(v, "release_timestamp"@),
        timestamp: jv_get_i64(v, "timestamp"@),
        live_status: jv_get_str(v, "live_status"@),
        is_live: (match jv_get(v, "is_live"@) {
            Some(j) => crate::json::jv_as_bool(j),
            None => None,
        }),
        was_live: (match jv_get(v, "was_live"@) {
            Some(j) => crate::json::jv_as_bool(j),
            None => None,
        }),
        view_count: jv_get_u64(v, "view_count"@),
        like_count: jv_get_u64(v, "like_count"@),
        comment_count: jv_get_u64(v, "comment_count"@),
        tags: jv_get_str_list(v, "tags"@),
        categories: jv_get_str_list(v, "categories"@),
        description: jv_get_str(v, "description"@),
        channel_id: jv_get_str(v, "channel_id"@),
        uploader_id: jv_get_str(v, "uploader_id"@),
        channel_url: jv_get_str(v, "channel_url"@),
        uploader_url: jv_get_str(v, "uploader_url"@),
        availability: jv_get_str(v, "availability"@),
        language: jv_get_str(v, "language"@),
        audio_language: jv_get_str(v, "audio_language"@),
        age_limit: jv_get_u64(v, "age_limit"@),
    }
}

fn get_u64_field(v: &Json, key: &str) -> (r: Option<u64>)
    ensures
        r == jv_get_u64(v@, key@),
{
    match v.get(key) {
        Some(j) => j.as_u64(),
        None => None,
    }
}

fn get_i64_field(v: &Json, key: &str) -> (r: Option<i64>)
    ensures
        r == jv_get_i64(v@, key@),
{
    match v.get(key) {
        Some(j) => j.as_i64(),
        None => None,
    }
}

fn get_bool_field(v: &Json, key: &str) -> (r: Option<bool>)
    ensures
        r == (match jv_get(v@, key@) {
            Some(j) => crate::json::jv_as_bool(j),
            None => None,
        }),
{
    match v.get(key) {
        Some(j) => j.as_bool(),
        None => None,
    }
}

/// Normalizes one parsed record into the structured metadata the library
/// keeps, every absent or ill-typed field simply empty.
pub fn parse_video_metadata_value(v: &Json) -> (r: VideoMetadata)
    ensures
        r.deep_view() == spec_video_metadata(v@),
{
    VideoMetadata {
        id: v.get_string("id"),
        title: v.get_string("title"),
        channel: channel_name(v),
        thumbnail: v.get_string("thumbnail"),
        url: v.get_string("url"),
        webpage_url: v.get_string("webpage_url"),
        duration_sec: get_u64_field(v, "duration"),
        upload_date: v.get_string("upload_date"),
        release_timestamp: get_i64_field(v, "release_timestamp"),
        timestamp: get_i64_field(v, "timestamp"),
        live_status: v.get_string("live_status"),
        is_live: get_bool_field(v, "is_live"),
        was_live: get_bool_field(v, "was_live"),
        view_count: get_u64_field(v, "view_count"),
        like_count: get_u64_field(v, "like_count"),
        comment_count: get_u64_field(v, "comment_count"),
        tags: get_str_list(v, "tags"),
        categories: get_str_list(v, "categories"),
        description: v.get_string("description"),
        channel_id: v.get_string("channel_id"),
        uploader_id: v.get_string("uploader_id"),
        channel_url: v.get_string("channel_url"),
        uploader_url: v.get_string("uploader_url"),
        availability: v.get_string("availability"),
        language: v.get_string("language"),
        audio_language: v.get_string("audio_language"),
        age_limit: get_u64_field(v, "age_limit"),
    }
}

/// Every non-overlapping occurrence of a pattern removed, left to right.
pub open spec fn remove_occurrences(s: Seq<char>, pat: Seq<char>) -> Seq<char>
    decreases s.len(),
{
    if pat.len() == 0 || s.len() == 0 {
        s
    } else if match_at(s, pat, 0) {
        remove_occurrences(s.skip(pat.len() as int), pat)
    } else {
        seq![s[0]] + remove_occurrences(s.drop_first(), pat)
    }
}

/// Removes every occurrence of a nonempty pattern, as replacing it with
/// nothing does.
#[verifier::loop_isolation(false)]
pub fn remove_all(s: &str, pat: &str) -> (r: String)
    requires
        pat@.len() > 0,
    ensures
        r@ == remove_occurrences(s@, pat@),
{
    let cs = chars_of(s);
    let p = chars_of(pat);
    let n = cs.len();
    let m = p.len();
    let mut out: Vec<char> = Vec::new();
    let mut i: usize = 0;
    proof {
        assert(cs@.skip(0) =~= cs@);
        assert(out@ + remove_occurrences(cs@, p@) =~= remove_occurrences(cs@, p@));
    }
    while i < n
        invariant
            0 <= i <= n,
            remove_occurrences(s@, pat@) == out@ + remove_occurrences(cs@.skip(i as int), p@),
        decreases n - i,
    {
        let ghost rest = cs@.skip(i as int);
        proof {
            assert(rest[0] == cs@[i as int]);
            assert(rest.drop_first() =~= cs@.skip(i as int + 1));
        }
        if m <= n - i && crate::text::match_at_exec(&cs, &p, i) {
            proof {
                assert(match_at(rest, p@, 0)) by {
                    assert(forall|k: int|
                        0 <= k < p@.len() ==> rest[k] == cs@[i + k]);
                }
                assert(rest.skip(m as int) =~= cs@.skip(i as int + m));
            }
            i += m;
        } else {
            proof {
                if i + m <= n {
                    assert(!match_at(rest, p@, 0)) by {
                        let w = choose|w: int|
                            0 <= w < p@.len() && cs@[i + w] != p@[w];
                        assert(rest[w] == cs@[i + w]);
                    }
                } else {
                    assert(!match_at(rest, p@, 0));
                }
            }
            let ghost old_out = out@;
            out.push(cs[i]);
            proof {
                assert(out@ =~= old_out + seq![cs@[i as int]]);
                assert(out@ + remove_occurrences(cs@.skip(i as int + 1), p@) =~= old_out + (seq![
                    cs@[i as int],
                ] + remove_occurrences(cs@.skip(i as int + 1), p@)));
            }
            i += 1;
        }
    }
    proof {
        assert(cs@.skip(n as int) =~= Seq::<char>::empty());
        assert(out@ + remove_occurrences(Seq::<char>::empty(), p@) =~= out@);
    }
    string_of(&out)
}

/// Trailing separators dropped from a channel address.
pub open spec fn strip_trailing_slashes(s: Seq<char>) -> Seq<char>
    decreases s.len(),
{
    if s.len() > 0 && s.last() == '/' {
        strip_trailing_slashes(s.drop_last())
    } else {
        s
    }
}

fn strip_trailing_slashes_exec(s: &str) -> (r: String)
    ensures
        r@ == strip_trailing_slashes(s@),
{
    let mut cs = chars_of(s);
    while cs.len() > 0 && cs[cs.len() - 1] == '/'
        invariant
            strip_trailing_slashes(s@) == strip_trailing_slashes(cs@),
        decreases cs.len(),
    {
        let ghost before = cs@;
        cs.pop();
        proof {
            assert(cs@ =~= before.drop_last());
        }
    }
    string_of(&cs)
}

/// What a channel address normalizes to: the first known section suffix the
/// lowered address mentions is removed wherever it occurs, and trailing
/// separators go.
pub open spec fn spec_normalize_channel_base(url: Seq<char>) -> Seq<char> {
    let l = lower(url);
    let replaced = if contains_seq(l, "/live"@) {
        remove_occurrences(url, "/live"@)
    } else if contains_seq(l, "/shorts"@) {
        remove_occurrences(url, "/shorts"@)
    } else if contains_seq(l, "/featured"@) {
        remove_occurrences(url, "/featured"@)
    } else if contains_seq(l, "/streams"@) {
        remove_occurrences(url, "/streams"@)
    } else if contains_seq(l, "/playlists"@) {
        remove_occurrences(url, "/playlists"@)
    } else if contains_seq(l, "/videos"@) {
        remove_occurrences(url, "/videos"@)
    } else {
        url
    };
    if replaced.len() > 0 && replaced.last() == '/' {
        strip_trailing_slashes(replaced)
    } else {
        replaced
    }
}

/// Takes a channel address back to its base, dropping a known section
/// segment.
pub fn normalize_channel_base_url(url: &str) -> (r: String)
    ensures
        r@ == spec_normalize_channel_base(url@),
{
    proof {
        reveal_strlit("/live");
        reveal_strlit("/shorts");
        reveal_strlit("/featured");
        reveal_strlit("/streams");
        reveal_strlit("/playlists");
        reveal_strlit("/videos");
    }
    let lowered = to_lower_string(url);
    let replaced: String = if contains_str(lowered.as_str(), "/live") {
        remove_all(url, "/live")
    } else if contains_str(lowered.as_str(), "/shorts") {
        remove_all(url, "/shorts")
    } else if contains_str(lowered.as_str(), "/featured") {
        remove_all(url, "/featured")
    } else if contains_str(lowered.as_str(), "/streams") {
        remove_all(url, "/streams")
    } else if contains_str(lowered.as_str(), "/playlists") {
        remove_all(url, "/playlists")
    } else if contains_str(lowered.as_str(), "/videos") {
        remove_all(url, "/videos")
    } else {
        url.to_owned()
    };
    let cs = chars_of(replaced.as_str());
    if cs.len() > 0 && cs[cs.len() - 1] == '/' {
        strip_trailing_slashes_exec(replaced.as_str())
    } else {
        replaced
    }
}

/// The four section addresses a channel is listed from, in order.
pub fn build_channel_section_urls(base_url: &str) -> (r: Vec<String>)
    ensures
        r.deep_view().len() == 4,
        r.deep_view()[0] == strip_trailing_slashes(base_url@) + "/videos"@,
        r.deep_view()[1] == strip_trailing_slashes(base_url@) + "/streams"@,
        r.deep_view()[2] == strip_trailing_slashes(base_url@) + "/live"@,
        r.deep_view()[3] == strip_trailing_slashes(base_url@) + "/shorts"@,
{
    let base = strip_trailing_slashes_exec(base_url);
    let mut u0 = base.clone();
    u0.append("/videos");
    let mut u1 = base.clone();
    u1.append("/streams");
    let mut u2 = base.clone();
    u2.append("/live");
    let mut u3 = base.clone();
    u3.append("/shorts");
    let mut out: Vec<String> = Vec::new();
    out.push(u0);
    out.push(u1);
    out.push(u2);
    out.push(u3);
    out
}

/// The download format selector each quality choice stands for.
pub open spec fn spec_quality_format(q: Option<Seq<char>>) -> Seq<char> {
    match q {
        Some(s) => if s == "1080p"@ {
            "bestvideo[height<=1080][ext=mp4][vcodec^=avc1]+bestaudio[ext=m4a]/best[height<=1080][ext=mp4][vcodec^=avc1]"@
        } else if s == "720p"@ {
            "bestvideo[height<=720][ext=mp4][vcodec^=avc1]+bestaudio[ext=m4a]/best[height<=720][ext=mp4][vcodec^=avc1]"@
        } else if s == "480p"@ {
            "bestvideo[height<=480][ext=mp4][vcodec^=avc1]+bestaudio[ext=m4a]/best[height<=480][ext=mp4][vcodec^=avc1]"@
        } else if s == "360p"@ {
            "bestvideo[height<=360][ext=mp4][vcodec^=avc1]+bestaudio[ext=m4a]/best[height<=360][ext=mp4][vcodec^=avc1]"@
        } else if s == "audio"@ {
            "bestaudio[ext=m4a]/bestaudio"@
        } else {
            "bestvideo[ext=mp4][vcodec^=avc1]+bestaudio[ext=m4a]/best[ext=mp4][vcodec^=avc1]"@
        },
        None => "bestvideo[ext=mp4][vcodec^=avc1]+bestaudio[ext=m4a]/best[ext=mp4][vcodec^=avc1]"@,
    }
}

/// Maps a chosen quality to the tool's format selector.
pub fn quality_to_format(quality: Option<&str>) -> (r: String)
    ensures
        r@ == spec_quality_format(match quality {
            Some(q) => Some(q@),
            None => None,
        }),
{
    match quality {
        Some(q) => {
            if str_eq(q, "1080p") {
                "bestvideo[height<=1080][ext=mp4][vcodec^=avc1]+bestaudio[ext=m4a]/best[height<=1080][ext=mp4][vcodec^=avc1]".to_owned()
            } else if str_eq(q, "720p") {
                "bestvideo[height<=720][ext=mp4][vcodec^=avc1]+bestaudio[ext=m4a]/best[height<=720][ext=mp4][vcodec^=avc1]".to_owned()
            } else if str_eq(q, "480p") {
                "bestvideo[height<=480][ext=mp4][vcodec^=avc1]+bestaudio[ext=m4a]/best[height<=480][ext=mp4][vcodec^=avc1]".to_owned()
            } else if str_eq(q, "360p") {
                "bestvideo[height<=360][ext=mp4][vcodec^=avc1]+bestaudio[ext=m4a]/best[height<=360][ext=mp4][vcodec^=avc1]".to_owned()
            } else if str_eq(q, "audio") {
                "bestaudio[ext=m4a]/bestaudio".to_owned()
            } else {
                "bestvideo[ext=mp4][vcodec^=avc1]+bestaudio[ext=m4a]/best[ext=mp4][vcodec^=avc1]".to_owned()
            }
        },
        None => {
            "bestvideo[ext=mp4][vcodec^=avc1]+bestaudio[ext=m4a]/best[ext=mp4][vcodec^=avc1]".to_owned()
        },
    }
}

/// What a configured tool override resolves to: the trimmed path when it
/// holds one, nothing for an empty or blank setting.
pub open spec fn spec_resolve_override(v: Option<Seq<char>>) -> Option<Seq<char>> {
    match v {
        Some(s) => if trim_spec(s).len() == 0 {
            None
        } else {
            Some(trim_spec(s))
        },
        None => None,
    }
}

/// Resolves a configured tool path override.
pub fn resolve_override(value: Option<String>) -> (r: Option<String>)
    ensures
        r.deep_view() == spec_resolve_override(value.deep_view()),
{
    match value {
        Some(path) => {
            let trimmed = trim_str(path.as_str());
            if trimmed.as_str().unicode_len() == 0 {
                None
            } else {
                Some(trimmed)
            }
        },
        None => None,
    }
}

/// The credential arguments one invocation carries: the browser profile when
/// the source asks for a browser and names one; else the cookie file when the
/// source asks for a file, or names none while a file is configured.
pub open spec fn spec_cookie_args(
    source: Option<Seq<char>>,
    file: Option<Seq<char>>,
    browser: Option<Seq<char>>,
) -> Seq<Seq<char>> {
    let src = match source {
        Some(s) => trim_spec(s),
        None => Seq::empty(),
    };
    let browser_arg = if src == "browser"@ {
        match browser {
            Some(b) => if trim_spec(b).len() > 0 {
                Some(trim_spec(b))
            } else {
                None
            },
            None => None,
        }
    } else {
        None
    };
    match browser_arg {
        Some(b) => seq!["--cookies-from-browser"@, b],
        None => {
            let use_file = src == "file"@ || (src.len() == 0 && file is Some);
            if use_file {
                match file {
                    Some(f) => if trim_spec(f).len() > 0 {
                        seq!["--cookies"@, trim_spec(f)]
                    } else {
                        Seq::empty()
                    },
                    None => Seq::empty(),
                }
            } else {
                Seq::empty()
            }
        },
    }
}

/// Builds the credential arguments for one tool invocation.
pub fn cookie_args(source: Option<&str>, file: Option<&str>, browser: Option<&str>) -> (r: Vec<
    String,
>)
    ensures
        views_of(r@) == spec_cookie_args(
            match source {
                Some(s) => Some(s@),
                None => None,
            },
            match file {
                Some(s) => Some(s@),
                None => None,
            },
            match browser {
                Some(s) => Some(s@),
                None => None,
            },
        ),
{
    let src = match source {
        Some(s) => trim_str(s),
        None => {
            let e: Vec<char> = Vec::new();
            proof {
                assert(e@ =~= Seq::<char>::empty());
            }
            string_of(&e)
        },
    };
    let mut out: Vec<String> = Vec::new();
    if str_eq(src.as_str(), "browser") {
        if let Some(b) = browser {
            let tb = trim_str(b);
            if tb.as_str().unicode_len() > 0 {
                out.push("--cookies-from-browser".to_owned());
                out.push(tb);
                proof {
                    assert(views_of(out@) =~= seq!["--cookies-from-browser"@, trim_spec(b@)]);
                }
                return out;
            }
        }
    }
    let use_file = str_eq(src.as_str(), "file") || (src.as_str().unicode_len() == 0
        && file.is_some());
    if use_file {
        if let Some(f) = file {
            let tf = trim_str(f);
            if tf.as_str().unicode_len() > 0 {
                out.push("--cookies".to_owned());
                out.push(tf);
                proof {
                    assert(views_of(out@) =~= seq!["--cookies"@, trim_spec(f@)]);
                }
                return out;
            }
        }
    }
    proof {
        assert(views_of(out@) =~= Seq::<Seq<char>>::empty());
    }
    out
}

/// How the tool's self-update run is classified.
#[derive(Clone, Copy, Debug, PartialEq, Eq, Structural)]
pub enum UpdateStatus {
    UpToDate,
    Updated,
    Failed,
}

/// The combined, lowered output of an update run.
pub open spec fn spec_update_combined(stdout: Seq<char>, stderr: Seq<char>) -> Seq<char> {
    lower(trim_spec(stdout) + "\n"@ + trim_spec(stderr))
}

/// What an update run concluded: a failure unless the tool exited well, and
/// an already-current installation when the output says so.
pub open spec fn spec_classify_update(success: bool, stdout: Seq<char>, stderr: Seq<char>)
    -> UpdateStatus {
    if !success {
        UpdateStatus::Failed
    } else {
        let combined = spec_update_combined(stdout, stderr);
        if contains_seq(combined, "up to date"@) || contains_seq(combined, "up-to-date"@)
            || contains_seq(combined, "already up to date"@) || contains_seq(
            combined,
            "is up to date"@,
        ) {
            UpdateStatus::UpToDate
        } else {
            UpdateStatus::Updated
        }
    }
}

/// Classifies the output of the tool's self-update run.
pub fn classify_update_output(success: bool, stdout: &str, stderr: &str) -> (r: UpdateStatus)
    ensures
        r == spec_classify_update(success, stdout@, stderr@),
{
    if !success {
        return UpdateStatus::Failed;
    }
    let mut combined = trim_str(stdout);
    combined.append("\n");
    let te = trim_str(stderr);
    combined.append(te.as_str());
    let lowered = to_lower_string(combined.as_str());
    if contains_str(lowered.as_str(), "up to date") || contains_str(lowered.as_str(), "up-to-date")
        || contains_str(lowered.as_str(), "already up to date") || contains_str(
        lowered.as_str(),
        "is up to date",
    ) {
        UpdateStatus::UpToDate
    } else {
        UpdateStatus::Updated
    }
}

/// The id one listing entry stands for: its id field, else its address.
pub open spec fn jv_entry_id(entry: Jv) -> Option<Seq<char>> {
    match jv_get_str(entry, "id"@) {
        Some(s) => Some(s),
        None => jv_get_str(entry, "url"@),
    }
}

/// The watch address of a listing entry: its address as given when it is
/// already absolute, else built from the id-like value.
pub open spec fn jv_entry_url(entry: Jv, id: Seq<char>) -> Seq<char> {
    let url_value = match jv_get_str(entry, "url"@) {
        Some(s) => s,
        None => id,
    };
    if starts_with_seq(url_value, "http"@) {
        url_value
    } else {
        "https://www.youtube.com/watch?v="@ + url_value
    }
}

/// A listing row that is a section header rather than a video.
pub open spec fn is_section_header_title(title: Seq<char>) -> bool {
    ||| crate::text::ends_with_seq(title, " - Videos"@)
    ||| crate::text::ends_with_seq(title, " - Live"@)
    ||| crate::text::ends_with_seq(title, " - Shorts"@)
}

/// What one listing entry yields: nothing for a row with no id, the channel's
/// own row, or a section header; else the normalized item.
pub open spec fn spec_channel_entry(entry: Jv, channel_id: Option<Seq<char>>) -> Option<
    crate::models::ChannelVideoItemV,
> {
    match jv_entry_id(entry) {
        None => None,
        Some(id) => if channel_id == Some(id) {
            None
        } else {
            let title = match jv_get_str(entry, "title"@) {
                Some(t) => t,
                None => "Untitled"@,
            };
            if is_section_header_title(title) {
                None
            } else {
                let m = spec_video_metadata(entry);
                Some(
                    crate::models::ChannelVideoItemV {
                        id,
                        title,
                        channel: m.channel,
                        url: jv_entry_url(entry, id),
                        thumbnail: m.thumbnail,
                        webpage_url: m.webpage_url,
                        duration_sec: m.duration_sec,
                        upload_date: m.upload_date,
                        release_timestamp: m.release_timestamp,
                        timestamp: m.timestamp,
                        live_status: m.live_status,
                        is_live: m.is_live,
                        was_live: m.was_live,
                        view_count: m.view_count,
                        like_count: m.like_count,
                        comment_count: m.comment_count,
                        tags: m.tags,
                        categories: m.categories,
                        description: m.description,
                        channel_id: m.channel_id,
                        uploader_id: m.uploader_id,
                        channel_url: m.channel_url,
                        uploader_url: m.uploader_url,
                        availability: m.availability,
                        language: m.language,
                        audio_language: m.audio_language,
                        age_limit: m.age_limit,
                    },
                )
            }
        },
    }
}

/// The items a listing's entries yield, in order.
pub open spec fn spec_channel_items(entries: Seq<Jv>, channel_id: Option<Seq<char>>) -> Seq<
    crate::models::ChannelVideoItemV,
>
    decreases entries.len(),
{
    if entries.len() == 0 {
        Seq::empty()
    } else {
        match spec_channel_entry(entries[0], channel_id) {
            Some(item) => seq![item] + spec_channel_items(entries.drop_first(), channel_id),
            None => spec_channel_items(entries.drop_first(), channel_id),
        }
    }
}

/// The channel's own id in a listing: its channel-id, else its uploader-id.
pub open spec fn spec_listing_channel_id(v: Jv) -> Option<Seq<char>> {
    match jv_get_str(v, "channel_id"@) {
        Some(s) => Some(s),
        None => jv_get_str(v, "uploader_id"@),
    }
}

/// What one parsed section listing yields: the normalized rows of its entries
/// list, or nothing when the value carries no such list.
pub open spec fn spec_parse_channel_listing(v: Jv) -> Option<
    Seq<crate::models::ChannelVideoItemV>,
> {
    match jv_get(v, "entries"@) {
        Some(Jv::Arr(es)) => Some(spec_channel_items(es, spec_listing_channel_id(v))),
        _ => None,
    }
}

fn channel_entry_exec(entry: &Json, channel_id: &Option<String>) -> (r: Option<
    crate::models::ChannelVideoItem,
>)
    ensures
        r.deep_view() == spec_channel_entry(entry@, channel_id.deep_view()),
{
    let id = match entry.get_string("id") {
        Some(s) => s,
        None => match entry.get_string("url") {
            Some(s) => s,
            None => {
                return None;
            },
        },
    };
    match channel_id {
        Some(cid) => {
            if str_eq(cid.as_str(), id.as_str()) {
                return None;
            }
        },
        None => {},
    }
    let title = match entry.get_string("title") {
        Some(t) => t,
        None => "Untitled".to_owned(),
    };
    if crate::text::ends_with_str(title.as_str(), " - Videos") || crate::text::ends_with_str(
        title.as_str(),
        " - Live",
    ) || crate::text::ends_with_str(title.as_str(), " - Shorts") {
        return None;
    }
    let m = parse_video_metadata_value(entry);
    let url = {
        let url_value = match entry.get_string("url") {
            Some(s) => s,
            None => id.clone(),
        };
        if starts_with_str(url_value.as_str(), "http") {
            url_value
        } else {
            let mut full = "https://www.youtube.com/watch?v=".to_owned();
            full.append(url_value.as_str());
            full
        }
    };
    Some(
        crate::models::ChannelVideoItem {
            id,
            title,
            channel: m.channel,
            url,
            thumbnail: m.thumbnail,
            webpage_url: m.webpage_url,
            duration_sec: m.duration_sec,
            upload_date: m.upload_date,
            release_timestamp: m.release_timestamp,
            timestamp: m.timestamp,
            live_status: m.live_status,
            is_live: m.is_live,
            was_live: m.was_live,
            view_count: m.view_count,
            like_count: m.like_count,
            comment_count: m.comment_count,
            tags: m.tags,
            categories: m.categories,
            description: m.description,
            channel_id: m.channel_id,
            uploader_id: m.uploader_id,
            channel_url: m.channel_url,
            uploader_url: m.uploader_url,
            availability: m.availability,
            language: m.language,
            audio_language: m.audio_language,
            age_limit: m.age_limit,
        },
    )
}

/// Normalizes one parsed section listing into its video rows: entries with no
/// id, the channel's own row, and section headers are dropped.
#[verifier::loop_isolation(false)]
pub fn parse_channel_listing(v: &Json) -> (r: Option<Vec<crate::models::ChannelVideoItem>>)
    ensures
        r.deep_view() == spec_parse_channel_listing(v@),
{
    let entries = match v.get("entries") {
        Some(e) => match e.as_arr() {
            Some(arr) => arr,
            None => {
                return None;
            },
        },
        None => {
            return None;
        },
    };
    let channel_id = match v.get_string("channel_id") {
        Some(s) => Some(s),
        None => v.get_string("uploader_id"),
    };
    let ghost cid = spec_listing_channel_id(v@);
    proof {
        assert(channel_id.deep_view() == cid);
    }
    let ghost full = jv_of_seq(entries@);
    proof {
        lemma_jv_of_seq(entries@);
        assert(full.skip(0) =~= full);
    }
    let n = entries.len();
    let mut out: Vec<crate::models::ChannelVideoItem> = Vec::new();
    proof {
        assert(out.deep_view() + spec_channel_items(full, cid) =~= spec_channel_items(full, cid));
    }
    for i in 0..n
        invariant
            n == entries@.len(),
            full == jv_of_seq(entries@),
            full.len() == n,
            forall|k: int| 0 <= k < n ==> full[k] == jv_of(entries@[k]),
            channel_id.deep_view() == cid,
            spec_channel_items(full, cid) == out.deep_view() + spec_channel_items(
                full.skip(i as int),
                cid,
            ),
    {
        let ghost old_out = out.deep_view();
        proof {
            assert(full.skip(i as int)[0] == full[i as int]);
            assert(full.skip(i as int).drop_first() =~= full.skip(i as int + 1));
        }
        match channel_entry_exec(&entries[i], &channel_id) {
            Some(item) => {
                let ghost iv = item.deep_view();
                out.push(item);
                proof {
                    assert(out.deep_view() =~= old_out + seq![iv]);
                    assert(out.deep_view() + spec_channel_items(full.skip(i as int + 1), cid)
                        =~= spec_channel_items(full, cid));
                }
            },
            None => {},
        }
    }
    proof {
        assert(full.skip(n as int) =~= Seq::<Jv>::empty());
        assert(out.deep_view() + spec_channel_items(Seq::<Jv>::empty(), cid) =~= out.deep_view());
    }
    Some(out)
}

/// The ids a merged listing already carries.
pub open spec fn merged_ids(items: Seq<crate::models::ChannelVideoItemV>) -> Set<Seq<char>> {
    Set::new(|id: Seq<char>| exists|i: int| 0 <= i < items.len() && items[i].id == id)
}

/// One section's rows folded into the merged listing, first sighting of each
/// id winning.
pub open spec fn spec_merge_channel_items(
    acc: Seq<crate::models::ChannelVideoItemV>,
    items: Seq<crate::models::ChannelVideoItemV>,
) -> Seq<crate::models::ChannelVideoItemV>
    decreases items.len(),
{
    if items.len() == 0 {
        acc
    } else if merged_ids(acc).contains(items[0].id) {
        spec_merge_channel_items(acc, items.drop_first())
    } else {
        spec_merge_channel_items(acc + seq![items[0]], items.drop_first())
    }
}

#[verifier::loop_isolation(false)]
fn merged_contains_id(acc: &Vec<crate::models::ChannelVideoItem>, id: &str) -> (r: bool)
    ensures
        r == merged_ids(acc.deep_view()).contains(id@),
{
    let n = acc.len();
    for i in 0..n
        invariant
            n == acc@.len(),
            forall|t: int| 0 <= t < i ==> acc.deep_view()[t].id != id@,
    {
        proof {
            assert(acc.deep_view()[i as int] == acc@[i as int].deep_view());
        }
        if str_eq(acc[i].id.as_str(), id) {
            return true;
        }
    }
    false
}

/// Folds one section's rows into the merged listing, keeping the first row
/// seen for each id.
#[verifier::loop_isolation(false)]
pub fn merge_channel_items(
    acc: &mut Vec<crate::models::ChannelVideoItem>,
    items: Vec<crate::models::ChannelVideoItem>,
)
    ensures
        final(acc).deep_view() == spec_merge_channel_items(
            old(acc).deep_view(),
            items.deep_view(),
        ),
{
    let ghost orig = acc.deep_view();
    let ghost items_v = items.deep_view();
    let mut rest = items;
    while rest.len() > 0
        invariant
            spec_merge_channel_items(orig, items_v) == spec_merge_channel_items(
                acc.deep_view(),
                rest.deep_view(),
            ),
        decreases rest.len(),
    {
        let ghost rv = rest.deep_view();
        let item = rest.remove(0);
        proof {
            assert(rest.deep_view() =~= rv.drop_first());
            assert(item.deep_view() == rv[0]);
        }
        let ghost before = acc.deep_view();
        if !merged_contains_id(acc, item.id.as_str()) {
            let ghost iv = item.deep_view();
            acc.push(item);
            proof {
                assert(acc.deep_view() =~= before + seq![iv]);
            }
        }
    }
    proof {
        assert(rest.deep_view() =~= Seq::<crate::models::ChannelVideoItemV>::empty());
    }
}

} // verus!
