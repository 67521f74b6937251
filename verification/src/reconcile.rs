use vstd::prelude::*;

use crate::identity::{
    content_json, entry_name_lower, has_chat_suffix, has_comments_suffix, has_info_suffix,
};
use crate::index::{count_videos, entry_is_video, is_video_entry};
use crate::json::{jv_get_str, parse_json};
use crate::models::{LocalFileCheckItem, LocalFileCheckItemV, LocalFileCheckResult,
    LocalFileCheckResultV};
use crate::paths::{
    extract_id_from_filename, file_stem_of, spec_extract_id, spec_file_name, spec_file_stem,
    spec_info_base_name, spec_join, info_base_name, join_path,
};
use crate::snapshot::{path_exists, snapshot_has_path, FileEntry, FileEntryV};
use crate::text::{
    contains_seq, contains_str, ends_with_str, eq_ignore_case, lower, str_eq, to_lower_string,
    trim_spec, trim_str,
};

verus! {

/// A chat or comments capture, told by its filename.
pub open spec fn is_comment_capture(e: FileEntryV) -> bool {
    has_chat_suffix(e) || has_comments_suffix(e)
}

fn entry_is_comment_capture(e: &FileEntry) -> (r: bool)
    ensures
        r == is_comment_capture(e.deep_view()),
{
    let name_lower = entry_name_lower(e);
    ends_with_str(name_lower.as_str(), ".live_chat.json") || ends_with_str(
        name_lower.as_str(),
        ".comments.json",
    )
}

/// How many chat or comments captures a sweep holds.
pub open spec fn count_comment_captures(s: Seq<FileEntryV>) -> int
    decreases s.len(),
{
    if s.len() == 0 {
        0
    } else {
        count_comment_captures(s.drop_last()) + (if is_comment_capture(s.last()) {
            1int
        } else {
            0int
        })
    }
}

#[verifier::loop_isolation(false)]
fn count_comment_captures_exec(entries: &Vec<FileEntry>) -> (r: usize)
    ensures
        r == count_comment_captures(entries.deep_view()),
{
    let ghost ev = entries.deep_view();
    proof {
        assert(ev.take(0) =~= Seq::<FileEntryV>::empty());
    }
    let n = entries.len();
    let mut count: usize = 0;
    for i in 0..n
        invariant
            n == entries@.len(),
            ev == entries.deep_view(),
            count <= i,
            count == count_comment_captures(ev.take(i as int)),
    {
        proof {
            assert(ev[i as int] == entries@[i as int].deep_view());
            assert(ev.take(i as int + 1).last() == ev[i as int]);
            assert(ev.take(i as int + 1).drop_last() =~= ev.take(i as int));
        }
        if entry_is_comment_capture(&entries[i]) {
            count += 1;
        }
    }
    proof {
        assert(ev.take(n as int) =~= ev);
    }
    count
}

#[verifier::loop_isolation(false)]
fn count_videos_exec(entries: &Vec<FileEntry>) -> (r: usize)
    ensures
        r == count_videos(entries.deep_view()),
{
    let ghost ev = entries.deep_view();
    proof {
        assert(ev.take(0) =~= Seq::<FileEntryV>::empty());
    }
    let n = entries.len();
    let mut count: usize = 0;
    for i in 0..n
        invariant
            n == entries@.len(),
            ev == entries.deep_view(),
            count <= i,
            count == count_videos(ev.take(i as int)),
    {
        proof {
            assert(ev[i as int] == entries@[i as int].deep_view());
            assert(ev.take(i as int + 1).last() == ev[i as int]);
            assert(ev.take(i as int + 1).drop_last() =~= ev.take(i as int));
        }
        if entry_is_video(&entries[i]) {
            count += 1;
        }
    }
    proof {
        assert(ev.take(n as int) =~= ev);
    }
    count
}

/// The entry's filename embeds exactly this lowered id.
pub open spec fn embeds_id(e: FileEntryV, id_l: Seq<char>) -> bool {
    match spec_extract_id(spec_file_name(e.path)) {
        Some(x) => lower(x) == id_l,
        None => false,
    }
}

fn entry_embeds_id(e: &FileEntry, id: &str) -> (r: bool)
    ensures
        r == embeds_id(e.deep_view(), lower(id@)),
{
    let name = crate::paths::file_name_of(e.path.as_str());
    match extract_id_from_filename(name.as_str()) {
        Some(x) => eq_ignore_case(x.as_str(), id),
        None => false,
    }
}

/// Some video file's name embeds the id.
pub open spec fn some_video_embeds_id(s: Seq<FileEntryV>, id_l: Seq<char>) -> bool {
    exists|i: int| 0 <= i < s.len() && is_video_entry(s[i]) && embeds_id(s[i], id_l)
}

#[verifier::loop_isolation(false)]
fn any_video_embeds_id(entries: &Vec<FileEntry>, id: &str) -> (r: bool)
    ensures
        r == some_video_embeds_id(entries.deep_view(), lower(id@)),
{
    let ghost ev = entries.deep_view();
    let n = entries.len();
    for i in 0..n
        invariant
            n == entries@.len(),
            ev == entries.deep_view(),
            forall|t: int| 0 <= t < i ==> !(is_video_entry(ev[t]) && embeds_id(ev[t], lower(id@))),
    {
        proof {
            assert(ev[i as int] == entries@[i as int].deep_view());
        }
        if entry_is_video(&entries[i]) && entry_embeds_id(&entries[i], id) {
            return true;
        }
    }
    false
}

/// Some chat or comments capture's name embeds the id.
pub open spec fn some_capture_embeds_id(s: Seq<FileEntryV>, id_l: Seq<char>) -> bool {
    exists|i: int| 0 <= i < s.len() && is_comment_capture(s[i]) && embeds_id(s[i], id_l)
}

#[verifier::loop_isolation(false)]
fn any_capture_embeds_id(entries: &Vec<FileEntry>, id: &str) -> (r: bool)
    ensures
        r == some_capture_embeds_id(entries.deep_view(), lower(id@)),
{
    let ghost ev = entries.deep_view();
    let n = entries.len();
    for i in 0..n
        invariant
            n == entries@.len(),
            ev == entries.deep_view(),
            forall|t: int|
                0 <= t < i ==> !(is_comment_capture(ev[t]) && embeds_id(ev[t], lower(id@))),
    {
        proof {
            assert(ev[i as int] == entries@[i as int].deep_view());
        }
        if entry_is_comment_capture(&entries[i]) && entry_embeds_id(&entries[i], id) {
            return true;
        }
    }
    false
}

/// Some video file's lowered name contains the lowered id.
pub open spec fn some_video_name_contains(s: Seq<FileEntryV>, id_l: Seq<char>) -> bool {
    exists|i: int|
        0 <= i < s.len() && is_video_entry(s[i]) && contains_seq(
            lower(spec_file_name(s[i].path)),
            id_l,
        )
}

#[verifier::loop_isolation(false)]
fn any_video_name_contains(entries: &Vec<FileEntry>, id_lower: &str) -> (r: bool)
    ensures
        r == some_video_name_contains(entries.deep_view(), id_lower@),
{
    let ghost ev = entries.deep_view();
    let n = entries.len();
    for i in 0..n
        invariant
            n == entries@.len(),
            ev == entries.deep_view(),
            forall|t: int|
                0 <= t < i ==> !(is_video_entry(ev[t]) && contains_seq(
                    lower(spec_file_name(ev[t].path)),
                    id_lower@,
                )),
    {
        proof {
            assert(ev[i as int] == entries@[i as int].deep_view());
        }
        if entry_is_video(&entries[i]) {
            let name_lower = entry_name_lower(&entries[i]);
            if contains_str(name_lower.as_str(), id_lower) {
                return true;
            }
        }
    }
    false
}

/// Some video file's lowered stem equals the given lowered text.
pub open spec fn some_video_stem_is(s: Seq<FileEntryV>, stem_l: Seq<char>) -> bool {
    exists|i: int|
        0 <= i < s.len() && is_video_entry(s[i]) && lower(spec_file_stem(s[i].path)) == stem_l
}

#[verifier::loop_isolation(false)]
fn any_video_stem_is(entries: &Vec<FileEntry>, stem_l: &str) -> (r: bool)
    ensures
        r == some_video_stem_is(entries.deep_view(), stem_l@),
{
    let ghost ev = entries.deep_view();
    let n = entries.len();
    for i in 0..n
        invariant
            n == entries@.len(),
            ev == entries.deep_view(),
            forall|t: int|
                0 <= t < i ==> !(is_video_entry(ev[t]) && lower(spec_file_stem(ev[t].path))
                    == stem_l@),
    {
        proof {
            assert(ev[i as int] == entries@[i as int].deep_view());
        }
        if entry_is_video(&entries[i]) {
            let stem = file_stem_of(entries[i].path.as_str());
            let sl = to_lower_string(stem.as_str());
            if str_eq(sl.as_str(), stem_l) {
                return true;
            }
        }
    }
    false
}

/// Some video file's lowered stem and the lowered title contain one another
/// either way.
pub open spec fn some_video_stem_partial(s: Seq<FileEntryV>, title_l: Seq<char>) -> bool {
    exists|i: int|
        0 <= i < s.len() && is_video_entry(s[i]) && (contains_seq(
            lower(spec_file_stem(s[i].path)),
            title_l,
        ) || contains_seq(title_l, lower(spec_file_stem(s[i].path))))
}

#[verifier::loop_isolation(false)]
fn any_video_stem_partial(entries: &Vec<FileEntry>, title_l: &str) -> (r: bool)
    ensures
        r == some_video_stem_partial(entries.deep_view(), title_l@),
{
    let ghost ev = entries.deep_view();
    let n = entries.len();
    for i in 0..n
        invariant
            n == entries@.len(),
            ev == entries.deep_view(),
            forall|t: int|
                0 <= t < i ==> !(is_video_entry(ev[t]) && (contains_seq(
                    lower(spec_file_stem(ev[t].path)),
                    title_l@,
                ) || contains_seq(title_l@, lower(spec_file_stem(ev[t].path))))),
    {
        proof {
            assert(ev[i as int] == entries@[i as int].deep_view());
        }
        if entry_is_video(&entries[i]) {
            let stem = file_stem_of(entries[i].path.as_str());
            let sl = to_lower_string(stem.as_str());
            if contains_str(sl.as_str(), title_l) || contains_str(title_l, sl.as_str()) {
                return true;
            }
        }
    }
    false
}

/// The lowered id an info record stands for: the id embedded in its filename,
/// else the first of its video-id, id and display-id fields.
pub open spec fn entry_info_key(e: FileEntryV) -> Option<Seq<char>> {
    if !has_info_suffix(e) {
        None
    } else {
        match spec_extract_id(spec_file_name(e.path)) {
            Some(x) => Some(lower(x)),
            None => match content_json(e) {
                Some(v) => match jv_get_str(v, "video_id"@) {
                    Some(s) => Some(lower(s)),
                    None => match jv_get_str(v, "id"@) {
                        Some(s) => Some(lower(s)),
                        None => match jv_get_str(v, "display_id"@) {
                            Some(s) => Some(lower(s)),
                            None => None,
                        },
                    },
                },
                None => None,
            },
        }
    }
}

fn entry_info_key_exec(e: &FileEntry) -> (r: Option<String>)
    ensures
        r.deep_view() == entry_info_key(e.deep_view()),
{
    let name_lower = entry_name_lower(e);
    if !ends_with_str(name_lower.as_str(), ".info.json") {
        return None;
    }
    let name = crate::paths::file_name_of(e.path.as_str());
    match extract_id_from_filename(name.as_str()) {
        Some(x) => Some(to_lower_string(x.as_str())),
        None => match &e.content {
            Some(c) => match parse_json(c.as_str()) {
                Some(v) => match v.get_str("video_id") {
                    Some(s) => Some(to_lower_string(s.as_str())),
                    None => match v.get_str("id") {
                        Some(s) => Some(to_lower_string(s.as_str())),
                        None => match v.get_str("display_id") {
                            Some(s) => Some(to_lower_string(s.as_str())),
                            None => None,
                        },
                    },
                },
                None => None,
            },
            None => None,
        },
    }
}

/// The base name remembered for an id: from the first info record in sweep
/// order that stands for the id and has a usable stem.
pub open spec fn info_stem_for(s: Seq<FileEntryV>, id_l: Seq<char>) -> Option<Seq<char>>
    decreases s.len(),
{
    if s.len() == 0 {
        None
    } else if entry_info_key(s[0]) == Some(id_l) && spec_info_base_name(s[0].path) is Some {
        spec_info_base_name(s[0].path)
    } else {
        info_stem_for(s.drop_first(), id_l)
    }
}

#[verifier::loop_isolation(false)]
fn info_stem_for_exec(entries: &Vec<FileEntry>, id_lower: &str) -> (r: Option<String>)
    ensures
        r.deep_view() == info_stem_for(entries.deep_view(), id_lower@),
{
    let ghost ev = entries.deep_view();
    proof {
        assert(ev.skip(0) =~= ev);
    }
    let n = entries.len();
    for i in 0..n
        invariant
            n == entries@.len(),
            ev == entries.deep_view(),
            info_stem_for(ev, id_lower@) == info_stem_for(ev.skip(i as int), id_lower@),
    {
        proof {
            assert(ev.skip(i as int)[0] == ev[i as int]);
            assert(ev[i as int] == entries@[i as int].deep_view());
            assert(ev.skip(i as int).drop_first() =~= ev.skip(i as int + 1));
        }
        match entry_info_key_exec(&entries[i]) {
            Some(k) => {
                if str_eq(k.as_str(), id_lower) {
                    match info_base_name(entries[i].path.as_str()) {
                        Some(base) => {
                            return Some(base);
                        },
                        None => {},
                    }
                }
            },
            None => {},
        }
    }
    proof {
        assert(ev.skip(n as int) =~= Seq::<FileEntryV>::empty());
    }
    None
}

/// A video check passes when the id is embedded in some video filename, or
/// the id's info record shares its base name with a video stem, or some video
/// filename contains the id, or the title and some video stem contain one
/// another.
pub open spec fn spec_check_video(
    videos: Seq<FileEntryV>,
    metadata: Seq<FileEntryV>,
    id: Seq<char>,
    title: Seq<char>,
) -> bool {
    let id_l = lower(id);
    let title_l = lower(trim_spec(title));
    if count_videos(videos) == 0 {
        false
    } else {
        ||| (match info_stem_for(metadata, id_l) {
            Some(b) => some_video_stem_is(videos, lower(b)),
            None => false,
        })
        ||| some_video_embeds_id(videos, id_l)
        ||| some_video_name_contains(videos, id_l)
        ||| (title_l.len() > 0 && (some_video_stem_is(videos, title_l) || some_video_stem_partial(
            videos,
            title_l,
        )))
    }
}

/// A comments check passes when the id is embedded in some capture's
/// filename, or a capture sits next to the id's info record under its base
/// name, or exactly one capture exists in all.
pub open spec fn spec_check_comments(
    comments: Seq<FileEntryV>,
    metadata: Seq<FileEntryV>,
    comments_dir: Seq<char>,
    metadata_dir: Seq<char>,
    id: Seq<char>,
) -> bool {
    let id_l = lower(id);
    let total = count_comment_captures(comments) + count_comment_captures(metadata);
    if total == 0 {
        false
    } else if some_capture_embeds_id(comments, id_l) || some_capture_embeds_id(metadata, id_l) {
        true
    } else {
        match info_stem_for(metadata, id_l) {
            Some(b) => {
                ||| path_exists(metadata, spec_join(metadata_dir, b + ".live_chat.json"@))
                ||| path_exists(metadata, spec_join(metadata_dir, b + ".comments.json"@))
                ||| path_exists(comments, spec_join(comments_dir, b + ".live_chat.json"@))
                ||| path_exists(comments, spec_join(comments_dir, b + ".comments.json"@))
            },
            None => total == 1,
        }
    }
}

/// What the batch check answers for one requested row.
pub open spec fn spec_check_item(
    dirs_exist: bool,
    videos: Seq<FileEntryV>,
    comments: Seq<FileEntryV>,
    metadata: Seq<FileEntryV>,
    comments_dir: Seq<char>,
    metadata_dir: Seq<char>,
    item: LocalFileCheckItemV,
) -> LocalFileCheckResultV {
    if !dirs_exist {
        LocalFileCheckResultV {
            id: item.id,
            video_ok: !item.check_video,
            comments_ok: !item.check_comments,
        }
    } else {
        LocalFileCheckResultV {
            id: item.id,
            video_ok: !item.check_video || spec_check_video(videos, metadata, item.id, item.title),
            comments_ok: !item.check_comments || spec_check_comments(
                comments,
                metadata,
                comments_dir,
                metadata_dir,
                item.id,
            ),
        }
    }
}

/// Classifies each requested (id, title) row against one sweep of the three
/// artifact directories. An absent library answers every requested check
/// with a failure, reading nothing.
#[verifier::loop_isolation(false)]
pub fn verify_local_files(
    dirs_exist: bool,
    videos: &Vec<FileEntry>,
    comments: &Vec<FileEntry>,
    metadata: &Vec<FileEntry>,
    comments_dir: &str,
    metadata_dir: &str,
    items: &Vec<LocalFileCheckItem>,
) -> (r: Vec<LocalFileCheckResult>)
    ensures
        r.deep_view().len() == items.deep_view().len(),
        forall|k: int|
            0 <= k < items.deep_view().len() ==> r.deep_view()[k] == spec_check_item(
                dirs_exist,
                videos.deep_view(),
                comments.deep_view(),
                metadata.deep_view(),
                comments_dir@,
                metadata_dir@,
                items.deep_view()[k],
            ),
{
    let n = items.len();
    let mut out: Vec<LocalFileCheckResult> = Vec::new();
    let video_count = count_videos_exec(videos);
    let capture_count: u128 = count_comment_captures_exec(comments) as u128
        + count_comment_captures_exec(metadata) as u128;
    for k in 0..n
        invariant
            n == items@.len(),
            video_count == count_videos(videos.deep_view()),
            capture_count == count_comment_captures(comments.deep_view())
                + count_comment_captures(metadata.deep_view()),
            out@.len() == k,
            forall|t: int|
                0 <= t < k ==> out.deep_view()[t] == spec_check_item(
                    dirs_exist,
                    videos.deep_view(),
                    comments.deep_view(),
                    metadata.deep_view(),
                    comments_dir@,
                    metadata_dir@,
                    items.deep_view()[t],
                ),
    {
        proof {
            assert(items.deep_view()[k as int] == items@[k as int].deep_view());
        }
        let item = &items[k];
        let result = if !dirs_exist {
            LocalFileCheckResult {
                id: item.id.clone(),
                video_ok: !item.check_video,
                comments_ok: !item.check_comments,
            }
        } else {
            let id_lower = to_lower_string(item.id.as_str());
            let title_trimmed = trim_str(item.title.as_str());
            let title_lower = to_lower_string(title_trimmed.as_str());
            let video_ok = if !item.check_video {
                true
            } else if video_count == 0 {
                false
            } else {
                let by_stem = match info_stem_for_exec(metadata, id_lower.as_str()) {
                    Some(b) => {
                        let bl = to_lower_string(b.as_str());
                        any_video_stem_is(videos, bl.as_str())
                    },
                    None => false,
                };
                by_stem || any_video_embeds_id(videos, item.id.as_str())
                    || any_video_name_contains(videos, id_lower.as_str()) || (
                title_lower.as_str().unicode_len() > 0 && (any_video_stem_is(
                    videos,
                    title_lower.as_str(),
                ) || any_video_stem_partial(videos, title_lower.as_str())))
            };
            let comments_ok = if !item.check_comments {
                true
            } else if capture_count == 0 {
                false
            } else if any_capture_embeds_id(comments, item.id.as_str()) || any_capture_embeds_id(
                metadata,
                item.id.as_str(),
            ) {
                true
            } else {
                match info_stem_for_exec(metadata, id_lower.as_str()) {
                    Some(b) => {
                        let mut lc = b.clone();
                        lc.append(".live_chat.json");
                        let mut cm = b.clone();
                        cm.append(".comments.json");
                        let lc_meta = join_path(metadata_dir, lc.as_str());
                        let cm_meta = join_path(metadata_dir, cm.as_str());
                        let lc_legacy = join_path(comments_dir, lc.as_str());
                        let cm_legacy = join_path(comments_dir, cm.as_str());
                        snapshot_has_path(metadata, lc_meta.as_str()) || snapshot_has_path(
                            metadata,
                            cm_meta.as_str(),
                        ) || snapshot_has_path(comments, lc_legacy.as_str()) || snapshot_has_path(
                            comments,
                            cm_legacy.as_str(),
                        )
                    },
                    None => capture_count == 1,
                }
            };
            LocalFileCheckResult { id: item.id.clone(), video_ok, comments_ok }
        };
        let ghost old_out = out.deep_view();
        let ghost expected = spec_check_item(
            dirs_exist,
            videos.deep_view(),
            comments.deep_view(),
            metadata.deep_view(),
            comments_dir@,
            metadata_dir@,
            items.deep_view()[k as int],
        );
        proof {
            assert(result.deep_view() == expected);
        }
        out.push(result);
        proof {
            assert(out.deep_view() =~= old_out + seq![expected]);
        }
    }
    out
}

/// The id a metadata or comment artifact lists itself under: the id embedded
/// in its name, else the first of its id, video-id and display-id fields.
pub open spec fn entry_meta_id(e: FileEntryV) -> Option<Seq<char>> {
    if !(has_info_suffix(e) || is_comment_capture(e)) {
        None
    } else {
        match spec_extract_id(spec_file_name(e.path)) {
            Some(x) => Some(x),
            None => match content_json(e) {
                Some(v) => match jv_get_str(v, "id"@) {
                    Some(s) => Some(s),
                    None => match jv_get_str(v, "video_id"@) {
                        Some(s) => Some(s),
                        None => jv_get_str(v, "display_id"@),
                    },
                },
                None => None,
            },
        }
    }
}

fn entry_meta_id_exec(e: &FileEntry) -> (r: Option<String>)
    ensures
        r.deep_view() == entry_meta_id(e.deep_view()),
{
    let name_lower = entry_name_lower(e);
    let is_info = ends_with_str(name_lower.as_str(), ".info.json");
    let is_chat = ends_with_str(name_lower.as_str(), ".live_chat.json") || ends_with_str(
        name_lower.as_str(),
        ".comments.json",
    );
    if !(is_info || is_chat) {
        return None;
    }
    let name = crate::paths::file_name_of(e.path.as_str());
    match extract_id_from_filename(name.as_str()) {
        Some(x) => Some(x),
        None => match &e.content {
            Some(c) => match parse_json(c.as_str()) {
                Some(v) => match v.get_string("id") {
                    Some(s) => Some(s),
                    None => match v.get_string("video_id") {
                        Some(s) => Some(s),
                        None => v.get_string("display_id"),
                    },
                },
                None => None,
            },
            None => None,
        },
    }
}

/// The distinct ids the artifacts of one shape list themselves under, first
/// sighting first, folded over the sweep.
pub open spec fn meta_ids_fold(
    entries: Seq<FileEntryV>,
    acc: Seq<Seq<char>>,
    info: bool,
) -> Seq<Seq<char>>
    decreases entries.len(),
{
    if entries.len() == 0 {
        acc
    } else {
        let kind_ok = if info {
            has_info_suffix(entries[0])
        } else {
            is_comment_capture(entries[0])
        };
        let acc2 = match entry_meta_id(entries[0]) {
            Some(x) => if kind_ok && !acc.contains(x) {
                acc.push(x)
            } else {
                acc
            },
            None => acc,
        };
        meta_ids_fold(entries.drop_first(), acc2, info)
    }
}

#[verifier::loop_isolation(false)]
fn contains_string(out: &Vec<String>, x: &str) -> (r: bool)
    ensures
        r == crate::text::views_of(out@).contains(x@),
{
    let n = out.len();
    for i in 0..n
        invariant
            n == out@.len(),
            forall|t: int| 0 <= t < i ==> crate::text::views_of(out@)[t] != x@,
    {
        proof {
            assert(crate::text::views_of(out@)[i as int] == out@[i as int]@);
        }
        if str_eq(out[i].as_str(), x) {
            proof {
                assert(crate::text::views_of(out@)[i as int] == x@);
            }
            return true;
        }
    }
    proof {
        assert forall|t: int|
            0 <= t < crate::text::views_of(out@).len() implies crate::text::views_of(out@)[t]
            != x@ by {}
    }
    false
}

#[verifier::loop_isolation(false)]
fn collect_meta_ids(
    metadata: &Vec<FileEntry>,
    comments: &Vec<FileEntry>,
    info: bool,
) -> (r: Vec<String>)
    ensures
        crate::text::views_of(r@) == meta_ids_fold(
            metadata.deep_view() + comments.deep_view(),
            Seq::<Seq<char>>::empty(),
            info,
        ),
{
    let ghost all = metadata.deep_view() + comments.deep_view();
    let mut out: Vec<String> = Vec::new();
    proof {
        assert(all.skip(0) =~= all);
        assert(crate::text::views_of(out@) =~= Seq::<Seq<char>>::empty());
    }
    let n1 = metadata.len();
    for i in 0..n1
        invariant
            n1 == metadata@.len(),
            all == metadata.deep_view() + comments.deep_view(),
            meta_ids_fold(all, Seq::<Seq<char>>::empty(), info) == meta_ids_fold(
                all.skip(i as int),
                crate::text::views_of(out@),
                info,
            ),
    {
        proof {
            assert(all[i as int] == metadata.deep_view()[i as int]);
            assert(metadata.deep_view()[i as int] == metadata@[i as int].deep_view());
            assert(all.skip(i as int)[0] == all[i as int]);
            assert(all.skip(i as int).drop_first() =~= all.skip(i as int + 1));
        }
        let name_lower = entry_name_lower(&metadata[i]);
        let kind_ok = if info {
            ends_with_str(name_lower.as_str(), ".info.json")
        } else {
            ends_with_str(name_lower.as_str(), ".live_chat.json") || ends_with_str(
                name_lower.as_str(),
                ".comments.json",
            )
        };
        match entry_meta_id_exec(&metadata[i]) {
            Some(x) => {
                let ghost xv = x@;
                if kind_ok && !contains_string(&out, x.as_str()) {
                    let ghost before = crate::text::views_of(out@);
                    out.push(x);
                    proof {
                        assert(crate::text::views_of(out@) =~= before.push(xv));
                    }
                }
            },
            None => {},
        }
    }
    let n2 = comments.len();
    for j in 0..n2
        invariant
            n1 == metadata@.len(),
            n2 == comments@.len(),
            all == metadata.deep_view() + comments.deep_view(),
            meta_ids_fold(all, Seq::<Seq<char>>::empty(), info) == meta_ids_fold(
                all.skip(n1 + j as int),
                crate::text::views_of(out@),
                info,
            ),
    {
        proof {
            assert(all[n1 + j as int] == comments.deep_view()[j as int]);
            assert(comments.deep_view()[j as int] == comments@[j as int].deep_view());
            assert(all.skip(n1 + j as int)[0] == all[n1 + j as int]);
            assert(all.skip(n1 + j as int).drop_first() =~= all.skip(n1 + j as int + 1));
        }
        let name_lower = entry_name_lower(&comments[j]);
        let kind_ok = if info {
            ends_with_str(name_lower.as_str(), ".info.json")
        } else {
            ends_with_str(name_lower.as_str(), ".live_chat.json") || ends_with_str(
                name_lower.as_str(),
                ".comments.json",
            )
        };
        match entry_meta_id_exec(&comments[j]) {
            Some(x) => {
                let ghost xv = x@;
                if kind_ok && !contains_string(&out, x.as_str()) {
                    let ghost before = crate::text::views_of(out@);
                    out.push(x);
                    proof {
                        assert(crate::text::views_of(out@) =~= before.push(xv));
                    }
                }
            },
            None => {},
        }
    }
    proof {
        assert(all.skip(n1 + n2 as int) =~= Seq::<FileEntryV>::empty());
    }
    out
}

/// Builds the id index of the library's metadata and comment artifacts: which
/// ids have a structured record, and which have a chat or comments capture,
/// each listed once in first-sighting order.
pub fn get_metadata_index(metadata: &Vec<FileEntry>, comments: &Vec<FileEntry>) -> (r:
    crate::models::MetadataIndex)
    ensures
        crate::text::views_of(r.info_ids@) == meta_ids_fold(
            metadata.deep_view() + comments.deep_view(),
            Seq::<Seq<char>>::empty(),
            true,
        ),
        crate::text::views_of(r.chat_ids@) == meta_ids_fold(
            metadata.deep_view() + comments.deep_view(),
            Seq::<Seq<char>>::empty(),
            false,
        ),
{
    let info_ids = collect_meta_ids(metadata, comments, true);
    let chat_ids = collect_meta_ids(metadata, comments, false);
    crate::models::MetadataIndex { info_ids, chat_ids }
}

/// The lowered forms of a list of ids.
pub open spec fn lowered_ids(ids: Seq<Seq<char>>) -> Seq<Seq<char>> {
    ids.map_values(|s: Seq<char>| lower(s))
}

/// The list with every occurrence of one value dropped.
pub open spec fn remove_str_all(s: Seq<Seq<char>>, x: Seq<char>) -> Seq<Seq<char>>
    decreases s.len(),
{
    if s.len() == 0 {
        s
    } else if s[0] == x {
        remove_str_all(s.drop_first(), x)
    } else {
        seq![s[0]] + remove_str_all(s.drop_first(), x)
    }
}

/// What one info record yields for a metadata lookup still waiting on the
/// given ids: the record's own id (else the one its name embeds) and its
/// parsed metadata, provided a still-wanted id is named; a record named for
/// an id nobody asked about is passed over without reading it.
pub open spec fn lmd_entry_result(e: FileEntryV, remaining: Seq<Seq<char>>) -> Option<
    (Seq<char>, crate::models::VideoMetadataV),
> {
    if !has_info_suffix(e) {
        None
    } else {
        let extracted = spec_extract_id(spec_file_name(e.path));
        let matches_name = match extracted {
            Some(x) => remaining.contains(lower(x)),
            None => false,
        };
        if !matches_name && extracted is Some {
            None
        } else {
            match content_json(e) {
                Some(v) => {
                    let from_value = match jv_get_str(v, "id"@) {
                        Some(s) => Some(s),
                        None => match jv_get_str(v, "video_id"@) {
                            Some(s) => Some(s),
                            None => jv_get_str(v, "display_id"@),
                        },
                    };
                    let resolved = match from_value {
                        Some(s) => Some(s),
                        None => extracted,
                    };
                    match resolved {
                        None => None,
                        Some(rid) => if remaining.contains(lower(rid)) {
                            Some((rid, crate::meta::spec_video_metadata(v)))
                        } else {
                            None
                        },
                    }
                },
                None => None,
            }
        }
    }
}

/// The records a sweep yields for the ids still wanted, one per id, in sweep
/// order, each found id leaving the wanted list.
pub open spec fn lmd_fold(entries: Seq<FileEntryV>, remaining: Seq<Seq<char>>) -> (
    Seq<crate::models::LocalMetadataItemV>,
    Seq<Seq<char>>,
)
    decreases entries.len(),
{
    if entries.len() == 0 {
        (Seq::empty(), remaining)
    } else {
        match lmd_entry_result(entries[0], remaining) {
            Some((rid, m)) => {
                let rest = lmd_fold(entries.drop_first(), remove_str_all(remaining, lower(rid)));
                (
                    seq![crate::models::LocalMetadataItemV { id: rid, metadata: m }] + rest.0,
                    rest.1,
                )
            },
            None => lmd_fold(entries.drop_first(), remaining),
        }
    }
}

#[verifier::loop_isolation(false)]
fn remove_string_all(v: &mut Vec<String>, x: &str)
    ensures
        crate::text::views_of(final(v)@) == remove_str_all(crate::text::views_of(old(v)@), x@),
{
    let ghost vv = crate::text::views_of(v@);
    let n = v.len();
    let mut kept: Vec<String> = Vec::new();
    proof {
        assert(vv.skip(0) =~= vv);
        assert(crate::text::views_of(kept@) =~= Seq::<Seq<char>>::empty());
        assert(crate::text::views_of(kept@) + remove_str_all(vv, x@) =~= remove_str_all(vv, x@));
    }
    for i in 0..n
        invariant
            n == v@.len(),
            vv == crate::text::views_of(v@),
            remove_str_all(vv, x@) == crate::text::views_of(kept@) + remove_str_all(
                vv.skip(i as int),
                x@,
            ),
    {
        let ghost kv = crate::text::views_of(kept@);
        proof {
            assert(vv.skip(i as int)[0] == vv[i as int]);
            assert(vv[i as int] == v@[i as int]@);
            assert(vv.skip(i as int).drop_first() =~= vv.skip(i as int + 1));
        }
        if !str_eq(v[i].as_str(), x) {
            let item = v[i].clone();
            kept.push(item);
            proof {
                let kv2 = crate::text::views_of(kept@);
                assert(kv2 =~= kv + seq![vv[i as int]]);
                assert(kv2 + remove_str_all(vv.skip(i as int + 1), x@) =~= kv + (seq![
                    vv[i as int],
                ] + remove_str_all(vv.skip(i as int + 1), x@)));
            }
        }
    }
    proof {
        assert(vv.skip(n as int) =~= Seq::<Seq<char>>::empty());
        assert(crate::text::views_of(kept@) + remove_str_all(Seq::<Seq<char>>::empty(), x@)
            =~= crate::text::views_of(kept@));
    }
    *v = kept;
}

fn lmd_entry_result_exec(e: &FileEntry, remaining: &Vec<String>) -> (r: Option<
    (String, crate::models::VideoMetadata),
>)
    ensures
        match r {
            Some((rid, m)) => lmd_entry_result(
                e.deep_view(),
                crate::text::views_of(remaining@),
            ) == Some((rid@, m.deep_view())),
            None => lmd_entry_result(e.deep_view(), crate::text::views_of(remaining@)) is None,
        },
{
    let name_lower = entry_name_lower(e);
    if !ends_with_str(name_lower.as_str(), ".info.json") {
        return None;
    }
    let name = crate::paths::file_name_of(e.path.as_str());
    let extracted = extract_id_from_filename(name.as_str());
    let matches_name = match &extracted {
        Some(x) => {
            let xl = to_lower_string(x.as_str());
            contains_string(remaining, xl.as_str())
        },
        None => false,
    };
    if !matches_name && extracted.is_some() {
        return None;
    }
    match &e.content {
        Some(c) => match parse_json(c.as_str()) {
            Some(v) => {
                let from_value = match v.get_string("id") {
                    Some(s) => Some(s),
                    None => match v.get_string("video_id") {
                        Some(s) => Some(s),
                        None => v.get_string("display_id"),
                    },
                };
                let resolved = match from_value {
                    Some(s) => Some(s),
                    None => extracted,
                };
                match resolved {
                    None => None,
                    Some(rid) => {
                        let rl = to_lower_string(rid.as_str());
                        if contains_string(remaining, rl.as_str()) {
                            let m = crate::meta::parse_video_metadata_value(&v);
                            Some((rid, m))
                        } else {
                            None
                        }
                    },
                }
            },
            None => None,
        },
        None => None,
    }
}

/// Looks the requested ids' metadata records up in one sweep of the metadata
/// and legacy comment directories: each id is answered at most once, by the
/// first record that names it, in sweep order.
#[verifier::loop_isolation(false)]
#[verifier::rlimit(100)]
pub fn get_local_metadata_by_ids(
    metadata: &Vec<FileEntry>,
    comments: &Vec<FileEntry>,
    ids: &Vec<String>,
) -> (r: Vec<crate::models::LocalMetadataItem>)
    ensures
        r.deep_view() == lmd_fold(
            metadata.deep_view() + comments.deep_view(),
            lowered_ids(crate::text::views_of(ids@)),
            ).0,
{
    let ghost all = metadata.deep_view() + comments.deep_view();
    let mut remaining: Vec<String> = Vec::new();
    let idn = ids.len();
    for i in 0..idn
        invariant
            idn == ids@.len(),
            crate::text::views_of(remaining@) == lowered_ids(crate::text::views_of(ids@)).take(
                i as int,
            ),
    {
        let ghost before = crate::text::views_of(remaining@);
        let low = to_lower_string(ids[i].as_str());
        remaining.push(low);
        proof {
            assert(crate::text::views_of(remaining@) =~= before.push(lower(ids@[i as int]@)));
            assert(lowered_ids(crate::text::views_of(ids@))[i as int] == lower(ids@[i as int]@));
            assert(crate::text::views_of(remaining@) =~= lowered_ids(
                crate::text::views_of(ids@),
            ).take(i as int + 1));
        }
    }
    proof {
        assert(lowered_ids(crate::text::views_of(ids@)).take(idn as int) =~= lowered_ids(
            crate::text::views_of(ids@),
        ));
        assert(all.skip(0) =~= all);
    }
    let ghost init_rem = lowered_ids(crate::text::views_of(ids@));
    let mut out: Vec<crate::models::LocalMetadataItem> = Vec::new();
    proof {
        assert(out.deep_view() + lmd_fold(all, init_rem).0 =~= lmd_fold(all, init_rem).0);
    }
    let n1 = metadata.len();
    for i in 0..n1
        invariant
            n1 == metadata@.len(),
            all == metadata.deep_view() + comments.deep_view(),
            lmd_fold(all, init_rem).0 == out.deep_view() + lmd_fold(
                all.skip(i as int),
                crate::text::views_of(remaining@),
            ).0,
    {
        proof {
            assert(all[i as int] == metadata.deep_view()[i as int]);
            assert(metadata.deep_view()[i as int] == metadata@[i as int].deep_view());
            assert(all.skip(i as int)[0] == all[i as int]);
            assert(all.skip(i as int).drop_first() =~= all.skip(i as int + 1));
        }
        match lmd_entry_result_exec(&metadata[i], &remaining) {
            Some((rid, m)) => {
                let ghost old_out = out.deep_view();
                let rl = to_lower_string(rid.as_str());
                let ghost item_v = crate::models::LocalMetadataItemV {
                    id: rid@,
                    metadata: m.deep_view(),
                };
                out.push(crate::models::LocalMetadataItem { id: rid, metadata: m });
                remove_string_all(&mut remaining, rl.as_str());
                proof {
                    assert(out.deep_view() =~= old_out + seq![item_v]);
                    assert(out.deep_view() + lmd_fold(
                        all.skip(i as int + 1),
                        crate::text::views_of(remaining@),
                    ).0 =~= old_out + (seq![item_v] + lmd_fold(
                        all.skip(i as int + 1),
                        crate::text::views_of(remaining@),
                    ).0));
                }
            },
            None => {},
        }
    }
    let n2 = comments.len();
    for j in 0..n2
        invariant
            n1 == metadata@.len(),
            n2 == comments@.len(),
            all == metadata.deep_view() + comments.deep_view(),
            lmd_fold(all, init_rem).0 == out.deep_view() + lmd_fold(
                all.skip(n1 + j as int),
                crate::text::views_of(remaining@),
            ).0,
    {
        proof {
            assert(all[n1 + j as int] == comments.deep_view()[j as int]);
            assert(comments.deep_view()[j as int] == comments@[j as int].deep_view());
            assert(all.skip(n1 + j as int)[0] == all[n1 + j as int]);
            assert(all.skip(n1 + j as int).drop_first() =~= all.skip(n1 + j as int + 1));
        }
        match lmd_entry_result_exec(&comments[j], &remaining) {
            Some((rid, m)) => {
                let ghost old_out = out.deep_view();
                let rl = to_lower_string(rid.as_str());
                let ghost item_v = crate::models::LocalMetadataItemV {
                    id: rid@,
                    metadata: m.deep_view(),
                };
                out.push(crate::models::LocalMetadataItem { id: rid, metadata: m });
                remove_string_all(&mut remaining, rl.as_str());
                proof {
                    assert(out.deep_view() =~= old_out + seq![item_v]);
                    assert(out.deep_view() + lmd_fold(
                        all.skip(n1 + j as int + 1),
                        crate::text::views_of(remaining@),
                    ).0 =~= old_out + (seq![item_v] + lmd_fold(
                        all.skip(n1 + j as int + 1),
                        crate::text::views_of(remaining@),
                    ).0));
                }
            },
            None => {},
        }
    }
    proof {
        assert(all.skip(n1 + n2 as int) =~= Seq::<FileEntryV>::empty());
        assert(out.deep_view() + lmd_fold(
            Seq::<FileEntryV>::empty(),
            crate::text::views_of(remaining@),
        ).0 =~= out.deep_view());
    }
    out
}

/// An empty or absent library fails every requested check: each row comes
/// back with its video and comments flags false wherever a check was asked,
/// whatever the sweeps would have held.
pub proof fn lemma_empty_library_all_false(
    videos: Seq<FileEntryV>,
    comments: Seq<FileEntryV>,
    metadata: Seq<FileEntryV>,
    comments_dir: Seq<char>,
    metadata_dir: Seq<char>,
    item: LocalFileCheckItemV,
)
    ensures
        spec_check_item(false, videos, comments, metadata, comments_dir, metadata_dir, item)
            == (LocalFileCheckResultV {
            id: item.id,
            video_ok: !item.check_video,
            comments_ok: !item.check_comments,
        }),
        item.check_video ==> !spec_check_item(
            false,
            videos,
            comments,
            metadata,
            comments_dir,
            metadata_dir,
            item,
        ).video_ok,
        item.check_comments ==> !spec_check_item(
            false,
            videos,
            comments,
            metadata,
            comments_dir,
            metadata_dir,
            item,
        ).comments_ok,
{
}

} // verus!
