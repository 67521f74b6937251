use vstd::prelude::*;

use crate::json::{jv_get_str, parse_json, parse_json_spec, Jv};
use crate::paths::{spec_file_name, spec_info_base_name, spec_join, info_base_name, join_path};
use crate::snapshot::{path_exists, snapshot_has_path, FileEntry, FileEntryV};
use crate::text::{
    contains_seq, contains_str, ends_with_seq, ends_with_str, eq_ignore_case, lower, spec_lines,
    split_lines, to_lower_string,
};

verus! {

/// An entry whose filename marks it as a structured metadata record.
pub open spec fn has_info_suffix(e: FileEntryV) -> bool {
    ends_with_seq(lower(spec_file_name(e.path)), ".info.json"@)
}

/// An entry whose filename marks it as a live-chat capture.
pub open spec fn has_chat_suffix(e: FileEntryV) -> bool {
    ends_with_seq(lower(spec_file_name(e.path)), ".live_chat.json"@)
}

/// An entry whose filename marks it as a comments capture.
pub open spec fn has_comments_suffix(e: FileEntryV) -> bool {
    ends_with_seq(lower(spec_file_name(e.path)), ".comments.json"@)
}

/// The lowered id occurs in the lowered filename.
pub open spec fn name_has_id(e: FileEntryV, id_l: Seq<char>) -> bool {
    contains_seq(lower(spec_file_name(e.path)), id_l)
}

/// The JSON value an entry's text parses to, when it was read and parses.
pub open spec fn content_json(e: FileEntryV) -> Option<Jv> {
    match e.content {
        Some(c) => parse_json_spec(c),
        None => None,
    }
}

/// The string under `key` of an entry's parsed content equals `id` up to
/// ASCII case.
pub open spec fn content_field_is(e: FileEntryV, key: Seq<char>, id: Seq<char>) -> bool {
    match content_json(e) {
        Some(v) => match jv_get_str(v, key) {
            Some(s) => lower(s) == lower(id),
            None => false,
        },
        None => false,
    }
}

/// An info record claims the id under its id or display-id field.
pub open spec fn info_content_matches(e: FileEntryV, id: Seq<char>) -> bool {
    ||| content_field_is(e, "id"@, id)
    ||| content_field_is(e, "display_id"@, id)
    ||| content_field_is(e, "video_id"@, id)
}

/// The first info file whose name carries the id.
pub open spec fn first_info_name_match(entries: Seq<FileEntryV>, id_l: Seq<char>) -> Option<
    Seq<char>,
>
    decreases entries.len(),
{
    if entries.len() == 0 {
        None
    } else if has_info_suffix(entries[0]) && name_has_id(entries[0], id_l) {
        Some(entries[0].path)
    } else {
        first_info_name_match(entries.drop_first(), id_l)
    }
}

/// The first info file whose content claims the id.
pub open spec fn first_info_content_match(entries: Seq<FileEntryV>, id: Seq<char>) -> Option<
    Seq<char>,
>
    decreases entries.len(),
{
    if entries.len() == 0 {
        None
    } else if has_info_suffix(entries[0]) && info_content_matches(entries[0], id) {
        Some(entries[0].path)
    } else {
        first_info_content_match(entries.drop_first(), id)
    }
}

/// Which file a metadata sweep resolves an id to: the first info file named
/// for the id, else the first whose content claims it.
pub open spec fn spec_find_info_json(entries: Seq<FileEntryV>, id: Seq<char>) -> Option<
    Seq<char>,
> {
    match first_info_name_match(entries, lower(id)) {
        Some(p) => Some(p),
        None => first_info_content_match(entries, id),
    }
}

pub fn entry_name_lower(e: &FileEntry) -> (r: String)
    ensures
        r@ == lower(spec_file_name(e.deep_view().path)),
{
    let name = crate::paths::file_name_of(e.path.as_str());
    to_lower_string(name.as_str())
}

pub fn entry_content_field_is(e: &FileEntry, key: &str, id: &str) -> (r: bool)
    ensures
        r == content_field_is(e.deep_view(), key@, id@),
{
    match &e.content {
        Some(c) => match parse_json(c.as_str()) {
            Some(v) => match v.get_str(key) {
                Some(s) => eq_ignore_case(s.as_str(), id),
                None => false,
            },
            None => false,
        },
        None => false,
    }
}

fn entry_info_content_matches(e: &FileEntry, id: &str) -> (r: bool)
    ensures
        r == info_content_matches(e.deep_view(), id@),
{
    entry_content_field_is(e, "id", id) || entry_content_field_is(e, "display_id", id)
        || entry_content_field_is(e, "video_id", id)
}

/// Resolves an id to its info file among the swept metadata entries: a
/// filename embedding the id wins, else the first record whose id,
/// display-id or video-id field claims it, all case-insensitively.
#[verifier::loop_isolation(false)]
pub fn find_info_json(entries: &Vec<FileEntry>, id: &str) -> (r: Option<String>)
    ensures
        r.deep_view() == spec_find_info_json(entries.deep_view(), id@),
{
    let ghost ev = entries.deep_view();
    let id_lower = to_lower_string(id);
    proof {
        assert(ev.skip(0) =~= ev);
    }
    let n = entries.len();
    for i in 0..n
        invariant
            n == entries@.len(),
            ev == entries.deep_view(),
            first_info_name_match(ev, lower(id@)) == first_info_name_match(
                ev.skip(i as int),
                lower(id@),
            ),
    {
        proof {
            assert(ev.skip(i as int)[0] == ev[i as int]);
            assert(ev[i as int] == entries@[i as int].deep_view());
            assert(ev.skip(i as int).drop_first() =~= ev.skip(i as int + 1));
        }
        let name_lower = entry_name_lower(&entries[i]);
        if ends_with_str(name_lower.as_str(), ".info.json") && contains_str(
            name_lower.as_str(),
            id_lower.as_str(),
        ) {
            return Some(entries[i].path.clone());
        }
    }
    proof {
        assert(ev.skip(n as int) =~= Seq::<FileEntryV>::empty());
    }
    for i in 0..n
        invariant
            n == entries@.len(),
            ev == entries.deep_view(),
            first_info_name_match(ev, lower(id@)) is None,
            first_info_content_match(ev, id@) == first_info_content_match(
                ev.skip(i as int),
                id@,
            ),
    {
        proof {
            assert(ev.skip(i as int)[0] == ev[i as int]);
            assert(ev[i as int] == entries@[i as int].deep_view());
            assert(ev.skip(i as int).drop_first() =~= ev.skip(i as int + 1));
        }
        let name_lower = entry_name_lower(&entries[i]);
        if ends_with_str(name_lower.as_str(), ".info.json") {
            if entry_info_content_matches(&entries[i], id) {
                return Some(entries[i].path.clone());
            }
        }
    }
    proof {
        assert(ev.skip(n as int) =~= Seq::<FileEntryV>::empty());
    }
    None
}

/// The three filename shapes a comment artifact may carry.
pub enum CommentKind {
    Chat,
    Comments,
    Info,
}

pub open spec fn has_suffix_kind(e: FileEntryV, k: CommentKind) -> bool {
    match k {
        CommentKind::Chat => has_chat_suffix(e),
        CommentKind::Comments => has_comments_suffix(e),
        CommentKind::Info => has_info_suffix(e),
    }
}

/// An entry any of the three comment passes may consider.
pub open spec fn is_comment_candidate(e: FileEntryV) -> bool {
    ||| has_chat_suffix(e)
    ||| has_comments_suffix(e)
    ||| has_info_suffix(e)
}

/// The path of the latest entry of the given shape whose name carries the id.
pub open spec fn last_name_match(entries: Seq<FileEntryV>, id_l: Seq<char>, k: CommentKind)
    -> Option<Seq<char>>
    decreases entries.len(),
{
    if entries.len() == 0 {
        None
    } else if has_suffix_kind(entries.last(), k) && name_has_id(entries.last(), id_l) {
        Some(entries.last().path)
    } else {
        last_name_match(entries.drop_last(), id_l, k)
    }
}

/// One line of an entry claims the id under its video-id field.
pub open spec fn line_video_id_match(l: Seq<char>, id: Seq<char>) -> bool {
    match parse_json_spec(l) {
        Some(v) => match jv_get_str(v, "video_id"@) {
            Some(s) => lower(s) == lower(id),
            None => false,
        },
        None => false,
    }
}

/// An entry's content claims the id: as one JSON value, or on any one of its
/// lines.
pub open spec fn content_has_video_id(e: FileEntryV, id: Seq<char>) -> bool {
    ||| content_field_is(e, "video_id"@, id)
    ||| match e.content {
        Some(c) => exists|i: int|
            0 <= i < spec_lines(c).len() && line_video_id_match(spec_lines(c)[i], id),
        None => false,
    }
}

/// The first entry of the given shape whose content claims the id.
pub open spec fn first_content_match(entries: Seq<FileEntryV>, id: Seq<char>, k: CommentKind)
    -> Option<Seq<char>>
    decreases entries.len(),
{
    if entries.len() == 0 {
        None
    } else if has_suffix_kind(entries[0], k) && content_has_video_id(entries[0], id) {
        Some(entries[0].path)
    } else {
        first_content_match(entries.drop_first(), id, k)
    }
}

/// The first info file whose record claims the id under id or display-id.
pub open spec fn first_info_id_match(entries: Seq<FileEntryV>, id: Seq<char>) -> Option<
    Seq<char>,
>
    decreases entries.len(),
{
    if entries.len() == 0 {
        None
    } else if has_info_suffix(entries[0]) && (content_field_is(entries[0], "id"@, id)
        || content_field_is(entries[0], "display_id"@, id)) {
        Some(entries[0].path)
    } else {
        first_info_id_match(entries.drop_first(), id)
    }
}

/// How many entries any comment pass may consider.
pub open spec fn count_candidates(entries: Seq<FileEntryV>) -> int
    decreases entries.len(),
{
    if entries.len() == 0 {
        0
    } else {
        (if is_comment_candidate(entries[0]) {
            1int
        } else {
            0int
        }) + count_candidates(entries.drop_first())
    }
}

/// The path of the first such entry.
pub open spec fn first_candidate(entries: Seq<FileEntryV>) -> Option<Seq<char>>
    decreases entries.len(),
{
    if entries.len() == 0 {
        None
    } else if is_comment_candidate(entries[0]) {
        Some(entries[0].path)
    } else {
        first_candidate(entries.drop_first())
    }
}

/// No filename carries two of the three comment suffixes at once.
pub proof fn lemma_suffixes_exclusive(s: Seq<char>)
    ensures
        ends_with_seq(s, ".live_chat.json"@) ==> !ends_with_seq(s, ".comments.json"@),
        ends_with_seq(s, ".live_chat.json"@) ==> !ends_with_seq(s, ".info.json"@),
        ends_with_seq(s, ".comments.json"@) ==> !ends_with_seq(s, ".info.json"@),
{
    reveal_strlit(".live_chat.json");
    reveal_strlit(".comments.json");
    reveal_strlit(".info.json");
    if ends_with_seq(s, ".live_chat.json"@) && ends_with_seq(s, ".comments.json"@) {
        assert(s[s.len() - 14] == ".comments.json"@[0]);
        assert(s[s.len() - 15 + 1] == ".live_chat.json"@[1]);
        assert(false);
    }
    if ends_with_seq(s, ".live_chat.json"@) && ends_with_seq(s, ".info.json"@) {
        assert(s[s.len() - 10] == ".info.json"@[0]);
        assert(s[s.len() - 15 + 5] == ".live_chat.json"@[5]);
        assert(false);
    }
    if ends_with_seq(s, ".comments.json"@) && ends_with_seq(s, ".info.json"@) {
        assert(s[s.len() - 10] == ".info.json"@[0]);
        assert(s[s.len() - 14 + 4] == ".comments.json"@[4]);
        assert(false);
    }
}

/// Which file a sweep of `dir` resolves an id's comments to, layer by layer:
/// a filename carrying the id, richer shapes first and later files beating
/// earlier ones; else the first chat capture whose content claims the id;
/// else the first comments capture that does; else the info record that
/// claims it, preferring a chat or comments sibling sharing the record's base
/// name; else a single candidate standing alone.
pub open spec fn spec_find_comments_file(
    entries: Seq<FileEntryV>,
    dir: Seq<char>,
    id: Seq<char>,
) -> Option<Seq<char>> {
    let id_l = lower(id);
    let live_m = last_name_match(entries, id_l, CommentKind::Chat);
    let com_m = last_name_match(entries, id_l, CommentKind::Comments);
    let info_m = last_name_match(entries, id_l, CommentKind::Info);
    if live_m is Some {
        live_m
    } else if com_m is Some {
        com_m
    } else if info_m is Some {
        info_m
    } else {
        match first_content_match(entries, id, CommentKind::Chat) {
            Some(p) => Some(p),
            None => match first_content_match(entries, id, CommentKind::Comments) {
                Some(p) => Some(p),
                None => match first_info_id_match(entries, id) {
                    Some(ip) => match spec_info_base_name(ip) {
                        Some(base) => {
                            let lc = spec_join(dir, base + ".live_chat.json"@);
                            let cm = spec_join(dir, base + ".comments.json"@);
                            if path_exists(entries, lc) {
                                Some(lc)
                            } else if path_exists(entries, cm) {
                                Some(cm)
                            } else {
                                Some(ip)
                            }
                        },
                        None => Some(ip),
                    },
                    None => if count_candidates(entries) == 1 {
                        first_candidate(entries)
                    } else {
                        None
                    },
                },
            },
        }
    }
}

fn entry_content_has_video_id(e: &FileEntry, id: &str) -> (r: bool)
    ensures
        r == content_has_video_id(e.deep_view(), id@),
{
    match &e.content {
        Some(c) => {
            if entry_content_field_is(e, "video_id", id) {
                return true;
            }
            let lines = split_lines(c.as_str());
            let ghost lv = spec_lines(c@);
            let n = lines.len();
            for i in 0..n
                invariant
                    n == lines@.len(),
                    lv == crate::text::views_of(lines@),
                    lv == spec_lines(c@),
                    e.deep_view().content == Some(c@),
                    forall|t: int| 0 <= t < i ==> !line_video_id_match(lv[t], id@),
            {
                proof {
                    assert(lv[i as int] == lines@[i as int]@);
                }
                let hit = match parse_json(lines[i].as_str()) {
                    Some(v) => match v.get_str("video_id") {
                        Some(s) => eq_ignore_case(s.as_str(), id),
                        None => false,
                    },
                    None => false,
                };
                if hit {
                    proof {
                        assert(line_video_id_match(lv[i as int], id@));
                    }
                    return true;
                }
            }
            false
        },
        None => false,
    }
}

fn entry_has_suffix_kind(e: &FileEntry, kind: u8) -> (r: bool)
    requires
        kind == 0 || kind == 1 || kind == 2,
    ensures
        kind == 0 ==> r == has_chat_suffix(e.deep_view()),
        kind == 1 ==> r == has_comments_suffix(e.deep_view()),
        kind == 2 ==> r == has_info_suffix(e.deep_view()),
{
    let name_lower = entry_name_lower(e);
    if kind == 0 {
        ends_with_str(name_lower.as_str(), ".live_chat.json")
    } else if kind == 1 {
        ends_with_str(name_lower.as_str(), ".comments.json")
    } else {
        ends_with_str(name_lower.as_str(), ".info.json")
    }
}

/// Resolves an id to its comment artifact among the entries swept from `dir`,
/// through the layered heuristic chain.
#[verifier::loop_isolation(false)]
#[verifier::rlimit(60)]
pub fn find_comments_file(entries: &Vec<FileEntry>, dir: &str, id: &str) -> (r: Option<String>)
    ensures
        r.deep_view() == spec_find_comments_file(entries.deep_view(), dir@, id@),
{
    let ghost ev = entries.deep_view();
    let ghost id_l = lower(id@);
    let id_lower = to_lower_string(id);
    let n = entries.len();

    let mut live_m: Option<String> = None;
    let mut com_m: Option<String> = None;
    let mut info_m: Option<String> = None;
    proof {
        assert(ev.take(0) =~= Seq::<FileEntryV>::empty());
    }
    for i in 0..n
        invariant
            n == entries@.len(),
            ev == entries.deep_view(),
            live_m.deep_view() == last_name_match(ev.take(i as int), id_l, CommentKind::Chat),
            com_m.deep_view() == last_name_match(ev.take(i as int), id_l, CommentKind::Comments),
            info_m.deep_view() == last_name_match(ev.take(i as int), id_l, CommentKind::Info),
    {
        proof {
            assert(ev[i as int] == entries@[i as int].deep_view());
            assert(ev.take(i as int + 1).last() == ev[i as int]);
            assert(ev.take(i as int + 1).drop_last() =~= ev.take(i as int));
            lemma_suffixes_exclusive(lower(spec_file_name(ev[i as int].path)));
        }
        let name_lower = entry_name_lower(&entries[i]);
        if contains_str(name_lower.as_str(), id_lower.as_str()) {
            if ends_with_str(name_lower.as_str(), ".live_chat.json") {
                live_m = Some(entries[i].path.clone());
            } else if ends_with_str(name_lower.as_str(), ".comments.json") {
                com_m = Some(entries[i].path.clone());
            } else if ends_with_str(name_lower.as_str(), ".info.json") {
                info_m = Some(entries[i].path.clone());
            }
        }
    }
    proof {
        assert(ev.take(n as int) =~= ev);
    }
    if live_m.is_some() {
        return live_m;
    }
    if com_m.is_some() {
        return com_m;
    }
    if info_m.is_some() {
        return info_m;
    }

    proof {
        assert(ev.skip(0) =~= ev);
    }
    for i in 0..n
        invariant
            n == entries@.len(),
            ev == entries.deep_view(),
            first_content_match(ev, id@, CommentKind::Chat) == first_content_match(
                ev.skip(i as int),
                id@,
                CommentKind::Chat,
            ),
    {
        proof {
            assert(ev.skip(i as int)[0] == ev[i as int]);
            assert(ev[i as int] == entries@[i as int].deep_view());
            assert(ev.skip(i as int).drop_first() =~= ev.skip(i as int + 1));
        }
        if entry_has_suffix_kind(&entries[i], 0) {
            if entry_content_has_video_id(&entries[i], id) {
                return Some(entries[i].path.clone());
            }
        }
    }
    proof {
        assert(ev.skip(n as int) =~= Seq::<FileEntryV>::empty());
    }

    for i in 0..n
        invariant
            n == entries@.len(),
            ev == entries.deep_view(),
            first_content_match(ev, id@, CommentKind::Chat) is None,
            first_content_match(ev, id@, CommentKind::Comments) == first_content_match(
                ev.skip(i as int),
                id@,
                CommentKind::Comments,
            ),
    {
        proof {
            assert(ev.skip(i as int)[0] == ev[i as int]);
            assert(ev[i as int] == entries@[i as int].deep_view());
            assert(ev.skip(i as int).drop_first() =~= ev.skip(i as int + 1));
        }
        if entry_has_suffix_kind(&entries[i], 1) {
            if entry_content_has_video_id(&entries[i], id) {
                return Some(entries[i].path.clone());
            }
        }
    }
    proof {
        assert(ev.skip(n as int) =~= Seq::<FileEntryV>::empty());
    }

    let mut info_path: Option<String> = None;
    for i in 0..n
        invariant
            n == entries@.len(),
            ev == entries.deep_view(),
            info_path is None,
            first_info_id_match(ev, id@) == first_info_id_match(ev.skip(i as int), id@),
    {
        proof {
            assert(ev.skip(i as int)[0] == ev[i as int]);
            assert(ev[i as int] == entries@[i as int].deep_view());
            assert(ev.skip(i as int).drop_first() =~= ev.skip(i as int + 1));
        }
        if entry_has_suffix_kind(&entries[i], 2) {
            if entry_content_field_is(&entries[i], "id", id) || entry_content_field_is(
                &entries[i],
                "display_id",
                id,
            ) {
                info_path = Some(entries[i].path.clone());
                break;
            }
        }
    }
    proof {
        if info_path is None {
            assert(ev.skip(n as int) =~= Seq::<FileEntryV>::empty());
        }
    }

    if let Some(ip) = info_path {
        match info_base_name(ip.as_str()) {
            Some(base) => {
                let mut lc_name = base.clone();
                lc_name.append(".live_chat.json");
                let lc = join_path(dir, lc_name.as_str());
                if snapshot_has_path(entries, lc.as_str()) {
                    return Some(lc);
                }
                let mut cm_name = base;
                cm_name.append(".comments.json");
                let cm = join_path(dir, cm_name.as_str());
                if snapshot_has_path(entries, cm.as_str()) {
                    return Some(cm);
                }
                return Some(ip);
            },
            None => {
                return Some(ip);
            },
        }
    }

    let mut cand_count: usize = 0;
    let mut first_cand: Option<String> = None;
    proof {
        assert(ev.skip(0) =~= ev);
    }
    for i in 0..n
        invariant
            n == entries@.len(),
            ev == entries.deep_view(),
            cand_count <= i,
            count_candidates(ev) == cand_count + count_candidates(ev.skip(i as int)),
            match first_cand {
                Some(p) => first_candidate(ev) == Some(p@) && cand_count > 0,
                None => first_candidate(ev) == first_candidate(ev.skip(i as int)) && cand_count
                    == 0,
            },
    {
        proof {
            assert(ev.skip(i as int)[0] == ev[i as int]);
            assert(ev[i as int] == entries@[i as int].deep_view());
            assert(ev.skip(i as int).drop_first() =~= ev.skip(i as int + 1));
        }
        if entry_has_suffix_kind(&entries[i], 0) || entry_has_suffix_kind(&entries[i], 1)
            || entry_has_suffix_kind(&entries[i], 2) {
            cand_count += 1;
            if first_cand.is_none() {
                first_cand = Some(entries[i].path.clone());
            }
        }
    }
    proof {
        assert(ev.skip(n as int) =~= Seq::<FileEntryV>::empty());
    }
    if cand_count == 1 {
        return first_cand;
    }
    None
}

} // verus!
