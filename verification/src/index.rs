use vstd::prelude::*;

use crate::identity::{content_field_is, entry_content_field_is, entry_name_lower, has_info_suffix};
use crate::paths::{
    file_stem_of, spec_file_ext, spec_file_name, spec_file_stem, spec_library_root,
};
use crate::snapshot::{path_exists, snapshot_has_path, FileEntry, FileEntryV};
use crate::text::{
    contains_seq, contains_str, ends_with_seq, ends_with_str, lower, str_eq, to_lower_string,
    trim_spec, trim_str,
};

verus! {

/// The per-root id-to-path cache: one normalized root, and the resolved path
/// remembered for each lowered id.
pub struct VideoIndexState {
    pub root_dir: Option<String>,
    pub index: Vec<(String, String)>,
}

pub struct VideoIndexStateV {
    pub root_dir: Option<Seq<char>>,
    pub index: Seq<(Seq<char>, Seq<char>)>,
}

impl DeepView for VideoIndexState {
    type V = VideoIndexStateV;

    open spec fn deep_view(&self) -> VideoIndexStateV {
        VideoIndexStateV {
            root_dir: self.root_dir.deep_view(),
            index: Seq::new(self.index@.len(), |i: int| (self.index@[i].0@, self.index@[i].1@)),
        }
    }
}

/// The path remembered for a key: the first binding, scanning in order.
pub open spec fn idx_get(s: Seq<(Seq<char>, Seq<char>)>, k: Seq<char>) -> Option<Seq<char>>
    decreases s.len(),
{
    if s.len() == 0 {
        None
    } else if s[0].0 == k {
        Some(s[0].1)
    } else {
        idx_get(s.drop_first(), k)
    }
}

/// The bindings with every entry for `k` dropped.
pub open spec fn idx_remove(s: Seq<(Seq<char>, Seq<char>)>, k: Seq<char>) -> Seq<
    (Seq<char>, Seq<char>),
>
    decreases s.len(),
{
    if s.len() == 0 {
        s
    } else if s[0].0 == k {
        idx_remove(s.drop_first(), k)
    } else {
        seq![s[0]] + idx_remove(s.drop_first(), k)
    }
}

/// The bindings with `k` bound to `v` and nothing else changed.
pub open spec fn idx_set(
    s: Seq<(Seq<char>, Seq<char>)>,
    k: Seq<char>,
    v: Seq<char>,
) -> Seq<(Seq<char>, Seq<char>)> {
    idx_remove(s, k) + seq![(k, v)]
}

/// Removal drops exactly the asked-for key.
pub proof fn lemma_idx_remove(s: Seq<(Seq<char>, Seq<char>)>, k: Seq<char>)
    ensures
        idx_get(idx_remove(s, k), k) is None,
        forall|k2: Seq<char>| k2 != k ==> idx_get(idx_remove(s, k), k2) == idx_get(s, k2),
    decreases s.len(),
{
    if s.len() > 0 {
        lemma_idx_remove(s.drop_first(), k);
        if s[0].0 == k {
            assert(idx_remove(s, k) == idx_remove(s.drop_first(), k));
            assert forall|k2: Seq<char>| k2 != k implies idx_get(idx_remove(s, k), k2) == idx_get(
                s,
                k2,
            ) by {
                assert(idx_get(idx_remove(s.drop_first(), k), k2) == idx_get(s.drop_first(), k2));
                assert(idx_get(s, k2) == idx_get(s.drop_first(), k2));
            }
        } else {
            let r = seq![s[0]] + idx_remove(s.drop_first(), k);
            assert(idx_remove(s, k) == r);
            assert(r[0] == s[0]);
            assert(r.drop_first() =~= idx_remove(s.drop_first(), k));
            assert(idx_get(r, k) is None);
            assert forall|k2: Seq<char>| k2 != k implies idx_get(idx_remove(s, k), k2) == idx_get(
                s,
                k2,
            ) by {
                assert(idx_get(idx_remove(s.drop_first(), k), k2) == idx_get(s.drop_first(), k2));
                if k2 == s[0].0 {
                    assert(idx_get(r, k2) == Some(r[0].1));
                    assert(idx_get(s, k2) == Some(s[0].1));
                } else {
                    assert(idx_get(r, k2) == idx_get(r.drop_first(), k2));
                    assert(idx_get(s, k2) == idx_get(s.drop_first(), k2));
                }
            }
        }
    }
}

/// Appending a fresh binding serves lookups that found nothing before.
pub proof fn lemma_idx_get_push(
    s: Seq<(Seq<char>, Seq<char>)>,
    k: Seq<char>,
    v: Seq<char>,
    k2: Seq<char>,
)
    ensures
        idx_get(s + seq![(k, v)], k2) == (match idx_get(s, k2) {
            Some(p) => Some(p),
            None => if k2 == k {
                Some(v)
            } else {
                None
            },
        }),
    decreases s.len(),
{
    if s.len() == 0 {
        let r = s + seq![(k, v)];
        assert(r[0] == (k, v));
        assert(r.drop_first() =~= Seq::<(Seq<char>, Seq<char>)>::empty());
        assert(idx_get(r.drop_first(), k2) is None);
    } else {
        lemma_idx_get_push(s.drop_first(), k, v, k2);
        let r = s + seq![(k, v)];
        assert(r[0] == s[0]);
        assert(r.drop_first() =~= s.drop_first() + seq![(k, v)]);
        if k2 == s[0].0 {
            assert(idx_get(r, k2) == Some(r[0].1));
            assert(idx_get(s, k2) == Some(s[0].1));
        } else {
            assert(idx_get(r, k2) == idx_get(r.drop_first(), k2));
            assert(idx_get(s, k2) == idx_get(s.drop_first(), k2));
            assert(idx_get(r.drop_first(), k2) == idx_get(s.drop_first() + seq![(k, v)], k2));
        }
    }
}

/// Binding a key serves that key and disturbs no other.
pub proof fn lemma_idx_set(s: Seq<(Seq<char>, Seq<char>)>, k: Seq<char>, v: Seq<char>)
    ensures
        idx_get(idx_set(s, k, v), k) == Some(v),
        forall|k2: Seq<char>| k2 != k ==> idx_get(idx_set(s, k, v), k2) == idx_get(s, k2),
{
    lemma_idx_remove(s, k);
    lemma_idx_get_push(idx_remove(s, k), k, v, k);
    assert forall|k2: Seq<char>| k2 != k implies idx_get(idx_set(s, k, v), k2) == idx_get(
        s,
        k2,
    ) by {
        lemma_idx_get_push(idx_remove(s, k), k, v, k2);
    }
}

impl VideoIndexState {
    /// An empty cache with no root yet.
    pub fn new() -> (r: VideoIndexState)
        ensures
            r.deep_view().root_dir is None,
            r.deep_view().index =~= Seq::<(Seq<char>, Seq<char>)>::empty(),
    {
        let r = VideoIndexState { root_dir: None, index: Vec::new() };
        proof {
            assert(r.deep_view().index =~= Seq::<(Seq<char>, Seq<char>)>::empty());
        }
        r
    }

    /// The remembered path for a key.
    #[verifier::loop_isolation(false)]
    pub fn cache_get(&self, k: &str) -> (r: Option<String>)
        ensures
            r.deep_view() == idx_get(self.deep_view().index, k@),
    {
        let ghost iv = self.deep_view().index;
        proof {
            assert(iv.skip(0) =~= iv);
        }
        let n = self.index.len();
        for i in 0..n
            invariant
                n == self.index@.len(),
                iv == self.deep_view().index,
                idx_get(iv, k@) == idx_get(iv.skip(i as int), k@),
        {
            proof {
                assert(iv.skip(i as int)[0] == iv[i as int]);
                assert(iv.skip(i as int).drop_first() =~= iv.skip(i as int + 1));
            }
            if str_eq(self.index[i].0.as_str(), k) {
                return Some(self.index[i].1.clone());
            }
        }
        proof {
            assert(iv.skip(n as int) =~= Seq::<(Seq<char>, Seq<char>)>::empty());
        }
        None
    }

    /// Drops whatever the cache remembered for a key.
    #[verifier::loop_isolation(false)]
    pub fn cache_remove(&mut self, k: &str)
        ensures
            final(self).deep_view().index == idx_remove(old(self).deep_view().index, k@),
            final(self).deep_view().root_dir == old(self).deep_view().root_dir,
    {
        let ghost iv = self.deep_view().index;
        let n = self.index.len();
        let mut kept: Vec<(String, String)> = Vec::new();
        proof {
            assert(Seq::new(kept@.len(), |i: int| (kept@[i].0@, kept@[i].1@)) =~= Seq::<
                (Seq<char>, Seq<char>),
            >::empty());
            assert(iv.skip(0) =~= iv);
            assert(Seq::new(kept@.len(), |i: int| (kept@[i].0@, kept@[i].1@)) + idx_remove(iv, k@)
                =~= idx_remove(iv, k@));
        }
        for i in 0..n
            invariant
                n == self.index@.len(),
                iv == self.deep_view().index,
                idx_remove(iv, k@) == Seq::new(
                    kept@.len(),
                    |t: int| (kept@[t].0@, kept@[t].1@),
                ) + idx_remove(iv.skip(i as int), k@),
        {
            let ghost kv = Seq::new(kept@.len(), |t: int| (kept@[t].0@, kept@[t].1@));
            proof {
                assert(iv.skip(i as int)[0] == iv[i as int]);
                assert(iv.skip(i as int).drop_first() =~= iv.skip(i as int + 1));
            }
            if !str_eq(self.index[i].0.as_str(), k) {
                let pair = (self.index[i].0.clone(), self.index[i].1.clone());
                kept.push(pair);
                proof {
                    let kv2 = Seq::new(kept@.len(), |t: int| (kept@[t].0@, kept@[t].1@));
                    assert(kv2 =~= kv + seq![iv[i as int]]);
                    assert(kv2 + idx_remove(iv.skip(i as int + 1), k@) =~= kv + (seq![
                        iv[i as int],
                    ] + idx_remove(iv.skip(i as int + 1), k@)));
                }
            }
        }
        proof {
            assert(iv.skip(n as int) =~= Seq::<(Seq<char>, Seq<char>)>::empty());
            assert(Seq::new(kept@.len(), |t: int| (kept@[t].0@, kept@[t].1@)) + idx_remove(
                Seq::<(Seq<char>, Seq<char>)>::empty(),
                k@,
            ) =~= Seq::new(kept@.len(), |t: int| (kept@[t].0@, kept@[t].1@)));
        }
        self.index = kept;
    }

    /// Remembers a path for a key, replacing an older binding.
    pub fn cache_insert(&mut self, k: &str, v: String)
        ensures
            final(self).deep_view().index == idx_set(old(self).deep_view().index, k@, v@),
            final(self).deep_view().root_dir == old(self).deep_view().root_dir,
    {
        let ghost iv = self.deep_view().index;
        self.cache_remove(k);
        let ghost removed = self.deep_view().index;
        let pair = (k.to_owned(), v);
        self.index.push(pair);
        proof {
            assert(self.deep_view().index =~= removed + seq![(k@, pair.1@)]);
        }
    }

    /// Points the cache at a root, clearing it when the root changes.
    pub fn ensure_root(&mut self, output_dir: &str)
        ensures
            final(self).deep_view().root_dir == Some(spec_library_root(output_dir@)),
            final(self).deep_view().index == (if old(self).deep_view().root_dir == Some(
                spec_library_root(output_dir@),
            ) {
                old(self).deep_view().index
            } else {
                Seq::<(Seq<char>, Seq<char>)>::empty()
            }),
    {
        let root = crate::paths::normalized_library_root(output_dir);
        let same = match &self.root_dir {
            Some(r) => str_eq(r.as_str(), root.as_str()),
            None => false,
        };
        if !same {
            self.root_dir = Some(root);
            self.index = Vec::new();
            proof {
                assert(self.deep_view().index =~= Seq::<(Seq<char>, Seq<char>)>::empty());
            }
        } else {
            self.root_dir = Some(root);
        }
    }
}

/// An entry whose extension marks it as a video file.
pub open spec fn is_video_entry(e: FileEntryV) -> bool {
    match spec_file_ext(e.path) {
        Some(x) => lower(x) == "mp4"@ || lower(x) == "webm"@ || lower(x) == "mkv"@ || lower(x)
            == "m4v"@,
        None => false,
    }
}

/// Tells a video file by its extension.
pub fn entry_is_video(e: &FileEntry) -> (r: bool)
    ensures
        r == is_video_entry(e.deep_view()),
{
    match crate::paths::file_ext_of(e.path.as_str()) {
        Some(x) => {
            let xl = to_lower_string(x.as_str());
            str_eq(xl.as_str(), "mp4") || str_eq(xl.as_str(), "webm") || str_eq(xl.as_str(), "mkv")
                || str_eq(xl.as_str(), "m4v")
        },
        None => false,
    }
}

/// A stem with its trailing `.info` marker dropped.
pub open spec fn strip_info_suffix(stem: Seq<char>) -> Seq<char> {
    if ends_with_seq(stem, ".info"@) {
        stem.take(stem.len() - ".info"@.len())
    } else {
        stem
    }
}

/// The shared base name taken from the first info record in the sweep whose
/// video-id field claims the id.
pub open spec fn first_video_info_stem(entries: Seq<FileEntryV>, id: Seq<char>) -> Option<
    Seq<char>,
>
    decreases entries.len(),
{
    if entries.len() == 0 {
        None
    } else if has_info_suffix(entries[0]) && content_field_is(entries[0], "video_id"@, id) {
        Some(strip_info_suffix(spec_file_stem(entries[0].path)))
    } else {
        first_video_info_stem(entries.drop_first(), id)
    }
}

/// How strongly one video file matches a request: the id in its name or the
/// info record's base name; an exact title; a partial title; anything else.
pub open spec fn video_tier(
    e: FileEntryV,
    id_l: Seq<char>,
    info_stem: Option<Seq<char>>,
    title_l: Seq<char>,
) -> int {
    if contains_seq(lower(spec_file_name(e.path)), id_l) {
        0
    } else if info_stem == Some(spec_file_stem(e.path)) {
        0
    } else if title_l.len() > 0 && lower(spec_file_stem(e.path)) == title_l {
        1
    } else if title_l.len() > 0 && (contains_seq(lower(spec_file_stem(e.path)), title_l)
        || contains_seq(title_l, lower(spec_file_stem(e.path)))) {
        2
    } else {
        3
    }
}

/// A video entry of exactly the given tier; tier 4 takes every video.
pub open spec fn sel_tier(
    e: FileEntryV,
    id_l: Seq<char>,
    info_stem: Option<Seq<char>>,
    title_l: Seq<char>,
    tier: int,
) -> bool {
    is_video_entry(e) && (tier == 4 || video_tier(e, id_l, info_stem, title_l) == tier)
}

/// The most recently modified selected entry, later sweep order winning ties.
pub open spec fn latest_tier(
    s: Seq<FileEntryV>,
    id_l: Seq<char>,
    info_stem: Option<Seq<char>>,
    title_l: Seq<char>,
    tier: int,
) -> Option<(Seq<char>, u64)>
    decreases s.len(),
{
    if s.len() == 0 {
        None
    } else {
        let rest = latest_tier(s.drop_last(), id_l, info_stem, title_l, tier);
        if sel_tier(s.last(), id_l, info_stem, title_l, tier) {
            match rest {
                Some((p, m)) => if s.last().mtime_ms >= m {
                    Some((s.last().path, s.last().mtime_ms))
                } else {
                    Some((p, m))
                },
                None => Some((s.last().path, s.last().mtime_ms)),
            }
        } else {
            rest
        }
    }
}

/// How many video files the sweep saw.
pub open spec fn count_videos(s: Seq<FileEntryV>) -> int
    decreases s.len(),
{
    if s.len() == 0 {
        0
    } else {
        count_videos(s.drop_last()) + (if is_video_entry(s.last()) {
            1int
        } else {
            0int
        })
    }
}

/// The first video file the sweep saw.
pub open spec fn first_video(s: Seq<FileEntryV>) -> Option<Seq<char>>
    decreases s.len(),
{
    if s.len() == 0 {
        None
    } else if is_video_entry(s[0]) {
        Some(s[0].path)
    } else {
        first_video(s.drop_first())
    }
}

/// Which video file a sweep resolves a request to: the newest match at the
/// strongest tier that has any, a single video standing alone, else the
/// newest video of all.
pub open spec fn spec_resolve_scan(
    entries: Seq<FileEntryV>,
    id: Seq<char>,
    title: Seq<char>,
) -> Option<Seq<char>> {
    let id_l = lower(id);
    let title_l = lower(trim_spec(title));
    let ist = first_video_info_stem(entries, id);
    match latest_tier(entries, id_l, ist, title_l, 0) {
        Some((p, _)) => Some(p),
        None => match latest_tier(entries, id_l, ist, title_l, 1) {
            Some((p, _)) => Some(p),
            None => match latest_tier(entries, id_l, ist, title_l, 2) {
                Some((p, _)) => Some(p),
                None => if count_videos(entries) == 1 {
                    first_video(entries)
                } else {
                    match latest_tier(entries, id_l, ist, title_l, 4) {
                        Some((p, _)) => Some(p),
                        None => None,
                    }
                },
            },
        },
    }
}

/// A selected newest entry names a file the sweep saw.
pub proof fn lemma_latest_tier_exists(
    s: Seq<FileEntryV>,
    id_l: Seq<char>,
    info_stem: Option<Seq<char>>,
    title_l: Seq<char>,
    tier: int,
)
    ensures
        match latest_tier(s, id_l, info_stem, title_l, tier) {
            Some((p, m)) => path_exists(s, p),
            None => true,
        },
    decreases s.len(),
{
    if s.len() > 0 {
        lemma_latest_tier_exists(s.drop_last(), id_l, info_stem, title_l, tier);
        match latest_tier(s, id_l, info_stem, title_l, tier) {
            Some((p, m)) => {
                match latest_tier(s.drop_last(), id_l, info_stem, title_l, tier) {
                    Some((p0, m0)) => {
                        if p == p0 && m == m0 {
                            let i = choose|i: int|
                                0 <= i < s.drop_last().len() && s.drop_last()[i].path == p0;
                            assert(s[i] == s.drop_last()[i]);
                        } else {
                            assert(s[s.len() - 1].path == p);
                        }
                    },
                    None => {
                        assert(s[s.len() - 1].path == p);
                    },
                }
            },
            None => {},
        }
    }
}

/// A first video names a file the sweep saw.
pub proof fn lemma_first_video_exists(s: Seq<FileEntryV>)
    ensures
        match first_video(s) {
            Some(p) => path_exists(s, p),
            None => true,
        },
    decreases s.len(),
{
    if s.len() > 0 && !is_video_entry(s[0]) {
        lemma_first_video_exists(s.drop_first());
        match first_video(s) {
            Some(p) => {
                let i = choose|i: int|
                    0 <= i < s.drop_first().len() && s.drop_first()[i].path == p;
                assert(s[i + 1] == s.drop_first()[i]);
            },
            None => {},
        }
    }
}

/// A resolved path names a file the sweep saw.
pub proof fn lemma_resolve_scan_exists(entries: Seq<FileEntryV>, id: Seq<char>, title: Seq<char>)
    ensures
        match spec_resolve_scan(entries, id, title) {
            Some(p) => path_exists(entries, p),
            None => true,
        },
{
    let id_l = lower(id);
    let title_l = lower(trim_spec(title));
    let ist = first_video_info_stem(entries, id);
    lemma_latest_tier_exists(entries, id_l, ist, title_l, 0);
    lemma_latest_tier_exists(entries, id_l, ist, title_l, 1);
    lemma_latest_tier_exists(entries, id_l, ist, title_l, 2);
    lemma_latest_tier_exists(entries, id_l, ist, title_l, 4);
    lemma_first_video_exists(entries);
}

fn entry_tier(e: &FileEntry, id_lower: &str, info_stem: &Option<String>, title_lower: &str) -> (r:
    u8)
    requires
        id_lower@ == lower(id_lower@),
    ensures
        r as int == video_tier(
            e.deep_view(),
            id_lower@,
            info_stem.deep_view(),
            title_lower@,
        ),
{
    let name_lower = entry_name_lower(e);
    if contains_str(name_lower.as_str(), id_lower) {
        return 0;
    }
    let stem = file_stem_of(e.path.as_str());
    let stem_matches = match info_stem {
        Some(b) => str_eq(stem.as_str(), b.as_str()),
        None => false,
    };
    if stem_matches {
        return 0;
    }
    let stem_lower = to_lower_string(stem.as_str());
    let has_title = title_lower.unicode_len() > 0;
    if has_title && str_eq(stem_lower.as_str(), title_lower) {
        return 1;
    }
    if has_title && (contains_str(stem_lower.as_str(), title_lower) || contains_str(
        title_lower,
        stem_lower.as_str(),
    )) {
        return 2;
    }
    3
}

/// Scans the swept video entries for the file best matching an id and title.
#[verifier::loop_isolation(false)]
#[verifier::rlimit(100)]
pub fn resolve_scan(entries: &Vec<FileEntry>, id: &str, title: &str) -> (r: Option<String>)
    ensures
        r.deep_view() == spec_resolve_scan(entries.deep_view(), id@, title@),
{
    let ghost ev = entries.deep_view();
    let id_lower = to_lower_string(id);
    let title_trimmed = trim_str(title);
    let title_lower = to_lower_string(title_trimmed.as_str());
    let ghost id_l = lower(id@);
    let ghost title_l = lower(trim_spec(title@));
    proof {
        assert(lower(id_lower@) =~= lower(id@)) by {
            assert(forall|i: int| 0 <= i < id@.len() ==> #[trigger] lower(lower(id@))[i] == lower(
                id@,
            )[i]);
        }
    }
    let n = entries.len();

    let mut info_stem: Option<String> = None;
    proof {
        assert(ev.skip(0) =~= ev);
    }
    for i in 0..n
        invariant
            n == entries@.len(),
            ev == entries.deep_view(),
            info_stem is None,
            first_video_info_stem(ev, id@) == first_video_info_stem(ev.skip(i as int), id@),
    {
        proof {
            assert(ev.skip(i as int)[0] == ev[i as int]);
            assert(ev[i as int] == entries@[i as int].deep_view());
            assert(ev.skip(i as int).drop_first() =~= ev.skip(i as int + 1));
        }
        let name_lower = entry_name_lower(&entries[i]);
        if ends_with_str(name_lower.as_str(), ".info.json") {
            if entry_content_field_is(&entries[i], "video_id", id) {
                let stem = file_stem_of(entries[i].path.as_str());
                if ends_with_str(stem.as_str(), ".info") {
                    let cs = crate::text::chars_of(stem.as_str());
                    proof {
                        reveal_strlit(".info");
                    }
                    let cut = cs.len() - 5;
                    let mut out: Vec<char> = Vec::new();
                    for k in 0..cut
                        invariant
                            cut <= cs@.len(),
                            out@ == cs@.take(k as int),
                    {
                        out.push(cs[k]);
                        proof {
                            assert(out@ =~= cs@.take(k as int + 1));
                        }
                    }
                    info_stem = Some(crate::text::string_of(&out));
                } else {
                    info_stem = Some(stem);
                }
                break;
            }
        }
    }
    proof {
        if info_stem is None {
            assert(ev.skip(n as int) =~= Seq::<FileEntryV>::empty());
        }
    }
    let ghost ist = first_video_info_stem(ev, id@);
    proof {
        assert(info_stem.deep_view() == ist);
    }

    let mut best0: Option<String> = None;
    let mut best0_m: u64 = 0;
    let mut best1: Option<String> = None;
    let mut best1_m: u64 = 0;
    let mut best2: Option<String> = None;
    let mut best2_m: u64 = 0;
    let mut best_any: Option<String> = None;
    let mut best_any_m: u64 = 0;
    let mut vid_count: usize = 0;
    let mut first_vid: Option<String> = None;
    proof {
        assert(ev.take(0) =~= Seq::<FileEntryV>::empty());
        assert(ev.skip(0) =~= ev);
    }
    for i in 0..n
        invariant
            n == entries@.len(),
            ev == entries.deep_view(),
            info_stem.deep_view() == ist,
            id_lower@ == id_l,
            title_lower@ == title_l,
            match best0 {
                Some(p) => latest_tier(ev.take(i as int), id_l, ist, title_l, 0) == Some(
                    (p@, best0_m),
                ),
                None => latest_tier(ev.take(i as int), id_l, ist, title_l, 0) is None,
            },
            match best1 {
                Some(p) => latest_tier(ev.take(i as int), id_l, ist, title_l, 1) == Some(
                    (p@, best1_m),
                ),
                None => latest_tier(ev.take(i as int), id_l, ist, title_l, 1) is None,
            },
            match best2 {
                Some(p) => latest_tier(ev.take(i as int), id_l, ist, title_l, 2) == Some(
                    (p@, best2_m),
                ),
                None => latest_tier(ev.take(i as int), id_l, ist, title_l, 2) is None,
            },
            match best_any {
                Some(p) => latest_tier(ev.take(i as int), id_l, ist, title_l, 4) == Some(
                    (p@, best_any_m),
                ),
                None => latest_tier(ev.take(i as int), id_l, ist, title_l, 4) is None,
            },
            vid_count <= i,
            count_videos(ev.take(i as int)) == vid_count,
            match first_vid {
                Some(p) => first_video(ev) == Some(p@) && vid_count > 0,
                None => first_video(ev) == first_video(ev.skip(i as int)) && vid_count == 0,
            },
    {
        proof {
            assert(ev[i as int] == entries@[i as int].deep_view());
            assert(ev.take(i as int + 1).last() == ev[i as int]);
            assert(ev.take(i as int + 1).drop_last() =~= ev.take(i as int));
            assert(ev.skip(i as int)[0] == ev[i as int]);
            assert(ev.skip(i as int).drop_first() =~= ev.skip(i as int + 1));
        }
        if entry_is_video(&entries[i]) {
            let m = entries[i].mtime_ms;
            vid_count += 1;
            if first_vid.is_none() {
                first_vid = Some(entries[i].path.clone());
            }
            match &best_any {
                Some(_) => {
                    if m >= best_any_m {
                        best_any = Some(entries[i].path.clone());
                        best_any_m = m;
                    }
                },
                None => {
                    best_any = Some(entries[i].path.clone());
                    best_any_m = m;
                },
            }
            let tier = entry_tier(&entries[i], id_lower.as_str(), &info_stem, title_lower.as_str());
            if tier == 0 {
                match &best0 {
                    Some(_) => {
                        if m >= best0_m {
                            best0 = Some(entries[i].path.clone());
                            best0_m = m;
                        }
                    },
                    None => {
                        best0 = Some(entries[i].path.clone());
                        best0_m = m;
                    },
                }
            } else if tier == 1 {
                match &best1 {
                    Some(_) => {
                        if m >= best1_m {
                            best1 = Some(entries[i].path.clone());
                            best1_m = m;
                        }
                    },
                    None => {
                        best1 = Some(entries[i].path.clone());
                        best1_m = m;
                    },
                }
            } else if tier == 2 {
                match &best2 {
                    Some(_) => {
                        if m >= best2_m {
                            best2 = Some(entries[i].path.clone());
                            best2_m = m;
                        }
                    },
                    None => {
                        best2 = Some(entries[i].path.clone());
                        best2_m = m;
                    },
                }
            }
        }
    }
    proof {
        assert(ev.take(n as int) =~= ev);
        if first_vid is None {
            assert(ev.skip(n as int) =~= Seq::<FileEntryV>::empty());
        }
    }
    if best0.is_some() {
        return best0;
    }
    if best1.is_some() {
        return best1;
    }
    if best2.is_some() {
        return best2;
    }
    if vid_count == 1 {
        return first_vid;
    }
    best_any
}

/// The lowered id a stem maps to: the last pair whose lowered stem matches,
/// later configuration beating earlier.
pub open spec fn stem_to_id_lookup(
    pairs: Seq<(Seq<char>, Seq<char>)>,
    stem_l: Seq<char>,
) -> Option<Seq<char>>
    decreases pairs.len(),
{
    if pairs.len() == 0 {
        None
    } else if lower(pairs.last().1) == stem_l {
        Some(lower(pairs.last().0))
    } else {
        stem_to_id_lookup(pairs.drop_last(), stem_l)
    }
}

#[verifier::loop_isolation(false)]
fn stem_to_id_lookup_exec(pairs: &Vec<(String, String)>, stem_l: &str) -> (r: Option<String>)
    ensures
        r.deep_view() == stem_to_id_lookup(
            Seq::new(pairs@.len(), |i: int| (pairs@[i].0@, pairs@[i].1@)),
            stem_l@,
        ),
{
    let ghost pv = Seq::new(pairs@.len(), |i: int| (pairs@[i].0@, pairs@[i].1@));
    let n = pairs.len();
    let mut i = n;
    proof {
        assert(pv.take(n as int) =~= pv);
    }
    while i > 0
        invariant
            n == pairs@.len(),
            pv == Seq::new(pairs@.len(), |t: int| (pairs@[t].0@, pairs@[t].1@)),
            0 <= i <= n,
            stem_to_id_lookup(pv, stem_l@) == stem_to_id_lookup(pv.take(i as int), stem_l@),
        decreases i,
    {
        i -= 1;
        proof {
            assert(pv.take(i as int + 1).last() == pv[i as int]);
            assert(pv.take(i as int + 1).drop_last() =~= pv.take(i as int));
        }
        let sl = to_lower_string(pairs[i].1.as_str());
        if str_eq(sl.as_str(), stem_l) {
            return Some(to_lower_string(pairs[i].0.as_str()));
        }
    }
    proof {
        assert(pv.take(0) =~= Seq::<(Seq<char>, Seq<char>)>::empty());
    }
    None
}

/// What one swept file does to the cache: a video file keyed by the id in its
/// name, else by the id its stem is configured for; anything else passes by.
pub open spec fn scan_step(
    idx: Seq<(Seq<char>, Seq<char>)>,
    e: FileEntryV,
    pairs: Seq<(Seq<char>, Seq<char>)>,
) -> Seq<(Seq<char>, Seq<char>)> {
    if is_video_entry(e) {
        match crate::paths::spec_extract_id(spec_file_name(e.path)) {
            Some(id) => idx_set(idx, lower(id), e.path),
            None => match stem_to_id_lookup(pairs, lower(spec_file_stem(e.path))) {
                Some(id2) => idx_set(idx, id2, e.path),
                None => idx,
            },
        }
    } else {
        idx
    }
}

/// The cache after a whole sweep is folded in.
pub open spec fn scan_fold(
    idx: Seq<(Seq<char>, Seq<char>)>,
    entries: Seq<FileEntryV>,
    pairs: Seq<(Seq<char>, Seq<char>)>,
) -> Seq<(Seq<char>, Seq<char>)>
    decreases entries.len(),
{
    if entries.len() == 0 {
        idx
    } else {
        scan_fold(scan_step(idx, entries[0], pairs), entries.drop_first(), pairs)
    }
}

/// Folds a sweep of the videos directory into the cache: each video file is
/// remembered under the id its name embeds, or under the id its stem is
/// mapped to by the given info-record pairs.
#[verifier::loop_isolation(false)]
pub fn update_video_index_from_scan(
    state: &mut VideoIndexState,
    output_dir: &str,
    video_entries: &Vec<FileEntry>,
    info_stem_by_id: &Vec<(String, String)>,
)
    ensures
        final(state).deep_view().root_dir == Some(spec_library_root(output_dir@)),
        final(state).deep_view().index == scan_fold(
            (if old(state).deep_view().root_dir == Some(spec_library_root(output_dir@)) {
                old(state).deep_view().index
            } else {
                Seq::<(Seq<char>, Seq<char>)>::empty()
            }),
            video_entries.deep_view(),
            Seq::new(
                info_stem_by_id@.len(),
                |i: int| (info_stem_by_id@[i].0@, info_stem_by_id@[i].1@),
            ),
        ),
{
    state.ensure_root(output_dir);
    let ghost rooted = state.deep_view().index;
    let ghost ev = video_entries.deep_view();
    let ghost pv = Seq::new(
        info_stem_by_id@.len(),
        |i: int| (info_stem_by_id@[i].0@, info_stem_by_id@[i].1@),
    );
    proof {
        assert(ev.skip(0) =~= ev);
    }
    let n = video_entries.len();
    for i in 0..n
        invariant
            n == video_entries@.len(),
            ev == video_entries.deep_view(),
            pv == Seq::new(
                info_stem_by_id@.len(),
                |t: int| (info_stem_by_id@[t].0@, info_stem_by_id@[t].1@),
            ),
            state.deep_view().root_dir == Some(spec_library_root(output_dir@)),
            scan_fold(rooted, ev, pv) == scan_fold(
                state.deep_view().index,
                ev.skip(i as int),
                pv,
            ),
    {
        proof {
            assert(ev.skip(i as int)[0] == ev[i as int]);
            assert(ev[i as int] == video_entries@[i as int].deep_view());
            assert(ev.skip(i as int).drop_first() =~= ev.skip(i as int + 1));
        }
        if entry_is_video(&video_entries[i]) {
            let name = crate::paths::file_name_of(video_entries[i].path.as_str());
            match crate::paths::extract_id_from_filename(name.as_str()) {
                Some(id) => {
                    let id_l = to_lower_string(id.as_str());
                    state.cache_insert(id_l.as_str(), video_entries[i].path.clone());
                },
                None => {
                    let stem = crate::paths::file_stem_of(video_entries[i].path.as_str());
                    let stem_l = to_lower_string(stem.as_str());
                    match stem_to_id_lookup_exec(info_stem_by_id, stem_l.as_str()) {
                        Some(id2) => {
                            state.cache_insert(id2.as_str(), video_entries[i].path.clone());
                        },
                        None => {},
                    }
                },
            }
        }
    }
    proof {
        assert(ev.skip(n as int) =~= Seq::<FileEntryV>::empty());
    }
}

/// What one resolution does to the cache and reports back: the root is
/// pinned; a remembered path that still exists is answered from the cache;
/// anything else is resolved by the scan; and afterwards the cache remembers
/// for this id exactly what was answered, with every other id untouched.
pub open spec fn resolve_post(
    old_st: VideoIndexStateV,
    new_st: VideoIndexStateV,
    entries: Seq<FileEntryV>,
    id: Seq<char>,
    title: Seq<char>,
    output_dir: Seq<char>,
    r: Option<Seq<char>>,
    hit: bool,
) -> bool {
    let root = spec_library_root(output_dir);
    let rooted = if old_st.root_dir == Some(root) {
        old_st.index
    } else {
        Seq::<(Seq<char>, Seq<char>)>::empty()
    };
    let id_l = lower(id);
    let cache_hit = match idx_get(rooted, id_l) {
        Some(p) => path_exists(entries, p),
        None => false,
    };
    &&& new_st.root_dir == Some(root)
    &&& hit == cache_hit
    &&& r == (if cache_hit {
        idx_get(rooted, id_l)
    } else {
        spec_resolve_scan(entries, id, title)
    })
    &&& idx_get(new_st.index, id_l) == r
    &&& forall|k2: Seq<char>| k2 != id_l ==> idx_get(new_st.index, k2) == idx_get(rooted, k2)
}

/// Resolves an id and title to a video file among the swept entries of the
/// videos directory, through the cache; the second result says whether the
/// cache answered. With no videos directory nothing changes and nothing is
/// found.
pub fn resolve_video_file(
    state: &mut VideoIndexState,
    id: &str,
    title: &str,
    output_dir: &str,
    dir_exists: bool,
    entries: &Vec<FileEntry>,
) -> (r: (Option<String>, bool))
    ensures
        !dir_exists ==> r.0 is None && r.1 == false && final(state).deep_view() == old(
            state,
        ).deep_view(),
        dir_exists ==> resolve_post(
            old(state).deep_view(),
            final(state).deep_view(),
            entries.deep_view(),
            id@,
            title@,
            output_dir@,
            r.0.deep_view(),
            r.1,
        ),
{
    if !dir_exists {
        return (None, false);
    }
    state.ensure_root(output_dir);
    let ghost rooted = state.deep_view().index;
    let id_lower = to_lower_string(id);
    match state.cache_get(id_lower.as_str()) {
        Some(found) => {
            if snapshot_has_path(entries, found.as_str()) {
                return (Some(found), true);
            }
            state.cache_remove(id_lower.as_str());
            proof {
                lemma_idx_remove(rooted, lower(id@));
            }
        },
        None => {},
    }
    let resolved = resolve_scan(entries, id, title);
    match &resolved {
        Some(p) => {
            let ghost before = state.deep_view().index;
            state.cache_insert(id_lower.as_str(), p.clone());
            proof {
                lemma_idx_set(before, lower(id@), p@);
            }
        },
        None => {},
    }
    (resolved, false)
}

/// Resolving the same root and id twice against an unchanged sweep answers
/// the same path both times, and the second resolution is served by the cache
/// whenever the first found a file.
pub proof fn lemma_resolve_twice(
    s0: VideoIndexStateV,
    s1: VideoIndexStateV,
    s2: VideoIndexStateV,
    entries: Seq<FileEntryV>,
    id: Seq<char>,
    title: Seq<char>,
    output_dir: Seq<char>,
    r1: Option<Seq<char>>,
    h1: bool,
    r2: Option<Seq<char>>,
    h2: bool,
)
    requires
        resolve_post(s0, s1, entries, id, title, output_dir, r1, h1),
        resolve_post(s1, s2, entries, id, title, output_dir, r2, h2),
    ensures
        r2 == r1,
        r1 is Some ==> h2,
{
    lemma_resolve_scan_exists(entries, id, title);
    let id_l = lower(id);
    assert(idx_get(s1.index, id_l) == r1);
    match r1 {
        Some(p) => {
            assert(path_exists(entries, p));
        },
        None => {},
    }
}

/// Keeps the cache keyed to the root it serves.
pub fn ensure_video_index_root(state: &mut VideoIndexState, output_dir: &str)
    ensures
        final(state).deep_view().root_dir == Some(spec_library_root(output_dir@)),
        final(state).deep_view().index == (if old(state).deep_view().root_dir == Some(
            spec_library_root(output_dir@),
        ) {
            old(state).deep_view().index
        } else {
            Seq::<(Seq<char>, Seq<char>)>::empty()
        }),
{
    state.ensure_root(output_dir)
}

} // verus!
