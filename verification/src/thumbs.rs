use vstd::prelude::*;

use crate::identity::entry_name_lower;
use crate::paths::spec_file_name;
use crate::snapshot::{FileEntry, FileEntryV};
use crate::text::{
    contains_seq, contains_str, ends_with_seq, ends_with_str, lower, starts_with_seq,
    starts_with_str, string_of, to_lower_string, trim_spec, trim_str,
};

verus! {

/// Leading dots dropped from an extension setting.
pub open spec fn strip_leading_dots(s: Seq<char>) -> Seq<char>
    decreases s.len(),
{
    if s.len() > 0 && s[0] == '.' {
        strip_leading_dots(s.drop_first())
    } else {
        s
    }
}

/// What a thumbnail extension setting normalizes to: one of the known image
/// extensions, the long form shortened, anything else the default.
pub open spec fn spec_normalize_thumb_ext(v: Option<Seq<char>>) -> Seq<char> {
    match v {
        Some(raw) => {
            let t = strip_leading_dots(lower(trim_spec(raw)));
            if t == "jpeg"@ {
                "jpg"@
            } else if t == "jpg"@ || t == "png"@ || t == "webp"@ || t == "gif"@ {
                t
            } else {
                "jpg"@
            }
        },
        None => "jpg"@,
    }
}

/// Normalizes a thumbnail extension setting.
pub fn normalize_thumbnail_extension(value: Option<String>) -> (r: String)
    ensures
        r@ == spec_normalize_thumb_ext(value.deep_view()),
{
    match value {
        Some(raw) => {
            let trimmed = trim_str(raw.as_str());
            let lowered = to_lower_string(trimmed.as_str());
            let mut cs = crate::text::chars_of(lowered.as_str());
            let mut start: usize = 0;
            let n = cs.len();
            proof {
                assert(cs@.skip(0) =~= cs@);
            }
            while start < n && cs[start] == '.'
                invariant
                    n == cs@.len(),
                    start <= n,
                    strip_leading_dots(cs@) == strip_leading_dots(cs@.skip(start as int)),
                decreases n - start,
            {
                proof {
                    assert(cs@.skip(start as int)[0] == cs@[start as int]);
                    assert(cs@.skip(start as int).drop_first() =~= cs@.skip(start as int + 1));
                }
                start += 1;
            }
            proof {
                if start < n {
                    assert(strip_leading_dots(cs@.skip(start as int)) == cs@.skip(start as int));
                } else {
                    assert(cs@.skip(start as int) =~= Seq::<char>::empty());
                }
            }
            let mut out: Vec<char> = Vec::new();
            for k in start..n
                invariant
                    start <= n,
                    n == cs@.len(),
                    out@ == cs@.subrange(start as int, k as int),
            {
                out.push(cs[k]);
                proof {
                    assert(out@ =~= cs@.subrange(start as int, k as int + 1));
                }
            }
            proof {
                assert(cs@.subrange(start as int, n as int) =~= cs@.skip(start as int));
            }
            let t = string_of(&out);
            if crate::text::str_eq(t.as_str(), "jpeg") {
                "jpg".to_owned()
            } else if crate::text::str_eq(t.as_str(), "jpg") || crate::text::str_eq(
                t.as_str(),
                "png",
            ) || crate::text::str_eq(t.as_str(), "webp") || crate::text::str_eq(
                t.as_str(),
                "gif",
            ) {
                t
            } else {
                "jpg".to_owned()
            }
        },
        None => "jpg".to_owned(),
    }
}

/// A stored image, told by its filename suffix.
pub open spec fn is_image_entry(e: FileEntryV) -> bool {
    let n = lower(spec_file_name(e.path));
    ||| ends_with_seq(n, ".jpg"@)
    ||| ends_with_seq(n, ".jpeg"@)
    ||| ends_with_seq(n, ".png"@)
    ||| ends_with_seq(n, ".webp"@)
    ||| ends_with_seq(n, ".gif"@)
}

/// An image whose name claims the id, in the plain or the bracketed naming.
pub open spec fn thumb_matches(e: FileEntryV, id_l: Seq<char>) -> bool {
    is_image_entry(e) && (starts_with_seq(lower(spec_file_name(e.path)), id_l + "."@)
        || contains_seq(lower(spec_file_name(e.path)), "["@ + id_l + "]"@))
}

/// The first stored thumbnail for an id among the swept entries.
pub open spec fn spec_find_thumbnail(entries: Seq<FileEntryV>, id: Seq<char>) -> Option<
    Seq<char>,
>
    decreases entries.len(),
{
    if entries.len() == 0 {
        None
    } else if thumb_matches(entries[0], lower(id)) {
        Some(entries[0].path)
    } else {
        spec_find_thumbnail(entries.drop_first(), id)
    }
}

/// Finds the stored thumbnail for an id: an image named `<id>.<ext>`, or one
/// carrying `[<id>]`, case-insensitively.
#[verifier::loop_isolation(false)]
pub fn find_existing_thumbnail(entries: &Vec<FileEntry>, video_id: &str) -> (r: Option<String>)
    ensures
        r.deep_view() == spec_find_thumbnail(entries.deep_view(), video_id@),
{
    let ghost ev = entries.deep_view();
    proof {
        assert(ev.skip(0) =~= ev);
    }
    let id_lower = to_lower_string(video_id);
    let mut id_prefix = id_lower.clone();
    id_prefix.append(".");
    let mut id_marker = "[".to_owned();
    id_marker.append(id_lower.as_str());
    id_marker.append("]");
    proof {
        reveal_strlit(".");
        reveal_strlit("[");
        reveal_strlit("]");
        assert(id_prefix@ =~= lower(video_id@) + "."@);
        assert(id_marker@ =~= "["@ + lower(video_id@) + "]"@);
    }
    let n = entries.len();
    for i in 0..n
        invariant
            n == entries@.len(),
            ev == entries.deep_view(),
            id_prefix@ == lower(video_id@) + "."@,
            id_marker@ == "["@ + lower(video_id@) + "]"@,
            spec_find_thumbnail(ev, video_id@) == spec_find_thumbnail(
                ev.skip(i as int),
                video_id@,
            ),
    {
        proof {
            assert(ev.skip(i as int)[0] == ev[i as int]);
            assert(ev[i as int] == entries@[i as int].deep_view());
            assert(ev.skip(i as int).drop_first() =~= ev.skip(i as int + 1));
        }
        let name_lower = entry_name_lower(&entries[i]);
        let is_image = ends_with_str(name_lower.as_str(), ".jpg") || ends_with_str(
            name_lower.as_str(),
            ".jpeg",
        ) || ends_with_str(name_lower.as_str(), ".png") || ends_with_str(
            name_lower.as_str(),
            ".webp",
        ) || ends_with_str(name_lower.as_str(), ".gif");
        if is_image {
            if starts_with_str(name_lower.as_str(), id_prefix.as_str()) || contains_str(
                name_lower.as_str(),
                id_marker.as_str(),
            ) {
                return Some(entries[i].path.clone());
            }
        }
    }
    proof {
        assert(ev.skip(n as int) =~= Seq::<FileEntryV>::empty());
    }
    None
}

/// The filename a new thumbnail is stored under: the sanitized title, the
/// bracketed id, and the normalized extension.
pub fn thumbnail_file_name(title: Option<&str>, video_id: &str, extension: &str) -> (r: String)
    ensures
        r@ == crate::paths::spec_sanitize_path(
            match title {
                Some(t) => t@,
                None => "thumbnail"@,
            },
            120,
        ) + " ["@ + video_id@ + "]."@ + extension@,
{
    let base = match title {
        Some(t) => crate::paths::sanitize_path_component(t, 120),
        None => crate::paths::sanitize_path_component("thumbnail", 120),
    };
    let mut out = base;
    out.append(" [");
    out.append(video_id);
    out.append("].");
    out.append(extension);
    out
}

} // verus!
