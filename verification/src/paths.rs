use vstd::prelude::*;

use crate::text::{
    chars_of, ends_with_seq, ends_with_str, lower, rfind_char, rfind_spec, string_of,
    to_lower_string, trim_spec, trim_str,
};

verus! {

/// The four artifact directories and the legacy contents name, under which a
/// configured root may mistakenly point.
pub open spec fn is_kind_dir_name(s: Seq<char>) -> bool {
    ||| s == "videos"@
    ||| s == "comments"@
    ||| s == "metadata"@
    ||| s == "contents"@
    ||| s == "thumbnails"@
}

/// A path with its trailing separators dropped.
pub open spec fn strip_trailing_seps(s: Seq<char>) -> Seq<char>
    decreases s.len(),
{
    if s.len() > 0 && s.last() == '/' {
        strip_trailing_seps(s.drop_last())
    } else {
        s
    }
}

/// The final component of a path, after its last separator.
pub open spec fn spec_file_name(s: Seq<char>) -> Seq<char> {
    let t = strip_trailing_seps(s);
    match rfind_spec(t, '/') {
        Some(i) => t.skip(i + 1),
        None => t,
    }
}

/// The directory a path sits in.
pub open spec fn spec_parent_dir(s: Seq<char>) -> Seq<char> {
    let t = strip_trailing_seps(s);
    match rfind_spec(t, '/') {
        Some(i) => if i == 0 {
            t.take(1)
        } else {
            t.take(i)
        },
        None => Seq::empty(),
    }
}

fn strip_trailing_seps_exec(s: &str) -> (r: Vec<char>)
    ensures
        r@ == strip_trailing_seps(s@),
{
    let mut cs = chars_of(s);
    while cs.len() > 0 && cs[cs.len() - 1] == '/'
        invariant
            strip_trailing_seps(s@) == strip_trailing_seps(cs@),
        decreases cs.len(),
    {
        let ghost before = cs@;
        cs.pop();
        proof {
            assert(cs@ =~= before.drop_last());
        }
    }
    cs
}

/// The final component of a path.
pub fn file_name_of(path: &str) -> (r: String)
    ensures
        r@ == spec_file_name(path@),
{
    let t = strip_trailing_seps_exec(path);
    match rfind_char(&t, '/') {
        Some(i) => {
            let mut out: Vec<char> = Vec::new();
            let n = t.len();
            for k in (i + 1)..n
                invariant
                    n == t@.len(),
                    i + 1 <= n,
                    out@ == t@.subrange(i as int + 1, k as int),
            {
                out.push(t[k]);
                proof {
                    assert(out@ =~= t@.subrange(i as int + 1, k as int + 1));
                }
            }
            proof {
                assert(t@.subrange(i as int + 1, n as int) =~= t@.skip(i as int + 1));
            }
            string_of(&out)
        },
        None => string_of(&t),
    }
}

/// The directory a path sits in.
pub fn parent_dir_of(path: &str) -> (r: String)
    ensures
        r@ == spec_parent_dir(path@),
{
    let t = strip_trailing_seps_exec(path);
    match rfind_char(&t, '/') {
        Some(i) => {
            let end: usize = if i == 0 {
                1
            } else {
                i
            };
            let mut out: Vec<char> = Vec::new();
            for k in 0..end
                invariant
                    end <= t@.len(),
                    out@ == t@.take(k as int),
            {
                out.push(t[k]);
                proof {
                    assert(out@ =~= t@.take(k as int + 1));
                }
            }
            string_of(&out)
        },
        None => {
            let out: Vec<char> = Vec::new();
            proof {
                assert(out@ =~= Seq::<char>::empty());
            }
            string_of(&out)
        },
    }
}

/// The true library root: a configured directory that itself points at one of
/// the artifact subdirectories is taken back to its parent.
pub open spec fn spec_library_root(s: Seq<char>) -> Seq<char> {
    if is_kind_dir_name(lower(spec_file_name(s))) {
        spec_parent_dir(s)
    } else {
        s
    }
}

/// Normalizes a configured root that may point at an artifact subdirectory.
pub fn resolve_library_root_dir(output_dir: &str) -> (r: String)
    ensures
        r@ == spec_library_root(output_dir@),
{
    let name = file_name_of(output_dir);
    let lowered = to_lower_string(name.as_str());
    let is_child = crate::text::str_eq(lowered.as_str(), "videos") || crate::text::str_eq(
        lowered.as_str(),
        "comments",
    ) || crate::text::str_eq(lowered.as_str(), "metadata") || crate::text::str_eq(
        lowered.as_str(),
        "contents",
    ) || crate::text::str_eq(lowered.as_str(), "thumbnails");
    if is_child {
        parent_dir_of(output_dir)
    } else {
        output_dir.to_owned()
    }
}

/// The normalized root as a plain string.
pub fn normalized_library_root(output_dir: &str) -> (r: String)
    ensures
        r@ == spec_library_root(output_dir@),
{
    resolve_library_root_dir(output_dir)
}

/// A path joined with one more component, the way paths are put together.
pub open spec fn spec_join(dir: Seq<char>, name: Seq<char>) -> Seq<char> {
    if dir.len() == 0 {
        name
    } else if dir.last() == '/' {
        dir + name
    } else {
        dir + seq!['/'] + name
    }
}

/// Appends one component to a directory path.
pub fn join_path(dir: &str, name: &str) -> (r: String)
    ensures
        r@ == spec_join(dir@, name@),
{
    let cs = chars_of(dir);
    if cs.len() == 0 {
        return name.to_owned();
    }
    let mut out = dir.to_owned();
    if cs[cs.len() - 1] != '/' {
        out.append("/");
    }
    out.append(name);
    proof {
        if cs@.last() == '/' {
        } else {
            assert(dir@ + "/"@ + name@ =~= dir@ + seq!['/'] + name@) by {
                reveal_strlit("/");
            }
        }
    }
    out
}

/// The videos directory under a configured root.
pub fn library_videos_dir(output_dir: &str) -> (r: String)
    ensures
        r@ == spec_join(spec_library_root(output_dir@), "videos"@),
{
    let root = resolve_library_root_dir(output_dir);
    join_path(root.as_str(), "videos")
}

/// The comments directory under a configured root.
pub fn library_comments_dir(output_dir: &str) -> (r: String)
    ensures
        r@ == spec_join(spec_library_root(output_dir@), "comments"@),
{
    let root = resolve_library_root_dir(output_dir);
    join_path(root.as_str(), "comments")
}

/// The metadata directory under a configured root.
pub fn library_metadata_dir(output_dir: &str) -> (r: String)
    ensures
        r@ == spec_join(spec_library_root(output_dir@), "metadata"@),
{
    let root = resolve_library_root_dir(output_dir);
    join_path(root.as_str(), "metadata")
}

/// The thumbnails directory under a configured root.
pub fn library_thumbnails_dir(output_dir: &str) -> (r: String)
    ensures
        r@ == spec_join(spec_library_root(output_dir@), "thumbnails"@),
{
    let root = resolve_library_root_dir(output_dir);
    join_path(root.as_str(), "thumbnails")
}

/// The characters a filename component keeps as they are.
pub open spec fn keeps_fname_char(c: char) -> bool {
    ||| ('a' <= c && c <= 'z')
    ||| ('A' <= c && c <= 'Z')
    ||| ('0' <= c && c <= '9')
    ||| c == '-'
    ||| c == '_'
}

/// Every other character becomes an underscore.
pub open spec fn map_fname(s: Seq<char>) -> Seq<char> {
    s.map_values(|c: char| if keeps_fname_char(c) { c } else { '_' })
}

/// Leading underscores dropped.
pub open spec fn trim_uscore_start(s: Seq<char>) -> Seq<char>
    decreases s.len(),
{
    if s.len() > 0 && s[0] == '_' {
        trim_uscore_start(s.drop_first())
    } else {
        s
    }
}

/// Trailing underscores dropped.
pub open spec fn trim_uscore_end(s: Seq<char>) -> Seq<char>
    decreases s.len(),
{
    if s.len() > 0 && s.last() == '_' {
        trim_uscore_end(s.drop_last())
    } else {
        s
    }
}

/// What sanitizing a log-file name component yields: trimmed, every character
/// outside letters, digits, dash and underscore replaced, outer underscores
/// dropped, cut at sixty characters, with a fixed fallback for an empty
/// result.
pub open spec fn spec_sanitize_filename(s: Seq<char>) -> Seq<char> {
    let t = trim_spec(s);
    if t.len() == 0 {
        "unknown"@
    } else {
        let norm = trim_uscore_end(trim_uscore_start(map_fname(t)));
        if norm.len() == 0 {
            "unknown"@
        } else if norm.len() > 60 {
            norm.take(60)
        } else {
            norm
        }
    }
}

/// Sanitizes a string for use inside a log file's name.
#[verifier::loop_isolation(false)]
pub fn sanitize_filename_component(value: &str) -> (r: String)
    ensures
        r@ == spec_sanitize_filename(value@),
{
    let trimmed = trim_str(value);
    let cs = chars_of(trimmed.as_str());
    if cs.len() == 0 {
        return "unknown".to_owned();
    }
    let n = cs.len();
    let mut mapped: Vec<char> = Vec::new();
    for i in 0..n
        invariant
            n == cs@.len(),
            mapped@ == map_fname(cs@).take(i as int),
    {
        let c = cs[i];
        if ('a' <= c && c <= 'z') || ('A' <= c && c <= 'Z') || ('0' <= c && c <= '9') || c == '-'
            || c == '_' {
            mapped.push(c);
        } else {
            mapped.push('_');
        }
        proof {
            assert(mapped@ =~= map_fname(cs@).take(i as int + 1));
        }
    }
    proof {
        assert(map_fname(cs@).take(n as int) =~= map_fname(cs@));
    }
    let mut start: usize = 0;
    proof {
        assert(mapped@.skip(0) =~= mapped@);
    }
    while start < mapped.len() && mapped[start] == '_'
        invariant
            start <= mapped@.len(),
            trim_uscore_start(mapped@) == trim_uscore_start(mapped@.skip(start as int)),
        decreases mapped@.len() - start,
    {
        proof {
            assert(mapped@.skip(start as int)[0] == mapped@[start as int]);
            assert(mapped@.skip(start as int).drop_first() =~= mapped@.skip(start as int + 1));
        }
        start += 1;
    }
    proof {
        if start < mapped@.len() {
            assert(trim_uscore_start(mapped@.skip(start as int)) == mapped@.skip(start as int));
        } else {
            assert(mapped@.skip(start as int) =~= Seq::<char>::empty());
        }
    }
    let mut norm: Vec<char> = Vec::new();
    let m = mapped.len();
    for k in start..m
        invariant
            start <= m,
            m == mapped@.len(),
            norm@ == mapped@.subrange(start as int, k as int),
    {
        norm.push(mapped[k]);
        proof {
            assert(norm@ =~= mapped@.subrange(start as int, k as int + 1));
        }
    }
    proof {
        assert(mapped@.subrange(start as int, m as int) =~= mapped@.skip(start as int));
    }
    while norm.len() > 0 && norm[norm.len() - 1] == '_'
        invariant
            trim_uscore_end(trim_uscore_start(mapped@)) == trim_uscore_end(norm@),
        decreases norm.len(),
    {
        let ghost before = norm@;
        norm.pop();
        proof {
            assert(norm@ =~= before.drop_last());
        }
    }
    if norm.len() == 0 {
        return "unknown".to_owned();
    }
    if norm.len() > 60 {
        let ghost before = norm@;
        norm.truncate(60);
        proof {
            assert(norm@ =~= before.take(60));
        }
    }
    string_of(&norm)
}

/// A control character, as the character classes have it.
pub open spec fn is_control_char(c: char) -> bool {
    c <= '\u{1F}' || ('\u{7F}' <= c && c <= '\u{9F}')
}

/// A character no path component may carry.
pub open spec fn invalid_path_char(c: char) -> bool {
    ||| is_control_char(c)
    ||| c == '<'
    ||| c == '>'
    ||| c == ':'
    ||| c == '"'
    ||| c == '/'
    ||| c == '\\'
    ||| c == '|'
    ||| c == '?'
    ||| c == '*'
}

/// Every forbidden character becomes an underscore.
pub open spec fn map_path(s: Seq<char>) -> Seq<char> {
    s.map_values(|c: char| if invalid_path_char(c) { '_' } else { c })
}

/// Trailing spaces and dots dropped, as file systems demand.
pub open spec fn trim_dot_space_end(s: Seq<char>) -> Seq<char>
    decreases s.len(),
{
    if s.len() > 0 && (s.last() == ' ' || s.last() == '.') {
        trim_dot_space_end(s.drop_last())
    } else {
        s
    }
}

/// What sanitizing an on-disk path component yields: trimmed, forbidden
/// characters replaced, trimmed again, trailing dots and spaces dropped, cut
/// at the given length, with a fixed fallback for an empty result.
pub open spec fn spec_sanitize_path(s: Seq<char>, max_len: int) -> Seq<char> {
    let t = trim_spec(s);
    if t.len() == 0 {
        "unknown"@
    } else {
        let norm = trim_dot_space_end(trim_spec(map_path(t)));
        if norm.len() == 0 {
            "unknown"@
        } else if norm.len() > max_len {
            norm.take(max_len)
        } else {
            norm
        }
    }
}

/// Sanitizes a string for use as one path component.
#[verifier::loop_isolation(false)]
pub fn sanitize_path_component(value: &str, max_len: usize) -> (r: String)
    ensures
        r@ == spec_sanitize_path(value@, max_len as int),
{
    let trimmed = trim_str(value);
    let cs = chars_of(trimmed.as_str());
    if cs.len() == 0 {
        return "unknown".to_owned();
    }
    let n = cs.len();
    let mut mapped: Vec<char> = Vec::new();
    for i in 0..n
        invariant
            n == cs@.len(),
            mapped@ == map_path(cs@).take(i as int),
    {
        let c = cs[i];
        let bad = c <= '\u{1F}' || ('\u{7F}' <= c && c <= '\u{9F}') || c == '<' || c == '>' || c
            == ':' || c == '"' || c == '/' || c == '\\' || c == '|' || c == '?' || c == '*';
        if bad {
            mapped.push('_');
        } else {
            mapped.push(c);
        }
        proof {
            assert(mapped@ =~= map_path(cs@).take(i as int + 1));
        }
    }
    proof {
        assert(map_path(cs@).take(n as int) =~= map_path(cs@));
    }
    let mapped_str = string_of(&mapped);
    let retrimmed = trim_str(mapped_str.as_str());
    let mut norm = chars_of(retrimmed.as_str());
    while norm.len() > 0 && (norm[norm.len() - 1] == ' ' || norm[norm.len() - 1] == '.')
        invariant
            trim_dot_space_end(trim_spec(map_path(cs@))) == trim_dot_space_end(norm@),
        decreases norm.len(),
    {
        let ghost before = norm@;
        norm.pop();
        proof {
            assert(norm@ =~= before.drop_last());
        }
    }
    if norm.len() == 0 {
        return "unknown".to_owned();
    }
    if norm.len() > max_len {
        let ghost before = norm@;
        norm.truncate(max_len);
        proof {
            assert(norm@ =~= before.take(max_len as int));
        }
    }
    string_of(&norm)
}

/// The id embedded in a filename between its last bracket pair, when the pair
/// is well formed and holds something beyond white space.
pub open spec fn spec_extract_id(name: Seq<char>) -> Option<Seq<char>> {
    match (rfind_spec(name, '['), rfind_spec(name, ']')) {
        (Some(o), Some(c)) => if c > o + 1 {
            let id = trim_spec(name.subrange(o + 1, c));
            if id.len() > 0 {
                Some(id)
            } else {
                None
            }
        } else {
            None
        },
        _ => None,
    }
}

/// Reads the content id out of a `"<title> [<id>].<ext>"` filename.
#[verifier::loop_isolation(false)]
pub fn extract_id_from_filename(name: &str) -> (r: Option<String>)
    ensures
        r.deep_view() == spec_extract_id(name@),
{
    let cs = chars_of(name);
    let n = cs.len();
    let open_idx = match rfind_char(&cs, '[') {
        Some(i) => i,
        None => {
            return None;
        },
    };
    let close_idx = match rfind_char(&cs, ']') {
        Some(i) => i,
        None => {
            return None;
        },
    };
    if close_idx > open_idx + 1 {
        let mut mid: Vec<char> = Vec::new();
        for k in (open_idx + 1)..close_idx
            invariant
                open_idx + 1 <= close_idx <= cs@.len(),
                mid@ == cs@.subrange(open_idx as int + 1, k as int),
        {
            mid.push(cs[k]);
            proof {
                assert(mid@ =~= cs@.subrange(open_idx as int + 1, k as int + 1));
            }
        }
        let mid_str = string_of(&mid);
        let id = trim_str(mid_str.as_str());
        if id.as_str().unicode_len() > 0 {
            Some(id)
        } else {
            None
        }
    } else {
        None
    }
}

/// The filename without its final extension.
pub open spec fn spec_file_stem(path: Seq<char>) -> Seq<char> {
    let n = spec_file_name(path);
    match rfind_spec(n, '.') {
        Some(i) => if i > 0 {
            n.take(i)
        } else {
            n
        },
        None => n,
    }
}

/// The stem of a path's final component.
pub fn file_stem_of(path: &str) -> (r: String)
    ensures
        r@ == spec_file_stem(path@),
{
    let name = file_name_of(path);
    let cs = chars_of(name.as_str());
    match rfind_char(&cs, '.') {
        Some(i) => {
            if i > 0 {
                let mut out: Vec<char> = Vec::new();
                for k in 0..i
                    invariant
                        i <= cs@.len(),
                        out@ == cs@.take(k as int),
                {
                    out.push(cs[k]);
                    proof {
                        assert(out@ =~= cs@.take(k as int + 1));
                    }
                }
                string_of(&out)
            } else {
                name
            }
        },
        None => name,
    }
}

/// The extension of a path's final component, when it has one.
pub open spec fn spec_file_ext(path: Seq<char>) -> Option<Seq<char>> {
    let n = spec_file_name(path);
    match rfind_spec(n, '.') {
        Some(i) => if i > 0 {
            Some(n.skip(i + 1))
        } else {
            None
        },
        None => None,
    }
}

/// The extension of a path's final component.
pub fn file_ext_of(path: &str) -> (r: Option<String>)
    ensures
        r.deep_view() == spec_file_ext(path@),
{
    let name = file_name_of(path);
    let cs = chars_of(name.as_str());
    let n = cs.len();
    match rfind_char(&cs, '.') {
        Some(i) => {
            if i > 0 {
                let mut out: Vec<char> = Vec::new();
                for k in (i + 1)..n
                    invariant
                        i + 1 <= n,
                        n == cs@.len(),
                        out@ == cs@.subrange(i as int + 1, k as int),
                {
                    out.push(cs[k]);
                    proof {
                        assert(out@ =~= cs@.subrange(i as int + 1, k as int + 1));
                    }
                }
                proof {
                    assert(cs@.subrange(i as int + 1, n as int) =~= cs@.skip(i as int + 1));
                }
                Some(string_of(&out))
            } else {
                None
            }
        },
        None => None,
    }
}

/// The base name an info file's siblings share: its stem with a trailing
/// `.info` marker dropped. Nothing comes back for a path with no final
/// component.
pub open spec fn spec_info_base_name(path: Seq<char>) -> Option<Seq<char>> {
    if spec_file_name(path).len() == 0 {
        None
    } else {
        let stem = spec_file_stem(path);
        if ends_with_seq(stem, ".info"@) {
            Some(stem.take(stem.len() - ".info"@.len()))
        } else {
            Some(stem)
        }
    }
}

/// The base name an info file's siblings share.
pub fn info_base_name(path: &str) -> (r: Option<String>)
    ensures
        r.deep_view() == spec_info_base_name(path@),
{
    let name = file_name_of(path);
    if name.as_str().unicode_len() == 0 {
        return None;
    }
    let stem = file_stem_of(path);
    if ends_with_str(stem.as_str(), ".info") {
        let cs = chars_of(stem.as_str());
        proof {
            reveal_strlit(".info");
        }
        let cut = cs.len() - 5;
        let mut out: Vec<char> = Vec::new();
        for k in 0..cut
            invariant
                cut <= cs@.len(),
                out@ == cs@.take(k as int),
        {
            out.push(cs[k]);
            proof {
                assert(out@ =~= cs@.take(k as int + 1));
            }
        }
        Some(string_of(&out))
    } else {
        Some(stem)
    }
}

/// A live-chat artifact, told by its filename suffix.
pub fn is_live_chat_file(path: &str) -> (r: bool)
    ensures
        r == ends_with_seq(lower(spec_file_name(path@)), ".live_chat.json"@),
{
    let name = file_name_of(path);
    let lowered = to_lower_string(name.as_str());
    ends_with_str(lowered.as_str(), ".live_chat.json")
}

} // verus!
