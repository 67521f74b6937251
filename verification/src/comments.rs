use vstd::prelude::*;

use crate::identity::spec_find_comments_file;
use crate::models::{CommentItem, CommentItemV};
use crate::parser::{parse_comments_with_limit, spec_limited, spec_parse_comment_content};
use crate::paths::spec_file_name;
use crate::snapshot::{FileEntry, FileEntryV};
use crate::text::{ends_with_seq, lower, str_eq};

verus! {

/// Why a comment artifact could not be served.
#[derive(Clone, Copy, Debug, PartialEq, Eq, Structural)]
pub enum CommentsError {
    /// No artifact in the library resolves to the id.
    NotFound,
    /// The resolved artifact's text was not readable.
    Unreadable,
}

/// Which file serves an id's comments: resolved against the metadata sweep
/// first, the legacy comments sweep second.
pub open spec fn spec_pick_comments_file(
    metadata: Seq<FileEntryV>,
    comments: Seq<FileEntryV>,
    metadata_dir: Seq<char>,
    comments_dir: Seq<char>,
    id: Seq<char>,
) -> Option<Seq<char>> {
    match spec_find_comments_file(metadata, metadata_dir, id) {
        Some(p) => Some(p),
        None => spec_find_comments_file(comments, comments_dir, id),
    }
}

/// The text recorded for a path, when the sweeps saw the path at all.
pub open spec fn content_at(entries: Seq<FileEntryV>, p: Seq<char>) -> Option<Option<Seq<char>>>
    decreases entries.len(),
{
    if entries.len() == 0 {
        None
    } else if entries[0].path == p {
        Some(entries[0].content)
    } else {
        content_at(entries.drop_first(), p)
    }
}

#[verifier::loop_isolation(false)]
fn content_at_exec<'a>(entries: &'a Vec<FileEntry>, p: &str) -> (r: Option<&'a Option<String>>)
    ensures
        match r {
            Some(c) => content_at(entries.deep_view(), p@) == Some(c.deep_view()),
            None => content_at(entries.deep_view(), p@) is None,
        },
{
    let ghost ev = entries.deep_view();
    proof {
        assert(ev.skip(0) =~= ev);
    }
    let n = entries.len();
    for i in 0..n
        invariant
            n == entries@.len(),
            ev == entries.deep_view(),
            content_at(ev, p@) == content_at(ev.skip(i as int), p@),
    {
        proof {
            assert(ev.skip(i as int)[0] == ev[i as int]);
            assert(ev[i as int] == entries@[i as int].deep_view());
            assert(ev.skip(i as int).drop_first() =~= ev.skip(i as int + 1));
        }
        if str_eq(entries[i].path.as_str(), p) {
            return Some(&entries[i].content);
        }
    }
    proof {
        assert(ev.skip(n as int) =~= Seq::<FileEntryV>::empty());
    }
    None
}

/// Whether an id has a real comment artifact: something resolves, and it is
/// not merely the info record standing in.
pub open spec fn spec_comments_file_exists(
    metadata: Seq<FileEntryV>,
    comments: Seq<FileEntryV>,
    metadata_dir: Seq<char>,
    comments_dir: Seq<char>,
    dirs_exist: bool,
    id: Seq<char>,
) -> bool {
    if !dirs_exist {
        false
    } else {
        match spec_pick_comments_file(metadata, comments, metadata_dir, comments_dir, id) {
            Some(p) => !ends_with_seq(lower(spec_file_name(p)), ".info.json"@),
            None => false,
        }
    }
}

/// Tells whether a chat or comments artifact exists for the id.
pub fn comments_file_exists(
    metadata: &Vec<FileEntry>,
    comments: &Vec<FileEntry>,
    metadata_dir: &str,
    comments_dir: &str,
    dirs_exist: bool,
    id: &str,
) -> (r: bool)
    ensures
        r == spec_comments_file_exists(
            metadata.deep_view(),
            comments.deep_view(),
            metadata_dir@,
            comments_dir@,
            dirs_exist,
            id@,
        ),
{
    if !dirs_exist {
        return false;
    }
    let picked = match crate::identity::find_comments_file(metadata, metadata_dir, id) {
        Some(p) => Some(p),
        None => crate::identity::find_comments_file(comments, comments_dir, id),
    };
    match picked {
        Some(p) => {
            let name_lower = crate::text::to_lower_string(
                crate::paths::file_name_of(p.as_str()).as_str(),
            );
            !crate::text::ends_with_str(name_lower.as_str(), ".info.json")
        },
        None => false,
    }
}

/// What serving an id's comments yields: the resolved artifact's items, cut
/// to the limit; an error says whether nothing resolved or the file could not
/// be read.
pub open spec fn spec_get_comments(
    metadata: Seq<FileEntryV>,
    comments: Seq<FileEntryV>,
    metadata_dir: Seq<char>,
    comments_dir: Seq<char>,
    id: Seq<char>,
    limit: Option<usize>,
) -> Result<Seq<CommentItemV>, CommentsError> {
    match spec_pick_comments_file(metadata, comments, metadata_dir, comments_dir, id) {
        None => Err(CommentsError::NotFound),
        Some(p) => {
            let found = match content_at(metadata, p) {
                Some(c) => Some(c),
                None => match content_at(comments, p) {
                    Some(c) => Some(c),
                    None => None,
                },
            };
            match found {
                Some(Some(c)) => Ok(
                    spec_limited(
                        spec_parse_comment_content(
                            c,
                            ends_with_seq(lower(spec_file_name(p)), ".live_chat.json"@),
                        ),
                        limit,
                    ),
                ),
                _ => Err(CommentsError::Unreadable),
            }
        },
    }
}

/// Serves an id's comments from the swept artifacts: resolves the file,
/// parses its text by shape, and cuts the answer to the limit.
pub fn get_comments(
    metadata: &Vec<FileEntry>,
    comments: &Vec<FileEntry>,
    metadata_dir: &str,
    comments_dir: &str,
    id: &str,
    limit: Option<usize>,
) -> (r: Result<Vec<CommentItem>, CommentsError>)
    ensures
        match r {
            Ok(items) => spec_get_comments(
                metadata.deep_view(),
                comments.deep_view(),
                metadata_dir@,
                comments_dir@,
                id@,
                limit,
            ) == Ok::<Seq<CommentItemV>, CommentsError>(items.deep_view()),
            Err(e) => spec_get_comments(
                metadata.deep_view(),
                comments.deep_view(),
                metadata_dir@,
                comments_dir@,
                id@,
                limit,
            ) == Err::<Seq<CommentItemV>, CommentsError>(e),
        },
{
    let picked = match crate::identity::find_comments_file(metadata, metadata_dir, id) {
        Some(p) => p,
        None => match crate::identity::find_comments_file(comments, comments_dir, id) {
            Some(p) => p,
            None => {
                return Err(CommentsError::NotFound);
            },
        },
    };
    let found = match content_at_exec(metadata, picked.as_str()) {
        Some(c) => Some(c),
        None => match content_at_exec(comments, picked.as_str()) {
            Some(c) => Some(c),
            None => None,
        },
    };
    match found {
        Some(Some(c)) => {
            let is_chat = crate::paths::is_live_chat_file(picked.as_str());
            Ok(parse_comments_with_limit(c.as_str(), is_chat, limit))
        },
        _ => Err(CommentsError::Unreadable),
    }
}

} // verus!
