use vstd::prelude::*;

verus! {

/// One file seen by a directory sweep: its full path, its last-modified time
/// in milliseconds, and its text where the caller read it (`None` for a file
/// that was not read or could not be).
pub struct FileEntry {
    pub path: String,
    pub mtime_ms: u64,
    pub content: Option<String>,
}

pub struct FileEntryV {
    pub path: Seq<char>,
    pub mtime_ms: u64,
    pub content: Option<Seq<char>>,
}

impl DeepView for FileEntry {
    type V = FileEntryV;

    open spec fn deep_view(&self) -> FileEntryV {
        FileEntryV {
            path: self.path@,
            mtime_ms: self.mtime_ms,
            content: self.content.deep_view(),
        }
    }
}

impl FileEntry {
    /// A field-for-field copy.
    pub fn duplicate(&self) -> (r: FileEntry)
        ensures
            r.deep_view() == self.deep_view(),
    {
        FileEntry {
            path: self.path.clone(),
            mtime_ms: self.mtime_ms,
            content: match &self.content {
                Some(c) => Some(c.clone()),
                None => None,
            },
        }
    }
}

/// Some entry of the sweep carries exactly this path.
pub open spec fn path_exists(entries: Seq<FileEntryV>, p: Seq<char>) -> bool {
    exists|i: int| 0 <= i < entries.len() && entries[i].path == p
}

/// Looks a path up among the swept entries.
pub fn snapshot_has_path(entries: &Vec<FileEntry>, p: &str) -> (r: bool)
    ensures
        r == path_exists(entries.deep_view(), p@),
{
    let n = entries.len();
    for i in 0..n
        invariant
            n == entries@.len(),
            forall|t: int| 0 <= t < i ==> entries.deep_view()[t].path != p@,
    {
        proof {
            assert(entries.deep_view()[i as int] == entries@[i as int].deep_view());
        }
        if crate::text::str_eq(entries[i].path.as_str(), p) {
            return true;
        }
    }
    false
}

} // verus!
