use vstd::prelude::*;

use crate::identity::{entry_name_lower, has_info_suffix, name_has_id};
use crate::paths::{sanitize_filename_component, spec_file_name, spec_sanitize_filename};
use crate::snapshot::{FileEntry, FileEntryV};
use crate::text::{
    contains_str, contains_seq, chars_of, ends_with_str, lower, spec_u64_digits, to_lower_string,
    u64_to_string,
};

verus! {

/// The settings file's schema version this build writes and reads.
pub const SETTINGS_SCHEMA_VERSION: u32 = 1;

/// The video index file's schema version this build writes and reads.
pub const VIDEOS_SCHEMA_VERSION: u32 = 1;

/// The backup archive's schema version this build writes and reads.
pub const BACKUP_SCHEMA_VERSION: u32 = 2;

/// A versioned settings envelope is taken only at or below the known schema.
pub fn settings_version_accepted(version: u32) -> (r: bool)
    ensures
        r == (version <= SETTINGS_SCHEMA_VERSION),
{
    version <= SETTINGS_SCHEMA_VERSION
}

/// A versioned index envelope is taken only at or below the known schema.
pub fn videos_version_accepted(version: u32) -> (r: bool)
    ensures
        r == (version <= VIDEOS_SCHEMA_VERSION),
{
    version <= VIDEOS_SCHEMA_VERSION
}

/// A backup archive is imported only at or below the known schema.
pub fn backup_version_accepted(version: u32) -> (r: bool)
    ensures
        r == (version <= BACKUP_SCHEMA_VERSION),
{
    version <= BACKUP_SCHEMA_VERSION
}

/// Where one entry of a backup archive is restored to.
#[derive(Clone, Copy, Debug, PartialEq, Eq, Structural)]
pub enum BackupEntryTarget {
    Settings,
    Videos,
}

/// Classifies one backup archive entry by its stored name; anything
/// unrecognized is left alone.
pub fn backup_entry_target(name: &str) -> (r: Option<BackupEntryTarget>)
    ensures
        r == Some(BackupEntryTarget::Settings) <==> name@ == "settings/app.json"@,
        r == Some(BackupEntryTarget::Videos) <==> name@ == "index/videos.json"@,
{
    proof {
        reveal_strlit("settings/app.json");
        reveal_strlit("index/videos.json");
        assert("settings/app.json"@[0] == 's');
        assert("index/videos.json"@[0] == 'i');
        assert("settings/app.json"@ != "index/videos.json"@);
    }
    if crate::text::str_eq(name, "settings/app.json") {
        Some(BackupEntryTarget::Settings)
    } else if crate::text::str_eq(name, "index/videos.json") {
        Some(BackupEntryTarget::Videos)
    } else {
        None
    }
}

/// Which binary a tool archive entry carries, told by its path inside the
/// archive.
pub fn tool_archive_entry_target(name: &str) -> (r: Option<String>)
    ensures
        match r {
            Some(t) => (t@ == "ffmpeg.exe"@ && (crate::text::ends_with_seq(
                name@,
                "/bin/ffmpeg.exe"@,
            ) || crate::text::ends_with_seq(name@, "\\bin\\ffmpeg.exe"@))) || (t@
                == "ffprobe.exe"@ && (crate::text::ends_with_seq(name@, "/bin/ffprobe.exe"@)
                || crate::text::ends_with_seq(name@, "\\bin\\ffprobe.exe"@))),
            None => !crate::text::ends_with_seq(name@, "/bin/ffmpeg.exe"@)
                && !crate::text::ends_with_seq(name@, "\\bin\\ffmpeg.exe"@)
                && !crate::text::ends_with_seq(name@, "/bin/ffprobe.exe"@)
                && !crate::text::ends_with_seq(name@, "\\bin\\ffprobe.exe"@),
        },
{
    if ends_with_str(name, "/bin/ffmpeg.exe") || ends_with_str(name, "\\bin\\ffmpeg.exe") {
        Some("ffmpeg.exe".to_owned())
    } else if ends_with_str(name, "/bin/ffprobe.exe") || ends_with_str(name, "\\bin\\ffprobe.exe") {
        Some("ffprobe.exe".to_owned())
    } else {
        None
    }
}

/// The name a diagnostic log is written under: the timestamp and the
/// sanitized kind and id.
pub fn error_log_file_name(ts_ms: u64, kind: &str, id: &str) -> (r: String)
    ensures
        r@ == spec_u64_digits(ts_ms as int) + "_"@ + spec_sanitize_filename(kind@) + "_"@
            + spec_sanitize_filename(id@) + ".log"@,
{
    let mut out = u64_to_string(ts_ms);
    out.append("_");
    let safe_kind = sanitize_filename_component(kind);
    out.append(safe_kind.as_str());
    out.append("_");
    let safe_id = sanitize_filename_component(id);
    out.append(safe_id.as_str());
    out.append(".log");
    out
}

/// A filename carrying a redownload timestamp: it holds a digit, a dash or an
/// underscore, and at least eight digits in all.
pub open spec fn spec_has_timestamp(name: Seq<char>) -> bool {
    &&& exists|i: int| 0 <= i < name.len() && crate::text::is_digit(name[i])
    &&& (contains_seq(name, "_"@) || contains_seq(name, "-"@))
    &&& count_digits(name) >= 8
}

/// How many digits a name carries.
pub open spec fn count_digits(s: Seq<char>) -> int
    decreases s.len(),
{
    if s.len() == 0 {
        0
    } else {
        count_digits(s.drop_last()) + (if crate::text::is_digit(s.last()) {
            1int
        } else {
            0int
        })
    }
}

/// Tells a timestamped redownload artifact by its name.
#[verifier::loop_isolation(false)]
pub fn has_timestamp_pattern(name: &str) -> (r: bool)
    ensures
        r == spec_has_timestamp(name@),
{
    let cs = chars_of(name);
    let n = cs.len();
    let mut digit_count: usize = 0;
    let mut any_digit = false;
    proof {
        assert(cs@.take(0) =~= Seq::<char>::empty());
    }
    for i in 0..n
        invariant
            n == cs@.len(),
            cs@ == name@,
            digit_count <= i,
            digit_count == count_digits(name@.take(i as int)),
            any_digit == exists|t: int| 0 <= t < i && crate::text::is_digit(name@[t]),
    {
        proof {
            assert(name@.take(i as int + 1).last() == name@[i as int]);
            assert(name@.take(i as int + 1).drop_last() =~= name@.take(i as int));
        }
        let c = cs[i];
        if '0' <= c && c <= '9' {
            digit_count += 1;
            any_digit = true;
        }
    }
    proof {
        assert(name@.take(n as int) =~= name@);
    }
    any_digit && (contains_str(name, "_") || contains_str(name, "-")) && digit_count >= 8
}

/// The paths whose filenames carry the id, in sweep order: what deleting a
/// content's artifacts removes from one directory.
pub open spec fn spec_files_matching_id(entries: Seq<FileEntryV>, id_l: Seq<char>) -> Seq<
    Seq<char>,
>
    decreases entries.len(),
{
    if entries.len() == 0 {
        Seq::empty()
    } else if name_has_id(entries[0], id_l) {
        seq![entries[0].path] + spec_files_matching_id(entries.drop_first(), id_l)
    } else {
        spec_files_matching_id(entries.drop_first(), id_l)
    }
}

/// Selects every file named for the id, the way a full delete finds them.
#[verifier::loop_isolation(false)]
pub fn select_files_matching_id(entries: &Vec<FileEntry>, id: &str) -> (r: Vec<String>)
    ensures
        crate::text::views_of(r@) == spec_files_matching_id(entries.deep_view(), lower(id@)),
{
    let ghost ev = entries.deep_view();
    let ghost id_l = lower(id@);
    proof {
        assert(ev.skip(0) =~= ev);
    }
    let id_lower = to_lower_string(id);
    let n = entries.len();
    let mut out: Vec<String> = Vec::new();
    proof {
        assert(crate::text::views_of(out@) + spec_files_matching_id(ev, id_l)
            =~= spec_files_matching_id(ev, id_l));
    }
    for i in 0..n
        invariant
            n == entries@.len(),
            ev == entries.deep_view(),
            id_lower@ == id_l,
            spec_files_matching_id(ev, id_l) == crate::text::views_of(out@)
                + spec_files_matching_id(ev.skip(i as int), id_l),
    {
        let ghost old_out = out@;
        proof {
            assert(ev.skip(i as int)[0] == ev[i as int]);
            assert(ev[i as int] == entries@[i as int].deep_view());
            assert(ev.skip(i as int).drop_first() =~= ev.skip(i as int + 1));
        }
        let name_lower = entry_name_lower(&entries[i]);
        if contains_str(name_lower.as_str(), id_lower.as_str()) {
            out.push(entries[i].path.clone());
            proof {
                assert(crate::text::views_of(out@) =~= crate::text::views_of(old_out) + seq![
                    ev[i as int].path,
                ]);
                assert(crate::text::views_of(out@) + spec_files_matching_id(
                    ev.skip(i as int + 1),
                    id_l,
                ) =~= spec_files_matching_id(ev, id_l));
            }
        }
    }
    proof {
        assert(ev.skip(n as int) =~= Seq::<FileEntryV>::empty());
        assert(crate::text::views_of(out@) + spec_files_matching_id(
            Seq::<FileEntryV>::empty(),
            id_l,
        ) =~= crate::text::views_of(out@));
    }
    out
}

/// An info record written by a live redownload, named for the id with a
/// timestamp.
pub open spec fn is_stale_live_record(e: FileEntryV, id_l: Seq<char>) -> bool {
    &&& has_info_suffix(e)
    &&& name_has_id(e, id_l)
    &&& spec_has_timestamp(spec_file_name(e.path))
}

/// The paths of the timestamped live records an id should shed: what the
/// live-metadata cleanup deletes.
pub open spec fn spec_stale_live_records(entries: Seq<FileEntryV>, id_l: Seq<char>) -> Seq<
    Seq<char>,
>
    decreases entries.len(),
{
    if entries.len() == 0 {
        Seq::empty()
    } else if is_stale_live_record(entries[0], id_l) {
        seq![entries[0].path] + spec_stale_live_records(entries.drop_first(), id_l)
    } else {
        spec_stale_live_records(entries.drop_first(), id_l)
    }
}

/// Selects the timestamped live records an id should shed, in sweep order.
#[verifier::loop_isolation(false)]
pub fn select_stale_live_records(entries: &Vec<FileEntry>, id: &str) -> (r: Vec<String>)
    ensures
        crate::text::views_of(r@) == spec_stale_live_records(entries.deep_view(), lower(id@)),
{
    let ghost ev = entries.deep_view();
    let ghost id_l = lower(id@);
    proof {
        assert(ev.skip(0) =~= ev);
    }
    let id_lower = to_lower_string(id);
    let n = entries.len();
    let mut out: Vec<String> = Vec::new();
    proof {
        assert(crate::text::views_of(out@) + spec_stale_live_records(ev, id_l)
            =~= spec_stale_live_records(ev, id_l));
    }
    for i in 0..n
        invariant
            n == entries@.len(),
            ev == entries.deep_view(),
            id_lower@ == id_l,
            spec_stale_live_records(ev, id_l) == crate::text::views_of(out@)
                + spec_stale_live_records(ev.skip(i as int), id_l),
    {
        let ghost old_out = out@;
        proof {
            assert(ev.skip(i as int)[0] == ev[i as int]);
            assert(ev[i as int] == entries@[i as int].deep_view());
            assert(ev.skip(i as int).drop_first() =~= ev.skip(i as int + 1));
        }
        let name_lower = entry_name_lower(&entries[i]);
        if ends_with_str(name_lower.as_str(), ".info.json") && contains_str(
            name_lower.as_str(),
            id_lower.as_str(),
        ) {
            let name = crate::paths::file_name_of(entries[i].path.as_str());
            if has_timestamp_pattern(name.as_str()) {
                out.push(entries[i].path.clone());
                proof {
                    assert(crate::text::views_of(out@) =~= crate::text::views_of(old_out) + seq![
                        ev[i as int].path,
                    ]);
                    assert(crate::text::views_of(out@) + spec_stale_live_records(
                        ev.skip(i as int + 1),
                        id_l,
                    ) =~= spec_stale_live_records(ev, id_l));
                }
            }
        }
    }
    proof {
        assert(ev.skip(n as int) =~= Seq::<FileEntryV>::empty());
        assert(crate::text::views_of(out@) + spec_stale_live_records(
            Seq::<FileEntryV>::empty(),
            id_l,
        ) =~= crate::text::views_of(out@));
    }
    out
}

/// An info record for the id without a timestamp: the current one after a
/// redownload overwrote in place.
pub open spec fn is_current_live_record(e: FileEntryV, id_l: Seq<char>) -> bool {
    &&& has_info_suffix(e)
    &&& name_has_id(e, id_l)
    &&& !spec_has_timestamp(spec_file_name(e.path))
}

/// The timestamped records for the id, in sweep order, with their times.
pub open spec fn stale_entries(entries: Seq<FileEntryV>, id_l: Seq<char>) -> Seq<FileEntryV>
    decreases entries.len(),
{
    if entries.len() == 0 {
        Seq::empty()
    } else if is_stale_live_record(entries[0], id_l) {
        seq![entries[0]] + stale_entries(entries.drop_first(), id_l)
    } else {
        stale_entries(entries.drop_first(), id_l)
    }
}

/// Whether the sweep holds an un-timestamped record for the id.
pub open spec fn has_current_record(entries: Seq<FileEntryV>, id_l: Seq<char>) -> bool {
    exists|i: int| 0 <= i < entries.len() && is_current_live_record(entries[i], id_l)
}

/// The position of the newest stale record, the earliest among equal times.
pub open spec fn newest_stale_index(stale: Seq<FileEntryV>) -> int
    decreases stale.len(),
{
    if stale.len() <= 1 {
        0
    } else {
        let rest = newest_stale_index(stale.drop_last());
        if stale.last().mtime_ms > stale[rest].mtime_ms {
            stale.len() - 1
        } else {
            rest
        }
    }
}

/// The paths the redownload cleanup deletes: with a current record present,
/// every timestamped record for the id; with only timestamped ones, all but
/// the newest, the earliest of equal times surviving; a lone record stays.
pub open spec fn spec_superseded_live_records(entries: Seq<FileEntryV>, id_l: Seq<char>) -> Seq<
    Seq<char>,
> {
    let stale = stale_entries(entries, id_l);
    if has_current_record(entries, id_l) {
        stale.map_values(|e: FileEntryV| e.path)
    } else if stale.len() >= 2 {
        stale.remove(newest_stale_index(stale)).map_values(|e: FileEntryV| e.path)
    } else {
        Seq::empty()
    }
}

/// Selects the timestamped live records a finished redownload supersedes.
#[verifier::loop_isolation(false)]
#[verifier::rlimit(100)]
pub fn select_superseded_live_records(entries: &Vec<FileEntry>, id: &str) -> (r: Vec<String>)
    ensures
        crate::text::views_of(r@) == spec_superseded_live_records(entries.deep_view(), lower(id@)),
{
    let ghost ev = entries.deep_view();
    let ghost id_l = lower(id@);
    let id_lower = to_lower_string(id);
    let n = entries.len();

    let mut stale: Vec<FileEntry> = Vec::new();
    let mut current_seen = false;
    proof {
        assert(ev.skip(0) =~= ev);
        assert(stale.deep_view() =~= Seq::<FileEntryV>::empty());
        assert(stale.deep_view() + stale_entries(ev, id_l) =~= stale_entries(ev, id_l));
    }
    for i in 0..n
        invariant
            n == entries@.len(),
            ev == entries.deep_view(),
            id_lower@ == id_l,
            stale_entries(ev, id_l) == stale.deep_view() + stale_entries(ev.skip(i as int), id_l),
            current_seen == exists|t: int| 0 <= t < i && is_current_live_record(ev[t], id_l),
    {
        let ghost old_stale = stale.deep_view();
        proof {
            assert(ev.skip(i as int)[0] == ev[i as int]);
            assert(ev[i as int] == entries@[i as int].deep_view());
            assert(ev.skip(i as int).drop_first() =~= ev.skip(i as int + 1));
        }
        let name_lower = entry_name_lower(&entries[i]);
        if ends_with_str(name_lower.as_str(), ".info.json") && contains_str(
            name_lower.as_str(),
            id_lower.as_str(),
        ) {
            let name = crate::paths::file_name_of(entries[i].path.as_str());
            if has_timestamp_pattern(name.as_str()) {
                let copy = entries[i].duplicate();
                stale.push(copy);
                proof {
                    assert(stale.deep_view() =~= old_stale + seq![ev[i as int]]);
                }
            } else {
                proof {
                    assert(is_current_live_record(ev[i as int], id_l));
                }
                current_seen = true;
            }
        }
    }
    proof {
        assert(ev.skip(n as int) =~= Seq::<FileEntryV>::empty());
        assert(stale.deep_view() + stale_entries(Seq::<FileEntryV>::empty(), id_l)
            =~= stale.deep_view());
        assert(current_seen == has_current_record(ev, id_l));
    }

    let m = stale.len();
    let mut out: Vec<String> = Vec::new();
    if current_seen {
        for k in 0..m
            invariant
                m == stale@.len(),
                crate::text::views_of(out@) == stale.deep_view().take(k as int).map_values(
                    |e: FileEntryV| e.path,
                ),
        {
            let ghost before = crate::text::views_of(out@);
            out.push(stale[k].path.clone());
            proof {
                assert(stale.deep_view()[k as int] == stale@[k as int].deep_view());
                assert(crate::text::views_of(out@) =~= before.push(
                    stale.deep_view()[k as int].path,
                ));
                assert(crate::text::views_of(out@) =~= stale.deep_view().take(
                    k as int + 1,
                ).map_values(|e: FileEntryV| e.path));
            }
        }
        proof {
            assert(stale.deep_view().take(m as int) =~= stale.deep_view());
        }
        return out;
    }
    if m >= 2 {
        let mut keep: usize = 0;
        for k in 1..m
            invariant
                m == stale@.len(),
                keep < k <= m,
                keep as int == newest_stale_index(stale.deep_view().take(k as int)),
        {
            proof {
                assert(stale.deep_view()[k as int] == stale@[k as int].deep_view());
                assert(stale.deep_view().take(k as int + 1).last() == stale.deep_view()[k as int]);
                assert(stale.deep_view().take(k as int + 1).drop_last() =~= stale.deep_view().take(
                    k as int,
                ));
                assert(forall|t: int|
                    0 <= t < k ==> stale.deep_view().take(k as int + 1)[t] == stale.deep_view().take(
                        k as int,
                    )[t]);
            }
            if stale[k].mtime_ms > stale[keep].mtime_ms {
                keep = k;
            }
        }
        proof {
            assert(stale.deep_view().take(m as int) =~= stale.deep_view());
        }
        let ghost doomed = stale.deep_view().remove(keep as int).map_values(
            |e: FileEntryV| e.path,
        );
        for k in 0..m
            invariant
                m == stale@.len(),
                keep < m,
                doomed == stale.deep_view().remove(keep as int).map_values(
                    |e: FileEntryV| e.path,
                ),
                crate::text::views_of(out@) == (if k <= keep {
                    doomed.take(k as int)
                } else {
                    doomed.take(k as int - 1)
                }),
        {
            proof {
                assert(stale.deep_view()[k as int] == stale@[k as int].deep_view());
                if k < keep {
                    assert(doomed[k as int] == stale.deep_view()[k as int].path);
                } else if k > keep {
                    assert(doomed[k as int - 1] == stale.deep_view()[k as int].path);
                }
            }
            if k != keep {
                let ghost before = crate::text::views_of(out@);
                out.push(stale[k].path.clone());
                proof {
                    assert(crate::text::views_of(out@) =~= before.push(
                        stale.deep_view()[k as int].path,
                    ));
                    if k < keep {
                        assert(crate::text::views_of(out@) =~= doomed.take(k as int + 1));
                    } else {
                        assert(crate::text::views_of(out@) =~= doomed.take(k as int));
                    }
                }
            }
        }
        proof {
            assert(doomed.take(m as int - 1) =~= doomed);
        }
        return out;
    }
    proof {
        assert(crate::text::views_of(out@) =~= Seq::<Seq<char>>::empty());
    }
    out
}

} // verus!
