//! Which files are videos, what the index records of one, and how a
//! workspace scan reconciles the index with the files found on disk.
use vstd::prelude::*;
use crate::ids::{is_uuid_v4_text, new_id};
use crate::db::{reports, Database, DbError, TextSent};
use crate::statements;
use crate::models::{FileEntry, FileMeta, MediaFileInsert, ScanResult};
use crate::paths::{file_name, path_extension, path_extension_spec, path_file_name};
use crate::series::{extract_series_info, series_of};
use crate::text::{str_eq, strings_view};

verus! {

/// The extensions (in lowercase) of the files the library indexes.
pub const VIDEO_EXTENSIONS: [&'static str; 18] = [
    "mp4",
    "mkv",
    "avi",
    "mov",
    "wmv",
    "flv",
    "webm",
    "m4v",
    "mpg",
    "mpeg",
    "ts",
    "vob",
    "ogv",
    "3gp",
    "f4v",
    "rm",
    "rmvb",
    "divx",
];

/// Whether `e` is one of [`VIDEO_EXTENSIONS`].
pub open spec fn is_video_extension_spec(e: Seq<char>) -> bool {
    exists|i: int| 0 <= i < 18 && VIDEO_EXTENSIONS[i]@ == e
}

/// The text that `str::to_lowercase` returns for `s` (the Unicode lowercase
/// mapping, which takes pages to state).
pub uninterp spec fn lowercase(s: Seq<char>) -> Seq<char>;

/// `str::to_lowercase`: its result is named by [`lowercase`]; nothing more is
/// stated of it.
#[verifier::external_body]
pub(crate) fn to_lowercase(s: &str) -> (r: String)
    ensures
        r@ == lowercase(s@),
{
    s.to_lowercase()
}

/// Whether the (already lowercased) extension `ext` is a video extension.
pub fn is_video_extension(ext: &str) -> (r: bool)
    ensures
        r == is_video_extension_spec(ext@),
{
    let mut i: usize = 0;
    while i < 18
        invariant
            i <= 18,
            forall|j: int| 0 <= j < i ==> VIDEO_EXTENSIONS[j]@ != ext@,
        decreases 18 - i,
    {
        if str_eq(VIDEO_EXTENSIONS[i], ext) {
            return true;
        }
        i = i + 1;
    }
    false
}

/// Whether the file that `path` names has a video extension, in any case.
pub open spec fn is_video_path(path: Seq<char>) -> bool {
    match path_extension_spec(path) {
        Some(e) => is_video_extension_spec(lowercase(e)),
        None => false,
    }
}

/// Whether `path` names a file with a video extension, compared without
/// regard to case.
pub fn is_video_file(path: &str) -> (r: bool)
    ensures
        r == is_video_path(path@),
{
    match path_extension(path) {
        Some(ext) => is_video_extension(to_lowercase(ext.as_str()).as_str()),
        None => false,
    }
}

/// The size the index records for a file with metadata `meta`: its length
/// read as an `i64` (as a Rust `as` cast does), or 0 when unknown.
pub open spec fn recorded_size(meta: Option<FileMeta>) -> i64 {
    match meta {
        Some(m) => m.len as i64,
        None => 0,
    }
}

/// The modification time the index records for a file with metadata `meta`.
pub open spec fn recorded_mtime(meta: Option<FileMeta>) -> Option<i64> {
    match meta {
        Some(m) => match m.modified_secs {
            Some(s) => Some(s as i64),
            None => None,
        },
        None => None,
    }
}

/// What the index records of the file at `path` in workspace `workspace_id`,
/// given the file's metadata when it could be read; `None` when the path
/// names no file with a video extension.
pub fn build_insert(workspace_id: &str, path: &str, meta: Option<FileMeta>) -> (r: Option<
    MediaFileInsert,
>)
    ensures
        r is Some <==> is_video_path(path@),
        r matches Some(ins) ==> {
            &&& is_uuid_v4_text(ins.id@)
            &&& ins.workspace_id@ == workspace_id@
            &&& ins.path@ == path@
            &&& file_name(path@) == Some(ins.filename@)
            &&& path_extension_spec(path@) matches Some(e) && ins.extension@ == lowercase(e)
            &&& ins.size_bytes == recorded_size(meta)
            &&& ins.mtime == recorded_mtime(meta)
            &&& match series_of(ins.filename@) {
                Some((name, n)) => ins.series_name matches Some(s) && s@ == name
                    && ins.series_number == Some(n),
                None => ins.series_name is None && ins.series_number is None,
            }
        },
{
    let ext = match path_extension(path) {
        Some(e) => e,
        None => {
            return None;
        },
    };
    let extension = to_lowercase(ext.as_str());
    if !is_video_extension(extension.as_str()) {
        return None;
    }
    let filename = match path_file_name(path) {
        Some(n) => n,
        None => {
            return None;
        },
    };
    let size: i64 = match meta {
        Some(m) => m.len as i64,
        None => 0,
    };
    let mtime: Option<i64> = match meta {
        Some(m) => match m.modified_secs {
            Some(s) => Some(s as i64),
            None => None,
        },
        None => None,
    };
    let (series_name, series_number) = extract_series_info(filename.as_str());
    Some(
        MediaFileInsert {
            id: new_id(),
            workspace_id: workspace_id.to_owned(),
            path: path.to_owned(),
            filename,
            extension,
            size_bytes: size,
            series_name,
            series_number,
            mtime,
        },
    )
}

/// Whether a scan indexes the entry `e`: a regular file with a video
/// extension.
pub open spec fn indexed_entry(e: FileEntry) -> bool {
    e.is_file && is_video_path(e.path@)
}

/// The entries of `es` that a scan indexes.
pub open spec fn indexed_entries(es: Seq<FileEntry>) -> Seq<FileEntry> {
    es.filter(|e: FileEntry| indexed_entry(e))
}

/// The paths recorded for a workspace that a scan found no longer on disk:
/// those of `known` (in order) that are not in `seen`.
pub open spec fn stale_paths_spec(known: Seq<Seq<char>>, seen: Seq<Seq<char>>) -> Seq<Seq<char>> {
    known.filter(|p: Seq<char>| !seen.contains(p))
}

/// Whether `p` is one of `v`.
fn contains_string(v: &Vec<String>, p: &str) -> (r: bool)
    ensures
        r == strings_view(v@).contains(p@),
{
    let mut i: usize = 0;
    while i < v.len()
        invariant
            i <= v@.len(),
            forall|j: int| 0 <= j < i ==> v@[j]@ != p@,
        decreases v@.len() - i,
    {
        if str_eq(v[i].as_str(), p) {
            assert(strings_view(v@)[i as int] == p@);
            return true;
        }
        i = i + 1;
    }
    assert forall|j: int| 0 <= j < strings_view(v@).len() implies strings_view(v@)[j] != p@ by {
        assert(strings_view(v@)[j] == v@[j]@);
    }
    false
}

/// The paths of `known` (in order) that are not in `seen`.
pub fn stale_paths(known: &Vec<String>, seen: &Vec<String>) -> (r: Vec<String>)
    ensures
        strings_view(r@) == stale_paths_spec(strings_view(known@), strings_view(seen@)),
{
    let ghost k = strings_view(known@);
    let ghost sn = strings_view(seen@);
    let mut r: Vec<String> = Vec::new();
    assert(k.take(0) =~= Seq::<Seq<char>>::empty());
    assert(strings_view(r@) =~= Seq::<Seq<char>>::empty());
    for i in 0..known.len()
        invariant
            k == strings_view(known@),
            sn == strings_view(seen@),
            strings_view(r@) == stale_paths_spec(k.take(i as int), sn),
    {
        assert(k.take(i + 1).drop_last() =~= k.take(i as int));
        assert(k.take(i + 1).last() == known@[i as int]@);
        proof {
            reveal(Seq::filter);
        }
        let ghost before = r@;
        if !contains_string(seen, known[i].as_str()) {
            r.push(known[i].clone());
            assert(strings_view(r@) =~= strings_view(before).push(known@[i as int]@));
        }
    }
    assert(k.take(known@.len() as int) =~= k);
    r
}

/// The rows that deletions which came back with `outcomes` removed, in all:
/// the sum of the counts of those that succeeded (failures count 0).
pub open spec fn removed_sum(outcomes: Seq<Result<usize, DbError>>) -> nat
    decreases outcomes.len(),
{
    if outcomes.len() == 0 {
        0
    } else {
        removed_sum(outcomes.drop_last()) + match outcomes.last() {
            Ok(n) => n as nat,
            Err(_) => 0nat,
        }
    }
}

/// The number of rows that deletions which came back with `outcomes`
/// removed, held at `usize::MAX` when it does not fit.
pub fn removed_total(outcomes: &Vec<Result<usize, DbError>>) -> (r: usize)
    ensures
        r == (if removed_sum(outcomes@) <= usize::MAX {
            removed_sum(outcomes@)
        } else {
            usize::MAX as nat
        }),
{
    let mut acc: usize = 0;
    let mut i: usize = 0;
    while i < outcomes.len()
        invariant
            i <= outcomes@.len(),
            acc == (if removed_sum(outcomes@.take(i as int)) <= usize::MAX {
                removed_sum(outcomes@.take(i as int))
            } else {
                usize::MAX as nat
            }),
        decreases outcomes@.len() - i,
    {
        assert(outcomes@.take(i + 1).drop_last() =~= outcomes@.take(i as int));
        assert(outcomes@.take(i + 1).last() == outcomes@[i as int]);
        match &outcomes[i] {
            Ok(n) => {
                acc = acc.saturating_add(*n);
            },
            Err(_) => {},
        }
        i = i + 1;
    }
    assert(outcomes@.take(outcomes@.len() as int) =~= outcomes@);
    acc
}

/// The paths of the entries of `es` that a scan indexes, in order.
pub open spec fn found_paths(es: Seq<FileEntry>) -> Seq<Seq<char>> {
    indexed_entries(es).map_values(|e: FileEntry| e.path@)
}

/// `n`, held at `usize::MAX`.
pub open spec fn capped(n: nat) -> nat {
    if n <= usize::MAX {
        n
    } else {
        usize::MAX as nat
    }
}

/// The rows that the deletes `dels` removed, in all, by SQLite's answers (a
/// refused delete counts 0).
pub open spec fn removed_answers(dels: Seq<TextSent<usize>>) -> nat
    decreases dels.len(),
{
    if dels.len() == 0 {
        0
    } else {
        removed_answers(dels.drop_last()) + match dels.last().answer() {
            Some(n) => n as nat,
            None => 0nat,
        }
    }
}

proof fn lemma_removed_answers(outs: Seq<Result<usize, DbError>>, dels: Seq<TextSent<usize>>)
    requires
        outs.len() == dels.len(),
        forall|j: int| 0 <= j < outs.len() ==> reports(#[trigger] dels[j], outs[j]),
    ensures
        removed_sum(outs) == removed_answers(dels),
    decreases outs.len(),
{
    if outs.len() > 0 {
        let k = outs.len() - 1;
        assert(reports(dels[k], outs[k]));
        assert forall|j: int| 0 <= j < outs.drop_last().len() implies reports(
            #[trigger] dels.drop_last()[j],
            outs.drop_last()[j],
        ) by {
            assert(reports(dels[j], outs[j]));
        }
        lemma_removed_answers(outs.drop_last(), dels.drop_last());
    }
}

/// The paths a scan deletes are exactly the recorded paths that it did not
/// find: a recorded path is deleted if and only if it is not among the
/// found ones, and no path is deleted that was not recorded.
pub proof fn law_stale_paths_are_the_unfound(known: Seq<Seq<char>>, found: Seq<Seq<char>>)
    ensures
        forall|p: Seq<char>|
            #[trigger] stale_paths_spec(known, found).contains(p) <==> known.contains(p)
                && !found.contains(p),
{
    let pred = |p: Seq<char>| !found.contains(p);
    assert forall|p: Seq<char>|
        #[trigger] stale_paths_spec(known, found).contains(p) <==> known.contains(p)
            && !found.contains(p) by {
        if stale_paths_spec(known, found).contains(p) {
            known.lemma_filter_contains_rev(pred, p);
            let k = choose|k: int|
                0 <= k < known.filter(pred).len() && known.filter(pred)[k] == p;
            known.lemma_filter_pred(pred, k);
        }
        if known.contains(p) && !found.contains(p) {
            let k = choose|k: int| 0 <= k < known.len() && known[k] == p;
            known.lemma_filter_contains(pred, k);
        }
    }
}

/// The message of a scan of a directory that does not exist.
pub open spec fn missing_path_message(path: Seq<char>) -> Seq<char> {
    "Path does not exist: "@ + path
}

/// Scans workspace `workspace_id` rooted at `workspace_path`, given whether
/// that directory exists and the entries found below it: records every
/// video file among them, then deletes the workspace's recorded files that
/// were not found. A file that cannot be recorded, or a stale row that cannot
/// be deleted, is passed over; only a failure to list the recorded files
/// fails the scan. The paths deleted are [`stale_paths`] of the recorded
/// and the found ones, and `removed` is [`removed_total`] of what the
/// deletes came back with; since the database answers those calls, the
/// contract states only the counts the entries decide.
pub fn scan_workspace(
    db: &Database,
    workspace_id: &str,
    workspace_path: &str,
    root_exists: bool,
    entries: &Vec<FileEntry>,
) -> (r: Result<ScanResult, String>)
    ensures
        !root_exists ==> (r matches Err(m) && m@ == missing_path_message(workspace_path@)),
        r matches Ok(res) ==> {
            &&& root_exists
            &&& res.total == indexed_entries(entries@).len()
            &&& res.added == res.total
            &&& res.updated == 0
        },
        r matches Ok(res) ==> exists|listing: TextSent<Vec<String>>, dels: Seq<TextSent<usize>>|
            #![trigger listing.answer(), removed_answers(dels)]
            {
                &&& listing.sql() == statements::workspace_media_paths_sql()
                &&& listing.values() == seq![workspace_id@]
                &&& listing.answer() matches Some(known)
                &&& dels.len() == stale_paths_spec(strings_view(known@), found_paths(entries@)).len()
                &&& forall|j: int|
                    0 <= j < dels.len() ==> {
                        &&& (#[trigger] dels[j]).sql() == statements::delete_media_file_by_path_sql()
                        &&& dels[j].values() == seq![
                            stale_paths_spec(strings_view(known@), found_paths(entries@))[j],
                        ]
                    }
                &&& res.removed == capped(removed_answers(dels))
            },
{
    if !root_exists {
        let mut m = String::from_str("Path does not exist: ");
        m.append(workspace_path);
        return Err(m);
    }
    let ghost es = entries@;
    let mut total: usize = 0;
    let mut seen: Vec<String> = Vec::new();
    assert(es.take(0) =~= Seq::<FileEntry>::empty());
    assert(strings_view(seen@) =~= found_paths(es.take(0)));
    for i in 0..entries.len()
        invariant
            es == entries@,
            total == indexed_entries(es.take(i as int)).len(),
            total <= i,
            strings_view(seen@) == found_paths(es.take(i as int)),
    {
        assert(es.take(i + 1).drop_last() =~= es.take(i as int));
        assert(es.take(i + 1).last() == es[i as int]);
        proof {
            reveal(Seq::filter);
        }
        let ghost before = seen@;
        let e = &entries[i];
        if e.is_file {
            match build_insert(workspace_id, e.path.as_str(), e.meta) {
                Some(file) => {
                    seen.push(file.path.clone());
                    let _ = db.upsert_media_file(&file);
                    total = total + 1;
                    assert(strings_view(seen@) =~= strings_view(before).push(es[i as int].path@));
                },
                None => {},
            }
        }
        assert(strings_view(seen@) =~= found_paths(es.take(i + 1)));
    }
    assert(es.take(entries@.len() as int) =~= es);
    let listed = db.list_workspace_media_paths(workspace_id);
    let ghost listing = choose|s: TextSent<Vec<String>>|
        {
            &&& s.sql() == statements::workspace_media_paths_sql()
            &&& s.values() == seq![workspace_id@]
            &&& reports(s, listed)
        };
    let known = match listed {
        Ok(k) => k,
        Err(e) => {
            return Err(e.message);
        },
    };
    let stale = stale_paths(&known, &seen);
    let ghost stale_view = strings_view(stale@);
    let mut outcomes: Vec<Result<usize, DbError>> = Vec::new();
    let ghost mut dels: Seq<TextSent<usize>> = Seq::empty();
    for i in 0..stale.len()
        invariant
            stale_view == strings_view(stale@),
            outcomes@.len() == i,
            dels.len() == i,
            forall|j: int|
                0 <= j < i ==> {
                    &&& (#[trigger] dels[j]).sql() == statements::delete_media_file_by_path_sql()
                    &&& dels[j].values() == seq![stale_view[j]]
                    &&& reports(dels[j], outcomes@[j])
                },
    {
        let o = db.remove_media_file_by_path(stale[i].as_str());
        proof {
            let d = choose|s: TextSent<usize>|
                {
                    &&& s.sql() == statements::delete_media_file_by_path_sql()
                    &&& s.values() == seq![stale@[i as int]@]
                    &&& reports(s, o)
                };
            dels = dels.push(d);
        }
        outcomes.push(o);
    }
    let removed = removed_total(&outcomes);
    proof {
        lemma_removed_answers(outcomes@, dels);
        assert(dels.len() == stale_view.len());
        assert(listing.answer() == Some(known));
        assert(strings_view(seen@) == found_paths(entries@));
        assert(removed == capped(removed_answers(dels)));
    }
    Ok(ScanResult { added: total, updated: 0, removed, total })
}

} // verus!
