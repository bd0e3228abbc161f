//! The operations the user interface invokes, over an open index: database
//! errors become their message, playback modes are checked, and the VLC
//! command line is put together.
use vstd::prelude::*;
use crate::db::{opt_view, reports, Database, Sent, TextSent};
use crate::query::media_files_query_spec;
use crate::statements;
use crate::models::{
    filters_view, FileEntry, MediaFile, Playlist, PlaylistFilter, ScanResult, Workspace,
};
use crate::scanner::{self, indexed_entries, missing_path_message};
use crate::paths::{join_path, join_spec};
use crate::text::{chars_of, str_eq, string_of, strings_view, trim, trim_bounds};

verus! {

/// The operating system the program runs on, as far as the choice of
/// external player locations depends on it.
#[derive(Debug, Clone, Copy, PartialEq, Eq, Structural)]
pub enum TargetOs {
    Windows,
    MacOs,
    Other,
}

// === Workspace commands ===

pub fn add_workspace(db: &Database, name: String, path: String) -> (r: Result<Workspace, String>)
    ensures
        r matches Ok(ws) ==> ws.name@ == name@,
{
    match db.add_workspace(name.as_str(), path.as_str()) {
        Ok(ws) => Ok(ws),
        Err(e) => Err(e.message),
    }
}

pub fn list_workspaces(db: &Database) -> Result<Vec<Workspace>, String> {
    match db.list_workspaces() {
        Ok(ws) => Ok(ws),
        Err(e) => Err(e.message),
    }
}

pub fn remove_workspace(db: &Database, id: String) -> Result<(), String> {
    match db.remove_workspace(id.as_str()) {
        Ok(()) => Ok(()),
        Err(e) => Err(e.message),
    }
}

/// Scans a workspace (see [`crate::scanner::scan_workspace`]), given
/// whether its directory exists and the entries found below it.
pub fn scan_workspace(
    db: &Database,
    workspace_id: String,
    path: String,
    root_exists: bool,
    entries: &Vec<FileEntry>,
) -> (r: Result<ScanResult, String>)
    ensures
        !root_exists ==> (r matches Err(m) && m@ == missing_path_message(path@)),
        r matches Ok(res) ==> {
            &&& root_exists
            &&& res.total == indexed_entries(entries@).len()
            &&& res.added == res.total
            &&& res.updated == 0
        },
{
    scanner::scan_workspace(db, workspace_id.as_str(), path.as_str(), root_exists, entries)
}

// === Media commands ===

fn as_opt_str(s: &Option<String>) -> (r: Option<&str>)
    ensures
        match s {
            Some(x) => r matches Some(y) && y@ == x@,
            None => r is None,
        },
{
    match s {
        Some(x) => Some(x.as_str()),
        None => None,
    }
}

/// The view of an optional owned text.
pub open spec fn opt_string_view(o: Option<String>) -> Option<Seq<char>> {
    match o {
        Some(s) => Some(s@),
        None => None,
    }
}

/// Whether `r` is what a command that sent `s` returned: the answer on
/// success, an error (its message) when SQLite refused.
pub open spec fn reports_text<V, T>(s: Sent<V, T>, r: Result<T, String>) -> bool {
    match r {
        Ok(v) => s.answer() == Some(v),
        Err(_) => s.answer() is None,
    }
}

/// The media files in a workspace, whose file name contains `search`, with
/// extension `extension`: the query sent is `media_files_query` of the three
/// criteria, each in its own place, and the files returned are its answer.
pub fn list_media_files(
    db: &Database,
    workspace_id: Option<String>,
    search: Option<String>,
    extension: Option<String>,
) -> (r: Result<Vec<MediaFile>, String>)
    ensures
        exists|s: TextSent<Vec<MediaFile>>|
            {
                &&& (s.sql(), s.values()) == media_files_query_spec(
                    opt_string_view(workspace_id),
                    opt_string_view(search),
                    opt_string_view(extension),
                )
                &&& reports_text(s, r)
            },
{
    let ws = as_opt_str(&workspace_id);
    let se = as_opt_str(&search);
    let ex = as_opt_str(&extension);
    let res = db.list_media_files(ws, se, ex);
    let ghost s = choose|s: TextSent<Vec<MediaFile>>|
        {
            &&& (s.sql(), s.values()) == media_files_query_spec(
                opt_view(ws),
                opt_view(se),
                opt_view(ex),
            )
            &&& reports(s, res)
        };
    assert(opt_view(ws) == opt_string_view(workspace_id));
    assert(opt_view(se) == opt_string_view(search));
    assert(opt_view(ex) == opt_string_view(extension));
    let r = match res {
        Ok(v) => Ok(v),
        Err(e) => Err(e.message),
    };
    assert(reports_text(s, r));
    r
}

pub fn get_media_file(db: &Database, id: String) -> Result<Option<MediaFile>, String> {
    match db.get_media_file(id.as_str()) {
        Ok(v) => Ok(v),
        Err(e) => Err(e.message),
    }
}

// === Playlist commands ===

pub fn create_playlist(db: &Database, name: String, filters: Vec<PlaylistFilter>) -> (r: Result<
    Playlist,
    String,
>)
    ensures
        r matches Ok(p) ==> p.name@ == name@ && p.playback_mode@ == "sequential"@ && filters_view(
            p.filters@,
        ) == filters_view(filters@),
{
    match db.create_playlist(name.as_str(), filters.as_slice()) {
        Ok(p) => Ok(p),
        Err(e) => Err(e.message),
    }
}

pub fn update_playlist(db: &Database, id: String, name: String, filters: Vec<PlaylistFilter>) -> Result<
    (),
    String,
> {
    match db.update_playlist(id.as_str(), name.as_str(), filters.as_slice()) {
        Ok(()) => Ok(()),
        Err(e) => Err(e.message),
    }
}

pub fn list_playlists(db: &Database) -> Result<Vec<Playlist>, String> {
    match db.list_playlists() {
        Ok(v) => Ok(v),
        Err(e) => Err(e.message),
    }
}

pub fn delete_playlist(db: &Database, id: String) -> Result<(), String> {
    match db.delete_playlist(id.as_str()) {
        Ok(()) => Ok(()),
        Err(e) => Err(e.message),
    }
}

/// Whether `mode` is one of the playback modes `sequential`, `random`,
/// `repeat`.
pub open spec fn valid_playback_mode(mode: Seq<char>) -> bool {
    mode == "sequential"@ || mode == "random"@ || mode == "repeat"@
}

/// The message for an unknown playback mode.
pub open spec fn invalid_mode_message(mode: Seq<char>) -> Seq<char> {
    "Invalid playback mode: "@ + mode + ". Valid: [\"sequential\", \"random\", \"repeat\"]"@
}

/// Accepts the three playback modes and refuses any other text.
pub fn validate_playback_mode(mode: &str) -> (r: Result<(), String>)
    ensures
        valid_playback_mode(mode@) ==> r is Ok,
        !valid_playback_mode(mode@) ==> (r matches Err(m) && m@ == invalid_mode_message(mode@)),
{
    if str_eq(mode, "sequential") || str_eq(mode, "random") || str_eq(mode, "repeat") {
        Ok(())
    } else {
        let mut m = String::from_str("Invalid playback mode: ");
        m.append(mode);
        m.append(". Valid: [\"sequential\", \"random\", \"repeat\"]");
        Err(m)
    }
}

/// Sets the playback mode of a playlist, refusing an unknown mode before
/// the database is touched.
pub fn set_playback_mode(db: &Database, playlist_id: String, mode: String) -> (r: Result<(), String>)
    ensures
        !valid_playback_mode(mode@) ==> (r matches Err(m) && m@ == invalid_mode_message(mode@)),
        valid_playback_mode(mode@) ==> exists|s: TextSent<usize>|
            {
                &&& s.sql() == statements::set_playback_mode_sql()
                &&& s.values() == seq![mode@, playlist_id@]
                &&& (r is Ok <==> s.answer() is Some)
            },
{
    validate_playback_mode(mode.as_str())?;
    match db.set_playback_mode(playlist_id.as_str(), mode.as_str()) {
        Ok(()) => Ok(()),
        Err(e) => Err(e.message),
    }
}

pub fn get_playlist_files(db: &Database, playlist_id: String) -> Result<Vec<MediaFile>, String> {
    match db.query_playlist_files(playlist_id.as_str()) {
        Ok(v) => Ok(v),
        Err(e) => Err(e.message),
    }
}

// === Player commands ===

/// The message when no VLC executable is found.
pub const VLC_NOT_FOUND: &'static str = "VLC not found. Run 'make ensure-vlc' to download it.";

/// The message when a play request names no file.
pub const NO_FILES: &'static str = "No files to play";

/// Where a VLC bundled with the program may sit, relative to the directory
/// of the executable (macOS development and bundle, then Windows).
pub open spec fn bundled_vlc_locations() -> Seq<Seq<char>> {
    seq![
        "../../binaries/vlc/Contents/MacOS/VLC"@,
        "../Resources/vlc/Contents/MacOS/VLC"@,
        "binaries/vlc/Contents/MacOS/VLC"@,
        "../../binaries/vlc/vlc.exe"@,
        "vlc/vlc.exe"@,
        "binaries/vlc/vlc.exe"@,
    ]
}

/// Where a VLC may sit relative to the working directory (development).
pub open spec fn dev_vlc_locations() -> Seq<Seq<char>> {
    seq![
        "src-tauri/binaries/vlc/Contents/MacOS/VLC"@,
        "src-tauri/binaries/vlc/vlc.exe"@,
        "binaries/vlc/Contents/MacOS/VLC"@,
        "binaries/vlc/vlc.exe"@,
    ]
}

/// Where a system-wide VLC sits on `os` (on other systems it is looked up
/// on the `PATH`).
pub open spec fn system_vlc_locations(os: TargetOs) -> Seq<Seq<char>> {
    match os {
        TargetOs::MacOs => seq!["/Applications/VLC.app/Contents/MacOS/VLC"@],
        TargetOs::Windows => seq![
            "C:\\Program Files\\VideoLAN\\VLC\\vlc.exe"@,
            "C:\\Program Files (x86)\\VideoLAN\\VLC\\vlc.exe"@,
        ],
        TargetOs::Other => Seq::empty(),
    }
}

/// The places to look for VLC, in order: next to the executable (when its
/// directory is known), then relative to the working directory, then the
/// system locations of `os`. The first that exists is used.
pub open spec fn vlc_candidates_spec(exe_dir: Option<Seq<char>>, os: TargetOs) -> Seq<Seq<char>> {
    let bundled = match exe_dir {
        Some(d) => bundled_vlc_locations().map_values(|rel: Seq<char>| join_spec(d, rel)),
        None => Seq::empty(),
    };
    bundled + dev_vlc_locations() + system_vlc_locations(os)
}

fn push_str(v: &mut Vec<String>, s: &str)
    ensures
        strings_view(final(v)@) == strings_view(old(v)@).push(s@),
{
    v.push(s.to_owned());
    assert(strings_view(final(v)@) =~= strings_view(old(v)@).push(s@));
}

/// The places to look for VLC (see [`vlc_candidates_spec`]).
pub fn vlc_candidates(exe_dir: Option<&str>, os: TargetOs) -> (r: Vec<String>)
    ensures
        strings_view(r@) == vlc_candidates_spec(
            match exe_dir {
                Some(d) => Some(d@),
                None => None,
            },
            os,
        ),
{
    let mut v: Vec<String> = Vec::new();
    match exe_dir {
        Some(d) => {
            v.push(join_path(d, "../../binaries/vlc/Contents/MacOS/VLC"));
            v.push(join_path(d, "../Resources/vlc/Contents/MacOS/VLC"));
            v.push(join_path(d, "binaries/vlc/Contents/MacOS/VLC"));
            v.push(join_path(d, "../../binaries/vlc/vlc.exe"));
            v.push(join_path(d, "vlc/vlc.exe"));
            v.push(join_path(d, "binaries/vlc/vlc.exe"));
            assert(strings_view(v@) =~= bundled_vlc_locations().map_values(
                |rel: Seq<char>| join_spec(d@, rel),
            ));
        },
        None => {
            assert(strings_view(v@) =~= Seq::<Seq<char>>::empty());
        },
    }
    let ghost b = strings_view(v@);
    push_str(&mut v, "src-tauri/binaries/vlc/Contents/MacOS/VLC");
    push_str(&mut v, "src-tauri/binaries/vlc/vlc.exe");
    push_str(&mut v, "binaries/vlc/Contents/MacOS/VLC");
    push_str(&mut v, "binaries/vlc/vlc.exe");
    assert(strings_view(v@) =~= b + dev_vlc_locations());
    let ghost bd = strings_view(v@);
    match os {
        TargetOs::MacOs => {
            push_str(&mut v, "/Applications/VLC.app/Contents/MacOS/VLC");
        },
        TargetOs::Windows => {
            push_str(&mut v, "C:\\Program Files\\VideoLAN\\VLC\\vlc.exe");
            push_str(&mut v, "C:\\Program Files (x86)\\VideoLAN\\VLC\\vlc.exe");
        },
        TargetOs::Other => {},
    }
    assert(strings_view(v@) =~= bd + system_vlc_locations(os));
    v
}

/// The first candidate whose check came back true (the first that exists,
/// or the first that runs): its index, if any.
pub fn first_available(available: &Vec<bool>) -> (r: Option<usize>)
    ensures
        match r {
            Some(i) => i < available@.len() && available@[i as int] && forall|j: int|
                0 <= j < i ==> !available@[j],
            None => forall|j: int| 0 <= j < available@.len() ==> !available@[j],
        },
{
    let mut i: usize = 0;
    while i < available.len()
        invariant
            i <= available@.len(),
            forall|j: int| 0 <= j < i ==> !available@[j],
        decreases available@.len() - i,
    {
        if available[i] {
            return Some(i);
        }
        i = i + 1;
    }
    None
}

/// The VLC found on the `PATH` from the output of `which vlc`: the output
/// trimmed, when the command succeeded and the output is not blank.
pub fn which_vlc_path(success: bool, stdout: &str) -> (r: Option<String>)
    ensures
        success && trim(stdout@).len() > 0 ==> (r matches Some(p) && p@ == trim(stdout@)),
        !(success && trim(stdout@).len() > 0) ==> r is None,
{
    if !success {
        return None;
    }
    let v = chars_of(stdout);
    let (a, b) = trim_bounds(&v, 0, v.len());
    assert(v@.subrange(0, v@.len() as int) =~= v@);
    if b > a {
        Some(string_of(stdout, a, b))
    } else {
        None
    }
}

/// The VLC arguments that play the file `path`.
pub fn vlc_file_args(path: &str) -> (r: Vec<String>)
    ensures
        strings_view(r@) == seq!["--started-from-file"@, path@],
{
    let mut v: Vec<String> = Vec::new();
    push_str(&mut v, "--started-from-file");
    push_str(&mut v, path);
    assert(strings_view(v@) =~= seq!["--started-from-file"@, path@]);
    v
}

/// The VLC arguments that play `paths` in order; refused when there are none.
pub fn vlc_files_args(paths: &Vec<String>) -> (r: Result<Vec<String>, String>)
    ensures
        paths@.len() == 0 ==> (r matches Err(m) && m@ == NO_FILES@),
        paths@.len() > 0 ==> (r matches Ok(a) && strings_view(a@) == seq!["--started-from-file"@]
            + strings_view(paths@)),
{
    if paths.len() == 0 {
        return Err(NO_FILES.to_owned());
    }
    let mut v: Vec<String> = Vec::new();
    push_str(&mut v, "--started-from-file");
    for i in 0..paths.len()
        invariant
            strings_view(v@) == seq!["--started-from-file"@] + strings_view(paths@).take(i as int),
    {
        push_str(&mut v, paths[i].as_str());
        assert(strings_view(paths@).take(i + 1) =~= strings_view(paths@).take(i as int).push(
            paths@[i as int]@,
        ));
    }
    assert(strings_view(paths@).take(paths@.len() as int) =~= strings_view(paths@));
    Ok(v)
}

} // verus!
