//! Playback through mpv: where the executable is looked for and the
//! arguments it is started with.
use vstd::prelude::*;
use crate::commands::{TargetOs, NO_FILES};
use crate::text::strings_view;

verus! {

/// The message when no mpv executable is found.
pub const MPV_NOT_FOUND: &'static str =
    "mpv not found. Please install mpv: https://mpv.io/installation/";

/// The mpv executables tried on `os`, in order; the first that runs is used.
pub open spec fn mpv_candidates_spec(os: TargetOs) -> Seq<Seq<char>> {
    match os {
        TargetOs::Windows => seq![
            "mpv.exe"@,
            "C:\\Program Files\\mpv\\mpv.exe"@,
            "C:\\Program Files (x86)\\mpv\\mpv.exe"@,
        ],
        TargetOs::MacOs => seq!["mpv"@, "/usr/local/bin/mpv"@, "/opt/homebrew/bin/mpv"@],
        TargetOs::Other => seq!["mpv"@, "/usr/bin/mpv"@],
    }
}

fn push_str(v: &mut Vec<String>, s: &str)
    ensures
        strings_view(final(v)@) == strings_view(old(v)@).push(s@),
{
    v.push(s.to_owned());
    assert(strings_view(final(v)@) =~= strings_view(old(v)@).push(s@));
}

/// The mpv executables tried on `os` (see [`mpv_candidates_spec`]).
pub fn mpv_candidates(os: TargetOs) -> (r: Vec<String>)
    ensures
        strings_view(r@) == mpv_candidates_spec(os),
{
    let mut v: Vec<String> = Vec::new();
    match os {
        TargetOs::Windows => {
            push_str(&mut v, "mpv.exe");
            push_str(&mut v, "C:\\Program Files\\mpv\\mpv.exe");
            push_str(&mut v, "C:\\Program Files (x86)\\mpv\\mpv.exe");
        },
        TargetOs::MacOs => {
            push_str(&mut v, "mpv");
            push_str(&mut v, "/usr/local/bin/mpv");
            push_str(&mut v, "/opt/homebrew/bin/mpv");
        },
        TargetOs::Other => {
            push_str(&mut v, "mpv");
            push_str(&mut v, "/usr/bin/mpv");
        },
    }
    assert(strings_view(v@) =~= mpv_candidates_spec(os));
    v
}

/// The mpv arguments that play the file `path` in a window.
pub fn mpv_file_args(path: &str) -> (r: Vec<String>)
    ensures
        strings_view(r@) == seq![path@, "--force-window=yes"@],
{
    let mut v: Vec<String> = Vec::new();
    push_str(&mut v, path);
    push_str(&mut v, "--force-window=yes");
    assert(strings_view(v@) =~= seq![path@, "--force-window=yes"@]);
    v
}

/// The mpv arguments that play `paths` in sequence in a window; refused
/// when there are none.
pub fn mpv_files_args(paths: &Vec<String>) -> (r: Result<Vec<String>, String>)
    ensures
        paths@.len() == 0 ==> (r matches Err(m) && m@ == NO_FILES@),
        paths@.len() > 0 ==> (r matches Ok(a) && strings_view(a@) == seq!["--force-window=yes"@]
            + strings_view(paths@)),
{
    if paths.len() == 0 {
        return Err(NO_FILES.to_owned());
    }
    let mut v: Vec<String> = Vec::new();
    push_str(&mut v, "--force-window=yes");
    for i in 0..paths.len()
        invariant
            strings_view(v@) == seq!["--force-window=yes"@] + strings_view(paths@).take(i as int),
    {
        push_str(&mut v, paths[i].as_str());
        assert(strings_view(paths@).take(i + 1) =~= strings_view(paths@).take(i as int).push(
            paths@[i as int]@,
        ));
    }
    assert(strings_view(paths@).take(paths@.len() as int) =~= strings_view(paths@));
    Ok(v)
}

} // verus!
