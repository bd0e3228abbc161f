use starplayer::commands::{
    scan_workspace, validate_playback_mode, vlc_candidates, vlc_file_args, vlc_files_args, which_vlc_path,
    TargetOs,
};
use starplayer::db::Database;
use starplayer::models::{FileEntry, FileMeta};
use starplayer::player::{mpv_candidates, mpv_file_args, mpv_files_args};

#[test]
fn playback_modes_are_checked() {
    assert_eq!(validate_playback_mode("sequential"), Ok(()));
    assert_eq!(validate_playback_mode("random"), Ok(()));
    assert_eq!(validate_playback_mode("repeat"), Ok(()));
    assert_eq!(
        validate_playback_mode("shuffle"),
        Err("Invalid playback mode: shuffle. Valid: [\"sequential\", \"random\", \"repeat\"]".to_string())
    );
}

#[test]
fn vlc_candidates_in_order() {
    let c = vlc_candidates(Some("/opt/app"), TargetOs::MacOs);
    assert_eq!(c.len(), 11);
    assert_eq!(c[0], "/opt/app/../../binaries/vlc/Contents/MacOS/VLC");
    assert_eq!(c[5], "/opt/app/binaries/vlc/vlc.exe");
    assert_eq!(c[6], "src-tauri/binaries/vlc/Contents/MacOS/VLC");
    assert_eq!(c[10], "/Applications/VLC.app/Contents/MacOS/VLC");
    let w = vlc_candidates(None, TargetOs::Windows);
    assert_eq!(w.len(), 6);
    assert_eq!(w[5], "C:\\Program Files (x86)\\VideoLAN\\VLC\\vlc.exe");
    assert_eq!(vlc_candidates(Some("/"), TargetOs::Other)[4], "/vlc/vlc.exe");
}

#[test]
fn which_output_is_trimmed() {
    assert_eq!(which_vlc_path(true, "/usr/bin/vlc\n"), Some("/usr/bin/vlc".to_string()));
    assert_eq!(which_vlc_path(true, " \n"), None);
    assert_eq!(which_vlc_path(false, "/usr/bin/vlc"), None);
}

#[test]
fn player_arguments() {
    assert_eq!(vlc_file_args("/a.mp4"), vec!["--started-from-file", "/a.mp4"]);
    assert_eq!(vlc_files_args(&vec![]), Err("No files to play".to_string()));
    assert_eq!(
        vlc_files_args(&vec!["a".to_string(), "b".to_string()]),
        Ok(vec!["--started-from-file".to_string(), "a".to_string(), "b".to_string()])
    );
    assert_eq!(mpv_file_args("/a.mp4"), vec!["/a.mp4", "--force-window=yes"]);
    assert_eq!(mpv_files_args(&vec![]), Err("No files to play".to_string()));
    assert_eq!(
        mpv_files_args(&vec!["a".to_string()]),
        Ok(vec!["--force-window=yes".to_string(), "a".to_string()])
    );
    assert_eq!(mpv_candidates(TargetOs::Other), vec!["mpv", "/usr/bin/mpv"]);
    assert_eq!(mpv_candidates(TargetOs::Windows)[0], "mpv.exe");
    assert_eq!(mpv_candidates(TargetOs::MacOs)[2], "/opt/homebrew/bin/mpv");
}

#[test]
fn scan_command_reports_counts_and_missing_root() {
    let db = Database::open(":memory:").unwrap();
    let ws = db.add_workspace("w", "/v").unwrap();
    let entries = vec![
        FileEntry { path: "/v/a.mkv".to_string(), is_file: true, meta: Some(FileMeta { len: 2, modified_secs: None }) },
        FileEntry { path: "/v/b.srt".to_string(), is_file: true, meta: None },
    ];
    let r = scan_workspace(&db, ws.id.clone(), "/v".to_string(), true, &entries).unwrap();
    assert_eq!((r.added, r.updated, r.removed, r.total), (1, 0, 0, 1));
    assert_eq!(
        scan_workspace(&db, ws.id, "/gone".to_string(), false, &entries),
        Err("Path does not exist: /gone".to_string())
    );
}

#[test]
fn first_available_picks_the_first_true() {
    assert_eq!(starplayer::commands::first_available(&vec![false, true, true]), Some(1));
    assert_eq!(starplayer::commands::first_available(&vec![false, false]), None);
    assert_eq!(starplayer::commands::first_available(&vec![]), None);
}
