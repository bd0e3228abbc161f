use starplayer::db::{Database, DbError};
use starplayer::models::{FileEntry, FileMeta};
use starplayer::scanner::{
    build_insert, removed_total, is_video_extension, is_video_file, scan_workspace, stale_paths, VIDEO_EXTENSIONS,
};

fn new_test_db() -> Database {
    Database::open(":memory:").expect("db init")
}

fn entry(path: &str, is_file: bool) -> FileEntry {
    FileEntry { path: path.to_string(), is_file, meta: Some(FileMeta { len: 1, modified_secs: Some(5) }) }
}

#[test]
fn is_video_file_matches_known_extensions() {
    assert!(is_video_file("/tmp/a.mp4"));
    assert!(is_video_file("/tmp/a.MKV"));
    assert!(!is_video_file("/tmp/a.txt"));
    assert!(!is_video_file("/tmp/no_ext"));
}

#[test]
fn is_video_file_follows_path_grammar() {
    assert!(is_video_file("a.mp4/."));
    assert!(is_video_file("a.mp4//"));
    assert!(!is_video_file("/tmp/.mp4"));
    assert!(!is_video_file("/tmp/x.mp4/.."));
    assert!(is_video_file("..mp4"));
    assert!(is_video_file("clip.DivX"));
}

#[test]
fn video_extensions_are_all_recognised() {
    for ext in VIDEO_EXTENSIONS.iter() {
        assert!(is_video_extension(ext));
    }
    assert!(!is_video_extension("MP4"));
    assert!(!is_video_extension(""));
    assert_eq!(VIDEO_EXTENSIONS.len(), 18);
}

#[test]
fn build_insert_returns_none_for_non_video() {
    assert!(build_insert("ws", "/tmp/a.txt", None).is_none());
}

#[test]
fn build_insert_populates_fields() {
    let ins = build_insert(
        "ws",
        "/srv/Show S01E07.MKV",
        Some(FileMeta { len: 2048, modified_secs: Some(1_700_000_000) }),
    )
    .unwrap();
    assert_eq!(ins.workspace_id, "ws");
    assert_eq!(ins.path, "/srv/Show S01E07.MKV");
    assert_eq!(ins.filename, "Show S01E07.MKV");
    assert_eq!(ins.extension, "mkv");
    assert_eq!(ins.size_bytes, 2048);
    assert_eq!(ins.mtime, Some(1_700_000_000));
    assert_eq!(ins.series_name.as_deref(), Some("Show"));
    assert_eq!(ins.series_number, Some(7));
    assert_eq!(ins.id.len(), 36);
    assert_eq!(ins.id.chars().nth(14), Some('4'));
    assert!(matches!(ins.id.chars().nth(19), Some('8' | '9' | 'a' | 'b')));
    let other = build_insert("ws", "/srv/Show S01E07.MKV", None).unwrap();
    assert_ne!(other.id, ins.id);
    assert_eq!(other.size_bytes, 0);
    assert_eq!(other.mtime, None);
}

#[test]
fn build_insert_casts_huge_sizes() {
    let ins = build_insert("ws", "/a.mp4", Some(FileMeta { len: u64::MAX, modified_secs: None })).unwrap();
    assert_eq!(ins.size_bytes, -1);
}

#[test]
fn stale_paths_keeps_order_of_unseen() {
    let known = vec!["/a".to_string(), "/b".to_string(), "/c".to_string()];
    let seen = vec!["/b".to_string()];
    assert_eq!(stale_paths(&known, &seen), vec!["/a".to_string(), "/c".to_string()]);
    assert!(stale_paths(&known, &known).is_empty());
}

#[test]
fn scan_workspace_refuses_missing_root() {
    let db = new_test_db();
    let r = scan_workspace(&db, "w", "/no/such", false, &vec![]);
    assert_eq!(r, Err("Path does not exist: /no/such".to_string()));
}

#[test]
fn scan_workspace_prunes_missing_files() {
    let db = new_test_db();
    let ws = db.add_workspace("t", "/lib").unwrap();
    let first = vec![
        entry("/lib", false),
        entry("/lib/kept.mp4", true),
        entry("/lib/gone.mp4", true),
        entry("/lib/notes.txt", true),
        entry("/lib/dir.mkv", false),
    ];
    let r1 = scan_workspace(&db, &ws.id, "/lib", true, &first).unwrap();
    assert_eq!(r1.total, 2);
    assert_eq!(r1.added, 2);
    assert_eq!(r1.updated, 0);
    assert_eq!(r1.removed, 0);

    let second = vec![entry("/lib/kept.mp4", true)];
    let r2 = scan_workspace(&db, &ws.id, "/lib", true, &second).unwrap();
    assert_eq!(r2.total, 1);
    assert_eq!(r2.removed, 1);

    let paths = db.list_workspace_media_paths(&ws.id).unwrap();
    assert_eq!(paths.len(), 1);
    assert!(paths[0].ends_with("kept.mp4"));
}

#[test]
fn build_insert_populates_mtime_from_filesystem() {
    let now = std::time::SystemTime::now()
        .duration_since(std::time::UNIX_EPOCH)
        .unwrap()
        .as_secs();
    let meta = FileMeta { len: 0, modified_secs: Some(now) };
    let insert = build_insert("ws", "/tmp/sp-mtime-1.mp4", Some(meta)).expect("build_insert");
    let mtime = insert.mtime.expect("mtime should be present for existing file");
    assert!((now as i64 - mtime).abs() < 60, "mtime {mtime} should be near now {now}");
}

#[test]
fn removed_total_sums_successful_deletes() {
    let e = || Err(DbError { message: "x".to_string() });
    assert_eq!(removed_total(&vec![]), 0);
    assert_eq!(removed_total(&vec![Ok(1), e(), Ok(2), Ok(0)]), 3);
    assert_eq!(removed_total(&vec![Ok(usize::MAX), Ok(1)]), usize::MAX);
}
