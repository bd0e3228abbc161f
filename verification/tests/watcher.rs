use starplayer::db::{Database, DbError};
use starplayer::models::FileMeta;
use starplayer::watcher::{
    any_changed, paths_below, process_event, removed_any, StepOutcome, removal_prefix, EventPath, PathState, WatcherRegistry,
};

fn new_test_db() -> Database {
    Database::open(":memory:").expect("db init")
}

fn ev(path: &str, state: PathState) -> EventPath {
    EventPath { path: path.to_string(), state }
}

#[test]
fn removal_prefix_adds_separator_once() {
    assert_eq!(removal_prefix("/a/b", "/"), "/a/b/");
    assert_eq!(removal_prefix("/a/b/", "/"), "/a/b/");
    assert_eq!(removal_prefix("", "/"), "/");
    assert_eq!(removal_prefix(r"C:\v", r"\"), r"C:\v\");
    assert_eq!(removal_prefix(r"C:\v\", r"\"), r"C:\v\");
}

#[test]
fn paths_below_selects_descendants() {
    let known = vec!["/a/b/x.mp4".to_string(), "/a/bc.mp4".to_string(), "/a/b/c/y.mp4".to_string()];
    assert_eq!(
        paths_below(&known, "/a/b/"),
        vec!["/a/b/x.mp4".to_string(), "/a/b/c/y.mp4".to_string()]
    );
}

#[test]
fn watcher_detects_new_video_file() {
    let db = new_test_db();
    let ws = db.add_workspace("t", "/lib").unwrap();
    let meta = Some(FileMeta { len: 1, modified_secs: None });
    assert!(process_event(&vec![ev("/lib/new.mp4", PathState::File(meta))], &ws.id, &db));
    assert!(db.list_workspace_media_paths(&ws.id).unwrap().contains(&"/lib/new.mp4".to_string()));
    assert!(!process_event(&vec![ev("/lib/notes.txt", PathState::File(meta))], &ws.id, &db));
    assert!(!process_event(&vec![ev("/lib/dir", PathState::Other)], &ws.id, &db));
}

#[test]
fn watcher_removes_deleted_video_file() {
    let db = new_test_db();
    let ws = db.add_workspace("t", "/lib").unwrap();
    let meta = Some(FileMeta { len: 1, modified_secs: None });
    process_event(&vec![ev("/lib/gone.mp4", PathState::File(meta))], &ws.id, &db);
    assert!(process_event(&vec![ev("/lib/gone.mp4", PathState::Missing)], &ws.id, &db));
    assert!(!db.list_workspace_media_paths(&ws.id).unwrap().contains(&"/lib/gone.mp4".to_string()));
    assert!(!process_event(&vec![ev("/lib/gone.mp4", PathState::Missing)], &ws.id, &db));
}

#[test]
fn watcher_detects_file_in_new_subdirectory() {
    let db = new_test_db();
    let ws = db.add_workspace("t", "/lib").unwrap();
    let meta = Some(FileMeta { len: 1, modified_secs: None });
    let changed = process_event(
        &vec![ev("/lib/nested", PathState::Other), ev("/lib/nested/show.mkv", PathState::File(meta))],
        &ws.id,
        &db,
    );
    assert!(changed);
    assert!(db.list_workspace_media_paths(&ws.id).unwrap().contains(&"/lib/nested/show.mkv".to_string()));
}

#[test]
fn removed_directory_prunes_descendants() {
    let db = new_test_db();
    let ws = db.add_workspace("t", "/lib").unwrap();
    let meta = Some(FileMeta { len: 1, modified_secs: None });
    process_event(
        &vec![
            ev("/lib/d/a.mp4", PathState::File(meta)),
            ev("/lib/d/e/b.mkv", PathState::File(meta)),
            ev("/lib/dd.mp4", PathState::File(meta)),
        ],
        &ws.id,
        &db,
    );
    assert!(process_event(&vec![ev("/lib/d", PathState::Missing)], &ws.id, &db));
    assert_eq!(db.list_workspace_media_paths(&ws.id).unwrap(), vec!["/lib/dd.mp4".to_string()]);
}

#[test]
fn registry_replaces_and_forgets() {
    let mut r: WatcherRegistry<u32> = WatcherRegistry::new();
    assert!(!r.is_watching("w1"));
    r.insert("w1".to_string(), 1);
    r.insert("w2".to_string(), 2);
    r.insert("w1".to_string(), 3);
    assert!(r.is_watching("w1"));
    assert!(r.is_watching("w2"));
    r.unwatch("w1");
    assert!(!r.is_watching("w1"));
    assert!(r.is_watching("w2"));
    r.unwatch("absent");
    assert!(r.is_watching("w2"));
}

#[test]
fn default_registry_is_empty() {
    let r: WatcherRegistry<u32> = WatcherRegistry::default();
    assert!(!r.is_watching("w1"));
    assert!(!r.is_watching(""));
}

fn err() -> DbError {
    DbError { message: "x".to_string() }
}

#[test]
fn removed_any_needs_a_removed_row() {
    assert!(removed_any(&Ok(1)));
    assert!(removed_any(&Ok(3)));
    assert!(!removed_any(&Ok(0)));
    assert!(!removed_any(&Err(err())));
}

#[test]
fn any_changed_over_outcomes() {
    assert!(!any_changed(&vec![]));
    assert!(!any_changed(&vec![StepOutcome::Upserted(Err(err())), StepOutcome::Deleted(Ok(0))]));
    assert!(any_changed(&vec![StepOutcome::Deleted(Ok(0)), StepOutcome::Upserted(Ok(()))]));
    assert!(any_changed(&vec![StepOutcome::Deleted(Err(err())), StepOutcome::Deleted(Ok(2))]));
}

#[test]
fn event_without_relevant_paths_changes_nothing() {
    let db = new_test_db();
    let ws = db.add_workspace("t", "/lib").unwrap();
    db.upsert_media_file(&starplayer::scanner::build_insert(&ws.id, "/lib/a.mp4", None).unwrap()).unwrap();
    assert!(!process_event(&vec![ev("/lib/notes.txt", PathState::File(None)), ev("/lib", PathState::Other)], &ws.id, &db));
    assert!(!process_event(&vec![ev("/lib/other.mp4", PathState::Missing)], &ws.id, &db));
    assert_eq!(db.list_workspace_media_paths(&ws.id).unwrap(), vec!["/lib/a.mp4".to_string()]);
}
