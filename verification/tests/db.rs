use starplayer::db::{filters_from_rows, new_workspace, playlist_of, first_row, reregistered_workspace, workspaces_from_rows, Database};
use starplayer::models::{MediaFileInsert, Workspace};

fn new_test_db() -> Database {
    Database::open(":memory:").expect("db init")
}

fn sample_insert(workspace_id: &str, path: &str) -> MediaFileInsert {
    MediaFileInsert {
        id: uuid::Uuid::new_v4().to_string(),
        workspace_id: workspace_id.to_string(),
        path: path.to_string(),
        filename: path.rsplit('/').next().unwrap_or(path).to_string(),
        extension: "mp4".to_string(),
        size_bytes: 123,
        series_name: None,
        series_number: None,
        mtime: None,
    }
}

#[test]
fn remove_media_file_by_path_deletes_matching_row() {
    let db = new_test_db();
    let ws = db.add_workspace("w", "/tmp/w").unwrap();
    db.upsert_media_file(&sample_insert(&ws.id, "/tmp/w/a.mp4"))
        .unwrap();
    db.upsert_media_file(&sample_insert(&ws.id, "/tmp/w/b.mp4"))
        .unwrap();

    let affected = db.remove_media_file_by_path("/tmp/w/a.mp4").unwrap();
    assert_eq!(affected, 1);

    let remaining = db.list_workspace_media_paths(&ws.id).unwrap();
    assert_eq!(remaining, vec!["/tmp/w/b.mp4".to_string()]);
}

#[test]
fn remove_media_file_by_path_returns_zero_when_missing() {
    let db = new_test_db();
    let affected = db.remove_media_file_by_path("/nonexistent").unwrap();
    assert_eq!(affected, 0);
}

#[test]
fn list_workspace_media_paths_scopes_to_workspace() {
    let db = new_test_db();
    let ws1 = db.add_workspace("w1", "/tmp/w1").unwrap();
    let ws2 = db.add_workspace("w2", "/tmp/w2").unwrap();
    db.upsert_media_file(&sample_insert(&ws1.id, "/tmp/w1/x.mp4"))
        .unwrap();
    db.upsert_media_file(&sample_insert(&ws2.id, "/tmp/w2/y.mp4"))
        .unwrap();

    let paths = db.list_workspace_media_paths(&ws1.id).unwrap();
    assert_eq!(paths, vec!["/tmp/w1/x.mp4".to_string()]);
}

#[test]
fn add_workspace_renames_existing_path() {
    let db = new_test_db();
    let a = db.add_workspace("first", "/media/x").unwrap();
    assert_eq!(a.id.len(), 36);
    let b = db.add_workspace("second", "/media/x").unwrap();
    assert_eq!(b.id, a.id);
    assert_eq!(b.name, "second");
    assert_eq!(b.path, "/media/x");
    let c = db.add_workspace("second", "/media/x").unwrap();
    assert_eq!(c.id, a.id);
    let all = db.list_workspaces().unwrap();
    assert_eq!(all.len(), 1);
    assert_eq!(all[0].name, "second");
    db.remove_workspace(&a.id).unwrap();
    assert!(db.list_workspaces().unwrap().is_empty());
}

#[test]
fn list_workspaces_is_ordered_by_name() {
    let db = new_test_db();
    db.add_workspace("b", "/b").unwrap();
    db.add_workspace("a", "/a").unwrap();
    let names: Vec<String> = db.list_workspaces().unwrap().into_iter().map(|w| w.name).collect();
    assert_eq!(names, vec!["a".to_string(), "b".to_string()]);
}

#[test]
fn upsert_updates_known_path_and_media_queries_filter() {
    let db = new_test_db();
    let ws = db.add_workspace("w", "/m").unwrap();
    let mut a = sample_insert(&ws.id, "/m/Show - 01.mkv");
    a.extension = "mkv".to_string();
    a.series_name = Some("Show".to_string());
    a.series_number = Some(1);
    db.upsert_media_file(&a).unwrap();
    let mut a2 = sample_insert(&ws.id, "/m/Show - 01.mkv");
    a2.size_bytes = 999;
    db.upsert_media_file(&a2).unwrap();
    db.upsert_media_file(&sample_insert(&ws.id, "/m/other.mp4")).unwrap();

    let all = db.list_media_files(None, None, None).unwrap();
    assert_eq!(all.len(), 2);
    let shows = db.list_media_files(Some(&ws.id), Some("Show"), None).unwrap();
    assert_eq!(shows.len(), 1);
    assert_eq!(shows[0].size_bytes, 999);
    // the update keeps the first id and extension
    assert_eq!(shows[0].id, a.id);
    assert_eq!(shows[0].extension, "mkv");
    assert_eq!(shows[0].duration_bits, None);
    let mp4 = db.list_media_files(None, None, Some("mp4")).unwrap();
    assert_eq!(mp4.len(), 1);
    assert_eq!(mp4[0].path, "/m/other.mp4");
    assert_eq!(db.list_media_files(Some("nope"), None, None).unwrap().len(), 0);

    let got = db.get_media_file(&a.id).unwrap().unwrap();
    assert_eq!(got.path, "/m/Show - 01.mkv");
    assert!(db.get_media_file("missing").unwrap().is_none());
}

#[test]
fn rows_become_workspaces_in_order() {
    let ws = workspaces_from_rows(vec![
        ("1".to_string(), "A".to_string(), "/a".to_string()),
        ("2".to_string(), "B".to_string(), "/b".to_string()),
    ]);
    assert_eq!(ws.len(), 2);
    assert_eq!((ws[0].id.as_str(), ws[0].name.as_str(), ws[0].path.as_str()), ("1", "A", "/a"));
    assert_eq!((ws[1].id.as_str(), ws[1].name.as_str(), ws[1].path.as_str()), ("2", "B", "/b"));
    assert!(workspaces_from_rows(Vec::new()).is_empty());
}

#[test]
fn rows_become_filters_in_order() {
    let fs = filters_from_rows(vec![
        ("filename".to_string(), "contains".to_string(), "x".to_string()),
        ("path".to_string(), "equals".to_string(), "/p".to_string()),
    ]);
    assert_eq!(fs.len(), 2);
    assert_eq!((fs[0].field.as_str(), fs[0].operator.as_str(), fs[0].value.as_str()), ("filename", "contains", "x"));
    assert_eq!((fs[1].field.as_str(), fs[1].operator.as_str(), fs[1].value.as_str()), ("path", "equals", "/p"));
}

#[test]
fn first_row_takes_the_first() {
    assert_eq!(first_row(vec![3, 4, 5]), Some(3));
    assert_eq!(first_row(Vec::<u8>::new()), None);
}

#[test]
fn reregistering_keeps_id_and_path() {
    let ws = Workspace { id: "i".to_string(), name: "Old".to_string(), path: "/m".to_string() };
    let (r, renamed) = reregistered_workspace(ws.clone(), "New");
    assert!(renamed);
    assert_eq!((r.id.as_str(), r.name.as_str(), r.path.as_str()), ("i", "New", "/m"));
    let (r, renamed) = reregistered_workspace(ws, "Old");
    assert!(!renamed);
    assert_eq!(r.name, "Old");
}

#[test]
fn new_workspace_and_playlist_of_keep_fields() {
    let w = new_workspace("id1".to_string(), "Films", "/films");
    assert_eq!((w.id.as_str(), w.name.as_str(), w.path.as_str()), ("id1", "Films", "/films"));
    let f = starplayer::models::PlaylistFilter {
        field: "path".to_string(),
        operator: "equals".to_string(),
        value: "/x".to_string(),
    };
    let p = playlist_of(("p".to_string(), "Mine".to_string(), "random".to_string()), vec![f.clone()]);
    assert_eq!((p.id.as_str(), p.name.as_str(), p.playback_mode.as_str()), ("p", "Mine", "random"));
    assert_eq!(p.filters, vec![f]);
}

#[test]
fn new_workspace_path_and_id_are_recorded() {
    let db = new_test_db();
    let w = db.add_workspace("Name", "/some/path").unwrap();
    assert_eq!(w.path, "/some/path");
    assert_eq!(w.id.len(), 36);
    assert_eq!(db.list_workspaces().unwrap(), vec![w]);
}

#[test]
fn removing_a_workspace_removes_its_files() {
    let db = new_test_db();
    let ws = db.add_workspace("w", "/tmp/w").unwrap();
    db.upsert_media_file(&sample_insert(&ws.id, "/tmp/w/a.mp4")).unwrap();
    db.remove_workspace(&ws.id).unwrap();
    assert!(db.list_workspace_media_paths(&ws.id).unwrap().is_empty());
    assert!(db.list_media_files(None, None, None).unwrap().is_empty());
}
