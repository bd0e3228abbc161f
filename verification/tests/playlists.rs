use starplayer::db::Database;
use starplayer::models::{MediaFileInsert, PlaylistFilter};

fn new_test_db() -> Database {
    Database::open(":memory:").expect("db init")
}

fn filter(field: &str, operator: &str, value: &str) -> PlaylistFilter {
    PlaylistFilter {
        field: field.to_string(),
        operator: operator.to_string(),
        value: value.to_string(),
    }
}

fn insert(db: &Database, ws: &str, path: &str, series: Option<(&str, i32)>) {
    let filename = path.rsplit('/').next().unwrap().to_string();
    let ext = filename.rsplit('.').next().unwrap().to_string();
    db.upsert_media_file(&MediaFileInsert {
        id: uuid::Uuid::new_v4().to_string(),
        workspace_id: ws.to_string(),
        path: path.to_string(),
        filename,
        extension: ext,
        size_bytes: 1,
        series_name: series.map(|s| s.0.to_string()),
        series_number: series.map(|s| s.1),
        mtime: None,
    })
    .unwrap();
}

#[test]
fn create_list_update_delete_playlist() {
    let db = new_test_db();
    let p = db
        .create_playlist("Anime", &[filter("series_name", "equals", "Show")])
        .unwrap();
    assert_eq!(p.name, "Anime");
    assert_eq!(p.playback_mode, "sequential");
    assert_eq!(p.filters, vec![filter("series_name", "equals", "Show")]);
    assert_eq!(p.id.len(), 36);

    db.set_playback_mode(&p.id, "random").unwrap();
    db.update_playlist(&p.id, "Renamed", &[filter("extension", "equals", "mkv"), filter("path", "contains", "x")])
        .unwrap();
    let all = db.list_playlists().unwrap();
    assert_eq!(all.len(), 1);
    assert_eq!(all[0].name, "Renamed");
    assert_eq!(all[0].playback_mode, "random");
    assert_eq!(all[0].filters.len(), 2);

    db.delete_playlist(&p.id).unwrap();
    assert!(db.list_playlists().unwrap().is_empty());
}

#[test]
fn playlist_files_follow_filters_and_series_order() {
    let db = new_test_db();
    let w = db.add_workspace("m", "/m").unwrap().id;
    insert(&db, &w, "/m/Show - 02.mkv", Some(("Show", 2)));
    insert(&db, &w, "/m/Show - 01.mkv", Some(("Show", 1)));
    insert(&db, &w, "/m/Other - 01.mp4", Some(("Other", 1)));
    insert(&db, &w, "/m/clip.mp4", None);

    let p = db
        .create_playlist("S", &[filter("series_name", "equals", "Show")])
        .unwrap();
    let files = db.query_playlist_files(&p.id).unwrap();
    let names: Vec<&str> = files.iter().map(|f| f.filename.as_str()).collect();
    assert_eq!(names, vec!["Show - 01.mkv", "Show - 02.mkv"]);

    let q = db
        .create_playlist("no", &[filter("series_name", "not_contains", "Show")])
        .unwrap();
    let files = db.query_playlist_files(&q.id).unwrap();
    let names: Vec<&str> = files.iter().map(|f| f.filename.as_str()).collect();
    // NULL series sort first
    assert_eq!(names, vec!["clip.mp4", "Other - 01.mp4"]);

    let r = db
        .create_playlist("mix", &[filter("filename", "starts_with", "Show"), filter("bogus", "equals", "x"), filter("extension", "ends_with", "kv")])
        .unwrap();
    assert_eq!(db.query_playlist_files(&r.id).unwrap().len(), 2);

    // an unknown playlist has no filters: every file matches
    assert_eq!(db.query_playlist_files("none").unwrap().len(), 4);
}

#[test]
fn deleting_a_playlist_removes_its_filters() {
    let db = new_test_db();
    let p = db.create_playlist("P", &[filter("path", "equals", "/x")]).unwrap();
    db.delete_playlist(&p.id).unwrap();
    // a playlist id that is gone has no filters: every file matches
    let w = db.add_workspace("m", "/m").unwrap().id;
    insert(&db, &w, "/m/a.mp4", None);
    assert_eq!(db.query_playlist_files(&p.id).unwrap().len(), 1);
}
