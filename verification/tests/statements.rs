use starplayer::query::MEDIA_SELECT;
use starplayer::statements::{
    delete_media_file_by_path, find_workspace_by_path, insert_playlist_filter, insert_workspace,
    list_playlists, media_file_by_id, rename_playlist, rename_workspace, set_playback_mode,
    upsert_media_file,
};

#[test]
fn rename_statements_bind_name_then_id() {
    let (sql, values) = rename_workspace("New", "ws1");
    assert_eq!(sql, "UPDATE workspaces SET name = ?1, updated_at = datetime('now') WHERE id = ?2");
    assert_eq!(values, vec!["New", "ws1"]);
    let (sql, values) = rename_playlist("Mine", "p1");
    assert_eq!(sql, "UPDATE playlists SET name = ?1, updated_at = datetime('now') WHERE id = ?2");
    assert_eq!(values, vec!["Mine", "p1"]);
    let (_, values) = set_playback_mode("random", "p1");
    assert_eq!(values, vec!["random", "p1"]);
}

#[test]
fn statements_bind_one_value_per_placeholder() {
    let all = vec![
        find_workspace_by_path("/a"),
        insert_workspace("i", "n", "/a"),
        delete_media_file_by_path("/a/b.mp4"),
        insert_playlist_filter("f", "p", "path", "equals", "/x"),
        list_playlists(),
    ];
    for (sql, values) in all {
        assert_eq!(sql.matches('?').count(), values.len());
    }
    assert_eq!(upsert_media_file().matches('?').count(), 8);
    let (_, values) = insert_playlist_filter("f", "p", "path", "equals", "/x");
    assert_eq!(values, vec!["f", "p", "path", "equals", "/x"]);
}

#[test]
fn media_file_by_id_selects_by_id() {
    let (sql, values) = media_file_by_id("m1");
    assert_eq!(sql, format!("{MEDIA_SELECT} AND id = ?1"));
    assert_eq!(values, vec!["m1"]);
}
