//! The statements the index sends to SQLite: the text of each and the
//! values bound to its placeholders, in order.
use vstd::prelude::*;
use crate::query::{
    count_char, lemma_count_none, lemma_count_range_single, lemma_count_range_split,
    lemma_count_single, lemma_media_by_id_one_placeholder, MEDIA_SELECT,
};
use crate::text::strings_view;

verus! {

/// The text of the statement that records a media file.
pub open spec fn upsert_media_file_sql() -> Seq<char> {
    "INSERT INTO media_files (id, workspace_id, path, filename, extension, size_bytes, series_name, series_number)
             VALUES (?1, ?2, ?3, ?4, ?5, ?6, ?7, ?8)
             ON CONFLICT(path) DO UPDATE SET
                filename = excluded.filename,
                size_bytes = excluded.size_bytes,
                series_name = excluded.series_name,
                series_number = excluded.series_number,
                updated_at = datetime('now')"@
}

/// The text of the statement that deletes the media file recorded at a path.
pub open spec fn delete_media_file_by_path_sql() -> Seq<char> {
    "DELETE FROM media_files WHERE path = ?1"@
}

/// The text of the statement that lists the paths recorded for a workspace.
pub open spec fn workspace_media_paths_sql() -> Seq<char> {
    "SELECT path FROM media_files WHERE workspace_id = ?1"@
}

/// The text of the statement that sets the playback mode of a playlist.
pub open spec fn set_playback_mode_sql() -> Seq<char> {
    "UPDATE playlists SET playback_mode = ?1, updated_at = datetime('now') WHERE id = ?2"@
}

/// A copy of `s` pushed onto `v`.
fn push_value(v: &mut Vec<String>, s: &str)
    ensures
        strings_view(final(v)@) == strings_view(old(v)@).push(s@),
{
    v.push(s.to_owned());
    assert(strings_view(final(v)@) =~= strings_view(old(v)@).push(s@));
}

/// How many `?` the statement `find_workspace_by_path` holds.
proof fn lemma_find_workspace_by_path_placeholders()
    ensures
        count_char("SELECT id, name, path FROM workspaces WHERE path = ?1"@, '?') == 1,
{
    reveal_strlit("SELECT id, name, path FROM workspaces WHERE path = ?1");
    lemma_count_single("SELECT id, name, path FROM workspaces WHERE path = ?1"@, '?', 51);
}

/// The statement that looks up the workspace registered for directory `path`.
pub fn find_workspace_by_path(path: &str) -> (r: (&'static str, Vec<String>))
    ensures
        r.0@ == "SELECT id, name, path FROM workspaces WHERE path = ?1"@,
        strings_view(r.1@) == seq![path@],
        count_char(r.0@, '?') == r.1@.len(),
{
    let mut v: Vec<String> = Vec::new();
    push_value(&mut v, path);
    proof {
        lemma_find_workspace_by_path_placeholders();
        assert(strings_view(v@) =~= seq![path@]);
    }
    ("SELECT id, name, path FROM workspaces WHERE path = ?1", v)
}

/// How many `?` the statement `rename_workspace` holds.
proof fn lemma_rename_workspace_placeholders()
    ensures
        count_char("UPDATE workspaces SET name = ?1, updated_at = datetime('now') WHERE id = ?2"@, '?') == 2,
{
    reveal_strlit("UPDATE workspaces SET name = ?1, updated_at = datetime('now') WHERE id = ?2");
    let s = "UPDATE workspaces SET name = ?1, updated_at = datetime('now') WHERE id = ?2"@;
    assert(s.subrange(0, 75) =~= s);
    lemma_count_range_single(s, '?', 0, 29, 30);
    lemma_count_range_single(s, '?', 30, 73, 75);
    lemma_count_range_split(s, '?', 0, 30, 75);
}

/// The statement that renames workspace `id` to `name`.
pub fn rename_workspace(name: &str, id: &str) -> (r: (&'static str, Vec<String>))
    ensures
        r.0@ == "UPDATE workspaces SET name = ?1, updated_at = datetime('now') WHERE id = ?2"@,
        strings_view(r.1@) == seq![name@, id@],
        count_char(r.0@, '?') == r.1@.len(),
{
    let mut v: Vec<String> = Vec::new();
    push_value(&mut v, name);
    push_value(&mut v, id);
    proof {
        lemma_rename_workspace_placeholders();
        assert(strings_view(v@) =~= seq![name@, id@]);
    }
    ("UPDATE workspaces SET name = ?1, updated_at = datetime('now') WHERE id = ?2", v)
}

/// How many `?` the statement `insert_workspace` holds.
proof fn lemma_insert_workspace_placeholders()
    ensures
        count_char("INSERT INTO workspaces (id, name, path) VALUES (?1, ?2, ?3)"@, '?') == 3,
{
    reveal_strlit("INSERT INTO workspaces (id, name, path) VALUES (?1, ?2, ?3)");
    let s = "INSERT INTO workspaces (id, name, path) VALUES (?1, ?2, ?3)"@;
    assert(s.subrange(0, 59) =~= s);
    lemma_count_range_single(s, '?', 0, 48, 49);
    lemma_count_range_single(s, '?', 49, 52, 53);
    lemma_count_range_single(s, '?', 53, 56, 59);
    lemma_count_range_split(s, '?', 0, 49, 59);
    lemma_count_range_split(s, '?', 49, 53, 59);
}

/// The statement that registers workspace `id` named `name` for directory `path`.
pub fn insert_workspace(id: &str, name: &str, path: &str) -> (r: (&'static str, Vec<String>))
    ensures
        r.0@ == "INSERT INTO workspaces (id, name, path) VALUES (?1, ?2, ?3)"@,
        strings_view(r.1@) == seq![id@, name@, path@],
        count_char(r.0@, '?') == r.1@.len(),
{
    let mut v: Vec<String> = Vec::new();
    push_value(&mut v, id);
    push_value(&mut v, name);
    push_value(&mut v, path);
    proof {
        lemma_insert_workspace_placeholders();
        assert(strings_view(v@) =~= seq![id@, name@, path@]);
    }
    ("INSERT INTO workspaces (id, name, path) VALUES (?1, ?2, ?3)", v)
}

/// How many `?` the statement `list_workspaces` holds.
proof fn lemma_list_workspaces_placeholders()
    ensures
        count_char("SELECT id, name, path FROM workspaces ORDER BY name"@, '?') == 0,
{
    reveal_strlit("SELECT id, name, path FROM workspaces ORDER BY name");
    lemma_count_none("SELECT id, name, path FROM workspaces ORDER BY name"@, '?');
}

/// The statement that lists all workspaces, ordered by name.
pub fn list_workspaces() -> (r: (&'static str, Vec<String>))
    ensures
        r.0@ == "SELECT id, name, path FROM workspaces ORDER BY name"@,
        strings_view(r.1@) == Seq::<Seq<char>>::empty(),
        count_char(r.0@, '?') == r.1@.len(),
{
    let mut v: Vec<String> = Vec::new();
    proof {
        lemma_list_workspaces_placeholders();
        assert(strings_view(v@) =~= Seq::<Seq<char>>::empty());
    }
    ("SELECT id, name, path FROM workspaces ORDER BY name", v)
}

/// How many `?` the statement `delete_workspace` holds.
proof fn lemma_delete_workspace_placeholders()
    ensures
        count_char("DELETE FROM workspaces WHERE id = ?1"@, '?') == 1,
{
    reveal_strlit("DELETE FROM workspaces WHERE id = ?1");
    lemma_count_single("DELETE FROM workspaces WHERE id = ?1"@, '?', 34);
}

/// The statement that forgets workspace `id`.
pub fn delete_workspace(id: &str) -> (r: (&'static str, Vec<String>))
    ensures
        r.0@ == "DELETE FROM workspaces WHERE id = ?1"@,
        strings_view(r.1@) == seq![id@],
        count_char(r.0@, '?') == r.1@.len(),
{
    let mut v: Vec<String> = Vec::new();
    push_value(&mut v, id);
    proof {
        lemma_delete_workspace_placeholders();
        assert(strings_view(v@) =~= seq![id@]);
    }
    ("DELETE FROM workspaces WHERE id = ?1", v)
}

/// How many `?` the statement `upsert_media_file` holds.
proof fn lemma_upsert_media_file_placeholders()
    ensures
        count_char("INSERT INTO media_files (id, workspace_id, path, filename, extension, size_bytes, series_name, series_number)
             VALUES (?1, ?2, ?3, ?4, ?5, ?6, ?7, ?8)
             ON CONFLICT(path) DO UPDATE SET
                filename = excluded.filename,
                size_bytes = excluded.size_bytes,
                series_name = excluded.series_name,
                series_number = excluded.series_number,
                updated_at = datetime('now')"@, '?') == 8,
{
    reveal_strlit("INSERT INTO media_files (id, workspace_id, path, filename, extension, size_bytes, series_name, series_number)
             VALUES (?1, ?2, ?3, ?4, ?5, ?6, ?7, ?8)
             ON CONFLICT(path) DO UPDATE SET
                filename = excluded.filename,
                size_bytes = excluded.size_bytes,
                series_name = excluded.series_name,
                series_number = excluded.series_number,
                updated_at = datetime('now')");
    let s = "INSERT INTO media_files (id, workspace_id, path, filename, extension, size_bytes, series_name, series_number)
             VALUES (?1, ?2, ?3, ?4, ?5, ?6, ?7, ?8)
             ON CONFLICT(path) DO UPDATE SET
                filename = excluded.filename,
                size_bytes = excluded.size_bytes,
                series_name = excluded.series_name,
                series_number = excluded.series_number,
                updated_at = datetime('now')"@;
    assert(s.subrange(0, 456) =~= s);
    lemma_count_range_single(s, '?', 0, 131, 132);
    lemma_count_range_single(s, '?', 132, 135, 136);
    lemma_count_range_single(s, '?', 136, 139, 140);
    lemma_count_range_single(s, '?', 140, 143, 144);
    lemma_count_range_single(s, '?', 144, 147, 148);
    lemma_count_range_single(s, '?', 148, 151, 152);
    lemma_count_range_single(s, '?', 152, 155, 156);
    lemma_count_range_single(s, '?', 156, 159, 456);
    lemma_count_range_split(s, '?', 0, 132, 456);
    lemma_count_range_split(s, '?', 132, 136, 456);
    lemma_count_range_split(s, '?', 136, 140, 456);
    lemma_count_range_split(s, '?', 140, 144, 456);
    lemma_count_range_split(s, '?', 144, 148, 456);
    lemma_count_range_split(s, '?', 148, 152, 456);
    lemma_count_range_split(s, '?', 152, 156, 456);
}

/// The statement that records a media file, or updates the file name, size
/// and series of the one recorded at the same path; its eight values are
/// the file's fields.
pub fn upsert_media_file() -> (r: &'static str)
    ensures
        r@ == "INSERT INTO media_files (id, workspace_id, path, filename, extension, size_bytes, series_name, series_number)
             VALUES (?1, ?2, ?3, ?4, ?5, ?6, ?7, ?8)
             ON CONFLICT(path) DO UPDATE SET
                filename = excluded.filename,
                size_bytes = excluded.size_bytes,
                series_name = excluded.series_name,
                series_number = excluded.series_number,
                updated_at = datetime('now')"@,
        r@ == upsert_media_file_sql(),
        count_char(r@, '?') == 8,
{
    proof {
        lemma_upsert_media_file_placeholders();
    }
    "INSERT INTO media_files (id, workspace_id, path, filename, extension, size_bytes, series_name, series_number)
             VALUES (?1, ?2, ?3, ?4, ?5, ?6, ?7, ?8)
             ON CONFLICT(path) DO UPDATE SET
                filename = excluded.filename,
                size_bytes = excluded.size_bytes,
                series_name = excluded.series_name,
                series_number = excluded.series_number,
                updated_at = datetime('now')"
}

/// How many `?` the statement `delete_media_file_by_path` holds.
proof fn lemma_delete_media_file_by_path_placeholders()
    ensures
        count_char("DELETE FROM media_files WHERE path = ?1"@, '?') == 1,
{
    reveal_strlit("DELETE FROM media_files WHERE path = ?1");
    lemma_count_single("DELETE FROM media_files WHERE path = ?1"@, '?', 37);
}

/// The statement that deletes the media file recorded at `path`.
pub fn delete_media_file_by_path(path: &str) -> (r: (&'static str, Vec<String>))
    ensures
        r.0@ == "DELETE FROM media_files WHERE path = ?1"@,
        r.0@ == delete_media_file_by_path_sql(),
        strings_view(r.1@) == seq![path@],
        count_char(r.0@, '?') == r.1@.len(),
{
    let mut v: Vec<String> = Vec::new();
    push_value(&mut v, path);
    proof {
        lemma_delete_media_file_by_path_placeholders();
        assert(strings_view(v@) =~= seq![path@]);
    }
    ("DELETE FROM media_files WHERE path = ?1", v)
}

/// How many `?` the statement `workspace_media_paths` holds.
proof fn lemma_workspace_media_paths_placeholders()
    ensures
        count_char("SELECT path FROM media_files WHERE workspace_id = ?1"@, '?') == 1,
{
    reveal_strlit("SELECT path FROM media_files WHERE workspace_id = ?1");
    lemma_count_single("SELECT path FROM media_files WHERE workspace_id = ?1"@, '?', 50);
}

/// The statement that lists the paths recorded for workspace `workspace_id`.
pub fn workspace_media_paths(workspace_id: &str) -> (r: (&'static str, Vec<String>))
    ensures
        r.0@ == "SELECT path FROM media_files WHERE workspace_id = ?1"@,
        r.0@ == workspace_media_paths_sql(),
        strings_view(r.1@) == seq![workspace_id@],
        count_char(r.0@, '?') == r.1@.len(),
{
    let mut v: Vec<String> = Vec::new();
    push_value(&mut v, workspace_id);
    proof {
        lemma_workspace_media_paths_placeholders();
        assert(strings_view(v@) =~= seq![workspace_id@]);
    }
    ("SELECT path FROM media_files WHERE workspace_id = ?1", v)
}

/// How many `?` the statement `insert_playlist` holds.
proof fn lemma_insert_playlist_placeholders()
    ensures
        count_char("INSERT INTO playlists (id, name) VALUES (?1, ?2)"@, '?') == 2,
{
    reveal_strlit("INSERT INTO playlists (id, name) VALUES (?1, ?2)");
    let s = "INSERT INTO playlists (id, name) VALUES (?1, ?2)"@;
    assert(s.subrange(0, 48) =~= s);
    lemma_count_range_single(s, '?', 0, 41, 42);
    lemma_count_range_single(s, '?', 42, 45, 48);
    lemma_count_range_split(s, '?', 0, 42, 48);
}

/// The statement that creates playlist `id` named `name`.
pub fn insert_playlist(id: &str, name: &str) -> (r: (&'static str, Vec<String>))
    ensures
        r.0@ == "INSERT INTO playlists (id, name) VALUES (?1, ?2)"@,
        strings_view(r.1@) == seq![id@, name@],
        count_char(r.0@, '?') == r.1@.len(),
{
    let mut v: Vec<String> = Vec::new();
    push_value(&mut v, id);
    push_value(&mut v, name);
    proof {
        lemma_insert_playlist_placeholders();
        assert(strings_view(v@) =~= seq![id@, name@]);
    }
    ("INSERT INTO playlists (id, name) VALUES (?1, ?2)", v)
}

/// How many `?` the statement `list_playlists` holds.
proof fn lemma_list_playlists_placeholders()
    ensures
        count_char("SELECT id, name, playback_mode FROM playlists ORDER BY name"@, '?') == 0,
{
    reveal_strlit("SELECT id, name, playback_mode FROM playlists ORDER BY name");
    lemma_count_none("SELECT id, name, playback_mode FROM playlists ORDER BY name"@, '?');
}

/// The statement that lists all playlists, ordered by name.
pub fn list_playlists() -> (r: (&'static str, Vec<String>))
    ensures
        r.0@ == "SELECT id, name, playback_mode FROM playlists ORDER BY name"@,
        strings_view(r.1@) == Seq::<Seq<char>>::empty(),
        count_char(r.0@, '?') == r.1@.len(),
{
    let mut v: Vec<String> = Vec::new();
    proof {
        lemma_list_playlists_placeholders();
        assert(strings_view(v@) =~= Seq::<Seq<char>>::empty());
    }
    ("SELECT id, name, playback_mode FROM playlists ORDER BY name", v)
}

/// How many `?` the statement `rename_playlist` holds.
proof fn lemma_rename_playlist_placeholders()
    ensures
        count_char("UPDATE playlists SET name = ?1, updated_at = datetime('now') WHERE id = ?2"@, '?') == 2,
{
    reveal_strlit("UPDATE playlists SET name = ?1, updated_at = datetime('now') WHERE id = ?2");
    let s = "UPDATE playlists SET name = ?1, updated_at = datetime('now') WHERE id = ?2"@;
    assert(s.subrange(0, 74) =~= s);
    lemma_count_range_single(s, '?', 0, 28, 29);
    lemma_count_range_single(s, '?', 29, 72, 74);
    lemma_count_range_split(s, '?', 0, 29, 74);
}

/// The statement that renames playlist `id` to `name`.
pub fn rename_playlist(name: &str, id: &str) -> (r: (&'static str, Vec<String>))
    ensures
        r.0@ == "UPDATE playlists SET name = ?1, updated_at = datetime('now') WHERE id = ?2"@,
        strings_view(r.1@) == seq![name@, id@],
        count_char(r.0@, '?') == r.1@.len(),
{
    let mut v: Vec<String> = Vec::new();
    push_value(&mut v, name);
    push_value(&mut v, id);
    proof {
        lemma_rename_playlist_placeholders();
        assert(strings_view(v@) =~= seq![name@, id@]);
    }
    ("UPDATE playlists SET name = ?1, updated_at = datetime('now') WHERE id = ?2", v)
}

/// How many `?` the statement `delete_playlist_filters` holds.
proof fn lemma_delete_playlist_filters_placeholders()
    ensures
        count_char("DELETE FROM playlist_filters WHERE playlist_id = ?1"@, '?') == 1,
{
    reveal_strlit("DELETE FROM playlist_filters WHERE playlist_id = ?1");
    lemma_count_single("DELETE FROM playlist_filters WHERE playlist_id = ?1"@, '?', 49);
}

/// The statement that deletes the filters of playlist `playlist_id`.
pub fn delete_playlist_filters(playlist_id: &str) -> (r: (&'static str, Vec<String>))
    ensures
        r.0@ == "DELETE FROM playlist_filters WHERE playlist_id = ?1"@,
        strings_view(r.1@) == seq![playlist_id@],
        count_char(r.0@, '?') == r.1@.len(),
{
    let mut v: Vec<String> = Vec::new();
    push_value(&mut v, playlist_id);
    proof {
        lemma_delete_playlist_filters_placeholders();
        assert(strings_view(v@) =~= seq![playlist_id@]);
    }
    ("DELETE FROM playlist_filters WHERE playlist_id = ?1", v)
}

/// How many `?` the statement `insert_playlist_filter` holds.
proof fn lemma_insert_playlist_filter_placeholders()
    ensures
        count_char("INSERT INTO playlist_filters (id, playlist_id, field, operator, value)
                 VALUES (?1, ?2, ?3, ?4, ?5)"@, '?') == 5,
{
    reveal_strlit("INSERT INTO playlist_filters (id, playlist_id, field, operator, value)
                 VALUES (?1, ?2, ?3, ?4, ?5)");
    let s = "INSERT INTO playlist_filters (id, playlist_id, field, operator, value)
                 VALUES (?1, ?2, ?3, ?4, ?5)"@;
    assert(s.subrange(0, 115) =~= s);
    lemma_count_range_single(s, '?', 0, 96, 97);
    lemma_count_range_single(s, '?', 97, 100, 101);
    lemma_count_range_single(s, '?', 101, 104, 105);
    lemma_count_range_single(s, '?', 105, 108, 109);
    lemma_count_range_single(s, '?', 109, 112, 115);
    lemma_count_range_split(s, '?', 0, 97, 115);
    lemma_count_range_split(s, '?', 97, 101, 115);
    lemma_count_range_split(s, '?', 101, 105, 115);
    lemma_count_range_split(s, '?', 105, 109, 115);
}

/// The statement that records filter `id` of playlist `playlist_id`.
pub fn insert_playlist_filter(id: &str, playlist_id: &str, field: &str, operator: &str, value: &str) -> (r: (&'static str, Vec<String>))
    ensures
        r.0@ == "INSERT INTO playlist_filters (id, playlist_id, field, operator, value)
                 VALUES (?1, ?2, ?3, ?4, ?5)"@,
        strings_view(r.1@) == seq![id@, playlist_id@, field@, operator@, value@],
        count_char(r.0@, '?') == r.1@.len(),
{
    let mut v: Vec<String> = Vec::new();
    push_value(&mut v, id);
    push_value(&mut v, playlist_id);
    push_value(&mut v, field);
    push_value(&mut v, operator);
    push_value(&mut v, value);
    proof {
        lemma_insert_playlist_filter_placeholders();
        assert(strings_view(v@) =~= seq![id@, playlist_id@, field@, operator@, value@]);
    }
    ("INSERT INTO playlist_filters (id, playlist_id, field, operator, value)
                 VALUES (?1, ?2, ?3, ?4, ?5)", v)
}

/// How many `?` the statement `delete_playlist` holds.
proof fn lemma_delete_playlist_placeholders()
    ensures
        count_char("DELETE FROM playlists WHERE id = ?1"@, '?') == 1,
{
    reveal_strlit("DELETE FROM playlists WHERE id = ?1");
    lemma_count_single("DELETE FROM playlists WHERE id = ?1"@, '?', 33);
}

/// The statement that deletes playlist `id`.
pub fn delete_playlist(id: &str) -> (r: (&'static str, Vec<String>))
    ensures
        r.0@ == "DELETE FROM playlists WHERE id = ?1"@,
        strings_view(r.1@) == seq![id@],
        count_char(r.0@, '?') == r.1@.len(),
{
    let mut v: Vec<String> = Vec::new();
    push_value(&mut v, id);
    proof {
        lemma_delete_playlist_placeholders();
        assert(strings_view(v@) =~= seq![id@]);
    }
    ("DELETE FROM playlists WHERE id = ?1", v)
}

/// How many `?` the statement `set_playback_mode` holds.
proof fn lemma_set_playback_mode_placeholders()
    ensures
        count_char("UPDATE playlists SET playback_mode = ?1, updated_at = datetime('now') WHERE id = ?2"@, '?') == 2,
{
    reveal_strlit("UPDATE playlists SET playback_mode = ?1, updated_at = datetime('now') WHERE id = ?2");
    let s = "UPDATE playlists SET playback_mode = ?1, updated_at = datetime('now') WHERE id = ?2"@;
    assert(s.subrange(0, 83) =~= s);
    lemma_count_range_single(s, '?', 0, 37, 38);
    lemma_count_range_single(s, '?', 38, 81, 83);
    lemma_count_range_split(s, '?', 0, 38, 83);
}

/// The statement that sets the playback mode of playlist `playlist_id` to `mode`.
pub fn set_playback_mode(mode: &str, playlist_id: &str) -> (r: (&'static str, Vec<String>))
    ensures
        r.0@ == "UPDATE playlists SET playback_mode = ?1, updated_at = datetime('now') WHERE id = ?2"@,
        r.0@ == set_playback_mode_sql(),
        strings_view(r.1@) == seq![mode@, playlist_id@],
        count_char(r.0@, '?') == r.1@.len(),
{
    let mut v: Vec<String> = Vec::new();
    push_value(&mut v, mode);
    push_value(&mut v, playlist_id);
    proof {
        lemma_set_playback_mode_placeholders();
        assert(strings_view(v@) =~= seq![mode@, playlist_id@]);
    }
    ("UPDATE playlists SET playback_mode = ?1, updated_at = datetime('now') WHERE id = ?2", v)
}

/// How many `?` the statement `playlist_filters` holds.
proof fn lemma_playlist_filters_placeholders()
    ensures
        count_char("SELECT field, operator, value FROM playlist_filters WHERE playlist_id = ?1"@, '?') == 1,
{
    reveal_strlit("SELECT field, operator, value FROM playlist_filters WHERE playlist_id = ?1");
    lemma_count_single("SELECT field, operator, value FROM playlist_filters WHERE playlist_id = ?1"@, '?', 72);
}

/// The statement that lists the filters of playlist `playlist_id`.
pub fn playlist_filters(playlist_id: &str) -> (r: (&'static str, Vec<String>))
    ensures
        r.0@ == "SELECT field, operator, value FROM playlist_filters WHERE playlist_id = ?1"@,
        strings_view(r.1@) == seq![playlist_id@],
        count_char(r.0@, '?') == r.1@.len(),
{
    let mut v: Vec<String> = Vec::new();
    push_value(&mut v, playlist_id);
    proof {
        lemma_playlist_filters_placeholders();
        assert(strings_view(v@) =~= seq![playlist_id@]);
    }
    ("SELECT field, operator, value FROM playlist_filters WHERE playlist_id = ?1", v)
}

/// The statement that looks up the media file with id `id`.
pub fn media_file_by_id(id: &str) -> (r: (String, Vec<String>))
    ensures
        r.0@ == MEDIA_SELECT@ + " AND id = ?1"@,
        strings_view(r.1@) == seq![id@],
        count_char(r.0@, '?') == r.1@.len(),
{
    let mut sql = String::from_str(MEDIA_SELECT);
    sql.append(" AND id = ?1");
    let mut v: Vec<String> = Vec::new();
    push_value(&mut v, id);
    proof {
        lemma_media_by_id_one_placeholder();
        assert(strings_view(v@) =~= seq![id@]);
    }
    (sql, v)
}

} // verus!
