//! The media index: workspaces, media files and playlists kept in a SQLite
//! database through `rusqlite`.
//!
//! What the database holds is outside the library's view: the calls that
//! reach SQLite are trusted items whose results are stated only as far as
//! every outcome allows. What the library itself decides (the SQL and
//! parameters it sends, and what it makes of the rows that come back) is
//! verified.
use vstd::prelude::*;
use rusqlite::Connection;
use crate::ids::{is_uuid_v4_text, new_id};
use crate::models::{
    copy_filters, filters_view, MediaFile, MediaFileInsert, Playlist, PlaylistFilter, Workspace,
};
use crate::paths::{file_name, join_path, join_spec, law_join_then_file_name};
use crate::statements;
use crate::query::{
    count_char, law_media_query_one_placeholder_per_parameter, law_one_placeholder_per_parameter,
    media_files_query, media_files_query_spec, playlist_files_query,
};
use crate::text::strings_view;

verus! {

#[verifier::external_type_specification]
#[verifier::external_body]
pub struct ExConnection(rusqlite::Connection);

#[verifier::external_type_specification]
#[verifier::external_body]
pub struct ExSqliteError(rusqlite::Error);

/// A failed database operation, with the message SQLite gave.
#[derive(Debug, Clone, PartialEq, Eq)]
pub struct DbError {
    pub message: String,
}

/// `rusqlite::Connection::open`: opens, creating it if needed, the database
/// file at `path` (SQLite reads `:memory:` as a database in memory). Whether it succeeds depends on the file system; nothing
/// is stated of the outcome.
#[verifier::external_body]
fn open_connection(path: &str) -> (r: Result<Connection, rusqlite::Error>) {
    Connection::open(path)
}

/// `rusqlite::Connection::execute_batch`: runs the statements of `sql`.
/// The outcome depends on the database; nothing is stated of it.
#[verifier::external_body]
fn execute_batch(conn: &Connection, sql: &str) -> (r: Result<(), rusqlite::Error>) {
    conn.execute_batch(sql)
}

/// `rusqlite::Connection::execute` with the texts of `params` bound to the
/// placeholders of `sql` in order: the number of rows changed, or the error.
/// The outcome depends on the database; nothing is stated of it. Callers
/// hand it one value for each `?` of `sql`.
#[verifier::external_body]
fn execute_text(conn: &Connection, sql: &str, params: &Vec<String>) -> (r: Result<
    usize,
    rusqlite::Error,
>)
    requires
        count_char(sql@, '?') == params@.len(),
{
    conn.execute(sql, rusqlite::params_from_iter(params.iter()))
}

/// `rusqlite::Connection::execute` with the fields of `f` bound, in order,
/// to `id, workspace_id, path, filename, extension, size_bytes, series_name,
/// series_number`, the eight `?` of `sql`. The outcome depends on the
/// database; nothing is stated.
#[verifier::external_body]
fn execute_media_insert(conn: &Connection, sql: &str, f: &MediaFileInsert) -> (r: Result<
    usize,
    rusqlite::Error,
>)
    requires
        count_char(sql@, '?') == 8,
{
    conn.execute(
        sql,
        (
            &f.id,
            &f.workspace_id,
            &f.path,
            &f.filename,
            &f.extension,
            f.size_bytes,
            &f.series_name,
            f.series_number,
        ),
    )
}

/// `Connection::prepare` and `Statement::query_map` with the texts of
/// `params` bound: every row's first three columns read as text. The rows
/// depend on the database; nothing is stated of them. Callers hand it one
/// value for each `?` of `sql`.
#[verifier::external_body]
fn query_text_triples(conn: &Connection, sql: &str, params: &Vec<String>) -> (r: Result<
    Vec<(String, String, String)>,
    rusqlite::Error,
>)
    requires
        count_char(sql@, '?') == params@.len(),
{
    let mut stmt = conn.prepare(sql)?;
    let rows = stmt.query_map(
        rusqlite::params_from_iter(params.iter()),
        |row| Ok((row.get(0)?, row.get(1)?, row.get(2)?)),
    )?;
    rows.collect()
}

/// `Connection::prepare` and `Statement::query_map` with the texts of
/// `params` bound: every row's first column read as text. The rows depend
/// on the database; nothing is stated of them. Callers hand it one value
/// for each `?` of `sql`.
#[verifier::external_body]
fn query_text_column(conn: &Connection, sql: &str, params: &Vec<String>) -> (r: Result<
    Vec<String>,
    rusqlite::Error,
>)
    requires
        count_char(sql@, '?') == params@.len(),
{
    let mut stmt = conn.prepare(sql)?;
    let rows = stmt.query_map(rusqlite::params_from_iter(params.iter()), |row| row.get(0))?;
    rows.collect()
}

/// `Connection::prepare` and `Statement::query_map` with the texts of
/// `params` bound: every row read as a media file, column by column in the
/// order of `MEDIA_SELECT` (the duration as the bits of its double). The
/// rows depend on the database; nothing is stated of them. Callers hand it
/// one value for each `?` of `sql`.
#[verifier::external_body]
fn query_media_rows(conn: &Connection, sql: &str, params: &Vec<String>) -> (r: Result<
    Vec<MediaFile>,
    rusqlite::Error,
>)
    requires
        count_char(sql@, '?') == params@.len(),
{
    let mut stmt = conn.prepare(sql)?;
    let rows = stmt.query_map(rusqlite::params_from_iter(params.iter()), |row| Ok(MediaFile {
        id: row.get(0)?, workspace_id: row.get(1)?, path: row.get(2)?, filename: row.get(3)?,
        extension: row.get(4)?, size_bytes: row.get(5)?,
        duration_bits: row.get_ref(6)?.as_f64_or_null()?.map(|d| d.to_bits()),
        width: row.get(7)?, height: row.get(8)?, series_name: row.get(9)?,
        series_number: row.get(10)?,
    }))?;
    rows.collect()
}

/// The message of a `rusqlite::Error` (its `Display` text). Nothing is
/// stated of the text.
#[verifier::external_body]
fn db_error(e: rusqlite::Error) -> (r: DbError) {
    DbError { message: e.to_string() }
}

/// The tables and indexes of the index, with the enforcement of their
/// foreign keys (and so the deletes that cascade) switched on.
pub const SCHEMA: &'static str =
    "PRAGMA foreign_keys = ON;
    CREATE TABLE IF NOT EXISTS workspaces (
        id TEXT PRIMARY KEY,
        name TEXT NOT NULL,
        path TEXT NOT NULL UNIQUE,
        created_at TEXT NOT NULL DEFAULT (datetime('now')),
        updated_at TEXT NOT NULL DEFAULT (datetime('now'))
    );
    CREATE TABLE IF NOT EXISTS media_files (
        id TEXT PRIMARY KEY,
        workspace_id TEXT NOT NULL,
        path TEXT NOT NULL UNIQUE,
        filename TEXT NOT NULL,
        extension TEXT NOT NULL,
        size_bytes INTEGER NOT NULL DEFAULT 0,
        duration_secs REAL,
        width INTEGER,
        height INTEGER,
        series_name TEXT,
        series_number INTEGER,
        created_at TEXT NOT NULL DEFAULT (datetime('now')),
        updated_at TEXT NOT NULL DEFAULT (datetime('now')),
        FOREIGN KEY (workspace_id) REFERENCES workspaces(id) ON DELETE CASCADE
    );
    CREATE TABLE IF NOT EXISTS playlists (
        id TEXT PRIMARY KEY,
        name TEXT NOT NULL,
        playback_mode TEXT NOT NULL DEFAULT 'sequential',
        created_at TEXT NOT NULL DEFAULT (datetime('now')),
        updated_at TEXT NOT NULL DEFAULT (datetime('now'))
    );
    CREATE TABLE IF NOT EXISTS playlist_filters (
        id TEXT PRIMARY KEY,
        playlist_id TEXT NOT NULL,
        field TEXT NOT NULL,
        operator TEXT NOT NULL,
        value TEXT NOT NULL,
        FOREIGN KEY (playlist_id) REFERENCES playlists(id) ON DELETE CASCADE
    );
    CREATE INDEX IF NOT EXISTS idx_media_workspace ON media_files(workspace_id);
    CREATE INDEX IF NOT EXISTS idx_media_filename ON media_files(filename);
    CREATE INDEX IF NOT EXISTS idx_media_series ON media_files(series_name, series_number);";

/// The name of the database file inside the application's data directory.
pub const DB_FILE_NAME: &'static str = "starplayer.db";

/// A statement that the index sent to SQLite: its text, the values bound to
/// it, and the answer that came back (`None` when SQLite refused it). Only
/// the functions of this module that send a statement make one, so a value
/// of this type is evidence that its statement was sent with its values.
pub struct Sent<V, T> {
    sql: Ghost<Seq<char>>,
    values: Ghost<V>,
    answer: Ghost<Option<T>>,
}

impl<V, T> Sent<V, T> {
    /// The text of the statement.
    pub closed spec fn sql(&self) -> Seq<char> {
        self.sql@
    }

    /// The values bound to its placeholders.
    pub closed spec fn values(&self) -> V {
        self.values@
    }

    /// What SQLite answered: `None` when it refused the statement.
    pub closed spec fn answer(&self) -> Option<T> {
        self.answer@
    }
}

/// Whether `r` is what a call that sent `s` returned: the answer on success,
/// an error when SQLite refused.
pub open spec fn reports<V, T>(s: Sent<V, T>, r: Result<T, DbError>) -> bool {
    match r {
        Ok(v) => s.answer() == Some(v),
        Err(_) => s.answer() is None,
    }
}

/// Whether `r` is what a call that sent `s` and dropped its answer
/// returned: success exactly when SQLite answered.
pub open spec fn reports_done<V, T>(s: Sent<V, T>, r: Result<(), DbError>) -> bool {
    r is Ok <==> s.answer() is Some
}

/// The statement texts with their values, as the spec of the queries and
/// statements of `statements` give them.
pub type TextSent<T> = Sent<Seq<Seq<char>>, T>;

/// The view of an optional text.
pub open spec fn opt_view(o: Option<&str>) -> Option<Seq<char>> {
    match o {
        Some(s) => Some(s@),
        None => None,
    }
}

/// The media index.
pub struct Database {
    conn: Connection,
}

/// A workspace from its `(id, name, path)` row.
fn workspace_of_row(row: (String, String, String)) -> (w: Workspace)
    ensures
        w.id@ == row.0@,
        w.name@ == row.1@,
        w.path@ == row.2@,
{
    let (id, name, path) = row;
    Workspace { id, name, path }
}

/// A filter from its `(field, operator, value)` row.
fn filter_of_row(row: (String, String, String)) -> (f: PlaylistFilter)
    ensures
        f.field@ == row.0@,
        f.operator@ == row.1@,
        f.value@ == row.2@,
{
    let (field, operator, value) = row;
    PlaylistFilter { field, operator, value }
}

/// The workspaces that `(id, name, path)` rows describe, in row order.
pub fn workspaces_from_rows(rows: Vec<(String, String, String)>) -> (r: Vec<Workspace>)
    ensures
        r@.len() == rows@.len(),
        forall|i: int|
            0 <= i < rows@.len() ==> {
                &&& (#[trigger] r@[i]).id@ == rows@[i].0@
                &&& r@[i].name@ == rows@[i].1@
                &&& r@[i].path@ == rows@[i].2@
            },
{
    let ghost all = rows@;
    let mut out: Vec<Workspace> = Vec::new();
    let mut rows = rows;
    while rows.len() > 0
        invariant
            out@.len() + rows@.len() == all.len(),
            rows@ == all.skip(out@.len() as int),
            forall|i: int|
                0 <= i < out@.len() ==> {
                    &&& (#[trigger] out@[i]).id@ == all[i].0@
                    &&& out@[i].name@ == all[i].1@
                    &&& out@[i].path@ == all[i].2@
                },
        decreases rows@.len(),
    {
        let ghost k = out@.len() as int;
        let row = rows.remove(0);
        assert(row == all[k]);
        out.push(workspace_of_row(row));
        assert(rows@ =~= all.skip(k + 1));
    }
    out
}

/// The filters that `(field, operator, value)` rows describe, in row order.
pub fn filters_from_rows(rows: Vec<(String, String, String)>) -> (r: Vec<PlaylistFilter>)
    ensures
        r@.len() == rows@.len(),
        forall|i: int|
            0 <= i < rows@.len() ==> {
                &&& (#[trigger] r@[i]).field@ == rows@[i].0@
                &&& r@[i].operator@ == rows@[i].1@
                &&& r@[i].value@ == rows@[i].2@
            },
{
    let ghost all = rows@;
    let mut out: Vec<PlaylistFilter> = Vec::new();
    let mut rows = rows;
    while rows.len() > 0
        invariant
            out@.len() + rows@.len() == all.len(),
            rows@ == all.skip(out@.len() as int),
            forall|i: int|
                0 <= i < out@.len() ==> {
                    &&& (#[trigger] out@[i]).field@ == all[i].0@
                    &&& out@[i].operator@ == all[i].1@
                    &&& out@[i].value@ == all[i].2@
                },
        decreases rows@.len(),
    {
        let ghost k = out@.len() as int;
        let row = rows.remove(0);
        assert(row == all[k]);
        out.push(filter_of_row(row));
        assert(rows@ =~= all.skip(k + 1));
    }
    out
}

/// The first of `rows`, if there is one.
pub fn first_row<T>(rows: Vec<T>) -> (r: Option<T>)
    ensures
        rows@.len() == 0 ==> r is None,
        rows@.len() > 0 ==> r == Some(rows@[0]),
{
    if rows.len() > 0 {
        let mut rows = rows;
        Some(rows.swap_remove(0))
    } else {
        None
    }
}

/// The workspace that registering directory `existing.path` again under
/// `name` gives back: the same id and path, the name given; and whether the
/// stored name has to change.
pub fn reregistered_workspace(existing: Workspace, name: &str) -> (r: (Workspace, bool))
    ensures
        r.0.id@ == existing.id@,
        r.0.path@ == existing.path@,
        r.0.name@ == name@,
        r.1 == (existing.name@ != name@),
{
    if crate::text::str_eq(existing.name.as_str(), name) {
        (existing, false)
    } else {
        (Workspace { id: existing.id, name: name.to_owned(), path: existing.path }, true)
    }
}

/// The workspace that registering the new directory `path` under `name`
/// records, with the identifier `id`.
pub fn new_workspace(id: String, name: &str, path: &str) -> (w: Workspace)
    ensures
        w.id@ == id@,
        w.name@ == name@,
        w.path@ == path@,
{
    Workspace { id, name: name.to_owned(), path: path.to_owned() }
}

/// The playlist that the `(id, name, playback_mode)` row `head` and its
/// filters describe.
pub fn playlist_of(head: (String, String, String), filters: Vec<PlaylistFilter>) -> (p: Playlist)
    ensures
        p.id@ == head.0@,
        p.name@ == head.1@,
        p.playback_mode@ == head.2@,
        p.filters@ == filters@,
{
    let (id, name, playback_mode) = head;
    Playlist { id, name, playback_mode, filters }
}

impl Database {
    /// The path of the database file for the data directory `app_dir`.
    pub open spec fn db_path_spec(app_dir: Seq<char>) -> Seq<char> {
        join_spec(app_dir, DB_FILE_NAME@)
    }

    /// Whatever the data directory, the index lives in a file named
    /// [`DB_FILE_NAME`] inside it.
    pub proof fn law_database_file_in_app_dir(app_dir: Seq<char>)
        ensures
            file_name(Self::db_path_spec(app_dir)) == Some(DB_FILE_NAME@),
    {
        reveal_strlit("starplayer.db");
        let n = DB_FILE_NAME@;
        assert(!n.contains('/')) by {
            if n.contains('/') {
                let k = choose|k: int| 0 <= k < n.len() && n[k] == '/';
            }
        }
        law_join_then_file_name(app_dir, n);
    }

    /// Opens (creating if needed) the index in the existing directory
    /// `app_dir`, in the file [`DB_FILE_NAME`], and makes sure its tables
    /// exist.
    pub fn new(app_dir: &str) -> (r: Result<Database, DbError>) {
        let db_path = join_path(app_dir, DB_FILE_NAME);
        Self::open(db_path.as_str())
    }

    /// Opens (creating if needed) the index in the database file `db_path`
    /// (`:memory:` for one that lives in memory only), and makes sure its
    /// tables exist.
    pub fn open(db_path: &str) -> (r: Result<Database, DbError>) {
        let conn = match open_connection(db_path) {
            Ok(c) => c,
            Err(e) => {
                return Err(db_error(e));
            },
        };
        let db = Database { conn };
        match db.initialize() {
            Ok(()) => Ok(db),
            Err(e) => Err(e),
        }
    }

    fn initialize(&self) -> (r: Result<(), DbError>) {
        match execute_batch(&self.conn, SCHEMA) {
            Ok(()) => Ok(()),
            Err(e) => Err(db_error(e)),
        }
    }

    /// The connection this index holds.
    pub closed spec fn connection(&self) -> Connection {
        self.conn
    }

    /// The connection to the database.
    pub fn conn(&self) -> (r: &Connection)
        ensures
            *r == self.connection(),
    {
        &self.conn
    }

    /// Runs `sql` with text parameters, mapping the error.
    fn execute(&self, sql: &str, params: &Vec<String>) -> (r: Result<usize, DbError>)
        requires
            count_char(sql@, '?') == params@.len(),
    {
        match execute_text(&self.conn, sql, params) {
            Ok(n) => Ok(n),
            Err(e) => Err(db_error(e)),
        }
    }

    /// Sends `sql` with the text values `values`, and the evidence of it.
    fn send_text(&self, sql: &str, values: &Vec<String>) -> (r: (
        Result<usize, DbError>,
        TextSent<usize>,
    ))
        requires
            count_char(sql@, '?') == values@.len(),
        ensures
            r.1.sql() == sql@,
            r.1.values() == strings_view(values@),
            reports(r.1, r.0),
    {
        match execute_text(&self.conn, sql, values) {
            Ok(n) => (
                Ok(n),
                Sent { sql: Ghost(sql@), values: Ghost(strings_view(values@)), answer: Ghost(Some(n)) },
            ),
            Err(e) => (
                Err(db_error(e)),
                Sent { sql: Ghost(sql@), values: Ghost(strings_view(values@)), answer: Ghost(None) },
            ),
        }
    }

    /// Sends the query `sql` for one text column, and the evidence of it.
    fn send_text_column(&self, sql: &str, values: &Vec<String>) -> (r: (
        Result<Vec<String>, DbError>,
        TextSent<Vec<String>>,
    ))
        requires
            count_char(sql@, '?') == values@.len(),
        ensures
            r.1.sql() == sql@,
            r.1.values() == strings_view(values@),
            reports(r.1, r.0),
    {
        match query_text_column(&self.conn, sql, values) {
            Ok(rows) => {
                let ghost answer = rows;
                (
                    Ok(rows),
                    Sent {
                        sql: Ghost(sql@),
                        values: Ghost(strings_view(values@)),
                        answer: Ghost(Some(answer)),
                    },
                )
            },
            Err(e) => (
                Err(db_error(e)),
                Sent { sql: Ghost(sql@), values: Ghost(strings_view(values@)), answer: Ghost(None) },
            ),
        }
    }

    /// Sends the media query `sql`, and the evidence of it.
    fn send_media_query(&self, sql: &str, values: &Vec<String>) -> (r: (
        Result<Vec<MediaFile>, DbError>,
        TextSent<Vec<MediaFile>>,
    ))
        requires
            count_char(sql@, '?') == values@.len(),
        ensures
            r.1.sql() == sql@,
            r.1.values() == strings_view(values@),
            reports(r.1, r.0),
    {
        match query_media_rows(&self.conn, sql, values) {
            Ok(rows) => {
                let ghost answer = rows;
                (
                    Ok(rows),
                    Sent {
                        sql: Ghost(sql@),
                        values: Ghost(strings_view(values@)),
                        answer: Ghost(Some(answer)),
                    },
                )
            },
            Err(e) => (
                Err(db_error(e)),
                Sent { sql: Ghost(sql@), values: Ghost(strings_view(values@)), answer: Ghost(None) },
            ),
        }
    }

    // === Workspace operations ===

    /// Registers the directory `path` under `name`. A directory already
    /// registered keeps its id and takes the new name.
    pub fn add_workspace(&self, name: &str, path: &str) -> (r: Result<Workspace, DbError>)
        ensures
            r matches Ok(ws) ==> ws.name@ == name@,
    {
        let existing: Option<(String, String, String)> = match {
            let (sql, values) = statements::find_workspace_by_path(path);
            query_text_triples(&self.conn, sql, &values)
        } {
            Ok(rows) => first_row(rows),
            Err(_) => None,
        };
        if let Some(row) = existing {
            let (ws, renamed) = reregistered_workspace(workspace_of_row(row), name);
            if renamed {
                let (sql, values) = statements::rename_workspace(name, ws.id.as_str());
                self.execute(sql, &values)?;
            }
            return Ok(ws);
        }
        let ws = new_workspace(new_id(), name, path);
        let (sql, values) = statements::insert_workspace(ws.id.as_str(), name, path);
        self.execute(sql, &values)?;
        Ok(ws)
    }

    /// All workspaces, ordered by name.
    pub fn list_workspaces(&self) -> (r: Result<Vec<Workspace>, DbError>) {
        let rows = match {
            let (sql, values) = statements::list_workspaces();
            query_text_triples(&self.conn, sql, &values)
        } {
            Ok(rows) => rows,
            Err(e) => {
                return Err(db_error(e));
            },
        };
        let out = workspaces_from_rows(rows);
        Ok(out)
    }

    /// Forgets the workspace `id`.
    pub fn remove_workspace(&self, id: &str) -> (r: Result<(), DbError>) {
        let (sql, values) = statements::delete_workspace(id);
        self.execute(sql, &values)?;
        Ok(())
    }

    // === Media file operations ===

    /// Records `file`, or, when its path is already known, updates its file
    /// name, size and series.
    pub fn upsert_media_file(&self, file: &MediaFileInsert) -> (r: Result<(), DbError>)
        ensures
            exists|s: Sent<MediaFileInsert, usize>|
                {
                    &&& s.sql() == statements::upsert_media_file_sql()
                    &&& s.values() == *file
                    &&& reports_done(s, r)
                },
    {
        let sql = statements::upsert_media_file();
        match execute_media_insert(&self.conn, sql, file) {
            Ok(n) => {
                let ghost s = Sent::<MediaFileInsert, usize> {
                    sql: Ghost(sql@),
                    values: Ghost(*file),
                    answer: Ghost(Some(n)),
                };
                let r = Ok(());
                assert(s.sql() == statements::upsert_media_file_sql() && s.values() == *file
                    && reports_done(s, r));
                r
            },
            Err(e) => {
                let ghost s = Sent::<MediaFileInsert, usize> {
                    sql: Ghost(sql@),
                    values: Ghost(*file),
                    answer: Ghost(None),
                };
                let r = Err(db_error(e));
                assert(s.sql() == statements::upsert_media_file_sql() && s.values() == *file
                    && reports_done(s, r));
                r
            },
        }
    }

    /// The media files in a workspace, whose file name contains `search`, and
    /// with extension `extension` (each criterion optional), by file name.
    /// The query sent is [`media_files_query`]'s.
    pub fn list_media_files(
        &self,
        workspace_id: Option<&str>,
        search: Option<&str>,
        extension: Option<&str>,
    ) -> (r: Result<Vec<MediaFile>, DbError>)
        ensures
            exists|s: TextSent<Vec<MediaFile>>|
                {
                    &&& (s.sql(), s.values()) == media_files_query_spec(
                        opt_view(workspace_id),
                        opt_view(search),
                        opt_view(extension),
                    )
                    &&& reports(s, r)
                },
    {
        let (sql, params) = media_files_query(workspace_id, search, extension);
        proof {
            law_media_query_one_placeholder_per_parameter(
                match workspace_id {
                    Some(w) => Some(w@),
                    None => None,
                },
                match search {
                    Some(s) => Some(s@),
                    None => None,
                },
                match extension {
                    Some(e) => Some(e@),
                    None => None,
                },
            );
        }
        let (r, sent) = self.send_media_query(sql.as_str(), &params);
        r
    }

    /// Query media files matching a playlist's filter conditions. The query
    /// sent is [`playlist_files_query`]'s for the playlist's filters.
    pub fn query_playlist_files(&self, playlist_id: &str) -> (r: Result<Vec<MediaFile>, DbError>) {
        let filters = self.get_playlist_filters(playlist_id)?;
        let (sql, params) = playlist_files_query(filters.as_slice());
        proof {
            law_one_placeholder_per_parameter(filters_view(filters@));
        }
        match query_media_rows(&self.conn, sql.as_str(), &params) {
            Ok(rows) => Ok(rows),
            Err(e) => Err(db_error(e)),
        }
    }

    /// Deletes the media file recorded at `path`: the number of rows removed.
    pub fn remove_media_file_by_path(&self, path: &str) -> (r: Result<usize, DbError>)
        ensures
            exists|s: TextSent<usize>|
                {
                    &&& s.sql() == statements::delete_media_file_by_path_sql()
                    &&& s.values() == seq![path@]
                    &&& reports(s, r)
                },
    {
        let (sql, values) = statements::delete_media_file_by_path(path);
        let (r, sent) = self.send_text(sql, &values);
        r
    }

    /// The paths of the media files recorded for a workspace.
    pub fn list_workspace_media_paths(&self, workspace_id: &str) -> (r: Result<
        Vec<String>,
        DbError,
    >)
        ensures
            exists|s: TextSent<Vec<String>>|
                {
                    &&& s.sql() == statements::workspace_media_paths_sql()
                    &&& s.values() == seq![workspace_id@]
                    &&& reports(s, r)
                },
    {
        let (sql, values) = statements::workspace_media_paths(workspace_id);
        let (r, sent) = self.send_text_column(sql, &values);
        r
    }

    /// The media file with id `id`, if recorded.
    pub fn get_media_file(&self, id: &str) -> (r: Result<Option<MediaFile>, DbError>) {
        let (sql, values) = statements::media_file_by_id(id);
        match query_media_rows(&self.conn, sql.as_str(), &values) {
            Ok(rows) => Ok(first_row(rows)),
            Err(e) => Err(db_error(e)),
        }
    }

    // === Playlist operations ===

    /// Creates a playlist named `name` with `filters`, in sequential mode.
    pub fn create_playlist(&self, name: &str, filters: &[PlaylistFilter]) -> (r: Result<
        Playlist,
        DbError,
    >)
        ensures
            r matches Ok(p) ==> {
                &&& is_uuid_v4_text(p.id@)
                &&& p.name@ == name@
                &&& p.playback_mode@ == "sequential"@
                &&& filters_view(p.filters@) == filters_view(filters@)
            },
    {
        let id = new_id();
        let (sql, values) = statements::insert_playlist(id.as_str(), name);
        self.execute(sql, &values)?;
        Self::insert_filters(&self.conn, id.as_str(), filters)?;
        Ok(
            Playlist {
                id,
                name: name.to_owned(),
                playback_mode: String::from_str("sequential"),
                filters: copy_filters(filters),
            },
        )
    }

    /// All playlists with their filters, ordered by name.
    pub fn list_playlists(&self) -> (r: Result<Vec<Playlist>, DbError>) {
        let heads = match {
            let (sql, values) = statements::list_playlists();
            query_text_triples(&self.conn, sql, &values)
        } {
            Ok(rows) => rows,
            Err(e) => {
                return Err(db_error(e));
            },
        };
        let mut result: Vec<Playlist> = Vec::new();
        let mut heads = heads;
        while heads.len() > 0
            decreases heads@.len(),
        {
            let head = heads.remove(0);
            let filters = self.get_playlist_filters(head.0.as_str())?;
            result.push(playlist_of(head, filters));
        }
        Ok(result)
    }

    /// Renames playlist `id` and replaces its filters with `filters`.
    pub fn update_playlist(&self, id: &str, name: &str, filters: &[PlaylistFilter]) -> (r: Result<
        (),
        DbError,
    >) {
        let (sql, values) = statements::rename_playlist(name, id);
        self.execute(sql, &values)?;
        let (sql, values) = statements::delete_playlist_filters(id);
        self.execute(sql, &values)?;
        Self::insert_filters(&self.conn, id, filters)?;
        Ok(())
    }

    /// Records `filters` for playlist `playlist_id`, each under a fresh id,
    /// stopping at the first failure.
    fn insert_filters(conn: &Connection, playlist_id: &str, filters: &[PlaylistFilter]) -> (r:
        Result<(), DbError>)
        ensures
            filters@.len() == 0 ==> r is Ok,
    {
        for i in 0..filters.len() {
            let f = &filters[i];
            let (sql, values) = statements::insert_playlist_filter(
                new_id().as_str(),
                playlist_id,
                f.field.as_str(),
                f.operator.as_str(),
                f.value.as_str(),
            );
            match execute_text(
                conn,
                sql,
                &values,
            ) {
                Ok(_) => {},
                Err(e) => {
                    return Err(db_error(e));
                },
            }
        }
        Ok(())
    }

    /// Deletes playlist `id`.
    pub fn delete_playlist(&self, id: &str) -> (r: Result<(), DbError>) {
        let (sql, values) = statements::delete_playlist(id);
        self.execute(sql, &values)?;
        Ok(())
    }

    /// Sets the playback mode of playlist `playlist_id`.
    pub fn set_playback_mode(&self, playlist_id: &str, mode: &str) -> (r: Result<(), DbError>)
        ensures
            exists|s: TextSent<usize>|
                {
                    &&& s.sql() == statements::set_playback_mode_sql()
                    &&& s.values() == seq![mode@, playlist_id@]
                    &&& reports_done(s, r)
                },
    {
        let (sql, values) = statements::set_playback_mode(mode, playlist_id);
        let (r, sent) = self.send_text(sql, &values);
        match r {
            Ok(_) => Ok(()),
            Err(e) => Err(e),
        }
    }

    /// The filters of playlist `playlist_id`.
    fn get_playlist_filters(&self, playlist_id: &str) -> (r: Result<Vec<PlaylistFilter>, DbError>) {
        let rows = match {
            let (sql, values) = statements::playlist_filters(playlist_id);
            query_text_triples(&self.conn, sql, &values)
        } {
            Ok(rows) => rows,
            Err(e) => {
                return Err(db_error(e));
            },
        };
        let out = filters_from_rows(rows);
        Ok(out)
    }
}

} // verus!
