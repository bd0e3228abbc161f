//! The records the library keeps and hands out.
use vstd::prelude::*;

verus! {

/// A directory whose video files form part of the library.
#[derive(Debug, Clone, PartialEq, Eq)]
pub struct Workspace {
    pub id: String,
    pub name: String,
    pub path: String,
}

/// A video file in the library, as the index stores it.
#[derive(Debug, Clone, PartialEq, Eq)]
pub struct MediaFile {
    pub id: String,
    pub workspace_id: String,
    pub path: String,
    pub filename: String,
    pub extension: String,
    pub size_bytes: i64,
    /// The duration in seconds, carried as the bit pattern of its IEEE-754
    /// double (the library never computes with it).
    pub duration_bits: Option<u64>,
    pub width: Option<i32>,
    pub height: Option<i32>,
    pub series_name: Option<String>,
    pub series_number: Option<i32>,
}

/// What the scanner records of a video file it finds.
#[derive(Debug, Clone, PartialEq, Eq)]
pub struct MediaFileInsert {
    pub id: String,
    pub workspace_id: String,
    pub path: String,
    pub filename: String,
    pub extension: String,
    pub size_bytes: i64,
    pub series_name: Option<String>,
    pub series_number: Option<i32>,
    /// Seconds since the Unix epoch of the file's last modification.
    pub mtime: Option<i64>,
}

/// A playlist is a named set of filter conditions.
/// When viewed, it dynamically queries media_files matching those filters.
#[derive(Debug, Clone, PartialEq, Eq)]
pub struct Playlist {
    pub id: String,
    pub name: String,
    pub playback_mode: String,
    pub filters: Vec<PlaylistFilter>,
}

/// One condition of a playlist.
#[derive(Debug, Clone, PartialEq, Eq)]
pub struct PlaylistFilter {
    /// "filename", "extension", "path", "series_name", "workspace_id"
    pub field: String,
    /// "contains", "not_contains", "equals", "starts_with", "ends_with"
    pub operator: String,
    pub value: String,
}

/// The outcome of scanning a workspace.
#[derive(Debug, Clone, Copy, PartialEq, Eq)]
pub struct ScanResult {
    pub added: usize,
    pub updated: usize,
    pub removed: usize,
    pub total: usize,
}

/// What the file system reports of a file: its length in bytes and, when
/// known and not before the Unix epoch, the second of its last modification.
#[derive(Debug, Clone, Copy, PartialEq, Eq)]
pub struct FileMeta {
    pub len: u64,
    pub modified_secs: Option<u64>,
}

/// One entry met while walking a workspace directory.
#[derive(Debug, Clone, PartialEq, Eq)]
pub struct FileEntry {
    pub path: String,
    pub is_file: bool,
    /// The file's metadata, when it could be read.
    pub meta: Option<FileMeta>,
}

/// A filter as plain text: field, operator, value.
pub open spec fn filter_view(f: PlaylistFilter) -> (Seq<char>, Seq<char>, Seq<char>) {
    (f.field@, f.operator@, f.value@)
}

/// A list of filters as plain text.
pub open spec fn filters_view(fs: Seq<PlaylistFilter>) -> Seq<(Seq<char>, Seq<char>, Seq<char>)> {
    fs.map_values(|f: PlaylistFilter| filter_view(f))
}

/// A copy of a filter.
pub fn copy_filter(f: &PlaylistFilter) -> (r: PlaylistFilter)
    ensures
        filter_view(r) == filter_view(*f),
{
    PlaylistFilter { field: f.field.clone(), operator: f.operator.clone(), value: f.value.clone() }
}

/// A copy of a list of filters.
pub fn copy_filters(fs: &[PlaylistFilter]) -> (r: Vec<PlaylistFilter>)
    ensures
        filters_view(r@) == filters_view(fs@),
{
    let mut r: Vec<PlaylistFilter> = Vec::new();
    for i in 0..fs.len()
        invariant
            r@.len() == i,
            forall|j: int| 0 <= j < i ==> filter_view(#[trigger] r@[j]) == filter_view(fs@[j]),
    {
        r.push(copy_filter(&fs[i]));
    }
    assert(filters_view(r@) =~= filters_view(fs@));
    r
}

} // verus!
