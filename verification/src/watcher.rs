//! What a file-system change does to the index: new or changed video files
//! are recorded, and paths that disappeared are deleted together with every
//! recorded file below them.
use vstd::prelude::*;
use crate::db::{reports_done, Database, DbError, Sent};
use crate::models::MediaFileInsert;
use crate::statements;
use crate::models::FileMeta;
use crate::scanner::{build_insert, is_video_file, is_video_path, recorded_mtime, recorded_size};
use crate::paths::main_separator;
use crate::text::{chars_of, slice_equals_str, str_eq, strings_view};

verus! {

/// The name of the event sent to the user interface when the index of a
/// workspace changed.
pub const MEDIA_CHANGED_EVENT: &'static str = "media-files-changed";

/// What the file system showed at a changed path when the change was handled.
#[derive(Debug, Clone, Copy, PartialEq, Eq)]
pub enum PathState {
    /// A regular file, with its metadata when it could be read.
    File(Option<FileMeta>),
    /// Nothing exists at the path any more.
    Missing,
    /// Something other than a regular file (a directory, say).
    Other,
}

/// A path named by a file-system event, and what it held.
#[derive(Debug, Clone, PartialEq, Eq)]
pub struct EventPath {
    pub path: String,
    pub state: PathState,
}

/// The prefix that the paths below `path` start with, for the separator
/// `sep`: `path` itself when it ends with `sep`, otherwise `path` followed
/// by `sep`.
pub open spec fn removal_prefix_spec(path: Seq<char>, sep: char) -> Seq<char> {
    if path.len() > 0 && path.last() == sep {
        path
    } else {
        path.push(sep)
    }
}

/// The prefix of the paths below `path` for the one-character separator
/// `sep` (see [`removal_prefix_spec`]).
pub fn removal_prefix(path: &str, sep: &str) -> (r: String)
    requires
        sep@.len() == 1,
    ensures
        r@ == removal_prefix_spec(path@, sep@[0]),
{
    let v = chars_of(path);
    let s = chars_of(sep);
    if v.len() > 0 && v[v.len() - 1] == s[0] {
        path.to_owned()
    } else {
        let mut r = path.to_owned();
        r.append(sep);
        assert(r@ =~= path@.push(sep@[0]));
        r
    }
}

/// Whether `s` starts with `prefix`.
pub open spec fn starts_with(s: Seq<char>, prefix: Seq<char>) -> bool {
    prefix.len() <= s.len() && s.take(prefix.len() as int) == prefix
}

/// The paths of `known`, in order, that start with `prefix`.
pub open spec fn paths_below_spec(known: Seq<Seq<char>>, prefix: Seq<char>) -> Seq<Seq<char>> {
    known.filter(|p: Seq<char>| starts_with(p, prefix))
}

/// Whether `s` starts with `prefix`.
fn str_starts_with(s: &str, prefix: &str) -> (r: bool)
    ensures
        r == starts_with(s@, prefix@),
{
    let v = chars_of(s);
    let p = chars_of(prefix);
    if p.len() > v.len() {
        return false;
    }
    let r = slice_equals_str(&v, 0, p.len(), prefix);
    assert(v@.subrange(0, p@.len() as int) =~= v@.take(p@.len() as int));
    r
}

/// The paths of `known`, in order, that start with `prefix`.
pub fn paths_below(known: &Vec<String>, prefix: &str) -> (r: Vec<String>)
    ensures
        strings_view(r@) == paths_below_spec(strings_view(known@), prefix@),
{
    let ghost k = strings_view(known@);
    let mut r: Vec<String> = Vec::new();
    assert(k.take(0) =~= Seq::<Seq<char>>::empty());
    assert(strings_view(r@) =~= Seq::<Seq<char>>::empty());
    for i in 0..known.len()
        invariant
            k == strings_view(known@),
            strings_view(r@) == paths_below_spec(k.take(i as int), prefix@),
    {
        assert(k.take(i + 1).drop_last() =~= k.take(i as int));
        assert(k.take(i + 1).last() == known@[i as int]@);
        proof {
            reveal(Seq::filter);
        }
        let ghost before = r@;
        if str_starts_with(known[i].as_str(), prefix) {
            r.push(known[i].clone());
            assert(strings_view(r@) =~= strings_view(before).push(known@[i as int]@));
        }
    }
    assert(k.take(known@.len() as int) =~= k);
    r
}

/// Whether handling the event path `p` may change the index: it is a
/// regular file with a video extension, or it has disappeared.
pub open spec fn may_change_index(p: EventPath) -> bool {
    match p.state {
        PathState::File(_) => is_video_path(p.path@),
        PathState::Missing => true,
        PathState::Other => false,
    }
}

/// What one database call made while handling an event came back with.
#[derive(Debug, PartialEq, Eq)]
pub enum StepOutcome {
    /// The recording of a video file.
    Upserted(Result<(), DbError>),
    /// The deletion of a recorded path, with the number of rows removed.
    Deleted(Result<usize, DbError>),
}

/// Whether the call that came back with `o` changed a row: a recording
/// that succeeded, or a deletion that removed at least one row.
pub open spec fn outcome_changed(o: StepOutcome) -> bool {
    match o {
        StepOutcome::Upserted(r) => r is Ok,
        StepOutcome::Deleted(r) => r matches Ok(n) && n > 0,
    }
}

/// Whether a deletion that came back with `outcome` removed any row.
pub fn removed_any(outcome: &Result<usize, DbError>) -> (r: bool)
    ensures
        r == (outcome matches Ok(n) && n > 0),
{
    match outcome {
        Ok(n) => *n > 0,
        Err(_) => false,
    }
}

/// Whether any of the calls that came back with `outcomes` changed a row.
pub fn any_changed(outcomes: &Vec<StepOutcome>) -> (r: bool)
    ensures
        r == exists|i: int| 0 <= i < outcomes@.len() && outcome_changed(#[trigger] outcomes@[i]),
{
    let mut i: usize = 0;
    while i < outcomes.len()
        invariant
            i <= outcomes@.len(),
            forall|j: int| 0 <= j < i ==> !outcome_changed(#[trigger] outcomes@[j]),
        decreases outcomes@.len() - i,
    {
        let hit = match &outcomes[i] {
            StepOutcome::Upserted(r) => r.is_ok(),
            StepOutcome::Deleted(r) => removed_any(r),
        };
        if hit {
            assert(outcome_changed(outcomes@[i as int]));
            return true;
        }
        i = i + 1;
    }
    false
}

/// Whether event path `p` asks for a record: a regular file with a video
/// extension.
pub open spec fn asks_for_record(p: EventPath) -> bool {
    match p.state {
        PathState::File(_) => is_video_path(p.path@),
        _ => false,
    }
}

/// Whether `ins` is the record that event path `p` of workspace `ws` asks
/// for: that file of that workspace, with the size and modification time of
/// its own metadata.
pub open spec fn records_event(ins: MediaFileInsert, ws: Seq<char>, p: EventPath) -> bool {
    match p.state {
        PathState::File(meta) => {
            &&& ins.workspace_id@ == ws
            &&& ins.path@ == p.path@
            &&& ins.size_bytes == recorded_size(meta)
            &&& ins.mtime == recorded_mtime(meta)
        },
        _ => false,
    }
}

/// Whether one of the recordings `ups` sent is the record event path `p` of
/// workspace `ws` asks for.
pub open spec fn recorded_among(ups: Seq<Sent<MediaFileInsert, usize>>, ws: Seq<char>, p: EventPath) -> bool {
    exists|j: int|
        0 <= j < ups.len() && (#[trigger] ups[j]).sql() == statements::upsert_media_file_sql()
            && records_event(ups[j].values(), ws, p)
}

/// Apply a filesystem event to the database. Returns true if any row changed.
///
/// A video file that is there is recorded (or its record updated); a path
/// that is gone is deleted, and so is every recorded file of the workspace
/// whose path starts with [`removal_prefix`] of it for the platform's
/// separator. The answer is [`any_changed`] of what those calls came back
/// with. What the database answers is outside the contract, which states
/// only that no answer is `true` for an event with no video file and no
/// missing path.
pub fn process_event(paths: &Vec<EventPath>, workspace_id: &str, db: &Database) -> (changed: bool)
    ensures
        changed ==> exists|i: int| 0 <= i < paths@.len() && may_change_index(#[trigger] paths@[i]),
        exists|ups: Seq<Sent<MediaFileInsert, usize>>|
            #![trigger ups.len()]
            forall|i: int|
                0 <= i < paths@.len() && asks_for_record(#[trigger] paths@[i]) ==> recorded_among(
                    ups,
                    workspace_id@,
                    paths@[i],
                ),
{
    let mut outcomes: Vec<StepOutcome> = Vec::new();
    let ghost mut ups: Seq<Sent<MediaFileInsert, usize>> = Seq::empty();
    for i in 0..paths.len()
        invariant
            outcomes@.len() > 0 ==> exists|j: int|
                0 <= j < i && may_change_index(#[trigger] paths@[j]),
            forall|k: int|
                0 <= k < i && asks_for_record(#[trigger] paths@[k]) ==> recorded_among(
                    ups,
                    workspace_id@,
                    paths@[k],
                ),
    {
        let ghost ups_before = ups;
        let p = &paths[i];
        let path_str = p.path.as_str();
        match p.state {
            PathState::File(meta) => {
                if is_video_file(path_str) {
                    match build_insert(workspace_id, path_str, meta) {
                        Some(insert) => {
                            let o = db.upsert_media_file(&insert);
                            proof {
                                let u = choose|s: Sent<MediaFileInsert, usize>|
                                    {
                                        &&& s.sql() == statements::upsert_media_file_sql()
                                        &&& s.values() == insert
                                        &&& reports_done(s, o)
                                    };
                                ups = ups.push(u);
                                assert(ups[ups.len() - 1] == u);
                                assert(recorded_among(ups, workspace_id@, paths@[i as int]));
                            }
                            outcomes.push(StepOutcome::Upserted(o));
                        },
                        None => {},
                    }
                }
            },
            PathState::Missing => {
                outcomes.push(StepOutcome::Deleted(db.remove_media_file_by_path(path_str)));
                let prefix = removal_prefix(path_str, main_separator());
                match db.list_workspace_media_paths(workspace_id) {
                    Ok(known) => {
                        let below = paths_below(&known, prefix.as_str());
                        for j in 0..below.len()
                            invariant
                                may_change_index(paths@[i as int]),
                                outcomes@.len() > 0,
                        {
                            outcomes.push(
                                StepOutcome::Deleted(db.remove_media_file_by_path(below[j].as_str())),
                            );
                        }
                    },
                    Err(_) => {},
                }
            },
            PathState::Other => {},
        }
        assert(outcomes@.len() > 0 ==> exists|j: int|
            0 <= j < i + 1 && may_change_index(#[trigger] paths@[j]));
        assert forall|k: int|
            0 <= k < i + 1 && asks_for_record(#[trigger] paths@[k]) implies recorded_among(
                ups,
                workspace_id@,
                paths@[k],
            ) by {
            if k < i {
                let j = choose|j: int|
                    0 <= j < ups_before.len() && (#[trigger] ups_before[j]).sql()
                        == statements::upsert_media_file_sql() && records_event(
                        ups_before[j].values(),
                        workspace_id@,
                        paths@[k],
                    );
                assert(ups[j] == ups_before[j]);
            }
        }
    }
    assert(forall|i: int|
        0 <= i < paths@.len() && asks_for_record(#[trigger] paths@[i]) ==> recorded_among(
            ups,
            workspace_id@,
            paths@[i],
        ));
    let ghost n = ups.len();
    any_changed(&outcomes)
}

// ---------------------------------------------------------------------------
// Watcher registry
// ---------------------------------------------------------------------------

/// Whether no two entries of `es` share an id.
pub open spec fn unique_ids<W>(es: Seq<(String, W)>) -> bool {
    forall|i: int, j: int|
        0 <= i < es.len() && 0 <= j < es.len() && i != j ==> #[trigger] es[i].0@ != #[trigger] es[j].0@
}

/// Whether some entry of `es` has id `k`.
pub open spec fn has_id<W>(es: Seq<(String, W)>, k: Seq<char>) -> bool {
    exists|i: int| 0 <= i < es.len() && #[trigger] es[i].0@ == k
}

/// The entries of `es` as a map from id to watcher.
pub open spec fn entries_map<W>(es: Seq<(String, W)>) -> Map<Seq<char>, W> {
    Map::new(
        |k: Seq<char>| has_id(es, k),
        |k: Seq<char>| es[choose|i: int| 0 <= i < es.len() && #[trigger] es[i].0@ == k].1,
    )
}

proof fn lemma_entries_map_at<W>(es: Seq<(String, W)>, i: int)
    requires
        unique_ids(es),
        0 <= i < es.len(),
    ensures
        entries_map(es).contains_key(es[i].0@),
        entries_map(es)[es[i].0@] == es[i].1,
{
    let k = es[i].0@;
    assert(has_id(es, k));
    let j = choose|j: int| 0 <= j < es.len() && #[trigger] es[j].0@ == k;
    assert(es[j].0@ == k);
    if j != i {
        assert(es[i].0@ != es[j].0@);
    }
}

proof fn lemma_entries_push<W>(es: Seq<(String, W)>, e: (String, W))
    requires
        unique_ids(es),
        !has_id(es, e.0@),
    ensures
        unique_ids(es.push(e)),
        entries_map(es.push(e)) =~= entries_map(es).insert(e.0@, e.1),
{
    let es2 = es.push(e);
    assert forall|i: int, j: int|
        0 <= i < es2.len() && 0 <= j < es2.len() && i != j implies #[trigger] es2[i].0@
        != #[trigger] es2[j].0@ by {
        if i < es.len() && j < es.len() {
            assert(es2[i] == es[i] && es2[j] == es[j]);
        } else if i < es.len() {
            assert(es2[i] == es[i]);
        } else {
            assert(es2[j] == es[j]);
        }
    }
    assert forall|k: Seq<char>| has_id(es2, k) <==> has_id(es, k) || k == e.0@ by {
        if has_id(es2, k) {
            let i = choose|i: int| 0 <= i < es2.len() && #[trigger] es2[i].0@ == k;
            if i < es.len() {
                assert(es[i] == es2[i]);
            }
        }
        if has_id(es, k) {
            let i = choose|i: int| 0 <= i < es.len() && #[trigger] es[i].0@ == k;
            assert(es2[i] == es[i]);
        }
        if k == e.0@ {
            assert(es2[es.len() as int] == e);
        }
    }
    assert forall|k: Seq<char>| #[trigger] entries_map(es2).contains_key(k) implies entries_map(
        es2,
    )[k] == entries_map(es).insert(e.0@, e.1)[k] by {
        let i = choose|i: int| 0 <= i < es2.len() && #[trigger] es2[i].0@ == k;
        lemma_entries_map_at(es2, i);
        if i < es.len() {
            assert(es2[i] == es[i]);
            lemma_entries_map_at(es, i);
        } else {
            assert(es2[i] == e);
        }
    }
}

proof fn lemma_entries_remove<W>(es: Seq<(String, W)>, r: int)
    requires
        unique_ids(es),
        0 <= r < es.len(),
    ensures
        unique_ids(es.remove(r)),
        !has_id(es.remove(r), es[r].0@),
        entries_map(es.remove(r)) =~= entries_map(es).remove(es[r].0@),
{
    let es2 = es.remove(r);
    let old_index = |i: int| if i < r { i } else { i + 1 };
    assert forall|i: int| 0 <= i < es2.len() implies #[trigger] es2[i] == es[old_index(i)] by {}
    assert forall|i: int, j: int|
        0 <= i < es2.len() && 0 <= j < es2.len() && i != j implies #[trigger] es2[i].0@
        != #[trigger] es2[j].0@ by {
        assert(es2[i] == es[old_index(i)]);
        assert(es2[j] == es[old_index(j)]);
    }
    assert(!has_id(es2, es[r].0@)) by {
        if has_id(es2, es[r].0@) {
            let i = choose|i: int| 0 <= i < es2.len() && #[trigger] es2[i].0@ == es[r].0@;
            assert(es2[i] == es[old_index(i)]);
        }
    }
    assert forall|k: Seq<char>| has_id(es2, k) <==> has_id(es, k) && k != es[r].0@ by {
        if has_id(es2, k) {
            let i = choose|i: int| 0 <= i < es2.len() && #[trigger] es2[i].0@ == k;
            assert(es2[i] == es[old_index(i)]);
        }
        if has_id(es, k) && k != es[r].0@ {
            let i = choose|i: int| 0 <= i < es.len() && #[trigger] es[i].0@ == k;
            let i2 = if i < r { i } else { i - 1 };
            assert(es2[i2] == es[old_index(i2)]);
        }
    }
    assert forall|k: Seq<char>| #[trigger] entries_map(es2).contains_key(k) implies entries_map(
        es2,
    )[k] == entries_map(es).remove(es[r].0@)[k] by {
        let i = choose|i: int| 0 <= i < es2.len() && #[trigger] es2[i].0@ == k;
        lemma_entries_map_at(es2, i);
        assert(es2[i] == es[old_index(i)]);
        lemma_entries_map_at(es, old_index(i));
    }
}

/// The position of the entry with id `workspace_id` in `entries`, if any.
fn position_of<W>(entries: &Vec<(String, W)>, workspace_id: &str) -> (r: Option<usize>)
    ensures
        r matches Some(i) ==> i < entries@.len() && entries@[i as int].0@ == workspace_id@,
        r is None ==> !has_id(entries@, workspace_id@),
{
    let mut i: usize = 0;
    while i < entries.len()
        invariant
            i <= entries@.len(),
            forall|j: int| 0 <= j < i ==> #[trigger] entries@[j].0@ != workspace_id@,
        decreases entries@.len() - i,
    {
        if str_eq(entries[i].0.as_str(), workspace_id) {
            return Some(i);
        }
        i = i + 1;
    }
    None
}

/// The file-system watchers that run, at most one per workspace.
pub struct WatcherRegistry<W> {
    entries: Vec<(String, W)>,
}

impl<W> View for WatcherRegistry<W> {
    type V = Map<Seq<char>, W>;

    closed spec fn view(&self) -> Map<Seq<char>, W> {
        entries_map(self.entries@)
    }
}

impl<W> WatcherRegistry<W> {
    #[verifier::type_invariant]
    closed spec fn ids_unique(self) -> bool {
        unique_ids(self.entries@)
    }

    /// A registry with no watchers.
    pub fn new() -> (r: Self)
        ensures
            r@ == Map::<Seq<char>, W>::empty(),
    {
        let r = WatcherRegistry { entries: Vec::new() };
        assert(r@ =~= Map::<Seq<char>, W>::empty());
        r
    }

    /// Registers `watcher` for workspace `workspace_id`. Any previous watcher
    /// for the same workspace_id is replaced (and dropped, which stops it).
    pub fn insert(&mut self, workspace_id: String, watcher: W)
        ensures
            final(self)@ == old(self)@.insert(workspace_id@, watcher),
    {
        proof {
            use_type_invariant(&*self);
        }
        let mut entries: Vec<(String, W)> = Vec::new();
        std::mem::swap(&mut entries, &mut self.entries);
        let ghost es0 = entries@;
        match position_of(&entries, workspace_id.as_str()) {
            Some(i) => {
                proof {
                    lemma_entries_remove(es0, i as int);
                }
                let _ = entries.remove(i);
            },
            None => {},
        }
        let ghost es1 = entries@;
        proof {
            lemma_entries_push(es1, (workspace_id, watcher));
        }
        entries.push((workspace_id, watcher));
        self.entries = entries;
    }

    /// Stops and forgets the watcher of workspace `workspace_id`, if any.
    pub fn unwatch(&mut self, workspace_id: &str)
        ensures
            final(self)@ == old(self)@.remove(workspace_id@),
    {
        proof {
            use_type_invariant(&*self);
        }
        let mut entries: Vec<(String, W)> = Vec::new();
        std::mem::swap(&mut entries, &mut self.entries);
        let ghost es0 = entries@;
        match position_of(&entries, workspace_id) {
            Some(i) => {
                proof {
                    lemma_entries_remove(es0, i as int);
                }
                let _ = entries.remove(i);
            },
            None => {
                assert(entries_map(es0) =~= entries_map(es0).remove(workspace_id@));
            },
        }
        self.entries = entries;
    }

    /// Whether a watcher runs for workspace `workspace_id`.
    pub fn is_watching(&self, workspace_id: &str) -> (r: bool)
        ensures
            r == self@.contains_key(workspace_id@),
    {
        proof {
            use_type_invariant(self);
        }
        position_of(&self.entries, workspace_id).is_some()
    }
}

impl<W> Default for WatcherRegistry<W> {
    /// A registry with no watchers, as `new` makes.
    fn default() -> (r: Self)
        ensures
            r@ == Map::<Seq<char>, W>::empty(),
    {
        Self::new()
    }
}

} // verus!
