//! The SQL that selects media files: by workspace, name and extension, or by
//! the filter conditions of a playlist. Values never enter the SQL text; each
//! one is bound to a `?` placeholder.
use vstd::prelude::*;
use crate::models::{filter_view, filters_view, PlaylistFilter};
use crate::text::{str_eq, strings_view};

verus! {

/// The columns of a media file row, in the order the row decoder reads them.
pub const MEDIA_SELECT: &'static str =
    "SELECT id, workspace_id, path, filename, extension, size_bytes, duration_secs, width, height, series_name, series_number FROM media_files WHERE 1=1";

/// `"%" + v + "%"`: a `LIKE` pattern matching any text that contains `v`.
pub open spec fn like_contains(v: Seq<char>) -> Seq<char> {
    "%"@ + v + "%"@
}

/// The SQL and parameters that `list_media_files` sends: each given
/// criterion adds one condition and one parameter, in the order workspace,
/// file name (a substring match), extension.
pub open spec fn media_files_query_spec(
    workspace_id: Option<Seq<char>>,
    search: Option<Seq<char>>,
    extension: Option<Seq<char>>,
) -> (Seq<char>, Seq<Seq<char>>) {
    let (s1, p1) = match workspace_id {
        Some(w) => (MEDIA_SELECT@ + " AND workspace_id = ?"@, seq![w]),
        None => (MEDIA_SELECT@, Seq::<Seq<char>>::empty()),
    };
    let (s2, p2) = match search {
        Some(s) => (s1 + " AND filename LIKE ?"@, p1.push(like_contains(s))),
        None => (s1, p1),
    };
    let (s3, p3) = match extension {
        Some(e) => (s2 + " AND extension = ?"@, p2.push(e)),
        None => (s2, p2),
    };
    (s3 + " ORDER BY filename"@, p3)
}

/// A copy of `s` as a `String`.
fn owned(s: &str) -> (r: String)
    ensures
        r@ == s@,
{
    s.to_owned()
}

/// `"%" + v + "%"`.
fn contains_pattern(v: &str) -> (r: String)
    ensures
        r@ == like_contains(v@),
{
    let mut r = String::from_str("%");
    r.append(v);
    r.append("%");
    r
}

/// The SQL and parameters that select the media files in a workspace, whose
/// file name contains a text, and with an extension, each criterion optional,
/// ordered by file name.
pub fn media_files_query(
    workspace_id: Option<&str>,
    search: Option<&str>,
    extension: Option<&str>,
) -> (r: (String, Vec<String>))
    ensures
        (r.0@, strings_view(r.1@)) == media_files_query_spec(
            match workspace_id {
                Some(w) => Some(w@),
                None => None,
            },
            match search {
                Some(s) => Some(s@),
                None => None,
            },
            match extension {
                Some(e) => Some(e@),
                None => None,
            },
        ),
{
    let mut sql = String::from_str(MEDIA_SELECT);
    let mut params: Vec<String> = Vec::new();
    match workspace_id {
        Some(w) => {
            sql.append(" AND workspace_id = ?");
            params.push(owned(w));
        },
        None => {},
    }
    match search {
        Some(s) => {
            sql.append(" AND filename LIKE ?");
            params.push(contains_pattern(s));
        },
        None => {},
    }
    match extension {
        Some(e) => {
            sql.append(" AND extension = ?");
            params.push(owned(e));
        },
        None => {},
    }
    sql.append(" ORDER BY filename");
    assert(strings_view(params@) =~= media_files_query_spec(
        match workspace_id {
            Some(w) => Some(w@),
            None => None,
        },
        match search {
            Some(s) => Some(s@),
            None => None,
        },
        match extension {
            Some(e) => Some(e@),
            None => None,
        },
    ).1);
    (sql, params)
}

/// The column that a filter's field names; `None` for any other field.
pub open spec fn filter_column(field: Seq<char>) -> Option<Seq<char>> {
    if field == "filename"@ {
        Some("filename"@)
    } else if field == "extension"@ {
        Some("extension"@)
    } else if field == "path"@ {
        Some("path"@)
    } else if field == "series_name"@ {
        Some("series_name"@)
    } else if field == "workspace_id"@ {
        Some("workspace_id"@)
    } else {
        None
    }
}

/// The condition and parameter that a filter adds on column `col`; `None`
/// for an unknown operator.
pub open spec fn operator_clause(col: Seq<char>, op: Seq<char>, value: Seq<char>) -> Option<
    (Seq<char>, Seq<char>),
> {
    if op == "contains"@ {
        Some((" AND "@ + col + " LIKE ?"@, like_contains(value)))
    } else if op == "not_contains"@ {
        Some(
            (" AND ("@ + col + " NOT LIKE ? OR "@ + col + " IS NULL)"@, like_contains(value)),
        )
    } else if op == "equals"@ {
        Some((" AND "@ + col + " = ?"@, value))
    } else if op == "starts_with"@ {
        Some((" AND "@ + col + " LIKE ?"@, value + "%"@))
    } else if op == "ends_with"@ {
        Some((" AND "@ + col + " LIKE ?"@, "%"@ + value))
    } else {
        None
    }
}

/// The condition and parameter that a filter adds; `None` (the filter is
/// skipped) for an unknown field or operator.
pub open spec fn filter_clause(f: (Seq<char>, Seq<char>, Seq<char>)) -> Option<
    (Seq<char>, Seq<char>),
> {
    match filter_column(f.0) {
        Some(col) => operator_clause(col, f.1, f.2),
        None => None,
    }
}

/// The conditions and parameters that a list of filters adds, in order.
pub open spec fn filter_clauses(fs: Seq<(Seq<char>, Seq<char>, Seq<char>)>) -> (
    Seq<char>,
    Seq<Seq<char>>,
)
    decreases fs.len(),
{
    if fs.len() == 0 {
        (Seq::<char>::empty(), Seq::<Seq<char>>::empty())
    } else {
        let (s, p) = filter_clauses(fs.drop_last());
        match filter_clause(fs.last()) {
            Some((c, v)) => (s + c, p.push(v)),
            None => (s, p),
        }
    }
}

/// The SQL and parameters that select the media files matching every
/// filter of a playlist, ordered by series name, episode number and file name.
pub open spec fn playlist_query_spec(fs: Seq<(Seq<char>, Seq<char>, Seq<char>)>) -> (
    Seq<char>,
    Seq<Seq<char>>,
) {
    (
        MEDIA_SELECT@ + filter_clauses(fs).0 + " ORDER BY series_name, series_number, filename"@,
        filter_clauses(fs).1,
    )
}

/// The column that `field` names.
fn column_of(field: &str) -> (r: Option<&'static str>)
    ensures
        r matches Some(c) ==> filter_column(field@) == Some(c@),
        r is None ==> filter_column(field@) is None,
{
    if str_eq(field, "filename") {
        Some("filename")
    } else if str_eq(field, "extension") {
        Some("extension")
    } else if str_eq(field, "path") {
        Some("path")
    } else if str_eq(field, "series_name") {
        Some("series_name")
    } else if str_eq(field, "workspace_id") {
        Some("workspace_id")
    } else {
        None
    }
}

/// Appends the condition of filter `f` to `sql` and its parameter to
/// `params`, when the filter is known.
fn push_filter_clause(sql: &mut String, params: &mut Vec<String>, f: &PlaylistFilter)
    ensures
        match filter_clause(filter_view(*f)) {
            Some((c, v)) => final(sql)@ == old(sql)@ + c && strings_view(final(params)@)
                == strings_view(old(params)@).push(v),
            None => final(sql)@ == old(sql)@ && final(params)@ == old(params)@,
        },
{
    let col = match column_of(f.field.as_str()) {
        Some(c) => c,
        None => {
            return ;
        },
    };
    let op = f.operator.as_str();
    let v = f.value.as_str();
    let ghost old_params = params@;
    if str_eq(op, "contains") {
        sql.append(" AND ");
        sql.append(col);
        sql.append(" LIKE ?");
        params.push(contains_pattern(v));
    } else if str_eq(op, "not_contains") {
        sql.append(" AND (");
        sql.append(col);
        sql.append(" NOT LIKE ? OR ");
        sql.append(col);
        sql.append(" IS NULL)");
        params.push(contains_pattern(v));
    } else if str_eq(op, "equals") {
        sql.append(" AND ");
        sql.append(col);
        sql.append(" = ?");
        params.push(owned(v));
    } else if str_eq(op, "starts_with") {
        sql.append(" AND ");
        sql.append(col);
        sql.append(" LIKE ?");
        let mut p = owned(v);
        p.append("%");
        params.push(p);
    } else if str_eq(op, "ends_with") {
        sql.append(" AND ");
        sql.append(col);
        sql.append(" LIKE ?");
        let mut p = String::from_str("%");
        p.append(v);
        params.push(p);
    } else {
        return ;
    }
    assert(strings_view(params@) =~= strings_view(old_params).push(params@.last()@));
}

/// The SQL and parameters that select the media files matching every
/// filter: known fields and operators only, the others skipped.
pub fn playlist_files_query(filters: &[PlaylistFilter]) -> (r: (String, Vec<String>))
    ensures
        (r.0@, strings_view(r.1@)) == playlist_query_spec(filters_view(filters@)),
{
    let mut sql = String::from_str(MEDIA_SELECT);
    let mut params: Vec<String> = Vec::new();
    let ghost fs = filters_view(filters@);
    assert(fs.take(0) =~= Seq::<(Seq<char>, Seq<char>, Seq<char>)>::empty());
    assert(strings_view(params@) =~= Seq::<Seq<char>>::empty());
    for i in 0..filters.len()
        invariant
            fs == filters_view(filters@),
            sql@ == MEDIA_SELECT@ + filter_clauses(fs.take(i as int)).0,
            strings_view(params@) == filter_clauses(fs.take(i as int)).1,
    {
        push_filter_clause(&mut sql, &mut params, &filters[i]);
        assert(fs.take(i + 1).drop_last() =~= fs.take(i as int));
        assert(fs.take(i + 1).last() == filter_view(filters@[i as int]));
    }
    assert(fs.take(filters@.len() as int) =~= fs);
    sql.append(" ORDER BY series_name, series_number, filename");
    (sql, params)
}

// ---------------------------------------------------------------------------
// Laws
// ---------------------------------------------------------------------------

/// The SQL text of a playlist query depends only on the fields and
/// operators of its filters, never on their values: values reach the
/// database only as bound parameters.
pub proof fn law_playlist_sql_ignores_values(
    fs1: Seq<(Seq<char>, Seq<char>, Seq<char>)>,
    fs2: Seq<(Seq<char>, Seq<char>, Seq<char>)>,
)
    requires
        fs1.len() == fs2.len(),
        forall|i: int| 0 <= i < fs1.len() ==> fs1[i].0 == fs2[i].0 && fs1[i].1 == fs2[i].1,
    ensures
        playlist_query_spec(fs1).0 == playlist_query_spec(fs2).0,
        playlist_query_spec(fs1).1.len() == playlist_query_spec(fs2).1.len(),
    decreases fs1.len(),
{
    lemma_clauses_ignore_values(fs1, fs2);
}

proof fn lemma_clauses_ignore_values(
    fs1: Seq<(Seq<char>, Seq<char>, Seq<char>)>,
    fs2: Seq<(Seq<char>, Seq<char>, Seq<char>)>,
)
    requires
        fs1.len() == fs2.len(),
        forall|i: int| 0 <= i < fs1.len() ==> fs1[i].0 == fs2[i].0 && fs1[i].1 == fs2[i].1,
    ensures
        filter_clauses(fs1).0 == filter_clauses(fs2).0,
        filter_clauses(fs1).1.len() == filter_clauses(fs2).1.len(),
    decreases fs1.len(),
{
    if fs1.len() > 0 {
        assert forall|i: int| 0 <= i < fs1.drop_last().len() implies fs1.drop_last()[i].0
            == fs2.drop_last()[i].0 && fs1.drop_last()[i].1 == fs2.drop_last()[i].1 by {
            assert(fs1.drop_last()[i] == fs1[i]);
            assert(fs2.drop_last()[i] == fs2[i]);
        }
        lemma_clauses_ignore_values(fs1.drop_last(), fs2.drop_last());
        assert(fs1.last().0 == fs2.last().0 && fs1.last().1 == fs2.last().1);
    }
}

/// The number of times `c` occurs in `s`.
pub open spec fn count_char(s: Seq<char>, c: char) -> nat
    decreases s.len(),
{
    if s.len() == 0 {
        0
    } else {
        count_char(s.drop_last(), c) + if s.last() == c {
            1nat
        } else {
            0nat
        }
    }
}

proof fn lemma_count_concat(a: Seq<char>, b: Seq<char>, c: char)
    ensures
        count_char(a + b, c) == count_char(a, c) + count_char(b, c),
    decreases b.len(),
{
    if b.len() > 0 {
        assert((a + b).drop_last() =~= a + b.drop_last());
        lemma_count_concat(a, b.drop_last(), c);
    } else {
        assert(a + b =~= a);
    }
}

/// The condition text that filter `f` adds (empty when it adds none).
pub open spec fn clause_text(f: (Seq<char>, Seq<char>, Seq<char>)) -> Seq<char> {
    match filter_clause(f) {
        Some((c, _)) => c,
        None => Seq::empty(),
    }
}

/// A text with no `c` in it counts none.
pub proof fn lemma_count_none(s: Seq<char>, c: char)
    requires
        forall|i: int| 0 <= i < s.len() ==> s[i] != c,
    ensures
        count_char(s, c) == 0,
    decreases s.len(),
{
    if s.len() > 0 {
        lemma_count_none(s.drop_last(), c);
    }
}

/// A text with `c` at index `k` alone counts one.
pub proof fn lemma_count_single(s: Seq<char>, c: char, k: int)
    requires
        0 <= k < s.len(),
        s[k] == c,
        forall|i: int| 0 <= i < s.len() && i != k ==> s[i] != c,
    ensures
        count_char(s, c) == 1,
    decreases s.len(),
{
    if k == s.len() - 1 {
        lemma_count_none(s.drop_last(), c);
    } else {
        lemma_count_single(s.drop_last(), c, k);
    }
}

/// None of the column names holds a `?`.
proof fn lemma_column_has_no_placeholder(field: Seq<char>)
    requires
        filter_column(field) is Some,
    ensures
        count_char(filter_column(field)->0, '?') == 0,
{
    reveal_strlit("filename");
    reveal_strlit("extension");
    reveal_strlit("path");
    reveal_strlit("series_name");
    reveal_strlit("workspace_id");
    lemma_count_none(filter_column(field)->0, '?');
}

/// How many `?` each fixed piece of a condition holds.
proof fn lemma_condition_pieces()
    ensures
        count_char(" AND "@, '?') == 0,
        count_char(" AND ("@, '?') == 0,
        count_char(" IS NULL)"@, '?') == 0,
        count_char(" LIKE ?"@, '?') == 1,
        count_char(" NOT LIKE ? OR "@, '?') == 1,
        count_char(" = ?"@, '?') == 1,
{
    reveal_strlit(" AND ");
    reveal_strlit(" AND (");
    reveal_strlit(" IS NULL)");
    reveal_strlit(" LIKE ?");
    reveal_strlit(" NOT LIKE ? OR ");
    reveal_strlit(" = ?");
    lemma_count_none(" AND "@, '?');
    lemma_count_none(" AND ("@, '?');
    lemma_count_none(" IS NULL)"@, '?');
    lemma_count_single(" LIKE ?"@, '?', 6);
    lemma_count_single(" NOT LIKE ? OR "@, '?', 10);
    lemma_count_single(" = ?"@, '?', 3);
}

proof fn lemma_clause_has_one_placeholder(f: (Seq<char>, Seq<char>, Seq<char>))
    requires
        filter_clause(f) is Some,
    ensures
        count_char(clause_text(f), '?') == 1,
{
    let col = filter_column(f.0)->0;
    lemma_column_has_no_placeholder(f.0);
    lemma_condition_pieces();
    lemma_count_concat(" AND "@, col, '?');
    lemma_count_concat(" AND "@ + col, " LIKE ?"@, '?');
    lemma_count_concat(" AND "@ + col, " = ?"@, '?');
    lemma_count_concat(" AND ("@, col, '?');
    lemma_count_concat(" AND ("@ + col, " NOT LIKE ? OR "@, '?');
    lemma_count_concat(" AND ("@ + col + " NOT LIKE ? OR "@, col, '?');
    lemma_count_concat(" AND ("@ + col + " NOT LIKE ? OR "@ + col, " IS NULL)"@, '?');
}

proof fn lemma_clauses_placeholders(fs: Seq<(Seq<char>, Seq<char>, Seq<char>)>)
    ensures
        count_char(filter_clauses(fs).0, '?') == filter_clauses(fs).1.len(),
    decreases fs.len(),
{
    if fs.len() == 0 {
        assert(count_char(Seq::<char>::empty(), '?') == 0);
    } else {
        lemma_clauses_placeholders(fs.drop_last());
        if filter_clause(fs.last()) is Some {
            lemma_clause_has_one_placeholder(fs.last());
            lemma_count_concat(filter_clauses(fs.drop_last()).0, clause_text(fs.last()), '?');
        }
    }
}

/// The fixed head and tails of both queries hold no `?`.
proof fn lemma_query_frame_has_no_placeholder()
    ensures
        count_char(MEDIA_SELECT@, '?') == 0,
        count_char(" ORDER BY series_name, series_number, filename"@, '?') == 0,
        count_char(" ORDER BY filename"@, '?') == 0,
        count_char(" AND workspace_id = ?"@, '?') == 1,
        count_char(" AND filename LIKE ?"@, '?') == 1,
        count_char(" AND extension = ?"@, '?') == 1,
{
    reveal_strlit(
        "SELECT id, workspace_id, path, filename, extension, size_bytes, duration_secs, width, height, series_name, series_number FROM media_files WHERE 1=1",
    );
    reveal_strlit(" ORDER BY series_name, series_number, filename");
    reveal_strlit(" ORDER BY filename");
    reveal_strlit(" AND workspace_id = ?");
    reveal_strlit(" AND filename LIKE ?");
    reveal_strlit(" AND extension = ?");
    lemma_count_none(MEDIA_SELECT@, '?');
    lemma_count_none(" ORDER BY series_name, series_number, filename"@, '?');
    lemma_count_none(" ORDER BY filename"@, '?');
    lemma_count_single(" AND workspace_id = ?"@, '?', 20);
    lemma_count_single(" AND filename LIKE ?"@, '?', 19);
    lemma_count_single(" AND extension = ?"@, '?', 17);
}

/// Every parameter of a playlist query has its own placeholder: the query
/// text holds exactly as many `?` as there are parameters.
pub proof fn law_one_placeholder_per_parameter(fs: Seq<(Seq<char>, Seq<char>, Seq<char>)>)
    ensures
        count_char(playlist_query_spec(fs).0, '?') == playlist_query_spec(fs).1.len(),
{
    lemma_clauses_placeholders(fs);
    lemma_query_frame_has_no_placeholder();
    lemma_count_concat(MEDIA_SELECT@, filter_clauses(fs).0, '?');
    lemma_count_concat(
        MEDIA_SELECT@ + filter_clauses(fs).0,
        " ORDER BY series_name, series_number, filename"@,
        '?',
    );
}

/// Every parameter of a media file listing has its own placeholder: the
/// query text holds exactly as many `?` as there are parameters.
pub proof fn law_media_query_one_placeholder_per_parameter(
    workspace_id: Option<Seq<char>>,
    search: Option<Seq<char>>,
    extension: Option<Seq<char>>,
)
    ensures
        count_char(media_files_query_spec(workspace_id, search, extension).0, '?')
            == media_files_query_spec(workspace_id, search, extension).1.len(),
{
    lemma_query_frame_has_no_placeholder();
    let s1 = match workspace_id {
        Some(w) => MEDIA_SELECT@ + " AND workspace_id = ?"@,
        None => MEDIA_SELECT@,
    };
    lemma_count_concat(MEDIA_SELECT@, " AND workspace_id = ?"@, '?');
    let s2 = match search {
        Some(s) => s1 + " AND filename LIKE ?"@,
        None => s1,
    };
    lemma_count_concat(s1, " AND filename LIKE ?"@, '?');
    let s3 = match extension {
        Some(e) => s2 + " AND extension = ?"@,
        None => s2,
    };
    lemma_count_concat(s2, " AND extension = ?"@, '?');
    lemma_count_concat(s3, " ORDER BY filename"@, '?');
}

/// The query that selects one media file by id holds a single `?`.
pub proof fn lemma_media_by_id_one_placeholder()
    ensures
        count_char(MEDIA_SELECT@ + " AND id = ?1"@, '?') == 1,
{
    lemma_query_frame_has_no_placeholder();
    reveal_strlit(" AND id = ?1");
    lemma_count_single(" AND id = ?1"@, '?', 10);
    lemma_count_concat(MEDIA_SELECT@, " AND id = ?1"@, '?');
}

/// The `c` of `s[a..b]` are those of `s[a..m]` and those of `s[m..b]`.
pub proof fn lemma_count_range_split(s: Seq<char>, c: char, a: int, m: int, b: int)
    requires
        0 <= a <= m <= b <= s.len(),
    ensures
        count_char(s.subrange(a, b), c) == count_char(s.subrange(a, m), c) + count_char(
            s.subrange(m, b),
            c,
        ),
{
    assert(s.subrange(a, b) =~= s.subrange(a, m) + s.subrange(m, b));
    lemma_count_concat(s.subrange(a, m), s.subrange(m, b), c);
}

/// `s[a..b]` counts one `c` when `k` is its only position that holds `c`.
pub proof fn lemma_count_range_single(s: Seq<char>, c: char, a: int, k: int, b: int)
    requires
        0 <= a <= k < b <= s.len(),
        s[k] == c,
        forall|i: int| a <= i < b && i != k ==> s[i] != c,
    ensures
        count_char(s.subrange(a, b), c) == 1,
{
    let t = s.subrange(a, b);
    assert forall|i: int| 0 <= i < t.len() && i != k - a implies t[i] != c by {
        assert(t[i] == s[a + i]);
    }
    lemma_count_single(t, c, k - a);
}

} // verus!
