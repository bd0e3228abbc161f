use starplayer::models::PlaylistFilter;
use starplayer::query::{media_files_query, playlist_files_query, MEDIA_SELECT};

fn filter(field: &str, operator: &str, value: &str) -> PlaylistFilter {
    PlaylistFilter { field: field.to_string(), operator: operator.to_string(), value: value.to_string() }
}

#[test]
fn media_files_query_adds_given_criteria() {
    let (sql, params) = media_files_query(Some("w1"), Some("abc"), Some("mkv"));
    assert_eq!(
        sql,
        format!("{MEDIA_SELECT} AND workspace_id = ? AND filename LIKE ? AND extension = ? ORDER BY filename")
    );
    assert_eq!(params, vec!["w1".to_string(), "%abc%".to_string(), "mkv".to_string()]);
    let (sql, params) = media_files_query(None, None, None);
    assert_eq!(sql, format!("{MEDIA_SELECT} ORDER BY filename"));
    assert!(params.is_empty());
}

#[test]
fn playlist_query_clauses() {
    let (sql, params) = playlist_files_query(&[
        filter("filename", "contains", "a"),
        filter("series_name", "not_contains", "b"),
        filter("path", "equals", "c"),
        filter("extension", "starts_with", "d"),
        filter("workspace_id", "ends_with", "e"),
        filter("size", "equals", "f"),
        filter("path", "like", "g"),
    ]);
    assert_eq!(
        sql,
        format!(
            "{MEDIA_SELECT} AND filename LIKE ? AND (series_name NOT LIKE ? OR series_name IS NULL) AND path = ? AND extension LIKE ? AND workspace_id LIKE ? ORDER BY series_name, series_number, filename"
        )
    );
    assert_eq!(params, vec!["%a%", "%b%", "c", "d%", "%e"]);
}

#[test]
fn law_sql_text_ignores_values_scenario() {
    let (s1, p1) = playlist_files_query(&[filter("filename", "contains", "x' OR 1=1 --")]);
    let (s2, p2) = playlist_files_query(&[filter("filename", "contains", "y")]);
    assert_eq!(s1, s2);
    assert_eq!(p1.len(), p2.len());
    assert_eq!(s1.matches('?').count(), p1.len());
}

#[test]
fn placeholders_match_parameters() {
    let (sql, params) = media_files_query(Some("w"), Some("?x?"), None);
    assert_eq!(sql.matches('?').count(), params.len());
    let (sql, params) = media_files_query(None, None, None);
    assert_eq!(sql.matches('?').count(), 0);
    assert!(params.is_empty());
    let (sql, params) = playlist_files_query(&[
        filter("filename", "not_contains", "?"),
        filter("path", "equals", "??"),
        filter("nope", "equals", "z"),
    ]);
    assert_eq!(sql.matches('?').count(), params.len());
    assert_eq!(params.len(), 2);
}
