use starplayer::series::{extract_series_info, regex_lite_find};

#[test]
fn test_extract_series_dash_number() {
    let (name, num) = extract_series_info("My Series - 01.mp4");
    assert_eq!(name.as_deref(), Some("My Series"));
    assert_eq!(num, Some(1));
}

#[test]
fn test_extract_series_s_e_pattern() {
    let (name, num) = extract_series_info("ShowName S01E05.mkv");
    assert_eq!(name.as_deref(), Some("ShowName"));
    assert_eq!(num, Some(5));
}

#[test]
fn test_extract_series_ep_pattern() {
    let (name, num) = extract_series_info("Anime EP12.mp4");
    assert_eq!(name.as_deref(), Some("Anime"));
    assert_eq!(num, Some(12));
}

#[test]
fn test_extract_series_hash_pattern() {
    let (name, num) = extract_series_info("Series #03.mp4");
    assert_eq!(name.as_deref(), Some("Series"));
    assert_eq!(num, Some(3));
}

#[test]
fn test_extract_no_series() {
    let (name, num) = extract_series_info("random_video.mp4");
    assert_eq!(name, None);
    assert_eq!(num, None);
}

#[test]
fn dash_form_uses_last_separator_and_trims() {
    let (name, num) = extract_series_info("A - B -  007 .mkv");
    assert_eq!(name.as_deref(), Some("A - B"));
    assert_eq!(num, Some(7));
}

#[test]
fn dash_form_accepts_sign_and_empty_name() {
    assert_eq!(extract_series_info(" - -3.mp4"), (Some(String::new()), Some(-3)));
    assert_eq!(extract_series_info("Show - +4.mp4"), (Some("Show".to_string()), Some(4)));
}

#[test]
fn dash_form_out_of_range_falls_through() {
    // 2147483648 does not fit an i32; no other marker is present.
    assert_eq!(extract_series_info("Show - 2147483648.mp4"), (None, None));
    assert_eq!(
        extract_series_info("Show - 2147483647.mp4"),
        (Some("Show".to_string()), Some(2147483647))
    );
}

#[test]
fn extension_is_stripped_at_last_dot_only() {
    assert_eq!(
        extract_series_info("Show.Name - 02.final.mp4"),
        (None, None)
    );
    assert_eq!(
        extract_series_info("Show.Name - 02.mp4"),
        (Some("Show.Name".to_string()), Some(2))
    );
    assert_eq!(extract_series_info("Show - 09"), (Some("Show".to_string()), Some(9)));
}

#[test]
fn season_episode_skips_false_starts_and_trims_marks() {
    assert_eq!(
        extract_series_info("Some Show_-_s2e10.mkv"),
        (Some("Some Show".to_string()), Some(10))
    );
}

#[test]
fn marker_without_name_tries_next_pattern() {
    // S01E02 has no name before it; the EP marker has one.
    assert_eq!(
        extract_series_info("S01E02 foo EP3.mp4"),
        (Some("S01E02 foo".to_string()), Some(3))
    );
    assert_eq!(extract_series_info("#5.mp4"), (None, None));
}

#[test]
fn marker_name_keeps_inner_whitespace_before_marks() {
    assert_eq!(
        extract_series_info("Show\t- S01E02.mp4"),
        (Some("Show\t".to_string()), Some(2))
    );
}

#[test]
fn non_ascii_names_are_kept() {
    assert_eq!(
        extract_series_info("Été à Paris EP4.mp4"),
        (Some("Été à Paris".to_string()), Some(4))
    );
    assert_eq!(
        extract_series_info("日本 - 12.mkv"),
        (Some("日本".to_string()), Some(12))
    );
}

const SEASON_EPISODE: &str = r"[Ss]\d+[Ee](\d+)";
const EPISODE: &str = r"[Ee][Pp](\d+)";
const HASH: &str = r"#(\d+)";

#[test]
fn regex_lite_find_reports_first_marker() {
    assert_eq!(regex_lite_find("ShowName S01E05", SEASON_EPISODE), Some((9, 5)));
    assert_eq!(regex_lite_find("Anime ep07", EPISODE), Some((6, 7)));
    assert_eq!(regex_lite_find("a #1 #2", HASH), Some((2, 1)));
    assert_eq!(regex_lite_find("no markers", HASH), None);
    assert_eq!(regex_lite_find("S E1", SEASON_EPISODE), None);
    assert_eq!(regex_lite_find("Sx1E1", SEASON_EPISODE), None);
    // a position counts bytes
    assert_eq!(regex_lite_find("é #3", HASH), Some((3, 3)));
    assert_eq!(regex_lite_find("Сериал S01E02", SEASON_EPISODE), Some((13, 2)));
}

#[test]
fn regex_lite_find_follows_the_pattern_text() {
    // a pattern naming several forms tries them in order
    assert_eq!(regex_lite_find("x #2 EP3", "[Ss][Ee][Ee][Pp]#"), Some((5, 3)));
    assert_eq!(regex_lite_find("x #2", "[Ss][Ee][Ee][Pp]#"), Some((2, 2)));
    // a pattern naming none finds nothing
    assert_eq!(regex_lite_find("S01E02 EP3 #4", r"\d+"), None);
    // the season form needs both letters named
    assert_eq!(regex_lite_find("S01E02", "[Ss]"), None);
}

#[test]
fn regex_lite_find_skips_overflowing_numbers() {
    assert_eq!(regex_lite_find("#99999999999 #4", HASH), Some((13, 4)));
}

#[test]
fn law_dash_form_scenario() {
    // A name without surrounding whitespace and dots, " - ", digits, extension.
    assert_eq!(
        extract_series_info("The Show - 0042.webm"),
        (Some("The Show".to_string()), Some(42))
    );
}

#[test]
fn law_extension_irrelevant_scenario() {
    assert_eq!(extract_series_info("Show EP3.mp4"), extract_series_info("Show EP3.avi"));
    assert_eq!(extract_series_info("Show EP3.x"), extract_series_info("Show EP3."));
}

#[test]
fn marker_forms_after_plain_names() {
    let (name, num) = extract_series_info("Deep Space EP4.avi");
    assert_eq!((name.as_deref(), num), (Some("Deep Space"), Some(4)));
    let (name, num) = extract_series_info("Some Show S12E345.mkv");
    assert_eq!((name.as_deref(), num), (Some("Some Show"), Some(345)));
    let (name, num) = extract_series_info("Diary #0007.mp4");
    assert_eq!((name.as_deref(), num), (Some("Diary"), Some(7)));
    let (name, num) = extract_series_info("Sees it #2147483647.webm");
    assert_eq!((name.as_deref(), num), (Some("Sees it"), Some(i32::MAX)));
}
