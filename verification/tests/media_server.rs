use starplayer::media_server::{
    is_range_header_name, path_refusal,
    mime_from_ext, parse_range, plan_stream, range_would_underflow, stream_mime, stream_path,
    StreamPlan,
};

#[test]
fn mime_types_by_extension() {
    assert_eq!(mime_from_ext("mp4"), "video/mp4");
    assert_eq!(mime_from_ext("m4v"), "video/mp4");
    assert_eq!(mime_from_ext("mkv"), "video/x-matroska");
    assert_eq!(mime_from_ext("mpeg"), "video/mpeg");
    assert_eq!(mime_from_ext("3gp"), "video/3gpp");
    assert_eq!(mime_from_ext("MP4"), "application/octet-stream");
    assert_eq!(mime_from_ext("divx"), "application/octet-stream");
    assert_eq!(stream_mime("/x/Movie.MKV"), "video/x-matroska");
    assert_eq!(stream_mime("/x/noext"), "application/octet-stream");
}

#[test]
fn parse_range_forms() {
    assert_eq!(parse_range("bytes=0-99", 1000), Some((0, 99)));
    assert_eq!(parse_range("bytes=500-", 1000), Some((500, 999)));
    assert_eq!(parse_range("bytes=900-5000", 1000), Some((900, 999)));
    assert_eq!(parse_range("bytes=+5-+6", 1000), Some((5, 6)));
    assert_eq!(parse_range("bytes=10-5", 1000), None);
    assert_eq!(parse_range("bytes=1000-", 1000), None);
    assert_eq!(parse_range("bytes=-5", 1000), None);
    assert_eq!(parse_range("bytes=a-5", 1000), None);
    assert_eq!(parse_range("bytes=1-2-3", 1000), None);
    assert_eq!(parse_range("items=1-2", 1000), None);
    assert_eq!(parse_range("bytes=15", 1000), None);
    assert_eq!(parse_range("bytes=0-5", 0), None);
    assert_eq!(parse_range("bytes=18446744073709551615-", 10), None);
    assert_eq!(parse_range("bytes=18446744073709551616-", 10), None);
}

#[test]
fn range_underflow_guard() {
    assert!(range_would_underflow("bytes=0-", 0));
    assert!(!range_would_underflow("bytes=0-", 1));
    assert!(!range_would_underflow("bytes=0-1", 0));
    assert!(!range_would_underflow("bytes=x-", 0));
}

#[test]
fn plan_stream_partial_and_full() {
    assert_eq!(
        plan_stream(Some("bytes=10-19"), 100),
        StreamPlan::Partial { start: 10, end: 19, length: 10, content_range: "bytes 10-19/100".to_string() }
    );
    assert_eq!(plan_stream(Some("bytes=99-"), 100), StreamPlan::Partial {
        start: 99,
        end: 99,
        length: 1,
        content_range: "bytes 99-99/100".to_string()
    });
    assert_eq!(plan_stream(Some("garbage"), 100), StreamPlan::Full { length: 100 });
    assert_eq!(plan_stream(None, 7), StreamPlan::Full { length: 7 });
}

#[test]
fn stream_path_decodes_percent_escapes() {
    assert_eq!(stream_path("/stream/%2Ftmp%2Fa%20b.mp4"), "/tmp/a b.mp4");
    assert_eq!(stream_path("/stream//tmp/a+b.mp4"), "/tmp/a+b.mp4");
    assert_eq!(stream_path("/stream/%zz%4"), "%zz%4");
    assert_eq!(stream_path("/stream/%C3%A9"), "é");
    assert_eq!(stream_path("/stream/%FF"), "");
    assert_eq!(stream_path("/other/x"), "");
    assert_eq!(stream_path("/stream/"), "");
}

#[test]
fn plain_stream_path_is_passed_through() {
    assert_eq!(stream_path("/stream//srv/Фильмы/ep 1.mkv"), "/srv/Фильмы/ep 1.mkv");
    assert_eq!(stream_path("/stream/relative/x.mp4"), "relative/x.mp4");
}

#[test]
fn range_header_names() {
    assert!(is_range_header_name("Range"));
    assert!(is_range_header_name("range"));
    assert!(!is_range_header_name("RANGE"));
    assert!(!is_range_header_name("Content-Range"));
}

#[test]
fn empty_path_is_refused() {
    assert_eq!(path_refusal(""), Some((400, "Missing path")));
    assert_eq!(path_refusal("/a.mp4"), None);
}
