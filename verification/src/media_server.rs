//! The decisions of the local HTTP server that streams video files to the
//! player: which file a request names, its content type, and which bytes
//! of it a `Range` header asks for.
use vstd::prelude::*;
use vstd::utf8::{
    char_is_scalar, char_u32_cast, decode_utf8, encode_scalar, encode_utf8, encode_utf8_decode_utf8,
    encode_utf8_valid_utf8, is_scalar, valid_utf8,
};
use crate::paths::{path_extension, path_extension_spec};
use crate::scanner::{is_video_extension_spec, lowercase, to_lowercase, VIDEO_EXTENSIONS};
use crate::text::{
    chars_of, decimal, decimal_string, find_first_char, first_index_of, lemma_first_index_of,
    parse_u64, parse_u64_slice, slice_equals_str, str_eq, string_of,
};

verus! {

/// The content type served for a file with the (lowercase) extension `ext`.
pub open spec fn mime_spec(ext: Seq<char>) -> Seq<char> {
    if ext == "mp4"@ || ext == "m4v"@ {
        "video/mp4"@
    } else if ext == "mkv"@ {
        "video/x-matroska"@
    } else if ext == "webm"@ {
        "video/webm"@
    } else if ext == "avi"@ {
        "video/x-msvideo"@
    } else if ext == "mov"@ {
        "video/quicktime"@
    } else if ext == "wmv"@ {
        "video/x-ms-wmv"@
    } else if ext == "flv"@ {
        "video/x-flv"@
    } else if ext == "mpg"@ || ext == "mpeg"@ {
        "video/mpeg"@
    } else if ext == "ts"@ {
        "video/mp2t"@
    } else if ext == "ogv"@ {
        "video/ogg"@
    } else if ext == "3gp"@ {
        "video/3gpp"@
    } else {
        "application/octet-stream"@
    }
}

/// The content type served for a file with the (lowercase) extension `ext`.
pub fn mime_from_ext(ext: &str) -> (r: &'static str)
    ensures
        r@ == mime_spec(ext@),
{
    if str_eq(ext, "mp4") || str_eq(ext, "m4v") {
        "video/mp4"
    } else if str_eq(ext, "mkv") {
        "video/x-matroska"
    } else if str_eq(ext, "webm") {
        "video/webm"
    } else if str_eq(ext, "avi") {
        "video/x-msvideo"
    } else if str_eq(ext, "mov") {
        "video/quicktime"
    } else if str_eq(ext, "wmv") {
        "video/x-ms-wmv"
    } else if str_eq(ext, "flv") {
        "video/x-flv"
    } else if str_eq(ext, "mpg") || str_eq(ext, "mpeg") {
        "video/mpeg"
    } else if str_eq(ext, "ts") {
        "video/mp2t"
    } else if str_eq(ext, "ogv") {
        "video/ogg"
    } else if str_eq(ext, "3gp") {
        "video/3gpp"
    } else {
        "application/octet-stream"
    }
}

/// The content type served for the file at `path`: by its extension, in
/// lowercase; a file without an extension is served as
/// `application/octet-stream`.
pub fn stream_mime(path: &str) -> (r: &'static str)
    ensures
        r@ == mime_spec(
            match path_extension_spec(path@) {
                Some(e) => lowercase(e),
                None => lowercase(""@),
            },
        ),
{
    match path_extension(path) {
        Some(e) => mime_from_ext(to_lowercase(e.as_str()).as_str()),
        None => mime_from_ext(to_lowercase("").as_str()),
    }
}

// ---------------------------------------------------------------------------
// Request paths
// ---------------------------------------------------------------------------

/// The value of an ASCII hexadecimal digit byte.
pub open spec fn hex_value(b: u8) -> Option<u8> {
    if 48 <= b <= 57 {
        Some((b - 48) as u8)
    } else if 65 <= b <= 70 {
        Some((b - 55) as u8)
    } else if 97 <= b <= 102 {
        Some((b - 87) as u8)
    } else {
        None
    }
}

/// The bytes that `urlencoding::decode_binary` makes of `b`: each `%`
/// followed by two hexadecimal digits becomes the byte they spell; a `%`
/// not so followed is kept as it is; every other byte is kept.
pub open spec fn percent_decode(b: Seq<u8>) -> Seq<u8>
    decreases b.len(),
{
    if b.len() == 0 {
        b
    } else if b[0] == 37 {
        if b.len() >= 3 {
            match hex_value(b[1]) {
                Some(h) => match hex_value(b[2]) {
                    Some(l) => seq![(h * 16 + l) as u8] + percent_decode(b.skip(3)),
                    None => seq![37u8, b[1]] + percent_decode(b.skip(2)),
                },
                None => seq![37u8] + percent_decode(b.skip(1)),
            }
        } else {
            b
        }
    } else {
        seq![b[0]] + percent_decode(b.skip(1))
    }
}

/// `urlencoding::decode`: the percent-decoded text of `s` when the decoded
/// bytes are valid UTF-8, `None` (its `FromUtf8Error`) when they are not.
#[verifier::external_body]
fn url_decode(s: &str) -> (r: Option<String>)
    ensures
        r matches Some(d) ==> valid_utf8(percent_decode(encode_utf8(s@))) && d@ == decode_utf8(
            percent_decode(encode_utf8(s@)),
        ),
        r is None ==> !valid_utf8(percent_decode(encode_utf8(s@))),
{
    urlencoding::decode(s).ok().map(|d| d.into_owned())
}

/// The prefix of the request paths the server answers.
pub open spec fn stream_prefix() -> Seq<char> {
    "/stream/"@
}

/// The file path that a request for `url` names: the percent-decoded text
/// after `/stream/`; empty when the URL does not start with `/stream/` or
/// does not decode to UTF-8.
pub open spec fn stream_path_spec(url: Seq<char>) -> Seq<char> {
    let encoded = if url.len() >= stream_prefix().len() && url.take(stream_prefix().len() as int)
        == stream_prefix() {
        url.skip(stream_prefix().len() as int)
    } else {
        Seq::<char>::empty()
    };
    let bytes = percent_decode(encode_utf8(encoded));
    if valid_utf8(bytes) {
        decode_utf8(bytes)
    } else {
        Seq::<char>::empty()
    }
}

/// The file path that a request for `url` names (see [`stream_path_spec`]).
pub fn stream_path(url: &str) -> (r: String)
    ensures
        r@ == stream_path_spec(url@),
{
    let v = chars_of(url);
    let prefix = "/stream/";
    proof {
        reveal_strlit("/stream/");
        reveal_strlit("");
    }
    let encoded: String = if v.len() >= 8 && slice_equals_str(&v, 0, 8, prefix) {
        assert(v@.subrange(0, 8) =~= v@.take(8));
        assert(v@.subrange(8, v@.len() as int) =~= v@.skip(8));
        string_of(url, 8, v.len())
    } else {
        assert(!(v@.len() >= 8 && v@.take(8) == stream_prefix())) by {
            if v@.len() >= 8 {
                assert(v@.subrange(0, 8) =~= v@.take(8));
            }
        }
        String::from_str("")
    };
    match url_decode(encoded.as_str()) {
        Some(d) => d,
        None => String::from_str(""),
    }
}

/// The answer a request gets before any file is opened: `400 Missing path`
/// when the path it names is empty; `None` (go on) otherwise.
pub fn path_refusal(path: &str) -> (r: Option<(u16, &'static str)>)
    ensures
        path@.len() == 0 ==> (r matches Some((code, message)) && code == 400 && message@
            == "Missing path"@),
        path@.len() > 0 ==> r is None,
{
    if path.is_empty() {
        Some((400, "Missing path"))
    } else {
        None
    }
}

// ---------------------------------------------------------------------------
// Byte ranges
// ---------------------------------------------------------------------------

/// Whether a request header named `name` is the one that carries the byte
/// range: `Range`, spelled with a capital or a small initial.
pub fn is_range_header_name(name: &str) -> (r: bool)
    ensures
        r == (name@ == "Range"@ || name@ == "range"@),
{
    str_eq(name, "Range") || str_eq(name, "range")
}

/// The two sides of a `Range` header `bytes=<start>-<end>`: the text between
/// `bytes=` and the first `-`, and the text after it.
pub open spec fn range_parts(h: Seq<char>) -> Option<(Seq<char>, Seq<char>)> {
    if h.len() >= 6 && h.take(6) == "bytes="@ {
        let rest = h.skip(6);
        match first_index_of(rest, '-') {
            Some(d) => Some((rest.take(d), rest.skip(d + 1))),
            None => None,
        }
    } else {
        None
    }
}

/// Whether the range parser would compute `total - 1` for an empty file:
/// an open-ended range (`bytes=<start>-`) with a valid start, against a
/// total of 0.
pub open spec fn parse_range_panics(h: Seq<char>, total: u64) -> bool {
    &&& total == 0
    &&& range_parts(h) matches Some((a, b))
    &&& parse_u64(a) is Some
    &&& b.len() == 0
}

/// The inclusive byte range that the header `h` asks for in a file of
/// `total` bytes: a start and an optional end (open-ended ranges run to
/// the last byte), both decimal; `None` when the header is malformed, the
/// start lies past the end or at or beyond the file's end. An end beyond the
/// file is cut back to its last byte.
pub open spec fn parse_range_spec(h: Seq<char>, total: u64) -> Option<(u64, u64)> {
    match range_parts(h) {
        Some((a, b)) => match parse_u64(a) {
            Some(start) => {
                let end_opt: Option<u64> = if b.len() == 0 {
                    Some((total - 1) as u64)
                } else {
                    parse_u64(b)
                };
                match end_opt {
                    Some(end) => if start > end || start >= total {
                        None
                    } else {
                        Some(
                            (
                                start,
                                if end < total - 1 {
                                    end
                                } else {
                                    (total - 1) as u64
                                },
                            ),
                        )
                    },
                    None => None,
                }
            },
            None => None,
        },
        None => None,
    }
}

/// The position of the `-` of a `bytes=` header, counted from the start
/// of the header.
fn range_dash(v: &Vec<char>, h: &str) -> (r: Option<usize>)
    requires
        v@ == h@,
    ensures
        match range_parts(h@) {
            Some((a, b)) => r matches Some(d) && 6 <= d < v@.len() && a == v@.subrange(6, d as int)
                && b == v@.subrange(d + 1, v@.len() as int),
            None => r is None,
        },
{
    proof {
        reveal_strlit("bytes=");
    }
    if v.len() >= 6 && slice_equals_str(v, 0, 6, "bytes=") {
        assert(v@.subrange(0, 6) =~= v@.take(6));
        proof {
            lemma_first_index_of(v@.skip(6), '-');
        }
        match find_first_char(v, 6, '-') {
            Some(i) => {
                assert(v@.skip(6).take(i as int) =~= v@.subrange(6, 6 + i));
                assert(v@.skip(6).skip(i + 1) =~= v@.subrange(6 + i + 1, v@.len() as int));
                Some(6 + i)
            },
            None => None,
        }
    } else {
        assert(!(v@.len() >= 6 && v@.take(6) == "bytes="@)) by {
            if v@.len() >= 6 {
                assert(v@.subrange(0, 6) =~= v@.take(6));
            }
        }
        None
    }
}

/// Whether [`parse_range`] must not be called: an open-ended range with a
/// valid start against an empty file.
pub fn range_would_underflow(header: &str, total: u64) -> (r: bool)
    ensures
        r == parse_range_panics(header@, total),
{
    let v = chars_of(header);
    if total != 0 {
        return false;
    }
    match range_dash(&v, header) {
        Some(d) => {
            assert(range_parts(header@) is Some);
            assert(d < v@.len());
            let rest_starts_at_end = d == v.len() - 1;
            parse_u64_slice(&v, 6, d).is_some() && rest_starts_at_end
        },
        None => false,
    }
}

/// The inclusive byte range that a `Range` header asks for (see
/// [`parse_range_spec`]).
pub fn parse_range(header: &str, total: u64) -> (r: Option<(u64, u64)>)
    requires
        !parse_range_panics(header@, total),
    ensures
        r == parse_range_spec(header@, total),
{
    let v = chars_of(header);
    let d = match range_dash(&v, header) {
        Some(d) => d,
        None => {
            return None;
        },
    };
    let start = match parse_u64_slice(&v, 6, d) {
        Some(s) => s,
        None => {
            return None;
        },
    };
    let end = if d + 1 == v.len() {
        total - 1
    } else {
        match parse_u64_slice(&v, d + 1, v.len()) {
            Some(e) => e,
            None => {
                return None;
            },
        }
    };
    if start > end || start >= total {
        return None;
    }
    Some((start, if end < total - 1 { end } else { total - 1 }))
}

/// How a request for a file of `total` bytes is answered.
#[derive(Debug, Clone, PartialEq, Eq)]
pub enum StreamPlan {
    /// `206 Partial Content`: bytes `start..=end`, `length` of them, with the
    /// `Content-Range` value `content_range`.
    Partial { start: u64, end: u64, length: u64, content_range: String },
    /// `200 OK`: the whole file, `length` bytes.
    Full { length: u64 },
}

/// The `Content-Range` value `bytes <start>-<end>/<total>`.
pub open spec fn content_range_spec(start: u64, end: u64, total: u64) -> Seq<char> {
    "bytes "@ + decimal(start as nat) + "-"@ + decimal(end as nat) + "/"@ + decimal(total as nat)
}

/// How to answer a request for a file of `total` bytes that carries the
/// `Range` header `range_header`, if any: the range it asks for when it
/// parses, the whole file otherwise.
pub fn plan_stream(range_header: Option<&str>, total: u64) -> (r: StreamPlan)
    requires
        range_header matches Some(h) ==> !parse_range_panics(h@, total),
    ensures
        match (
            match range_header {
                Some(h) => parse_range_spec(h@, total),
                None => None,
            }
        ) {
            Some((s, e)) => r matches StreamPlan::Partial { start, end, length, content_range }
                && start == s && end == e && length == e - s + 1 && content_range@
                == content_range_spec(s, e, total),
            None => r == StreamPlan::Full { length: total },
        },
{
    match range_header {
        Some(h) => match parse_range(h, total) {
            Some((start, end)) => {
                let mut cr = String::from_str("bytes ");
                cr.append(decimal_string(start).as_str());
                cr.append("-");
                cr.append(decimal_string(end).as_str());
                cr.append("/");
                cr.append(decimal_string(total).as_str());
                StreamPlan::Partial { start, end, length: end - start + 1, content_range: cr }
            },
            None => StreamPlan::Full { length: total },
        },
        None => StreamPlan::Full { length: total },
    }
}

// ---------------------------------------------------------------------------
// Laws
// ---------------------------------------------------------------------------

/// A range that parses always lies inside the file: its start is at most
/// its end, and its end is a byte of the file.
pub proof fn law_range_within_file(h: Seq<char>, total: u64)
    ensures
        parse_range_spec(h, total) matches Some((s, e)) ==> s <= e < total,
{
}

/// The `Content-Range` of a partial answer names exactly the bytes sent:
/// reading its start and end back with the range grammar's number parser
/// gives the planned start and end.
pub proof fn law_content_range_reads_back(start: u64, end: u64)
    ensures
        parse_u64(decimal(start as nat)) == Some(start),
        parse_u64(decimal(end as nat)) == Some(end),
{
    crate::text::law_decimal_parses_back(start);
    crate::text::law_decimal_parses_back(end);
}

/// No byte of the UTF-8 encoding of a scalar other than `%` is the byte of `%`.
proof fn lemma_scalar_encoding_has_no_percent(v: u32)
    requires
        is_scalar(v),
        v != 37,
    ensures
        forall|i: int| 0 <= i < encode_scalar(v).len() ==> encode_scalar(v)[i] != 37u8,
{
    assert(v <= 0x7F && v != 37 ==> (v & 0x7F) as u8 != 37u8) by (bit_vector);
    assert(0xC0u8 | ((v >> 6) & 0x1F) as u8 != 37u8) by (bit_vector);
    assert(0xE0u8 | ((v >> 12) & 0x0F) as u8 != 37u8) by (bit_vector);
    assert(0xF0u8 | ((v >> 18) & 0x7) as u8 != 37u8) by (bit_vector);
    assert(0x80u8 | (v & 0x3F) as u8 != 37u8) by (bit_vector);
    assert(0x80u8 | ((v >> 6) & 0x3F) as u8 != 37u8) by (bit_vector);
    assert(0x80u8 | ((v >> 12) & 0x3F) as u8 != 37u8) by (bit_vector);
}

/// Text without `%` encodes to bytes without the byte of `%`.
proof fn lemma_encoding_has_no_percent(p: Seq<char>)
    requires
        !p.contains('%'),
    ensures
        forall|i: int| 0 <= i < encode_utf8(p).len() ==> encode_utf8(p)[i] != 37u8,
    decreases p.len(),
{
    if p.len() > 0 {
        assert(p[0] != '%') by {
            if p[0] == '%' {
                assert(p.contains('%'));
            }
        }
        char_is_scalar(p[0]);
        assert((p[0] as u32) != 37) by {
            if (p[0] as u32) == 37 {
                char_u32_cast(p[0], 37u32);
                assert(37u32 as char == '%');
            }
        }
        lemma_scalar_encoding_has_no_percent(p[0] as u32);
        assert(!p.drop_first().contains('%')) by {
            if p.drop_first().contains('%') {
                let k = choose|k: int| 0 <= k < p.drop_first().len() && p.drop_first()[k] == '%';
                assert(p[k + 1] == '%');
            }
        }
        lemma_encoding_has_no_percent(p.drop_first());
        let head = encode_scalar(p[0] as u32);
        let tail = encode_utf8(p.drop_first());
        assert(encode_utf8(p) == head + tail);
        assert forall|i: int| 0 <= i < encode_utf8(p).len() implies encode_utf8(p)[i] != 37u8 by {
            if i < head.len() {
                assert(encode_utf8(p)[i] == head[i]);
            } else {
                assert(encode_utf8(p)[i] == tail[i - head.len()]);
            }
        }
    }
}

/// Bytes without `%` decode to themselves.
proof fn lemma_percent_decode_plain(b: Seq<u8>)
    requires
        forall|i: int| 0 <= i < b.len() ==> b[i] != 37u8,
    ensures
        percent_decode(b) == b,
    decreases b.len(),
{
    if b.len() > 0 {
        assert forall|i: int| 0 <= i < b.skip(1).len() implies b.skip(1)[i] != 37u8 by {
            assert(b.skip(1)[i] == b[i + 1]);
        }
        lemma_percent_decode_plain(b.skip(1));
        assert(seq![b[0]] + b.skip(1) =~= b);
    }
}

/// A request for `/stream/` followed by a path without `%` escapes names
/// exactly that path.
pub proof fn law_plain_stream_path(p: Seq<char>)
    requires
        !p.contains('%'),
    ensures
        stream_path_spec(stream_prefix() + p) == p,
{
    reveal_strlit("/stream/");
    let url = stream_prefix() + p;
    assert(url.take(8) =~= stream_prefix());
    assert(url.skip(8) =~= p);
    lemma_encoding_has_no_percent(p);
    lemma_percent_decode_plain(encode_utf8(p));
    encode_utf8_valid_utf8(p);
    encode_utf8_decode_utf8(p);
}

/// The extensions that the library indexes as video but streams without a
/// video content type.
pub open spec fn served_as_binary(ext: Seq<char>) -> bool {
    ext == "vob"@ || ext == "f4v"@ || ext == "rm"@ || ext == "rmvb"@ || ext == "divx"@
}

proof fn lemma_video_extension_cases(ext: Seq<char>)
    requires
        is_video_extension_spec(ext),
    ensures
        ext == "mp4"@
        || ext == "mkv"@
        || ext == "avi"@
        || ext == "mov"@
        || ext == "wmv"@
        || ext == "flv"@
        || ext == "webm"@
        || ext == "m4v"@
        || ext == "mpg"@
        || ext == "mpeg"@
        || ext == "ts"@
        || ext == "vob"@
        || ext == "ogv"@
        || ext == "3gp"@
        || ext == "f4v"@
        || ext == "rm"@
        || ext == "rmvb"@
        || ext == "divx"@,
{
    let i = choose|i: int| 0 <= i < 18 && VIDEO_EXTENSIONS[i]@ == ext;
    assert(0 <= i < 18);
}

/// Every extension that the library indexes as video is streamed with a
/// `video/` content type, but for `vob`, `f4v`, `rm`, `rmvb` and `divx`; and
/// only indexed video extensions get anything but
/// `application/octet-stream`.
pub proof fn law_video_extensions_streamed_as_video(ext: Seq<char>)
    ensures
        is_video_extension_spec(ext) && !served_as_binary(ext) ==> mime_spec(ext).take(6)
            == "video/"@,
        mime_spec(ext) != "application/octet-stream"@ ==> is_video_extension_spec(ext),
{
    reveal_strlit("mp4");
    reveal_strlit("mkv");
    reveal_strlit("avi");
    reveal_strlit("mov");
    reveal_strlit("wmv");
    reveal_strlit("flv");
    reveal_strlit("webm");
    reveal_strlit("m4v");
    reveal_strlit("mpg");
    reveal_strlit("mpeg");
    reveal_strlit("ts");
    reveal_strlit("vob");
    reveal_strlit("ogv");
    reveal_strlit("3gp");
    reveal_strlit("f4v");
    reveal_strlit("rm");
    reveal_strlit("rmvb");
    reveal_strlit("divx");
    reveal_strlit("video/3gpp");
    reveal_strlit("video/mp2t");
    reveal_strlit("video/mp4");
    reveal_strlit("video/mpeg");
    reveal_strlit("video/ogg");
    reveal_strlit("video/quicktime");
    reveal_strlit("video/webm");
    reveal_strlit("video/x-flv");
    reveal_strlit("video/x-matroska");
    reveal_strlit("video/x-ms-wmv");
    reveal_strlit("video/x-msvideo");
    reveal_strlit("application/octet-stream");
    reveal_strlit("video/");
    if is_video_extension_spec(ext) {
        lemma_video_extension_cases(ext);
    }
    if mime_spec(ext) != "application/octet-stream"@ {
        if ext == "mp4"@ {
            assert(VIDEO_EXTENSIONS[0]@ == ext);
        }
        if ext == "m4v"@ {
            assert(VIDEO_EXTENSIONS[7]@ == ext);
        }
        if ext == "mkv"@ {
            assert(VIDEO_EXTENSIONS[1]@ == ext);
        }
        if ext == "webm"@ {
            assert(VIDEO_EXTENSIONS[6]@ == ext);
        }
        if ext == "avi"@ {
            assert(VIDEO_EXTENSIONS[2]@ == ext);
        }
        if ext == "mov"@ {
            assert(VIDEO_EXTENSIONS[3]@ == ext);
        }
        if ext == "wmv"@ {
            assert(VIDEO_EXTENSIONS[4]@ == ext);
        }
        if ext == "flv"@ {
            assert(VIDEO_EXTENSIONS[5]@ == ext);
        }
        if ext == "mpg"@ {
            assert(VIDEO_EXTENSIONS[8]@ == ext);
        }
        if ext == "mpeg"@ {
            assert(VIDEO_EXTENSIONS[9]@ == ext);
        }
        if ext == "ts"@ {
            assert(VIDEO_EXTENSIONS[10]@ == ext);
        }
        if ext == "ogv"@ {
            assert(VIDEO_EXTENSIONS[12]@ == ext);
        }
        if ext == "3gp"@ {
            assert(VIDEO_EXTENSIONS[13]@ == ext);
        }
    }
}

/// The content type of each extension streamed as video.
pub proof fn law_video_content_types()
    ensures
        mime_spec("mp4"@) == "video/mp4"@,
        mime_spec("m4v"@) == "video/mp4"@,
        mime_spec("mkv"@) == "video/x-matroska"@,
        mime_spec("webm"@) == "video/webm"@,
        mime_spec("avi"@) == "video/x-msvideo"@,
        mime_spec("mov"@) == "video/quicktime"@,
        mime_spec("wmv"@) == "video/x-ms-wmv"@,
        mime_spec("flv"@) == "video/x-flv"@,
        mime_spec("mpg"@) == "video/mpeg"@,
        mime_spec("mpeg"@) == "video/mpeg"@,
        mime_spec("ts"@) == "video/mp2t"@,
        mime_spec("ogv"@) == "video/ogg"@,
        mime_spec("3gp"@) == "video/3gpp"@,
{
    assert(mime_spec("mp4"@) == "video/mp4"@) by {
        reveal_strlit("mp4");
    }
    assert(mime_spec("m4v"@) == "video/mp4"@) by {
        reveal_strlit("mp4");
        reveal_strlit("m4v");
        assert("m4v"@[1] != "mp4"@[1]);
    }
    assert(mime_spec("mkv"@) == "video/x-matroska"@) by {
        reveal_strlit("mp4");
        reveal_strlit("m4v");
        reveal_strlit("mkv");
        assert("mkv"@[1] != "mp4"@[1]);
        assert("mkv"@[1] != "m4v"@[1]);
    }
    assert(mime_spec("webm"@) == "video/webm"@) by {
        reveal_strlit("mp4");
        reveal_strlit("m4v");
        reveal_strlit("mkv");
        reveal_strlit("webm");
        assert("webm"@.len() != "mp4"@.len());
        assert("webm"@.len() != "m4v"@.len());
        assert("webm"@.len() != "mkv"@.len());
    }
    assert(mime_spec("avi"@) == "video/x-msvideo"@) by {
        reveal_strlit("mp4");
        reveal_strlit("m4v");
        reveal_strlit("mkv");
        reveal_strlit("webm");
        reveal_strlit("avi");
        assert("avi"@[0] != "mp4"@[0]);
        assert("avi"@[0] != "m4v"@[0]);
        assert("avi"@[0] != "mkv"@[0]);
        assert("avi"@.len() != "webm"@.len());
    }
    assert(mime_spec("mov"@) == "video/quicktime"@) by {
        reveal_strlit("mp4");
        reveal_strlit("m4v");
        reveal_strlit("mkv");
        reveal_strlit("webm");
        reveal_strlit("avi");
        reveal_strlit("mov");
        assert("mov"@[1] != "mp4"@[1]);
        assert("mov"@[1] != "m4v"@[1]);
        assert("mov"@[1] != "mkv"@[1]);
        assert("mov"@.len() != "webm"@.len());
        assert("mov"@[0] != "avi"@[0]);
    }
    assert(mime_spec("wmv"@) == "video/x-ms-wmv"@) by {
        reveal_strlit("mp4");
        reveal_strlit("m4v");
        reveal_strlit("mkv");
        reveal_strlit("webm");
        reveal_strlit("avi");
        reveal_strlit("mov");
        reveal_strlit("wmv");
        assert("wmv"@[0] != "mp4"@[0]);
        assert("wmv"@[0] != "m4v"@[0]);
        assert("wmv"@[0] != "mkv"@[0]);
        assert("wmv"@.len() != "webm"@.len());
        assert("wmv"@[0] != "avi"@[0]);
        assert("wmv"@[0] != "mov"@[0]);
    }
    assert(mime_spec("flv"@) == "video/x-flv"@) by {
        reveal_strlit("mp4");
        reveal_strlit("m4v");
        reveal_strlit("mkv");
        reveal_strlit("webm");
        reveal_strlit("avi");
        reveal_strlit("mov");
        reveal_strlit("wmv");
        reveal_strlit("flv");
        assert("flv"@[0] != "mp4"@[0]);
        assert("flv"@[0] != "m4v"@[0]);
        assert("flv"@[0] != "mkv"@[0]);
        assert("flv"@.len() != "webm"@.len());
        assert("flv"@[0] != "avi"@[0]);
        assert("flv"@[0] != "mov"@[0]);
        assert("flv"@[0] != "wmv"@[0]);
    }
    assert(mime_spec("mpg"@) == "video/mpeg"@) by {
        reveal_strlit("mp4");
        reveal_strlit("m4v");
        reveal_strlit("mkv");
        reveal_strlit("webm");
        reveal_strlit("avi");
        reveal_strlit("mov");
        reveal_strlit("wmv");
        reveal_strlit("flv");
        reveal_strlit("mpg");
        assert("mpg"@[2] != "mp4"@[2]);
        assert("mpg"@[1] != "m4v"@[1]);
        assert("mpg"@[1] != "mkv"@[1]);
        assert("mpg"@.len() != "webm"@.len());
        assert("mpg"@[0] != "avi"@[0]);
        assert("mpg"@[1] != "mov"@[1]);
        assert("mpg"@[0] != "wmv"@[0]);
        assert("mpg"@[0] != "flv"@[0]);
    }
    assert(mime_spec("mpeg"@) == "video/mpeg"@) by {
        reveal_strlit("mp4");
        reveal_strlit("m4v");
        reveal_strlit("mkv");
        reveal_strlit("webm");
        reveal_strlit("avi");
        reveal_strlit("mov");
        reveal_strlit("wmv");
        reveal_strlit("flv");
        reveal_strlit("mpg");
        reveal_strlit("mpeg");
        assert("mpeg"@.len() != "mp4"@.len());
        assert("mpeg"@.len() != "m4v"@.len());
        assert("mpeg"@.len() != "mkv"@.len());
        assert("mpeg"@[0] != "webm"@[0]);
        assert("mpeg"@.len() != "avi"@.len());
        assert("mpeg"@.len() != "mov"@.len());
        assert("mpeg"@.len() != "wmv"@.len());
        assert("mpeg"@.len() != "flv"@.len());
        assert("mpeg"@.len() != "mpg"@.len());
    }
    assert(mime_spec("ts"@) == "video/mp2t"@) by {
        reveal_strlit("mp4");
        reveal_strlit("m4v");
        reveal_strlit("mkv");
        reveal_strlit("webm");
        reveal_strlit("avi");
        reveal_strlit("mov");
        reveal_strlit("wmv");
        reveal_strlit("flv");
        reveal_strlit("mpg");
        reveal_strlit("mpeg");
        reveal_strlit("ts");
        assert("ts"@.len() != "mp4"@.len());
        assert("ts"@.len() != "m4v"@.len());
        assert("ts"@.len() != "mkv"@.len());
        assert("ts"@.len() != "webm"@.len());
        assert("ts"@.len() != "avi"@.len());
        assert("ts"@.len() != "mov"@.len());
        assert("ts"@.len() != "wmv"@.len());
        assert("ts"@.len() != "flv"@.len());
        assert("ts"@.len() != "mpg"@.len());
        assert("ts"@.len() != "mpeg"@.len());
    }
    assert(mime_spec("ogv"@) == "video/ogg"@) by {
        reveal_strlit("mp4");
        reveal_strlit("m4v");
        reveal_strlit("mkv");
        reveal_strlit("webm");
        reveal_strlit("avi");
        reveal_strlit("mov");
        reveal_strlit("wmv");
        reveal_strlit("flv");
        reveal_strlit("mpg");
        reveal_strlit("mpeg");
        reveal_strlit("ts");
        reveal_strlit("ogv");
        assert("ogv"@[0] != "mp4"@[0]);
        assert("ogv"@[0] != "m4v"@[0]);
        assert("ogv"@[0] != "mkv"@[0]);
        assert("ogv"@.len() != "webm"@.len());
        assert("ogv"@[0] != "avi"@[0]);
        assert("ogv"@[0] != "mov"@[0]);
        assert("ogv"@[0] != "wmv"@[0]);
        assert("ogv"@[0] != "flv"@[0]);
        assert("ogv"@[0] != "mpg"@[0]);
        assert("ogv"@.len() != "mpeg"@.len());
        assert("ogv"@.len() != "ts"@.len());
    }
    assert(mime_spec("3gp"@) == "video/3gpp"@) by {
        reveal_strlit("mp4");
        reveal_strlit("m4v");
        reveal_strlit("mkv");
        reveal_strlit("webm");
        reveal_strlit("avi");
        reveal_strlit("mov");
        reveal_strlit("wmv");
        reveal_strlit("flv");
        reveal_strlit("mpg");
        reveal_strlit("mpeg");
        reveal_strlit("ts");
        reveal_strlit("ogv");
        reveal_strlit("3gp");
        assert("3gp"@[0] != "mp4"@[0]);
        assert("3gp"@[0] != "m4v"@[0]);
        assert("3gp"@[0] != "mkv"@[0]);
        assert("3gp"@.len() != "webm"@.len());
        assert("3gp"@[0] != "avi"@[0]);
        assert("3gp"@[0] != "mov"@[0]);
        assert("3gp"@[0] != "wmv"@[0]);
        assert("3gp"@[0] != "flv"@[0]);
        assert("3gp"@[0] != "mpg"@[0]);
        assert("3gp"@.len() != "mpeg"@.len());
        assert("3gp"@.len() != "ts"@.len());
        assert("3gp"@[0] != "ogv"@[0]);
    }
}

} // verus!
