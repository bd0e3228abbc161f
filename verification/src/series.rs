//! Series detection: the series name and episode number that a video file
//! name carries, in the forms `Name - 01`, `Name S01E02`, `Name EP03` and
//! `Name #04`.
use vstd::prelude::*;
use crate::text::{
    byte_offset, byte_offset_of, contains_text, str_contains,
    all_digits, chars_of, digits_value, is_whitespace, lemma_digits_value_nonneg, occurs_at,
    last_occurrence_before, count_digits, digit_run, find_last_char, find_last_occurrence, is_digit,
    last_index_of, last_occurrence, lemma_digit_run, lemma_last_index_of,
    lemma_last_index_after, lemma_last_occurrence_before, parse_i32, parse_i32_slice, string_of, trim, trim_bounds,
    trim_end_marks, trim_end_marks_spec, trim_end_while, trim_start_while, is_separator_mark,
};

verus! {

/// The episode markers that are searched for, in the order they are tried.
#[derive(Clone, Copy, Debug, PartialEq, Eq, Structural)]
pub enum SeriesPattern {
    /// `S<season>E<episode>`, letters in either case.
    SeasonEpisode,
    /// `EP<episode>`, letters in either case.
    Episode,
    /// `#<episode>`.
    Hash,
}

pub open spec fn is_s(c: char) -> bool {
    c == 'S' || c == 's'
}

pub open spec fn is_e(c: char) -> bool {
    c == 'E' || c == 'e'
}

pub open spec fn is_p(c: char) -> bool {
    c == 'P' || c == 'p'
}

/// The first index at or after `from` that holds an `E` or `e`.
pub open spec fn first_e_from(s: Seq<char>, from: int) -> Option<int>
    decreases s.len() - from,
{
    if from < 0 || from >= s.len() {
        None
    } else if is_e(s[from]) {
        Some(from)
    } else {
        first_e_from(s, from + 1)
    }
}

/// The episode number read from the digits that start at `from`: the
/// longest run of ASCII digits there, which must be non-empty and fit an
/// `i32`.
pub open spec fn episode_digits(s: Seq<char>, from: int) -> Option<i32> {
    let n = digit_run(s, from);
    if n > 0 {
        parse_i32(s.subrange(from, from + n))
    } else {
        None
    }
}

/// The episode number of a marker of kind `p` that starts at index `i` of
/// `s`, if one starts there.
///
/// `S<season>E<episode>`: an `S` or `s` at `i`, the first `E` or `e` after it
/// preceded by one or more digits only (the season), then the episode digits.
pub open spec fn marker_at(s: Seq<char>, i: int, p: SeriesPattern) -> Option<i32> {
    if i < 0 || i >= s.len() {
        None
    } else {
        match p {
            SeriesPattern::SeasonEpisode => if is_s(s[i]) {
                match first_e_from(s, i + 1) {
                    Some(e) => if e > i + 1 && all_digits(s.subrange(i + 1, e)) {
                        episode_digits(s, e + 1)
                    } else {
                        None
                    },
                    None => None,
                }
            } else {
                None
            },
            SeriesPattern::Episode => if is_e(s[i]) && i + 1 < s.len() && is_p(s[i + 1]) {
                episode_digits(s, i + 2)
            } else {
                None
            },
            SeriesPattern::Hash => if s[i] == '#' {
                episode_digits(s, i + 1)
            } else {
                None
            },
        }
    }
}

/// The first marker of kind `p` that starts at or after `from`: its start and
/// its episode number.
pub open spec fn find_marker_from(s: Seq<char>, p: SeriesPattern, from: int) -> Option<
    (int, i32),
>
    decreases s.len() - from,
{
    if from < 0 || from >= s.len() {
        None
    } else {
        match marker_at(s, from, p) {
            Some(n) => Some((from, n)),
            None => find_marker_from(s, p, from + 1),
        }
    }
}

/// The first marker of kind `p` in `s`.
pub open spec fn find_marker(s: Seq<char>, p: SeriesPattern) -> Option<(int, i32)> {
    find_marker_from(s, p, 0)
}

/// The file name without its extension: everything before the last `.`.
pub open spec fn strip_extension(f: Seq<char>) -> Seq<char> {
    match last_index_of(f, '.') {
        Some(i) => f.take(i),
        None => f,
    }
}

/// The separator of the `Name - 01` form.
pub open spec fn dash_separator() -> Seq<char> {
    seq![' ', '-', ' ']
}

/// The `Name - 01` form: split at the last ` - `; the part after it, trimmed,
/// must parse as an `i32`. The name is the part before it, trimmed.
pub open spec fn dash_series(n: Seq<char>) -> Option<(Seq<char>, i32)> {
    match last_occurrence(n, dash_separator()) {
        Some(k) => match parse_i32(trim(n.skip(k + 3))) {
            Some(v) => Some((trim(n.take(k)), v)),
            None => None,
        },
        None => None,
    }
}

/// The series name in front of a marker at `pos`: the text before it,
/// trimmed, without trailing `-`, `_` and spaces.
pub open spec fn series_prefix(n: Seq<char>, pos: int) -> Seq<char> {
    trim_end_marks_spec(trim(n.take(pos)))
}

/// The series found by the first marker of kind `p`, when the name in front
/// of it is not empty.
pub open spec fn marker_series(n: Seq<char>, p: SeriesPattern) -> Option<(Seq<char>, i32)> {
    match find_marker(n, p) {
        Some((pos, v)) => if series_prefix(n, pos).len() > 0 {
            Some((series_prefix(n, pos), v))
        } else {
            None
        },
        None => None,
    }
}

/// The series name and episode number that a file name carries: the
/// `Name - 01` form first, then the first `S01E02`, `EP03` and `#04` markers
/// in that order; a marker counts only when a name stands before it.
pub open spec fn series_of(filename: Seq<char>) -> Option<(Seq<char>, i32)> {
    let n = strip_extension(filename);
    match dash_series(n) {
        Some(r) => Some(r),
        None => match marker_series(n, SeriesPattern::SeasonEpisode) {
            Some(r) => Some(r),
            None => match marker_series(n, SeriesPattern::Episode) {
                Some(r) => Some(r),
                None => marker_series(n, SeriesPattern::Hash),
            },
        },
    }
}

proof fn lemma_first_e_from(s: Seq<char>, from: int)
    ensures
        first_e_from(s, from) matches Some(e) ==> from <= e < s.len() && is_e(s[e]),
    decreases s.len() - from,
{
    if 0 <= from < s.len() && !is_e(s[from]) {
        lemma_first_e_from(s, from + 1);
    }
}

/// The index of the first `E` or `e` in `s` at or after `from`.
fn find_e(s: &Vec<char>, from: usize) -> (r: Option<usize>)
    ensures
        r == (match first_e_from(s@, from as int) {
            Some(e) => Some(e as usize),
            None => None,
        }),
{
    let mut j: usize = from;
    while j < s.len()
        invariant
            from <= j,
            first_e_from(s@, from as int) == first_e_from(s@, j as int),
        decreases s@.len() - j,
    {
        if s[j] == 'E' || s[j] == 'e' {
            return Some(j);
        }
        j = j + 1;
    }
    None
}

/// The episode digits that start at `from`.
fn episode_digits_at(s: &Vec<char>, from: usize) -> (r: Option<i32>)
    requires
        from <= s@.len(),
    ensures
        r == episode_digits(s@, from as int),
{
    let n = count_digits(s, from);
    let len = s.len();
    assert(from + n <= len);
    if n > 0 {
        parse_i32_slice(s, from, from + n)
    } else {
        None
    }
}

proof fn lemma_all_digits_by_run(s: Seq<char>, from: int, to: int)
    requires
        0 <= from <= to <= s.len(),
        to < s.len() ==> !is_digit(s[to]),
    ensures
        all_digits(s.subrange(from, to)) <==> digit_run(s, from) == to - from,
{
    lemma_digit_run(s, from);
    let n = digit_run(s, from) as int;
    if all_digits(s.subrange(from, to)) {
        if n < to - from {
            assert(s.subrange(from, to)[n] == s[from + n]);
            assert(is_digit(s.subrange(from, to)[n]));
        }
        if n > to - from {
            assert(s.subrange(from, from + n)[to - from] == s[to]);
            assert(is_digit(s.subrange(from, from + n)[to - from]));
        }
    }
    if n == to - from {
        assert(s.subrange(from, to) =~= s.subrange(from, from + n));
    }
}

/// The episode number of a marker of kind `p` starting at `i`.
fn marker_at_exec(s: &Vec<char>, i: usize, p: SeriesPattern) -> (r: Option<i32>)
    requires
        i < s@.len(),
    ensures
        r == marker_at(s@, i as int, p),
{
    let len = s.len();
    match p {
        SeriesPattern::SeasonEpisode => {
            if s[i] == 'S' || s[i] == 's' {
                match find_e(s, i + 1) {
                    Some(e) => {
                        proof {
                            lemma_first_e_from(s@, i + 1);
                            lemma_all_digits_by_run(s@, i + 1, e as int);
                        }
                        if e > i + 1 && count_digits(s, i + 1) == e - (i + 1) {
                            episode_digits_at(s, e + 1)
                        } else {
                            None
                        }
                    },
                    None => None,
                }
            } else {
                None
            }
        },
        SeriesPattern::Episode => {
            if (s[i] == 'E' || s[i] == 'e') && i + 1 < s.len() && (s[i + 1] == 'P' || s[i + 1]
                == 'p') {
                episode_digits_at(s, i + 2)
            } else {
                None
            }
        },
        SeriesPattern::Hash => {
            if s[i] == '#' {
                episode_digits_at(s, i + 1)
            } else {
                None
            }
        },
    }
}

/// The first marker of kind `pattern` in `s`: the character position at which
/// it starts and its episode number.
pub fn find_marker_position(s: &str, pattern: SeriesPattern) -> (r: Option<(usize, i32)>)
    ensures
        r == (match find_marker(s@, pattern) {
            Some((pos, n)) => Some((pos as usize, n)),
            None => None,
        }),
{
    let v = chars_of(s);
    let mut i: usize = 0;
    while i < v.len()
        invariant
            v@ == s@,
            find_marker(s@, pattern) == find_marker_from(s@, pattern, i as int),
        decreases v@.len() - i,
    {
        match marker_at_exec(&v, i, pattern) {
            Some(n) => {
                return Some((i, n));
            },
            None => {},
        }
        i = i + 1;
    }
    None
}

/// The first marker that a pattern text asks for: the `S<season>E<episode>`
/// marker when the text holds both `[Ss]` and `[Ee]`; failing that, the
/// `EP<episode>` marker when it holds `[Ee][Pp]`; failing that, the
/// `#<episode>` marker when it holds `#`. The character position at which
/// the marker starts, and its episode number.
pub open spec fn regex_lite_find_spec(s: Seq<char>, pattern: Seq<char>) -> Option<(int, i32)> {
    let se = if contains_text(pattern, "[Ss]"@) && contains_text(pattern, "[Ee]"@) {
        find_marker(s, SeriesPattern::SeasonEpisode)
    } else {
        None
    };
    match se {
        Some(r) => Some(r),
        None => {
            let ep = if contains_text(pattern, "[Ee][Pp]"@) {
                find_marker(s, SeriesPattern::Episode)
            } else {
                None
            };
            match ep {
                Some(r) => Some(r),
                None => if contains_text(pattern, "#"@) {
                    find_marker(s, SeriesPattern::Hash)
                } else {
                    None
                },
            }
        },
    }
}

/// The first marker that `pattern` asks for in `s` (see
/// [`regex_lite_find_spec`]): the byte position in `s` at which it starts,
/// and its episode number.
pub fn regex_lite_find(s: &str, pattern: &str) -> (r: Option<(usize, i32)>)
    ensures
        r == (match regex_lite_find_spec(s@, pattern@) {
            Some((pos, n)) => Some((byte_offset(s@, pos) as usize, n)),
            None => None,
        }),
{
    let total = s.as_bytes().len();
    let v = chars_of(s);
    let se = if str_contains(pattern, "[Ss]") && str_contains(pattern, "[Ee]") {
        find_marker_position(s, SeriesPattern::SeasonEpisode)
    } else {
        None
    };
    let found = match se {
        Some(x) => Some(x),
        None => {
            let ep = if str_contains(pattern, "[Ee][Pp]") {
                find_marker_position(s, SeriesPattern::Episode)
            } else {
                None
            };
            match ep {
                Some(x) => Some(x),
                None => if str_contains(pattern, "#") {
                    find_marker_position(s, SeriesPattern::Hash)
                } else {
                    None
                },
            }
        },
    };
    match found {
        Some((k, n)) => {
            proof {
                lemma_find_marker_from_bounds(s@, SeriesPattern::SeasonEpisode, 0);
                lemma_find_marker_from_bounds(s@, SeriesPattern::Episode, 0);
                lemma_find_marker_from_bounds(s@, SeriesPattern::Hash, 0);
            }
            Some((byte_offset_of(&v, k, total), n))
        },
        None => None,
    }
}

/// The series found by the first marker of kind `pattern` in `name`.
fn marker_series_exec(name: &str, n: &Vec<char>, pattern: SeriesPattern) -> (r: Option<
    (String, i32),
>)
    requires
        n@ == name@,
    ensures
        r matches Some((nm, v)) ==> marker_series(n@, pattern) == Some((nm@, v)),
        r is None ==> marker_series(n@, pattern) is None,
{
    let len = n.len();
    match find_marker_position(name, pattern) {
        Some((pos, num)) => {
            proof {
                lemma_find_marker_from_bounds(n@, pattern, 0);
            }
            let (a, b) = trim_bounds(n, 0, pos);
            let c = trim_end_marks(n, a, b);
            assert(n@.subrange(0, pos as int) =~= n@.take(pos as int));
            assert(find_marker(n@, pattern) == Some((pos as int, num)));
            assert(n@.subrange(a as int, b as int) == trim(n@.take(pos as int)));
            assert(n@.subrange(a as int, c as int) == series_prefix(n@, pos as int));
            if c > a {
                let nm = string_of(name, a, c);
                assert(nm@ == series_prefix(n@, pos as int));
                Some((nm, num))
            } else {
                None
            }
        },
        None => None,
    }
}

proof fn lemma_find_marker_from_bounds(s: Seq<char>, p: SeriesPattern, from: int)
    ensures
        find_marker_from(s, p, from) matches Some((i, n)) ==> from <= i < s.len(),
    decreases s.len() - from,
{
    if 0 <= from < s.len() && marker_at(s, from, p) is None {
        lemma_find_marker_from_bounds(s, p, from + 1);
    }
}

/// Extract series name and episode number from filename.
/// Supports patterns like:
///   "Series Name - 01.mp4"
///   "Series Name S01E02.mp4"
///   "Series Name EP03.mp4"
///   "Series Name #04.mp4"
pub fn extract_series_info(filename: &str) -> (r: (Option<String>, Option<i32>))
    ensures
        r.0 is Some <==> r.1 is Some,
        match series_of(filename@) {
            Some((name, n)) => r.0 matches Some(s) && s@ == name && r.1 == Some(n),
            None => r.0 is None && r.1 is None,
        },
{
    let f = chars_of(filename);
    let end = match find_last_char(&f, f.len(), '.') {
        Some(i) => i,
        None => f.len(),
    };
    proof {
        lemma_last_index_of(f@, '.');
        assert(f@.take(f@.len() as int) =~= f@);
    }
    let name = filename.substring_char(0, end);
    let n = chars_of(name);
    assert(n@ =~= strip_extension(filename@));
    // "Name - 01"
    let dash = vec![' ', '-', ' '];
    assert(dash@ =~= dash_separator());
    match find_last_occurrence(&n, &dash) {
        Some(k) => {
            proof {
                lemma_last_occurrence_before(n@, dash@, n@.len() as int);
            }
            let (a, b) = trim_bounds(&n, k + 3, n.len());
            assert(n@.subrange(k + 3, n@.len() as int) =~= n@.skip(k + 3));
            match parse_i32_slice(&n, a, b) {
                Some(num) => {
                    let (c, d) = trim_bounds(&n, 0, k);
                    assert(n@.subrange(0, k as int) =~= n@.take(k as int));
                    let series = string_of(name, c, d);
                    assert(dash_series(n@) == Some((series@, num)));
                    return (Some(series), Some(num));
                },
                None => {
                    assert(dash_series(n@) is None);
                },
            }
        },
        None => {
            assert(dash_series(n@) is None);
        },
    }
    // S01E02, EP03, #04
    match marker_series_exec(name, &n, SeriesPattern::SeasonEpisode) {
        Some((s, num)) => {
            return (Some(s), Some(num));
        },
        None => {},
    }
    match marker_series_exec(name, &n, SeriesPattern::Episode) {
        Some((s, num)) => {
            return (Some(s), Some(num));
        },
        None => {},
    }
    match marker_series_exec(name, &n, SeriesPattern::Hash) {
        Some((s, num)) => {
            return (Some(s), Some(num));
        },
        None => {},
    }
    (None, None)
}

// ---------------------------------------------------------------------------
// Laws
// ---------------------------------------------------------------------------

proof fn lemma_last_occurrence_at(s: Seq<char>, pat: Seq<char>, i: int, end: int)
    requires
        occurs_at(s, pat, i),
        i < end,
        forall|j: int| i < j < end ==> !occurs_at(s, pat, j),
    ensures
        last_occurrence_before(s, pat, end) == Some(i),
    decreases end,
{
    if end - 1 != i {
        lemma_last_occurrence_at(s, pat, i, end - 1);
    }
}

proof fn lemma_trim_identity(s: Seq<char>)
    requires
        s.len() > 0 ==> !is_whitespace(s[0]) && !is_whitespace(s.last()),
    ensures
        trim(s) == s,
{
}

/// The extension of a file name plays no part in the series found: any two
/// extensions without a `.` give the same result.
pub proof fn law_extension_irrelevant(stem: Seq<char>, ext1: Seq<char>, ext2: Seq<char>)
    requires
        !ext1.contains('.'),
        !ext2.contains('.'),
    ensures
        series_of(stem + seq!['.'] + ext1) == series_of(stem + seq!['.'] + ext2),
{
    lemma_last_index_after(stem, '.', ext1);
    lemma_last_index_after(stem, '.', ext2);
    assert((stem + seq!['.'] + ext1).take(stem.len() as int) =~= stem);
    assert((stem + seq!['.'] + ext2).take(stem.len() as int) =~= stem);
}

/// A file named `<name> - <digits>.<ext>` belongs to series `<name>` with
/// the episode number that the digits spell, when the name has no leading
/// or trailing whitespace and no `.`, the extension has no `.`, and the
/// number fits an `i32`.
pub proof fn law_dash_form_recognized(name: Seq<char>, digits: Seq<char>, ext: Seq<char>)
    requires
        trim(name) == name,
        !name.contains('.'),
        !ext.contains('.'),
        digits.len() > 0,
        all_digits(digits),
        digits_value(digits) <= i32::MAX,
    ensures
        series_of(name + dash_separator() + digits + seq!['.'] + ext) == Some(
            (name, digits_value(digits) as i32),
        ),
{
    let n = name + dash_separator() + digits;
    let f = n + seq!['.'] + ext;
    assert(!n.contains('.')) by {
        if n.contains('.') {
            let k = choose|k: int| 0 <= k < n.len() && n[k] == '.';
            if k < name.len() {
                assert(name[k] == '.');
            } else if k >= name.len() + 3 {
                assert(digits[k - name.len() - 3] == '.');
                assert(is_digit(digits[k - name.len() - 3]));
            }
        }
    }
    lemma_last_index_after(n, '.', ext);
    assert(f.take(n.len() as int) =~= n);
    assert(strip_extension(f) == n);
    let pat = dash_separator();
    let i = name.len() as int;
    assert(n.subrange(i, i + 3) =~= pat);
    assert forall|j: int| i < j < n.len() implies !occurs_at(n, pat, j) by {
        if occurs_at(n, pat, j) {
            assert(n.subrange(j, j + 3)[0] == n[j]);
            assert(n.subrange(j, j + 3)[1] == n[j + 1]);
            if j == i + 1 {
                assert(n[j] == '-');
            } else if j == i + 2 {
                assert(n[j + 1] == digits[0]);
                assert(is_digit(digits[0]));
            } else {
                assert(n[j] == digits[j - i - 3]);
                assert(is_digit(digits[j - i - 3]));
            }
        }
    }
    lemma_last_occurrence_at(n, pat, i, n.len() as int);
    assert(n.skip(i + 3) =~= digits);
    assert(n.take(i) =~= name);
    assert(is_digit(digits[0]));
    assert(is_digit(digits[digits.len() - 1]));
    lemma_trim_identity(digits);
    lemma_digits_value_nonneg(digits);
    assert(parse_i32(digits) == Some(digits_value(digits) as i32));
}

proof fn lemma_no_last_occurrence(s: Seq<char>, pat: Seq<char>, end: int)
    requires
        forall|j: int| 0 <= j < end ==> !occurs_at(s, pat, j),
    ensures
        last_occurrence_before(s, pat, end) is None,
    decreases end,
{
    if end > 0 {
        lemma_no_last_occurrence(s, pat, end - 1);
    }
}

proof fn lemma_find_marker_none(s: Seq<char>, p: SeriesPattern, from: int)
    requires
        forall|i: int| from <= i < s.len() ==> marker_at(s, i, p) is None,
    ensures
        find_marker_from(s, p, from) is None,
    decreases s.len() - from,
{
    if 0 <= from < s.len() {
        lemma_find_marker_none(s, p, from + 1);
    }
}

proof fn lemma_find_marker_at(s: Seq<char>, p: SeriesPattern, from: int, at: int, v: i32)
    requires
        0 <= from <= at < s.len(),
        forall|i: int| from <= i < at ==> marker_at(s, i, p) is None,
        marker_at(s, at, p) == Some(v),
    ensures
        find_marker_from(s, p, from) == Some((at, v)),
    decreases at - from,
{
    if from < at {
        lemma_find_marker_at(s, p, from + 1, at, v);
    }
}

proof fn lemma_first_e_at(s: Seq<char>, from: int, e: int)
    requires
        0 <= from <= e < s.len(),
        is_e(s[e]),
        forall|j: int| from <= j < e ==> !is_e(s[j]),
    ensures
        first_e_from(s, from) == Some(e),
    decreases e - from,
{
    if from < e {
        lemma_first_e_at(s, from + 1, e);
    }
}

/// The episode number that the digits at the end of `n`, from `from` on,
/// spell.
proof fn lemma_trailing_episode(n: Seq<char>, from: int, digits: Seq<char>)
    requires
        0 <= from,
        n.skip(from) == digits,
        from + digits.len() == n.len(),
        digits.len() > 0,
        all_digits(digits),
        digits_value(digits) <= i32::MAX,
    ensures
        episode_digits(n, from) == Some(digits_value(digits) as i32),
{
    lemma_all_digits_by_run(n, from, n.len() as int);
    assert(n.subrange(from, n.len() as int) =~= digits);
    assert(digits[0] == n[from]);
    lemma_digits_value_nonneg(digits);
    assert(is_digit(digits[0]));
    assert(parse_i32(digits) == Some(digits_value(digits) as i32));
}

/// The parts that every marker form shares: a name with no digit, `.` or
/// `-`, a space, then a marker text `rest` with no `.` or `-`. The extension
/// is stripped, the ` - ` form does not apply, no marker starts in the name
/// or the space, and the name in front of the marker is the name itself.
proof fn lemma_named_stem(name: Seq<char>, rest: Seq<char>, ext: Seq<char>)
    requires
        name.len() > 0,
        !is_whitespace(name[0]),
        !is_whitespace(name.last()),
        !is_separator_mark(name.last()),
        forall|j: int| 0 <= j < name.len() ==> !is_digit(#[trigger] name[j]) && name[j] != '.'
            && name[j] != '-',
        forall|j: int| 0 <= j < rest.len() ==> #[trigger] rest[j] != '.' && rest[j] != '-',
        !ext.contains('.'),
    ensures
        strip_extension(name + seq![' '] + rest + seq!['.'] + ext) == name + seq![' '] + rest,
        dash_series(name + seq![' '] + rest) is None,
        forall|q: SeriesPattern, i: int|
            0 <= i <= name.len() ==> #[trigger] marker_at(name + seq![' '] + rest, i, q) is None,
        series_prefix(name + seq![' '] + rest, name.len() + 1int) == name,
{
    let n = name + seq![' '] + rest;
    let k = name.len() as int;
    let f = n + seq!['.'] + ext;
    assert(forall|j: int| 0 <= j < k ==> n[j] == name[j]);
    assert(n[k] == ' ');
    assert(forall|j: int| k < j < n.len() ==> n[j] == rest[j - k - 1]);
    assert(!n.contains('.')) by {
        if n.contains('.') {
            let j = choose|j: int| 0 <= j < n.len() && n[j] == '.';
            if j < k {
                assert(name[j] == '.');
            } else if j > k {
                assert(rest[j - k - 1] == '.');
            }
        }
    }
    lemma_last_index_after(n, '.', ext);
    assert(f.take(n.len() as int) =~= n);
    let pat = dash_separator();
    assert forall|j: int| 0 <= j < n.len() implies !occurs_at(n, pat, j) by {
        if occurs_at(n, pat, j) {
            assert(n.subrange(j, j + 3)[1] == n[j + 1]);
            if j + 1 < k {
                assert(name[j + 1] == '-');
            } else if j + 1 > k {
                assert(rest[j + 1 - k - 1] == '-');
            }
        }
    }
    lemma_no_last_occurrence(n, pat, n.len() as int);
    assert forall|q: SeriesPattern, i: int| 0 <= i <= k implies #[trigger] marker_at(
        n,
        i,
        q,
    ) is None by {
        assert(!is_digit(n[i]));
        if i + 1 <= k {
            assert(!is_digit(n[i + 1]));
        }
        match q {
            SeriesPattern::SeasonEpisode => {
                if is_s(n[i]) {
                    lemma_first_e_from(n, i + 1);
                    match first_e_from(n, i + 1) {
                        Some(e) => {
                            if e > i + 1 {
                                assert(n.subrange(i + 1, e)[0] == n[i + 1]);
                            }
                        },
                        None => {},
                    }
                }
            },
            SeriesPattern::Episode => {
                if is_e(n[i]) && i + 1 < n.len() && is_p(n[i + 1]) {
                    assert(!is_digit(n[i + 2]));
                }
            },
            SeriesPattern::Hash => {},
        }
    }
    let front = n.take(k + 1);
    assert(front =~= name.push(' '));
    let ws = |c: char| is_whitespace(c);
    assert(trim_start_while(front, ws) == front);
    assert(front.drop_last() =~= name);
    assert(trim_end_while(front, ws) == trim_end_while(name, ws));
    assert(trim_end_while(name, ws) == name);
    assert(trim(front) == name);
    assert(trim_end_marks_spec(name) == name);
}

/// The text of a marker in front of the episode digits.
pub open spec fn marker_text(p: SeriesPattern, season: Seq<char>) -> Seq<char> {
    match p {
        SeriesPattern::SeasonEpisode => seq!['S'] + season + seq!['E'],
        SeriesPattern::Episode => seq!['E', 'P'],
        SeriesPattern::Hash => seq!['#'],
    }
}

/// The names that the marker laws speak of: not empty, without leading or
/// trailing whitespace, not ending in `-`, `_` or a space, and without
/// digits, `.` or `-`.
pub open spec fn plain_series_name(name: Seq<char>) -> bool {
    &&& name.len() > 0
    &&& !is_whitespace(name[0])
    &&& !is_whitespace(name.last())
    &&& !is_separator_mark(name.last())
    &&& forall|j: int|
        0 <= j < name.len() ==> !is_digit(#[trigger] name[j]) && name[j] != '.' && name[j] != '-'
}

/// Where the markers of `n = <name> <marker><digits>` start: the marker of
/// kind `p` right after the space, and no earlier kind anywhere.
proof fn lemma_markers_of_stem(
    p: SeriesPattern,
    n: Seq<char>,
    k: int,
    season: Seq<char>,
    digits: Seq<char>,
)
    requires
        0 <= k,
        n.len() == k + 1 + marker_text(p, season).len() + digits.len(),
        n.skip(k + 1) == marker_text(p, season) + digits,
        forall|q: SeriesPattern, i: int| 0 <= i <= k ==> #[trigger] marker_at(n, i, q) is None,
        p is SeasonEpisode ==> season.len() > 0 && all_digits(season),
        digits.len() > 0,
        all_digits(digits),
        digits_value(digits) <= i32::MAX,
    ensures
        find_marker(n, p) == Some((k + 1, digits_value(digits) as i32)),
        p !is SeasonEpisode ==> find_marker(n, SeriesPattern::SeasonEpisode) is None,
        p is Hash ==> find_marker(n, SeriesPattern::Episode) is None,
{
    let m = marker_text(p, season);
    let v = digits_value(digits) as i32;
    let d = k + 1 + m.len();
    assert forall|j: int| 0 <= j < m.len() implies n[k + 1 + j] == #[trigger] m[j] by {
        assert(n.skip(k + 1)[j] == m[j]);
    }
    assert forall|j: int| d <= j < n.len() implies is_digit(#[trigger] n[j]) by {
        assert(n.skip(k + 1)[j - k - 1] == digits[j - d]);
    }
    assert(n.skip(d) =~= digits) by {
        assert forall|j: int| 0 <= j < digits.len() implies n.skip(d)[j] == digits[j] by {
            assert(n.skip(k + 1)[m.len() + j] == digits[j]);
        }
    }
    lemma_trailing_episode(n, d, digits);
    match p {
        SeriesPattern::SeasonEpisode => {
            let e = k + 2 + season.len();
            assert(m[0] == 'S');
            assert(m[1 + season.len() as int] == 'E');
            assert forall|j: int| k + 2 <= j < e implies !is_e(#[trigger] n[j]) by {
                assert(m[j - k - 1] == season[j - k - 2]);
                assert(is_digit(season[j - k - 2]));
            }
            lemma_first_e_at(n, k + 2, e);
            assert(n.subrange(k + 2, e) =~= season) by {
                assert forall|j: int| 0 <= j < season.len() implies n.subrange(k + 2, e)[j]
                    == season[j] by {
                    assert(m[1 + j] == season[j]);
                }
            }
            assert(marker_at(n, k + 1, p) == Some(v));
            lemma_find_marker_at(n, p, 0, k + 1, v);
        },
        SeriesPattern::Episode => {
            assert(m[0] == 'E' && m[1] == 'P');
            assert(marker_at(n, k + 1, p) == Some(v));
            lemma_find_marker_at(n, p, 0, k + 1, v);
            assert forall|i: int| 0 <= i < n.len() implies #[trigger] marker_at(
                n,
                i,
                SeriesPattern::SeasonEpisode,
            ) is None by {
                if i > k + 2 {
                    assert(is_digit(n[i]));
                }
            }
            lemma_find_marker_none(n, SeriesPattern::SeasonEpisode, 0);
        },
        SeriesPattern::Hash => {
            assert(m[0] == '#');
            assert(marker_at(n, k + 1, p) == Some(v));
            lemma_find_marker_at(n, p, 0, k + 1, v);
            assert forall|i: int| 0 <= i < n.len() implies #[trigger] marker_at(
                n,
                i,
                SeriesPattern::SeasonEpisode,
            ) is None && marker_at(n, i, SeriesPattern::Episode) is None by {
                if i > k + 1 {
                    assert(is_digit(n[i]));
                }
            }
            lemma_find_marker_none(n, SeriesPattern::SeasonEpisode, 0);
            lemma_find_marker_none(n, SeriesPattern::Episode, 0);
        },
    }
}

/// A file named `<name> <marker><digits>.<ext>`, where the marker is
/// `S<season>E`, `EP` or `#`, belongs to series `<name>` with the episode
/// number that the digits spell: for a plain name, a season of one or more
/// digits, an extension without `.`, and a number that fits an `i32`.
pub proof fn law_marker_form_recognized(
    p: SeriesPattern,
    name: Seq<char>,
    season: Seq<char>,
    digits: Seq<char>,
    ext: Seq<char>,
)
    requires
        plain_series_name(name),
        p is SeasonEpisode ==> season.len() > 0 && all_digits(season),
        !ext.contains('.'),
        digits.len() > 0,
        all_digits(digits),
        digits_value(digits) <= i32::MAX,
    ensures
        series_of(name + seq![' '] + marker_text(p, season) + digits + seq!['.'] + ext) == Some(
            (name, digits_value(digits) as i32),
        ),
{
    let m = marker_text(p, season);
    let rest = m + digits;
    let n = name + seq![' '] + rest;
    let k = name.len() as int;
    assert(name + seq![' '] + m + digits == n);
    assert forall|j: int| 0 <= j < rest.len() implies #[trigger] rest[j] != '.' && rest[j]
        != '-' by {
        if j >= m.len() {
            assert(rest[j] == digits[j - m.len()]);
            assert(is_digit(digits[j - m.len()]));
        } else if p is SeasonEpisode && 1 <= j < 1 + season.len() {
            assert(rest[j] == season[j - 1]);
            assert(is_digit(season[j - 1]));
        }
    }
    lemma_named_stem(name, rest, ext);
    assert(n.skip(k + 1) =~= rest);
    lemma_markers_of_stem(p, n, k, season, digits);
}

} // verus!
