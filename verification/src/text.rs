//! Character-level text utilities: the pieces of `str` behaviour that the
//! library's parsers rely on (whitespace trimming, decimal integers,
//! searching), each stated as a spec function over `Seq<char>` and
//! implemented over a `Vec<char>` copy of the text.
use vstd::prelude::*;
use vstd::utf8::{char_is_scalar, encode_scalar, encode_utf8};

verus! {

// ---------------------------------------------------------------------------
// Characters
// ---------------------------------------------------------------------------

/// An ASCII decimal digit `0`..=`9` (what `char::is_ascii_digit` accepts, and
/// the only digits that `FromStr` for integers accepts in radix 10).
pub open spec fn is_digit(c: char) -> bool {
    '0' <= c && c <= '9'
}

/// The numeric value of an ASCII digit.
pub open spec fn digit_value(c: char) -> int {
    (c as int) - ('0' as int)
}

/// The Unicode `White_Space` property, which is what `char::is_whitespace`
/// (and therefore `str::trim`) tests.
pub open spec fn is_whitespace(c: char) -> bool {
    ||| c == ' '
    ||| ('\u{9}' <= c && c <= '\u{d}')
    ||| c == '\u{85}'
    ||| c == '\u{a0}'
    ||| c == '\u{1680}'
    ||| ('\u{2000}' <= c && c <= '\u{200a}')
    ||| c == '\u{2028}'
    ||| c == '\u{2029}'
    ||| c == '\u{202f}'
    ||| c == '\u{205f}'
    ||| c == '\u{3000}'
}

pub fn char_is_digit(c: char) -> (r: bool)
    ensures
        r == is_digit(c),
{
    '0' <= c && c <= '9'
}

pub fn char_is_whitespace(c: char) -> (r: bool)
    ensures
        r == is_whitespace(c),
{
    c == ' ' || ('\u{9}' <= c && c <= '\u{d}') || c == '\u{85}' || c == '\u{a0}' || c
        == '\u{1680}' || ('\u{2000}' <= c && c <= '\u{200a}') || c == '\u{2028}' || c
        == '\u{2029}' || c == '\u{202f}' || c == '\u{205f}' || c == '\u{3000}'
}

// ---------------------------------------------------------------------------
// Strings as character vectors
// ---------------------------------------------------------------------------

/// The characters of `s`, in order.
pub fn chars_of(s: &str) -> (v: Vec<char>)
    ensures
        v@ == s@,
{
    let mut v: Vec<char> = Vec::new();
    for c in it: s.chars()
        invariant
            v@ == it.seq().take(it.index() as int),
    {
        v.push(c);
    }
    v
}

/// Whether the characters `s[lo..hi]` spell exactly `t`.
pub fn slice_equals(s: &Vec<char>, lo: usize, hi: usize, t: &Vec<char>) -> (r: bool)
    requires
        lo <= hi <= s@.len(),
    ensures
        r == (s@.subrange(lo as int, hi as int) == t@),
{
    if hi - lo != t.len() {
        return false;
    }
    let mut k: usize = 0;
    while k < t.len()
        invariant
            lo <= hi <= s@.len(),
            hi - lo == t@.len(),
            k <= t@.len(),
            forall|j: int| 0 <= j < k ==> s@[lo + j] == t@[j],
        decreases t@.len() - k,
    {
        if s[lo + k] != t[k] {
            assert(s@.subrange(lo as int, hi as int)[k as int] != t@[k as int]);
            return false;
        }
        k = k + 1;
    }
    assert(s@.subrange(lo as int, hi as int) =~= t@);
    true
}

/// Whether two strings hold the same characters.
pub fn str_eq(a: &str, b: &str) -> (r: bool)
    ensures
        r == (a@ == b@),
{
    let av = chars_of(a);
    let bv = chars_of(b);
    let r = slice_equals(&av, 0, av.len(), &bv);
    assert(av@.subrange(0, av@.len() as int) =~= av@);
    r
}

/// Whether the text `s[lo..hi]` is the same as the string `t`.
pub fn slice_equals_str(s: &Vec<char>, lo: usize, hi: usize, t: &str) -> (r: bool)
    requires
        lo <= hi <= s@.len(),
    ensures
        r == (s@.subrange(lo as int, hi as int) == t@),
{
    let tv = chars_of(t);
    slice_equals(s, lo, hi, &tv)
}

/// The string made of `s[lo..hi]`.
pub fn string_of(s: &str, lo: usize, hi: usize) -> (r: String)
    requires
        lo <= hi <= s@.len(),
    ensures
        r@ == s@.subrange(lo as int, hi as int),
{
    s.substring_char(lo, hi).to_owned()
}

// ---------------------------------------------------------------------------
// Searching
// ---------------------------------------------------------------------------

/// The index of the last occurrence of `c` in `s`, if any (what
/// `rsplit_once(c)` splits at).
pub open spec fn last_index_of(s: Seq<char>, c: char) -> Option<int>
    decreases s.len(),
{
    if s.len() == 0 {
        None
    } else if s.last() == c {
        Some(s.len() - 1)
    } else {
        last_index_of(s.drop_last(), c)
    }
}

pub proof fn lemma_last_index_of(s: Seq<char>, c: char)
    ensures
        last_index_of(s, c) matches Some(i) ==> 0 <= i < s.len() && s[i] == c && forall|j: int|
            i < j < s.len() ==> s[j] != c,
        last_index_of(s, c) is None ==> forall|j: int| 0 <= j < s.len() ==> s[j] != c,
    decreases s.len(),
{
    if s.len() > 0 && s.last() != c {
        lemma_last_index_of(s.drop_last(), c);
        assert forall|j: int| 0 <= j < s.len() - 1 implies s[j] == s.drop_last()[j] by {}
    }
}

/// The index of the last occurrence of `c` in `s[0..hi]`.
pub fn find_last_char(s: &Vec<char>, hi: usize, c: char) -> (r: Option<usize>)
    requires
        hi <= s@.len(),
    ensures
        r == (match last_index_of(s@.take(hi as int), c) {
            Some(i) => Some(i as usize),
            None => None,
        }),
{
    let mut j: usize = hi;
    while j > 0
        invariant
            j <= hi <= s@.len(),
            last_index_of(s@.take(hi as int), c) == last_index_of(s@.take(j as int), c),
        decreases j,
    {
        assert(s@.take(j as int).drop_last() =~= s@.take(j - 1));
        if s[j - 1] == c {
            return Some(j - 1);
        }
        j = j - 1;
    }
    None
}

/// The index of the first occurrence of `c` in `s`, if any (where
/// `splitn(2, c)` splits).
pub open spec fn first_index_of(s: Seq<char>, c: char) -> Option<int>
    decreases s.len(),
{
    if s.len() == 0 {
        None
    } else if s[0] == c {
        Some(0)
    } else {
        match first_index_of(s.drop_first(), c) {
            Some(i) => Some(i + 1),
            None => None,
        }
    }
}

pub proof fn lemma_first_index_of(s: Seq<char>, c: char)
    ensures
        first_index_of(s, c) matches Some(i) ==> 0 <= i < s.len() && s[i] == c,
    decreases s.len(),
{
    if s.len() > 0 && s[0] != c {
        lemma_first_index_of(s.drop_first(), c);
    }
}

/// The index of the first occurrence of `c` in `s[lo..]`, counted from `lo`.
pub fn find_first_char(s: &Vec<char>, lo: usize, c: char) -> (r: Option<usize>)
    requires
        lo <= s@.len(),
    ensures
        r == (match first_index_of(s@.skip(lo as int), c) {
            Some(i) => Some(i as usize),
            None => None,
        }),
{
    let mut j: usize = lo;
    while j < s.len()
        invariant
            lo <= j <= s@.len(),
            first_index_of(s@.skip(lo as int), c) == (match first_index_of(s@.skip(j as int), c) {
                Some(i) => Some(i + (j - lo)),
                None => None,
            }),
        decreases s@.len() - j,
    {
        assert(s@.skip(j as int)[0] == s@[j as int]);
        if s[j] == c {
            return Some(j - lo);
        }
        assert(s@.skip(j as int).drop_first() =~= s@.skip(j + 1));
        j = j + 1;
    }
    assert(s@.skip(j as int).len() == 0);
    None
}

/// Whether `pat` occurs in `s` starting at index `i`.
pub open spec fn occurs_at(s: Seq<char>, pat: Seq<char>, i: int) -> bool {
    0 <= i && i + pat.len() <= s.len() && s.subrange(i, i + pat.len()) == pat
}

/// Whether `t` occurs somewhere in `s` (what `str::contains` with a string
/// pattern answers).
pub open spec fn contains_text(s: Seq<char>, t: Seq<char>) -> bool {
    exists|i: int| occurs_at(s, t, i)
}

/// Whether `t` occurs somewhere in `s`.
pub fn str_contains(s: &str, t: &str) -> (r: bool)
    ensures
        r == contains_text(s@, t@),
{
    let v = chars_of(s);
    let w = chars_of(t);
    if w.len() > v.len() {
        return false;
    }
    let len = v.len();
    let last = len - w.len();
    let mut i: usize = 0;
    while i < last
        invariant
            v@ == s@,
            w@ == t@,
            w@.len() <= v@.len() <= usize::MAX,
            last + w@.len() == v@.len(),
            i <= last,
            forall|j: int| 0 <= j < i ==> !occurs_at(s@, t@, j),
        decreases last - i,
    {
        if slice_equals(&v, i, i + w.len(), &w) {
            assert(occurs_at(s@, t@, i as int));
            return true;
        }
        i = i + 1;
    }
    if slice_equals(&v, last, v.len(), &w) {
        assert(occurs_at(s@, t@, last as int));
        return true;
    }
    assert forall|j: int| !occurs_at(s@, t@, j) by {
        if 0 <= j < last {
        } else if j == last {
        }
    }
    false
}

/// The start of the last occurrence of `pat` in `s` that starts before
/// `end` (so the last occurrence in `s` when `end` is `s.len()`): this is
/// where `rsplit_once(pat)` splits.
pub open spec fn last_occurrence_before(s: Seq<char>, pat: Seq<char>, end: int) -> Option<int>
    decreases end,
{
    if end <= 0 {
        None
    } else if occurs_at(s, pat, end - 1) {
        Some(end - 1)
    } else {
        last_occurrence_before(s, pat, end - 1)
    }
}

/// The start of the last occurrence of `pat` in `s`.
pub open spec fn last_occurrence(s: Seq<char>, pat: Seq<char>) -> Option<int> {
    last_occurrence_before(s, pat, s.len() as int)
}

pub proof fn lemma_last_occurrence_before(s: Seq<char>, pat: Seq<char>, end: int)
    ensures
        last_occurrence_before(s, pat, end) matches Some(i) ==> 0 <= i < end && occurs_at(
            s,
            pat,
            i,
        ) && forall|j: int| i < j < end ==> !occurs_at(s, pat, j),
        last_occurrence_before(s, pat, end) is None ==> forall|j: int|
            0 <= j < end ==> !occurs_at(s, pat, j),
    decreases end,
{
    if end > 0 && !occurs_at(s, pat, end - 1) {
        lemma_last_occurrence_before(s, pat, end - 1);
    }
}

/// The start of the last occurrence of `pat` in `s`.
pub fn find_last_occurrence(s: &Vec<char>, pat: &Vec<char>) -> (r: Option<usize>)
    ensures
        r == (match last_occurrence(s@, pat@) {
            Some(i) => Some(i as usize),
            None => None,
        }),
{
    let mut end: usize = s.len();
    while end > 0
        invariant
            end <= s@.len(),
            last_occurrence(s@, pat@) == last_occurrence_before(s@, pat@, end as int),
        decreases end,
    {
        let i = end - 1;
        if pat.len() <= s.len() - i {
            if slice_equals(s, i, i + pat.len(), pat) {
                return Some(i);
            }
        }
        end = i;
    }
    None
}

/// The index of the first character of `s` at or after `from` that
/// satisfies `p`, if any.
pub open spec fn first_index_from(s: Seq<char>, from: int, p: spec_fn(char) -> bool) -> Option<
    int,
>
    decreases s.len() - from,
{
    if from < 0 || from >= s.len() {
        None
    } else if p(s[from]) {
        Some(from)
    } else {
        first_index_from(s, from + 1, p)
    }
}

/// The number of leading ASCII digits of `s[from..]`.
pub open spec fn digit_run(s: Seq<char>, from: int) -> nat
    decreases s.len() - from,
{
    if from < 0 || from >= s.len() || !is_digit(s[from]) {
        0
    } else {
        1 + digit_run(s, from + 1)
    }
}

pub proof fn lemma_digit_run(s: Seq<char>, from: int)
    requires
        0 <= from <= s.len(),
    ensures
        from + digit_run(s, from) <= s.len(),
        all_digits(s.subrange(from, from + digit_run(s, from))),
        from + digit_run(s, from) < s.len() ==> !is_digit(s[from + digit_run(s, from)]),
    decreases s.len() - from,
{
    if from < s.len() && is_digit(s[from]) {
        lemma_digit_run(s, from + 1);
        assert(s.subrange(from, from + digit_run(s, from)) =~= seq![s[from]] + s.subrange(
            from + 1,
            from + 1 + digit_run(s, from + 1),
        ));
    }
}

/// The number of leading ASCII digits of `s[from..]`.
pub fn count_digits(s: &Vec<char>, from: usize) -> (n: usize)
    requires
        from <= s@.len(),
    ensures
        n == digit_run(s@, from as int),
        from + n <= s@.len(),
{
    let mut k: usize = from;
    while k < s.len() && char_is_digit(s[k])
        invariant
            from <= k <= s@.len(),
            digit_run(s@, from as int) == (k - from) + digit_run(s@, k as int),
        decreases s@.len() - k,
    {
        k = k + 1;
    }
    k - from
}

// ---------------------------------------------------------------------------
// Trimming
// ---------------------------------------------------------------------------

/// `s` without its leading characters that satisfy `p`.
pub open spec fn trim_start_while(s: Seq<char>, p: spec_fn(char) -> bool) -> Seq<char>
    decreases s.len(),
{
    if s.len() > 0 && p(s[0]) {
        trim_start_while(s.drop_first(), p)
    } else {
        s
    }
}

/// `s` without its trailing characters that satisfy `p`.
pub open spec fn trim_end_while(s: Seq<char>, p: spec_fn(char) -> bool) -> Seq<char>
    decreases s.len(),
{
    if s.len() > 0 && p(s.last()) {
        trim_end_while(s.drop_last(), p)
    } else {
        s
    }
}

/// What `str::trim` returns: `s` without leading and trailing whitespace.
pub open spec fn trim(s: Seq<char>) -> Seq<char> {
    trim_end_while(trim_start_while(s, |c: char| is_whitespace(c)), |c: char| is_whitespace(c))
}

pub proof fn lemma_trim_end_while_prefix(s: Seq<char>, p: spec_fn(char) -> bool)
    ensures
        trim_end_while(s, p).len() <= s.len(),
        trim_end_while(s, p) =~= s.take(trim_end_while(s, p).len() as int),
        trim_end_while(s, p).len() > 0 ==> !p(trim_end_while(s, p).last()),
        forall|j: int| trim_end_while(s, p).len() <= j < s.len() ==> p(#[trigger] s[j]),
    decreases s.len(),
{
    if s.len() > 0 && p(s.last()) {
        lemma_trim_end_while_prefix(s.drop_last(), p);
        let t = trim_end_while(s, p);
        assert(t =~= s.drop_last().take(t.len() as int));
        assert forall|j: int| t.len() <= j < s.len() implies p(#[trigger] s[j]) by {
            if j < s.len() - 1 {
                assert(s[j] == s.drop_last()[j]);
            }
        }
    }
}

pub proof fn lemma_trim_start_while_suffix(s: Seq<char>, p: spec_fn(char) -> bool)
    ensures
        trim_start_while(s, p).len() <= s.len(),
        trim_start_while(s, p) =~= s.skip(s.len() - trim_start_while(s, p).len()),
        trim_start_while(s, p).len() > 0 ==> !p(trim_start_while(s, p)[0]),
        forall|j: int| 0 <= j < s.len() - trim_start_while(s, p).len() ==> p(#[trigger] s[j]),
    decreases s.len(),
{
    if s.len() > 0 && p(s[0]) {
        lemma_trim_start_while_suffix(s.drop_first(), p);
        assert forall|j: int| 0 <= j < s.len() - trim_start_while(s, p).len() implies p(
            #[trigger] s[j],
        ) by {
            if j > 0 {
                assert(s[j] == s.drop_first()[j - 1]);
            }
        }
    }
}

/// The bounds of `trim(s[lo..hi])` inside `s`.
pub fn trim_bounds(s: &Vec<char>, lo: usize, hi: usize) -> (r: (usize, usize))
    requires
        lo <= hi <= s@.len(),
    ensures
        lo <= r.0 <= r.1 <= hi,
        s@.subrange(r.0 as int, r.1 as int) == trim(s@.subrange(lo as int, hi as int)),
{
    let ghost ws = |c: char| is_whitespace(c);
    let mut a: usize = lo;
    while a < hi && char_is_whitespace(s[a])
        invariant
            lo <= a <= hi <= s@.len(),
            ws == (|c: char| is_whitespace(c)),
            trim_start_while(s@.subrange(lo as int, hi as int), ws) == trim_start_while(
                s@.subrange(a as int, hi as int),
                ws,
            ),
        decreases hi - a,
    {
        assert(s@.subrange(a as int, hi as int).drop_first() =~= s@.subrange(a + 1, hi as int));
        assert(s@.subrange(a as int, hi as int)[0] == s@[a as int]);
        assert(ws(s@[a as int]));
        a = a + 1;
    }
    assert(trim_start_while(s@.subrange(a as int, hi as int), ws) == s@.subrange(
        a as int,
        hi as int,
    ));
    let mut b: usize = hi;
    while b > a && char_is_whitespace(s[b - 1])
        invariant
            lo <= a <= b <= hi <= s@.len(),
            ws == (|c: char| is_whitespace(c)),
            trim_end_while(s@.subrange(a as int, hi as int), ws) == trim_end_while(
                s@.subrange(a as int, b as int),
                ws,
            ),
        decreases b - a,
    {
        assert(s@.subrange(a as int, b as int).drop_last() =~= s@.subrange(a as int, b - 1));
        assert(s@.subrange(a as int, b as int).last() == s@[b - 1]);
        assert(ws(s@[b - 1]));
        b = b - 1;
    }
    (a, b)
}

/// What `trim_end_matches(['-', '_', ' '])` returns.
pub open spec fn trim_end_marks_spec(s: Seq<char>) -> Seq<char> {
    trim_end_while(s, |c: char| is_separator_mark(c))
}

/// The end of `trim_end_marks_spec(s[lo..hi])` inside `s`.
pub fn trim_end_marks(s: &Vec<char>, lo: usize, hi: usize) -> (r: usize)
    requires
        lo <= hi <= s@.len(),
    ensures
        lo <= r <= hi,
        s@.subrange(lo as int, r as int) == trim_end_marks_spec(s@.subrange(lo as int, hi as int)),
{
    let ghost p = |c: char| is_separator_mark(c);
    let mut b: usize = hi;
    while b > lo && is_separator_mark_exec(s[b - 1])
        invariant
            lo <= b <= hi <= s@.len(),
            p == (|c: char| is_separator_mark(c)),
            trim_end_while(s@.subrange(lo as int, hi as int), p) == trim_end_while(
                s@.subrange(lo as int, b as int),
                p,
            ),
        decreases b - lo,
    {
        assert(s@.subrange(lo as int, b as int).drop_last() =~= s@.subrange(lo as int, b - 1));
        assert(s@.subrange(lo as int, b as int).last() == s@[b - 1]);
        assert(p(s@[b - 1]));
        b = b - 1;
    }
    b
}

/// The characters that `trim_end_matches(['-', '_', ' '])` removes.
pub open spec fn is_separator_mark(c: char) -> bool {
    c == '-' || c == '_' || c == ' '
}

pub fn is_separator_mark_exec(c: char) -> (r: bool)
    ensures
        r == is_separator_mark(c),
{
    c == '-' || c == '_' || c == ' '
}

// ---------------------------------------------------------------------------
// Decimal integers
// ---------------------------------------------------------------------------

/// Every character of `s` is an ASCII digit.
pub open spec fn all_digits(s: Seq<char>) -> bool {
    forall|i: int| 0 <= i < s.len() ==> is_digit(#[trigger] s[i])
}

/// The value of a string of ASCII digits, read in base ten.
pub open spec fn digits_value(s: Seq<char>) -> int
    decreases s.len(),
{
    if s.len() == 0 {
        0
    } else {
        10 * digits_value(s.drop_last()) + digit_value(s.last())
    }
}

/// What `FromStr` for a Rust integer type reads from `s` before it checks the
/// range of the type: an optional `+` (or, for a signed type, `-`) followed by
/// one or more ASCII digits. `None` for any other text.
pub open spec fn decimal_value(s: Seq<char>, signed: bool) -> Option<int> {
    if s.len() == 0 {
        None
    } else if s[0] == '+' || (signed && s[0] == '-') {
        let d = s.drop_first();
        if d.len() > 0 && all_digits(d) {
            Some(
                if s[0] == '-' {
                    -digits_value(d)
                } else {
                    digits_value(d)
                },
            )
        } else {
            None
        }
    } else if all_digits(s) {
        Some(digits_value(s))
    } else {
        None
    }
}

/// What `s.parse::<i32>()` yields, as an `Option`.
pub open spec fn parse_i32(s: Seq<char>) -> Option<i32> {
    match decimal_value(s, true) {
        Some(v) => if i32::MIN <= v <= i32::MAX {
            Some(v as i32)
        } else {
            None
        },
        None => None,
    }
}

/// What `s.parse::<u64>()` yields, as an `Option`.
pub open spec fn parse_u64(s: Seq<char>) -> Option<u64> {
    match decimal_value(s, false) {
        Some(v) => if 0 <= v <= u64::MAX {
            Some(v as u64)
        } else {
            None
        },
        None => None,
    }
}

pub proof fn lemma_digits_value_nonneg(s: Seq<char>)
    requires
        all_digits(s),
    ensures
        digits_value(s) >= 0,
    decreases s.len(),
{
    if s.len() > 0 {
        lemma_digits_value_nonneg(s.drop_last());
    }
}

/// Appending digits never makes the value smaller.
pub proof fn lemma_digits_value_prefix(s: Seq<char>, k: int)
    requires
        all_digits(s),
        0 <= k <= s.len(),
    ensures
        digits_value(s.take(k)) <= digits_value(s),
    decreases s.len(),
{
    if k < s.len() {
        assert(s.drop_last().take(k) =~= s.take(k));
        lemma_digits_value_prefix(s.drop_last(), k);
        lemma_digits_value_nonneg(s.drop_last());
    } else {
        assert(s.take(k) =~= s);
    }
}

/// The value of the digits `s[lo..hi]` when they are one or more ASCII
/// digits whose value is at most `cap`; `None` otherwise.
pub fn digits_value_capped(s: &Vec<char>, lo: usize, hi: usize, cap: u64) -> (r: Option<u64>)
    requires
        lo <= hi <= s@.len(),
    ensures
        r == (if hi > lo && all_digits(s@.subrange(lo as int, hi as int)) && digits_value(
            s@.subrange(lo as int, hi as int),
        ) <= cap {
            Some(digits_value(s@.subrange(lo as int, hi as int)) as u64)
        } else {
            None
        }),
        r matches Some(v) ==> v <= cap && v == digits_value(s@.subrange(lo as int, hi as int)),
{
    if hi == lo {
        return None;
    }
    let ghost whole = s@.subrange(lo as int, hi as int);
    let mut acc: u64 = 0;
    let mut i: usize = lo;
    while i < hi
        invariant
            lo <= i <= hi <= s@.len(),
            whole == s@.subrange(lo as int, hi as int),
            all_digits(s@.subrange(lo as int, i as int)),
            acc == digits_value(s@.subrange(lo as int, i as int)),
            acc <= cap,
        decreases hi - i,
    {
        let c = s[i];
        assert(s@.subrange(lo as int, i + 1).drop_last() =~= s@.subrange(lo as int, i as int));
        assert(s@.subrange(lo as int, i + 1).last() == c);
        if !char_is_digit(c) {
            assert(whole[i - lo] == c);
            return None;
        }
        let d = (c as u32 - '0' as u32) as u64;
        let next: u128 = acc as u128 * 10 + d as u128;
        if next > cap as u128 {
            proof {
                assert(whole.take(i + 1 - lo) =~= s@.subrange(lo as int, i + 1));
                if all_digits(whole) {
                    lemma_digits_value_prefix(whole, i + 1 - lo);
                }
            }
            return None;
        }
        acc = next as u64;
        i = i + 1;
        assert(all_digits(s@.subrange(lo as int, i as int)));
    }
    assert(s@.subrange(lo as int, i as int) == whole);
    Some(acc)
}

/// `s[lo..hi].parse::<i32>().ok()`.
pub fn parse_i32_slice(s: &Vec<char>, lo: usize, hi: usize) -> (r: Option<i32>)
    requires
        lo <= hi <= s@.len(),
    ensures
        r == parse_i32(s@.subrange(lo as int, hi as int)),
{
    let ghost t = s@.subrange(lo as int, hi as int);
    if hi == lo {
        return None;
    }
    let first = s[lo];
    assert(t[0] == first);
    if first == '+' || first == '-' {
        assert(t.drop_first() =~= s@.subrange(lo + 1, hi as int));
        let neg = first == '-';
        let cap: u64 = if neg {
            2147483648
        } else {
            2147483647
        };
        match digits_value_capped(s, lo + 1, hi, cap) {
            Some(v) => {
                if neg {
                    if v == 2147483648 {
                        Some(i32::MIN)
                    } else {
                        Some(-(v as i32))
                    }
                } else {
                    Some(v as i32)
                }
            },
            None => {
                proof {
                    let d = s@.subrange(lo + 1, hi as int);
                    if d.len() > 0 && all_digits(d) {
                        lemma_digits_value_nonneg(d);
                    }
                }
                None
            },
        }
    } else {
        match digits_value_capped(s, lo, hi, 2147483647) {
            Some(v) => Some(v as i32),
            None => {
                proof {
                    if all_digits(t) {
                        lemma_digits_value_nonneg(t);
                    }
                }
                None
            },
        }
    }
}

/// `s[lo..hi].parse::<u64>().ok()`.
pub fn parse_u64_slice(s: &Vec<char>, lo: usize, hi: usize) -> (r: Option<u64>)
    requires
        lo <= hi <= s@.len(),
    ensures
        r == parse_u64(s@.subrange(lo as int, hi as int)),
{
    let ghost t = s@.subrange(lo as int, hi as int);
    if hi == lo {
        return None;
    }
    let first = s[lo];
    assert(t[0] == first);
    if first == '+' {
        assert(t.drop_first() =~= s@.subrange(lo + 1, hi as int));
        let r = digits_value_capped(s, lo + 1, hi, u64::MAX);
        proof {
            let d = s@.subrange(lo + 1, hi as int);
            if d.len() > 0 && all_digits(d) {
                lemma_digits_value_nonneg(d);
            }
        }
        r
    } else {
        let r = digits_value_capped(s, lo, hi, u64::MAX);
        proof {
            if all_digits(t) {
                lemma_digits_value_nonneg(t);
            }
        }
        r
    }
}

// ---------------------------------------------------------------------------
// Decimal rendering
// ---------------------------------------------------------------------------

/// The ASCII digit for `d` (`0 <= d < 10`).
pub open spec fn digit_char(d: nat) -> char {
    if d == 0 {
        '0'
    } else if d == 1 {
        '1'
    } else if d == 2 {
        '2'
    } else if d == 3 {
        '3'
    } else if d == 4 {
        '4'
    } else if d == 5 {
        '5'
    } else if d == 6 {
        '6'
    } else if d == 7 {
        '7'
    } else if d == 8 {
        '8'
    } else {
        '9'
    }
}

/// The decimal rendering of `n` without leading zeros, as `u64::to_string`
/// writes it.
pub open spec fn decimal(n: nat) -> Seq<char>
    decreases n,
{
    if n < 10 {
        seq![digit_char(n)]
    } else {
        decimal(n / 10).push(digit_char(n % 10))
    }
}

fn digit_str(d: u64) -> (r: &'static str)
    requires
        d < 10,
    ensures
        r@ == seq![digit_char(d as nat)],
{
    proof {
        reveal_strlit("0");
        reveal_strlit("1");
        reveal_strlit("2");
        reveal_strlit("3");
        reveal_strlit("4");
        reveal_strlit("5");
        reveal_strlit("6");
        reveal_strlit("7");
        reveal_strlit("8");
        reveal_strlit("9");
    }
    if d == 0 {
        "0"
    } else if d == 1 {
        "1"
    } else if d == 2 {
        "2"
    } else if d == 3 {
        "3"
    } else if d == 4 {
        "4"
    } else if d == 5 {
        "5"
    } else if d == 6 {
        "6"
    } else if d == 7 {
        "7"
    } else if d == 8 {
        "8"
    } else {
        "9"
    }
}

/// The decimal text of `n`.
pub fn decimal_string(n: u64) -> (r: String)
    ensures
        r@ == decimal(n as nat),
    decreases n,
{
    if n < 10 {
        String::from_str(digit_str(n))
    } else {
        let mut r = decimal_string(n / 10);
        r.append(digit_str(n % 10));
        r
    }
}

/// The texts of a list of strings.
pub open spec fn strings_view(v: Seq<String>) -> Seq<Seq<char>> {
    v.map_values(|s: String| s@)
}

proof fn lemma_decimal_digits(n: nat)
    ensures
        decimal(n).len() > 0,
        all_digits(decimal(n)),
        digits_value(decimal(n)) == n,
    decreases n,
{
    assert(forall|k: nat| k < 10 ==> digit_value(#[trigger] digit_char(k)) == k);
    if n < 10 {
        assert(decimal(n).drop_last() =~= Seq::<char>::empty());
        assert(digits_value(Seq::<char>::empty()) == 0);
        assert(digits_value(decimal(n)) == 10 * digits_value(decimal(n).drop_last()) + digit_value(
            digit_char(n),
        ));
    } else {
        lemma_decimal_digits(n / 10);
        let d = decimal(n / 10);
        assert(decimal(n).drop_last() =~= d);
        assert(decimal(n).last() == digit_char(n % 10));
        assert(n == 10 * (n / 10) + n % 10) by (nonlinear_arith);
        assert(digits_value(decimal(n)) == 10 * digits_value(d) + digit_value(digit_char(n % 10)));
        assert forall|i: int| 0 <= i < decimal(n).len() implies is_digit(#[trigger] decimal(n)[i]) by {
            if i < d.len() {
                assert(decimal(n)[i] == d[i]);
            }
        }
    }
}

/// Rendering a number in decimal and reading it back with `parse::<u64>()`
/// gives the number again.
pub proof fn law_decimal_parses_back(n: u64)
    ensures
        parse_u64(decimal(n as nat)) == Some(n),
{
    lemma_decimal_digits(n as nat);
    assert(is_digit(decimal(n as nat)[0]));
}

/// The last `c` of `a + [c] + b`, when `b` holds no `c`, is the one after `a`.
pub proof fn lemma_last_index_after(a: Seq<char>, c: char, b: Seq<char>)
    requires
        !b.contains(c),
    ensures
        last_index_of(a + seq![c] + b, c) == Some(a.len() as int),
    decreases b.len(),
{
    let s = a + seq![c] + b;
    if b.len() == 0 {
        assert(s.last() == c);
    } else {
        assert(s.last() == b.last());
        assert(!(b.last() == c)) by {
            assert(b[b.len() - 1] == b.last());
        }
        assert(!b.drop_last().contains(c)) by {
            if b.drop_last().contains(c) {
                let k = choose|k: int| 0 <= k < b.drop_last().len() && b.drop_last()[k] == c;
                assert(b[k] == c);
            }
        }
        lemma_last_index_after(a, c, b.drop_last());
        assert(s.drop_last() =~= a + seq![c] + b.drop_last());
    }
}

// ---------------------------------------------------------------------------
// UTF-8 byte positions
// ---------------------------------------------------------------------------

/// The UTF-8 encoding of a concatenation is the concatenation of the
/// encodings.
pub proof fn lemma_encode_utf8_concat(a: Seq<char>, b: Seq<char>)
    ensures
        encode_utf8(a + b) == encode_utf8(a) + encode_utf8(b),
    decreases a.len(),
{
    if a.len() == 0 {
        assert(a + b =~= b);
        assert(encode_utf8(a) =~= Seq::<u8>::empty());
        assert(encode_utf8(a) + encode_utf8(b) =~= encode_utf8(b));
    } else {
        assert((a + b).drop_first() =~= a.drop_first() + b);
        assert((a + b)[0] == a[0]);
        lemma_encode_utf8_concat(a.drop_first(), b);
        assert(encode_utf8(a + b) =~= encode_utf8(a) + encode_utf8(b));
    }
}

/// The number of bytes that `c` takes in UTF-8.
pub fn utf8_width(c: char) -> (r: usize)
    ensures
        r == encode_scalar(c as u32).len(),
{
    proof {
        char_is_scalar(c);
    }
    let v = c as u32;
    if v < 0x80 {
        1
    } else if v < 0x800 {
        2
    } else if v < 0x10000 {
        3
    } else {
        4
    }
}

/// The byte position in the UTF-8 text of `s` at which character `k` starts.
pub open spec fn byte_offset(s: Seq<char>, k: int) -> nat {
    encode_utf8(s.take(k)).len()
}

/// The byte position at which character `k` of `v` starts, when the whole
/// text takes at most `total` bytes.
pub fn byte_offset_of(v: &Vec<char>, k: usize, total: usize) -> (r: usize)
    requires
        k <= v@.len(),
        encode_utf8(v@).len() <= total,
    ensures
        r == byte_offset(v@, k as int),
{
    let mut acc: usize = 0;
    let mut j: usize = 0;
    proof {
        assert(v@.take(0) =~= Seq::<char>::empty());
        assert(encode_utf8(v@.take(0)) =~= Seq::<u8>::empty());
    }
    while j < k
        invariant
            j <= k <= v@.len(),
            encode_utf8(v@).len() <= total,
            acc == byte_offset(v@, j as int),
        decreases k - j,
    {
        proof {
            assert(v@.take(j + 1) =~= v@.take(j as int) + seq![v@[j as int]]);
            lemma_encode_utf8_concat(v@.take(j as int), seq![v@[j as int]]);
            let one = seq![v@[j as int]];
            assert(one.drop_first() =~= Seq::<char>::empty());
            assert(encode_utf8(Seq::<char>::empty()) =~= Seq::<u8>::empty());
            assert(one[0] == v@[j as int]);
            assert(encode_utf8(one) =~= encode_scalar(v@[j as int] as u32));
            assert(v@ =~= v@.take(j + 1) + v@.skip(j + 1));
            lemma_encode_utf8_concat(v@.take(j + 1), v@.skip(j + 1));
        }
        acc = acc + utf8_width(v[j]);
        j = j + 1;
    }
    acc
}

} // verus!
