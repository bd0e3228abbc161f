//! File paths as text: the final component of a path and its extension,
//! following the path grammar of Unix (`/` separates components, empty and
//! `.` components are skipped, `..` names no file).
use vstd::prelude::*;
use crate::text::{
    chars_of, find_last_char, last_index_of, lemma_last_index_after, lemma_last_index_of,
    slice_equals_str, string_of,
};

verus! {

/// What a single path component names as a file: nothing for an empty
/// component, `.` or `..`; otherwise the component itself.
pub open spec fn component_file_name(seg: Seq<char>) -> Option<Seq<char>> {
    if seg.len() == 0 || seg == seq!['.'] || seg == seq!['.', '.'] {
        None
    } else {
        Some(seg)
    }
}

/// The final component of a path, as `Path::file_name` returns it on Unix:
/// trailing `/` and `.` components are skipped; a final `..`, a lone root
/// or an empty path name no file.
pub open spec fn file_name(p: Seq<char>) -> Option<Seq<char>>
    decreases p.len(),
{
    match last_index_of(p, '/') {
        None => component_file_name(p),
        Some(i) => if 0 <= i < p.len() {
            let seg = p.skip(i + 1);
            if seg.len() == 0 || seg == seq!['.'] {
                file_name(p.take(i))
            } else {
                component_file_name(seg)
            }
        } else {
            None
        },
    }
}

/// The extension of a file name, as `Path::extension` computes it from the
/// file name: the text after the last `.`, unless that `.` is the first
/// character (`.bashrc` has none) or there is no `.` at all.
pub open spec fn extension_of(name: Seq<char>) -> Option<Seq<char>> {
    match last_index_of(name, '.') {
        Some(i) => if i == 0 {
            None
        } else {
            Some(name.skip(i + 1))
        },
        None => None,
    }
}

/// The extension of the file that a path names.
pub open spec fn path_extension_spec(p: Seq<char>) -> Option<Seq<char>> {
    match file_name(p) {
        Some(n) => extension_of(n),
        None => None,
    }
}

/// The file name that the component `s[lo..hi]` names.
fn component_exec(path: &str, s: &Vec<char>, lo: usize, hi: usize) -> (r: Option<String>)
    requires
        lo <= hi <= s@.len(),
        s@ == path@,
    ensures
        r matches Some(n) ==> component_file_name(s@.subrange(lo as int, hi as int)) == Some(n@),
        r is None ==> component_file_name(s@.subrange(lo as int, hi as int)) is None,
{
    proof {
        reveal_strlit(".");
        reveal_strlit("..");
    }
    assert(seq!['.'] =~= "."@);
    assert(seq!['.', '.'] =~= ".."@);
    if hi == lo || slice_equals_str(s, lo, hi, ".") || slice_equals_str(s, lo, hi, "..") {
        None
    } else {
        Some(string_of(path, lo, hi))
    }
}

/// The final component of `path` (see [`file_name`]).
pub fn path_file_name(path: &str) -> (r: Option<String>)
    ensures
        r matches Some(n) ==> file_name(path@) == Some(n@),
        r is None ==> file_name(path@) is None,
{
    let s = chars_of(path);
    let len = s.len();
    let mut hi: usize = len;
    assert(s@.take(hi as int) =~= s@);
    loop
        invariant
            hi <= s@.len(),
            s@ == path@,
            file_name(path@) == file_name(s@.take(hi as int)),
        decreases hi,
    {
        proof {
            lemma_last_index_of(s@.take(hi as int), '/');
        }
        match find_last_char(&s, hi, '/') {
            None => {
                assert(s@.subrange(0, hi as int) =~= s@.take(hi as int));
                return component_exec(path, &s, 0, hi);
            },
            Some(i) => {
                assert(s@.take(hi as int).skip(i + 1) =~= s@.subrange(i + 1, hi as int));
                assert(s@.take(hi as int).take(i as int) =~= s@.take(i as int));
                proof {
                    reveal_strlit(".");
                }
                assert(seq!['.'] =~= "."@);
                if i + 1 == hi || slice_equals_str(&s, i + 1, hi, ".") {
                    hi = i;
                } else {
                    return component_exec(path, &s, i + 1, hi);
                }
            },
        }
    }
}

/// The extension of the file name `name` (see [`extension_of`]).
pub fn file_name_extension(name: &str) -> (r: Option<String>)
    ensures
        r matches Some(e) ==> extension_of(name@) == Some(e@),
        r is None ==> extension_of(name@) is None,
{
    let s = chars_of(name);
    let len = s.len();
    assert(s@.take(len as int) =~= s@);
    match find_last_char(&s, len, '.') {
        Some(i) => {
            proof {
                lemma_last_index_of(s@, '.');
            }
            if i == 0 {
                None
            } else {
                assert(s@.skip(i + 1) =~= s@.subrange(i + 1, len as int));
                Some(string_of(name, i + 1, len))
            }
        },
        None => None,
    }
}

/// The extension of the file that `path` names, as
/// `Path::new(path).extension()` gives it.
pub fn path_extension(path: &str) -> (r: Option<String>)
    ensures
        r matches Some(e) ==> path_extension_spec(path@) == Some(e@),
        r is None ==> path_extension_spec(path@) is None,
{
    match path_file_name(path) {
        Some(n) => file_name_extension(n.as_str()),
        None => None,
    }
}

/// `dir` joined with the relative or absolute path `rel`, as `Path::join`
/// does it on Unix: an absolute `rel` replaces `dir`; otherwise a `/` is put
/// between them unless `dir` is empty or already ends with one.
pub open spec fn join_spec(dir: Seq<char>, rel: Seq<char>) -> Seq<char> {
    if rel.len() > 0 && rel[0] == '/' {
        rel
    } else if dir.len() == 0 || dir.last() == '/' {
        dir + rel
    } else {
        dir + seq!['/'] + rel
    }
}

/// `dir` joined with `rel` (see [`join_spec`]).
pub fn join_path(dir: &str, rel: &str) -> (r: String)
    ensures
        r@ == join_spec(dir@, rel@),
{
    let d = chars_of(dir);
    let r = chars_of(rel);
    if r.len() > 0 && r[0] == '/' {
        return rel.to_owned();
    }
    let mut out = String::from_str(dir);
    if d.len() > 0 && d[d.len() - 1] != '/' {
        proof {
            reveal_strlit("/");
        }
        out.append("/");
    }
    out.append(rel);
    out
}

/// Joining a directory with a plain file name (not empty, no `/`, not `.`
/// or `..`) gives a path whose file name is that name.
pub proof fn law_join_then_file_name(dir: Seq<char>, name: Seq<char>)
    requires
        name.len() > 0,
        !name.contains('/'),
        name != seq!['.'],
        name != seq!['.', '.'],
    ensures
        file_name(join_spec(dir, name)) == Some(name),
{
    assert(name[0] != '/') by {
        if name[0] == '/' {
            assert(name.contains('/'));
        }
    }
    let p = join_spec(dir, name);
    if dir.len() == 0 {
        assert(p =~= name);
        lemma_last_index_of(name, '/');
        if last_index_of(name, '/') is Some {
            let i = last_index_of(name, '/')->0;
            assert(name.contains('/'));
        }
    } else if dir.last() == '/' {
        let a = dir.drop_last();
        assert(p =~= a + seq!['/'] + name);
        lemma_last_index_after(a, '/', name);
        assert(p.skip(a.len() as int + 1) =~= name);
    } else {
        lemma_last_index_after(dir, '/', name);
        assert(p.skip(dir.len() as int + 1) =~= name);
    }
}

/// `std::path::MAIN_SEPARATOR_STR`: the separator of path components on
/// the platform the program runs on, `\` on Windows and `/` elsewhere.
/// Which of the two is not stated.
#[verifier::external_body]
pub(crate) fn main_separator() -> (r: &'static str)
    ensures
        r@ == seq!['/'] || r@ == seq!['\\'],
{
    std::path::MAIN_SEPARATOR_STR
}

} // verus!
