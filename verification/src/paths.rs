//! Rules on relative, slash-separated source paths: hidden-file detection,
//! the recognized content-extension set, public slugs, and output locations.
//!
//! A path's final slash-separated segment is its file name; the name splits
//! at its last dot (not counting a leading dot) into stem and extension.
//! An extension is recognized when it begins with `md`, `html` or `tera`;
//! the rest of the extension is a tolerated trailing qualifier.

use vstd::prelude::*;

use crate::text::{
    lemma_rfind_char_before, occurs_at, rfind_char_before, rindex_of_before, starts_with_at,
    str_eq,
};

verus! {

/// Index of the last `/` in `p`, or `-1` when there is none.
pub open spec fn last_slash(p: Seq<char>) -> int {
    rfind_char_before(p, p.len() as int, '/')
}

/// Index where the file name (final segment) of `p` begins.
pub open spec fn name_start(p: Seq<char>) -> int {
    last_slash(p) + 1
}

/// The file name of `p`: everything after the last `/`.
pub open spec fn file_name_chars(p: Seq<char>) -> Seq<char> {
    p.subrange(name_start(p), p.len() as int)
}

/// A hidden path: its file name starts with a dot.
pub open spec fn hidden_path(p: Seq<char>) -> bool {
    file_name_chars(p).len() > 0 && file_name_chars(p)[0] == '.'
}

/// Index of the dot separating stem from extension in a file name,
/// or an index below 1 when the name has no extension. A dot in first
/// position opens a hidden name rather than an extension.
pub open spec fn ext_split(name: Seq<char>) -> int {
    rfind_char_before(name, name.len() as int, '.')
}

/// Does the file name have an extension?
pub open spec fn has_ext(name: Seq<char>) -> bool {
    ext_split(name) >= 1
}

/// The extension of a file name (meaningful only when `has_ext`).
pub open spec fn ext_chars(name: Seq<char>) -> Seq<char> {
    name.subrange(ext_split(name) + 1, name.len() as int)
}

/// The stem of a file name: what precedes its extension.
pub open spec fn stem_chars(name: Seq<char>) -> Seq<char> {
    if has_ext(name) {
        name.subrange(0, ext_split(name))
    } else {
        name
    }
}

/// A recognized content extension: `md`, `html` or `tera`, each with an
/// optional trailing qualifier.
pub open spec fn recognized_ext(e: Seq<char>) -> bool {
    ||| occurs_at(e, 0, "md"@)
    ||| occurs_at(e, 0, "html"@)
    ||| occurs_at(e, 0, "tera"@)
}

/// A content path: no extension at all, or a recognized one.
pub open spec fn content_path(p: Seq<char>) -> bool {
    !has_ext(file_name_chars(p)) || recognized_ext(ext_chars(file_name_chars(p)))
}

/// A path that the compiler accepts: a content path that is not hidden.
pub open spec fn compiled_path(p: Seq<char>) -> bool {
    !hidden_path(p) && content_path(p)
}

/// A path that the static-asset pass copies: not hidden, and carrying an
/// extension outside the recognized set.
pub open spec fn copied_path(p: Seq<char>) -> bool {
    &&& !hidden_path(p)
    &&& has_ext(file_name_chars(p))
    &&& !recognized_ext(ext_chars(file_name_chars(p)))
}

/// The public slug of a source path: a leading `/`, then the path with a
/// recognized extension stripped, and a then-bare trailing `index` segment
/// stripped as well. Paths without a recognized extension keep their text.
pub open spec fn slug_chars(p: Seq<char>) -> Seq<char> {
    let name = file_name_chars(p);
    if has_ext(name) && recognized_ext(ext_chars(name)) {
        if stem_chars(name) == "index"@ {
            seq!['/'] + p.subrange(0, name_start(p))
        } else {
            seq!['/'] + p.subrange(0, name_start(p) + ext_split(name))
        }
    } else {
        seq!['/'] + p
    }
}

/// `index`, in any mix of ASCII case.
pub open spec fn is_index_ci(s: Seq<char>) -> bool {
    &&& s.len() == 5
    &&& (s[0] == 'i' || s[0] == 'I')
    &&& (s[1] == 'n' || s[1] == 'N')
    &&& (s[2] == 'd' || s[2] == 'D')
    &&& (s[3] == 'e' || s[3] == 'E')
    &&& (s[4] == 'x' || s[4] == 'X')
}

/// The parent directory of `p`: everything before the last `/`, or empty.
pub open spec fn parent_chars(p: Seq<char>) -> Seq<char> {
    if last_slash(p) >= 0 {
        p.subrange(0, last_slash(p))
    } else {
        Seq::<char>::empty()
    }
}

/// The output directory for a source path, relative to the output root:
/// the parent directory, descending into a stem-named subdirectory unless
/// the stem is empty or `index` in any ASCII case.
pub open spec fn out_dir_chars(p: Seq<char>) -> Seq<char> {
    let parent = parent_chars(p);
    let stem = stem_chars(file_name_chars(p));
    if stem.len() == 0 || is_index_ci(stem) {
        parent
    } else if parent.len() == 0 {
        stem
    } else {
        parent + seq!['/'] + stem
    }
}

/// The output file for a source path, relative to the output root:
/// `index.html` inside its output directory.
pub open spec fn out_file_chars(p: Seq<char>) -> Seq<char> {
    if out_dir_chars(p).len() == 0 {
        "index.html"@
    } else {
        out_dir_chars(p) + seq!['/'] + "index.html"@
    }
}

/// Every slug begins with `/`.
pub proof fn lemma_slug_leads_with_slash(p: Seq<char>)
    ensures
        slug_chars(p).len() > 0,
        slug_chars(p)[0] == '/',
{
}

/// A hidden file never reaches either pass: it is neither compiled nor
/// copied. A file that is not hidden and carries an unrecognized
/// extension never becomes a content item, but the static-asset pass
/// copies it verbatim.
pub proof fn lemma_excluded_files(p: Seq<char>)
    ensures
        hidden_path(p) ==> !compiled_path(p) && !copied_path(p),
        (!hidden_path(p) && has_ext(file_name_chars(p)) && !recognized_ext(
            ext_chars(file_name_chars(p)),
        )) ==> !compiled_path(p) && copied_path(p),
{
}

/// Does the final slash-separated segment of `path` start with a dot?
pub fn is_hidden(path: &str) -> (r: bool)
    ensures
        r == hidden_path(path@),
{
    let n: usize = path.unicode_len();
    proof {
        lemma_rfind_char_before(path@, n as int, '/');
    }
    let start: usize = match rindex_of_before(path, n, '/') {
        Some(j) => j + 1,
        None => 0,
    };
    if start < n {
        path.get_char(start) == '.'
    } else {
        false
    }
}

/// The file name of `path`, with the bounds of the split established.
fn split_name(path: &str) -> (r: (usize, usize))
    ensures
        r.0 == name_start(path@),
        r.1 == path@.len(),
        r.0 <= r.1,
{
    let n: usize = path.unicode_len();
    proof {
        lemma_rfind_char_before(path@, n as int, '/');
    }
    let start: usize = match rindex_of_before(path, n, '/') {
        Some(j) => j + 1,
        None => 0,
    };
    (start, n)
}

/// Where the extension of the name `path[start..n]` begins, if anywhere:
/// the index of the splitting dot, relative to the name.
fn name_ext_split(path: &str, start: usize, n: usize) -> (r: Option<usize>)
    requires
        start == name_start(path@),
        n == path@.len(),
    ensures
        match r {
            Some(d) => {
                &&& d == ext_split(file_name_chars(path@))
                &&& has_ext(file_name_chars(path@))
                &&& 1 <= d < file_name_chars(path@).len()
            },
            None => !has_ext(file_name_chars(path@)),
        },
{
    proof {
        lemma_rfind_char_before(path@, path@.len() as int, '/');
    }
    let name: &str = path.substring_char(start, n);
    proof {
        assert(name@ =~= file_name_chars(path@));
        lemma_rfind_char_before(name@, name@.len() as int, '.');
    }
    let m: usize = name.unicode_len();
    match rindex_of_before(name, m, '.') {
        Some(d) => {
            if d >= 1 {
                Some(d)
            } else {
                None
            }
        },
        None => None,
    }
}

/// Is `path` accepted by the content compiler (not hidden, and bearing
/// no extension or a recognized one)?
pub fn should_compile(path: &str) -> (r: bool)
    ensures
        r == compiled_path(path@),
{
    if is_hidden(path) {
        return false;
    }
    let (start, n) = split_name(path);
    match name_ext_split(path, start, n) {
        None => true,
        Some(d) => {
            let name: &str = path.substring_char(start, n);
            proof {
                assert(name@ =~= file_name_chars(path@));
            }
            recognized(name, d)
        },
    }
}

/// Is the extension of `name`, beginning after the dot at `d`, recognized?
fn recognized(name: &str, d: usize) -> (r: bool)
    requires
        1 <= d < name@.len(),
        d == ext_split(name@),
    ensures
        r == recognized_ext(ext_chars(name@)),
{
    let m: usize = name.unicode_len();
    let ext: &str = name.substring_char(d + 1, m);
    proof {
        assert(ext@ =~= ext_chars(name@));
    }
    starts_with_at(ext, 0, "md") || starts_with_at(ext, 0, "html") || starts_with_at(
        ext,
        0,
        "tera",
    )
}

/// Does the static-asset pass copy `path` (not hidden, extension present
/// and not recognized)?
pub fn should_copy(path: &str) -> (r: bool)
    ensures
        r == copied_path(path@),
{
    if is_hidden(path) {
        return false;
    }
    let (start, n) = split_name(path);
    match name_ext_split(path, start, n) {
        None => false,
        Some(d) => {
            let name: &str = path.substring_char(start, n);
            proof {
                assert(name@ =~= file_name_chars(path@));
            }
            !recognized(name, d)
        },
    }
}

/// The public slug of `path`.
pub fn slug_of(path: &str) -> (r: String)
    ensures
        r@ == slug_chars(path@),
{
    let (start, n) = split_name(path);
    let slash = String::from_str("/");
    proof {
        reveal_strlit("/");
        assert(slash@ =~= seq!['/']);
    }
    match name_ext_split(path, start, n) {
        None => slash.concat(path),
        Some(d) => {
            let name: &str = path.substring_char(start, n);
            proof {
                assert(name@ =~= file_name_chars(path@));
            }
            if !recognized(name, d) {
                slash.concat(path)
            } else {
                let stem: &str = name.substring_char(0, d);
                proof {
                    assert(stem@ =~= stem_chars(name@));
                }
                if str_eq(stem, "index") {
                    slash.concat(path.substring_char(0, start))
                } else {
                    slash.concat(path.substring_char(0, start + d))
                }
            }
        },
    }
}

/// The output directory for `path`, relative to the output root.
pub fn output_dir_of(path: &str) -> (r: String)
    ensures
        r@ == out_dir_chars(path@),
{
    let (start, n) = split_name(path);
    let parent: &str = if start > 0 {
        path.substring_char(0, start - 1)
    } else {
        path.substring_char(0, 0)
    };
    proof {
        assert(parent@ =~= parent_chars(path@));
    }
    let name: &str = path.substring_char(start, n);
    proof {
        assert(name@ =~= file_name_chars(path@));
    }
    let m: usize = name.unicode_len();
    let stem: &str = match name_ext_split(path, start, n) {
        Some(d) => name.substring_char(0, d),
        None => name,
    };
    proof {
        assert(stem@ =~= stem_chars(name@));
    }
    if stem.unicode_len() == 0 || stem_is_index_ci(stem) {
        String::from_str(parent)
    } else if parent.unicode_len() == 0 {
        String::from_str(stem)
    } else {
        proof {
            reveal_strlit("/");
        }
        let joined = String::from_str(parent).concat("/").concat(stem);
        proof {
            assert("/"@ =~= seq!['/']);
            assert(joined@ =~= parent_chars(path@) + seq!['/'] + stem_chars(file_name_chars(path@)));
        }
        joined
    }
}

/// The output file for `path`, relative to the output root.
pub fn output_file_of(path: &str) -> (r: String)
    ensures
        r@ == out_file_chars(path@),
{
    let dir = output_dir_of(path);
    if dir.as_str().unicode_len() == 0 {
        String::from_str("index.html")
    } else {
        proof {
            reveal_strlit("/");
            assert("/"@ =~= seq!['/']);
        }
        dir.concat("/").concat("index.html")
    }
}

/// Is `s` the word `index` in any mix of ASCII case?
fn stem_is_index_ci(s: &str) -> (r: bool)
    ensures
        r == is_index_ci(s@),
{
    if s.unicode_len() != 5 {
        return false;
    }
    let c0 = s.get_char(0);
    let c1 = s.get_char(1);
    let c2 = s.get_char(2);
    let c3 = s.get_char(3);
    let c4 = s.get_char(4);
    (c0 == 'i' || c0 == 'I') && (c1 == 'n' || c1 == 'N') && (c2 == 'd' || c2 == 'D') && (c3 == 'e'
        || c3 == 'E') && (c4 == 'x' || c4 == 'X')
}

} // verus!
