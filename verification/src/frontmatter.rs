//! The metadata header: an optional block at the start of a content file,
//! opened by `---`, holding `key: value` lines, and closed by a line that
//! starts with `-` (or by the end of the file).
//!
//! The whole header grammar is stated as spec functions over the file's
//! characters; `read_frontmatter` is proved to compute exactly that.

use vstd::prelude::*;

use vstd::map::*;

use crate::text::{
    find_char_from, index_of_from, lemma_find_char_from, occurs_at, starts_with_at, str_eq,
    substr_string,
};

verus! {

/// Does the text open with the `---` header delimiter?
pub open spec fn header_open(s: Seq<char>) -> bool {
    occurs_at(s, 0, "---"@)
}

/// One past the end of the line that starts at `i`: just after the next
/// newline, or the end of the text.
pub open spec fn line_end(s: Seq<char>, i: int) -> int {
    let f = find_char_from(s, i, '\n');
    if f < s.len() {
        f + 1
    } else {
        s.len() as int
    }
}

pub proof fn lemma_line_end(s: Seq<char>, i: int)
    requires
        0 <= i < s.len(),
    ensures
        i < line_end(s, i) <= s.len(),
{
    lemma_find_char_from(s, i, '\n');
}

/// The characters counted as blank when keys and values are trimmed:
/// the Unicode white-space set that `str::trim` removes.
pub open spec fn is_blank(c: char) -> bool {
    ||| c == '\t'
    ||| c == '\n'
    ||| c == '\u{000B}'
    ||| c == '\u{000C}'
    ||| c == '\r'
    ||| c == ' '
    ||| c == '\u{0085}'
    ||| c == '\u{00A0}'
    ||| c == '\u{1680}'
    ||| c == '\u{2000}'
    ||| c == '\u{2001}'
    ||| c == '\u{2002}'
    ||| c == '\u{2003}'
    ||| c == '\u{2004}'
    ||| c == '\u{2005}'
    ||| c == '\u{2006}'
    ||| c == '\u{2007}'
    ||| c == '\u{2008}'
    ||| c == '\u{2009}'
    ||| c == '\u{200A}'
    ||| c == '\u{2028}'
    ||| c == '\u{2029}'
    ||| c == '\u{202F}'
    ||| c == '\u{205F}'
    ||| c == '\u{3000}'
}

/// Is `c` counted as blank by the trimming rule?
fn blank(c: char) -> (r: bool)
    ensures
        r == is_blank(c),
{
    c == '\t' || c == '\n' || c == '\u{000B}' || c == '\u{000C}' || c == '\r' || c == ' ' || c
        == '\u{0085}' || c == '\u{00A0}' || c == '\u{1680}' || c == '\u{2000}' || c == '\u{2001}'
        || c == '\u{2002}' || c == '\u{2003}' || c == '\u{2004}' || c == '\u{2005}' || c
        == '\u{2006}' || c == '\u{2007}' || c == '\u{2008}' || c == '\u{2009}' || c == '\u{200A}'
        || c == '\u{2028}' || c == '\u{2029}' || c == '\u{202F}' || c == '\u{205F}' || c
        == '\u{3000}'
}

/// First index in `[i, j)` holding a non-blank character, or `j`.
pub open spec fn trim_from(s: Seq<char>, i: int, j: int) -> int
    decreases j - i,
{
    if i >= j {
        j
    } else if is_blank(s[i]) {
        trim_from(s, i + 1, j)
    } else {
        i
    }
}

/// Upper bound of `[i, j)` with trailing blank characters dropped,
/// never below `i`.
pub open spec fn trim_to(s: Seq<char>, i: int, j: int) -> int
    decreases j - i,
{
    if j <= i {
        i
    } else if is_blank(s[j - 1]) {
        trim_to(s, i, j - 1)
    } else {
        j
    }
}

/// The text between `i` and `j` with blank characters trimmed off both ends.
pub open spec fn trimmed(s: Seq<char>, i: int, j: int) -> Seq<char> {
    let a = trim_from(s, i, j);
    let b = trim_to(s, a, j);
    s.subrange(a, b)
}

/// The mapping contributed by the header lines from `i` on: a line whose
/// first character is `-` closes the header; a line with a colon binds its
/// trimmed key to its trimmed value, later lines winning over earlier ones;
/// a line without a colon is skipped.
pub open spec fn fm_entries(s: Seq<char>, i: int) -> Map<Seq<char>, Seq<char>>
    decreases s.len() - i,
{
    if i < 0 || i >= s.len() {
        Map::empty()
    } else if s[i] == '-' {
        Map::empty()
    } else {
        proof {
            lemma_line_end(s, i);
        }
        let e = line_end(s, i);
        let rest = fm_entries(s, e);
        let c = find_char_from(s, i, ':');
        if c < e {
            let k = trimmed(s, i, c);
            let v = trimmed(s, c + 1, e);
            if rest.dom().contains(k) {
                rest
            } else {
                rest.insert(k, v)
            }
        } else {
            rest
        }
    }
}

/// Where the body begins when the header lines start at `i`: just after
/// the closing line, or at the end of the text.
pub open spec fn fm_body(s: Seq<char>, i: int) -> int
    decreases s.len() - i,
{
    if i < 0 || i >= s.len() {
        s.len() as int
    } else {
        proof {
            lemma_line_end(s, i);
        }
        let e = line_end(s, i);
        if s[i] == '-' {
            e
        } else {
            fm_body(s, e)
        }
    }
}

/// The metadata mapping of a whole file.
pub open spec fn frontmatter_map(s: Seq<char>) -> Map<Seq<char>, Seq<char>> {
    if header_open(s) {
        fm_entries(s, 3)
    } else {
        Map::empty()
    }
}

/// The character index where a whole file's body begins.
pub open spec fn body_start(s: Seq<char>) -> int {
    if header_open(s) {
        fm_body(s, 3)
    } else {
        0
    }
}

/// The body of a whole file: its text from `body_start` on.
pub open spec fn body_chars(s: Seq<char>) -> Seq<char> {
    s.subrange(body_start(s), s.len() as int)
}

/// A file with no opening `---` delimiter has an empty metadata mapping,
/// and its body is the entire file content.
pub proof fn lemma_no_header_all_body(s: Seq<char>)
    requires
        !header_open(s),
    ensures
        frontmatter_map(s) == Map::<Seq<char>, Seq<char>>::empty(),
        body_start(s) == 0,
        body_chars(s) == s,
{
    assert(body_chars(s) =~= s);
}

/// The metadata of one content item: string keys mapped to string values.
/// Key order is the order of appearance; a key bound twice is looked up
/// at its later binding.
pub struct Frontmatter {
    pub pairs: Vec<(String, String)>,
}

/// The mapping that a pair list denotes: pairs bind in order, so a later
/// pair wins over an earlier one with the same key.
pub open spec fn pairs_map(ps: Seq<(String, String)>) -> Map<Seq<char>, Seq<char>>
    decreases ps.len(),
{
    if ps.len() == 0 {
        Map::empty()
    } else {
        pairs_map(ps.drop_last()).insert(ps.last().0@, ps.last().1@)
    }
}

impl View for Frontmatter {
    type V = Map<Seq<char>, Seq<char>>;

    open spec fn view(&self) -> Map<Seq<char>, Seq<char>> {
        pairs_map(self.pairs@)
    }
}

impl Frontmatter {
    /// An empty mapping.
    pub fn new() -> (r: Frontmatter)
        ensures
            r@ == Map::<Seq<char>, Seq<char>>::empty(),
            r.pairs@.len() == 0,
    {
        Frontmatter { pairs: Vec::new() }
    }

    /// Bind `key` to `value`, shadowing any earlier binding of `key`.
    pub fn insert(&mut self, key: String, value: String)
        ensures
            final(self)@ == old(self)@.insert(key@, value@),
            final(self).pairs@.len() == old(self).pairs@.len() + 1,
    {
        let ghost before = self.pairs@;
        self.pairs.push((key, value));
        proof {
            assert(self.pairs@.drop_last() =~= before);
        }
    }

    /// The value bound to `key`, if any.
    pub fn get(&self, key: &str) -> (r: Option<&String>)
        ensures
            match r {
                Some(v) => self@.dom().contains(key@) && v@ == self@[key@],
                None => !self@.dom().contains(key@),
            },
    {
        let mut i: usize = self.pairs.len();
        proof {
            assert(self.pairs@.subrange(0, i as int) =~= self.pairs@);
        }
        while i > 0
            invariant
                i <= self.pairs@.len(),
                pairs_map(self.pairs@).dom().contains(key@) == pairs_map(
                    self.pairs@.subrange(0, i as int),
                ).dom().contains(key@),
                pairs_map(self.pairs@).dom().contains(key@) ==> pairs_map(self.pairs@)[key@]
                    == pairs_map(self.pairs@.subrange(0, i as int))[key@],
            decreases i,
        {
            let ghost prefix = self.pairs@.subrange(0, i as int);
            proof {
                assert(prefix.drop_last() =~= self.pairs@.subrange(0, i - 1));
                assert(prefix.last() == self.pairs@[i - 1]);
            }
            if str_eq(self.pairs[i - 1].0.as_str(), key) {
                return Some(&self.pairs[i - 1].1);
            }
            i = i - 1;
        }
        proof {
            assert(self.pairs@.subrange(0, 0) =~= Seq::<(String, String)>::empty());
        }
        None
    }
}

/// First index in `[i, j)` of `s` holding a non-blank character, or `j`.
fn trim_start_idx(s: &str, i: usize, j: usize) -> (r: usize)
    requires
        i <= j <= s@.len(),
    ensures
        r == trim_from(s@, i as int, j as int),
        i <= r <= j,
{
    let mut k: usize = i;
    while k < j
        invariant
            i <= k <= j <= s@.len(),
            trim_from(s@, i as int, j as int) == trim_from(s@, k as int, j as int),
        decreases j - k,
    {
        if !blank(s.get_char(k)) {
            return k;
        }
        k = k + 1;
    }
    j
}

/// Upper bound of `[i, j)` in `s` with trailing blank characters dropped.
fn trim_end_idx(s: &str, i: usize, j: usize) -> (r: usize)
    requires
        i <= j <= s@.len(),
    ensures
        r == trim_to(s@, i as int, j as int),
        i <= r <= j,
{
    let mut k: usize = j;
    while k > i
        invariant
            i <= k <= j <= s@.len(),
            trim_to(s@, i as int, j as int) == trim_to(s@, i as int, k as int),
        decreases k,
    {
        if !blank(s.get_char(k - 1)) {
            return k;
        }
        k = k - 1;
    }
    i
}

/// Extract the metadata header of a whole file: its mapping, and the
/// character index where the body begins. A file that does not open with
/// `---` is all body.
pub fn read_frontmatter(text: &str) -> (r: (Frontmatter, usize))
    ensures
        r.0@ == frontmatter_map(text@),
        r.1 == body_start(text@),
        r.1 <= text@.len(),
{
    let n: usize = text.unicode_len();
    if !starts_with_at(text, 0, "---") {
        let fm = Frontmatter::new();
        proof {
            assert(fm@ =~= frontmatter_map(text@));
        }
        return (fm, 0);
    }
    let mut fm = Frontmatter::new();
    let mut i: usize = 3;
    proof {
        assert(3 <= n) by {
            reveal_strlit("---");
        }
        assert(fm_entries(text@, 3) =~= fm@.union_prefer_right(fm_entries(text@, 3)));
    }
    while i < n
        invariant
            3 <= i <= n,
            n == text@.len(),
            fm_entries(text@, 3) == fm@.union_prefer_right(fm_entries(text@, i as int)),
            fm_body(text@, 3) == fm_body(text@, i as int),
            header_open(text@),
        decreases n - i,
    {
        proof {
            lemma_line_end(text@, i as int);
        }
        let f: usize = index_of_from(text, i, '\n');
        let e: usize = if f < n {
            f + 1
        } else {
            n
        };
        if text.get_char(i) == '-' {
            proof {
                assert(fm_entries(text@, i as int) =~= Map::<Seq<char>, Seq<char>>::empty());
                assert(fm_entries(text@, 3) =~= fm@);
            }
            return (fm, e);
        }
        let c: usize = index_of_from(text, i, ':');
        if c < e {
            proof {
                lemma_find_char_from(text@, i as int, ':');
            }
            let ka: usize = trim_start_idx(text, i, c);
            let kb: usize = trim_end_idx(text, ka, c);
            let key = substr_string(text, ka, kb);
            let va: usize = trim_start_idx(text, c + 1, e);
            let vb: usize = trim_end_idx(text, va, e);
            let value = substr_string(text, va, vb);
            let ghost before = fm@;
            fm.insert(key, value);
            proof {
                let s = text@;
                let k = trimmed(s, i as int, c as int);
                let v = trimmed(s, c as int + 1, e as int);
                assert(fm@ == before.insert(k, v));
                assert_maps_equal!(
                    before.insert(k, v).union_prefer_right(fm_entries(s, e as int)),
                    before.union_prefer_right(fm_entries(s, i as int))
                );
            }
        } else {
            proof {
                assert(fm_entries(text@, i as int) == fm_entries(text@, e as int));
            }
        }
        i = e;
    }
    proof {
        assert(fm_entries(text@, n as int) =~= Map::<Seq<char>, Seq<char>>::empty());
        assert(fm_entries(text@, 3) =~= fm@);
    }
    (fm, n)
}

} // verus!
