//! Character-level helpers over `&str`, with their mathematical
//! counterparts as spec functions over `Seq<char>`.

use vstd::prelude::*;

verus! {

/// Smallest index at or after `from` where `c` occurs in `s`, or `s.len()`
/// when `c` does not occur there.
pub open spec fn find_char_from(s: Seq<char>, from: int, c: char) -> int
    decreases s.len() - from,
{
    if from >= s.len() {
        s.len() as int
    } else if s[from] == c {
        from
    } else {
        find_char_from(s, from + 1, c)
    }
}

pub proof fn lemma_find_char_from(s: Seq<char>, from: int, c: char)
    requires
        0 <= from <= s.len(),
    ensures
        from <= find_char_from(s, from, c) <= s.len(),
        find_char_from(s, from, c) < s.len() ==> s[find_char_from(s, from, c)] == c,
        forall|j: int| from <= j < find_char_from(s, from, c) ==> s[j] != c,
    decreases s.len() - from,
{
    if from < s.len() && s[from] != c {
        lemma_find_char_from(s, from + 1, c);
    }
}

/// Largest index strictly below `end` where `c` occurs in `s`, or `-1`
/// when `c` does not occur there.
pub open spec fn rfind_char_before(s: Seq<char>, end: int, c: char) -> int
    decreases end,
{
    if end <= 0 {
        -1
    } else if s[end - 1] == c {
        end - 1
    } else {
        rfind_char_before(s, end - 1, c)
    }
}

pub proof fn lemma_rfind_char_before(s: Seq<char>, end: int, c: char)
    requires
        0 <= end <= s.len(),
    ensures
        -1 <= rfind_char_before(s, end, c) < end,
        rfind_char_before(s, end, c) >= 0 ==> s[rfind_char_before(s, end, c)] == c,
        forall|j: int| rfind_char_before(s, end, c) < j < end ==> s[j] != c,
    decreases end,
{
    if end > 0 && s[end - 1] != c {
        lemma_rfind_char_before(s, end - 1, c);
    }
}

/// `pat` occurs in `s` starting at index `at`.
pub open spec fn occurs_at(s: Seq<char>, at: int, pat: Seq<char>) -> bool {
    &&& 0 <= at
    &&& at + pat.len() <= s.len()
    &&& forall|k: int| 0 <= k < pat.len() ==> s[at + k] == pat[k]
}

/// First occurrence of `c` in `s` at or after `from`, or `s.len()` when absent.
pub fn index_of_from(s: &str, from: usize, c: char) -> (r: usize)
    requires
        from <= s@.len(),
    ensures
        r == find_char_from(s@, from as int, c),
{
    let n: usize = s.unicode_len();
    let mut i: usize = from;
    while i < n
        invariant
            from <= i <= n,
            n == s@.len(),
            find_char_from(s@, from as int, c) == find_char_from(s@, i as int, c),
        decreases n - i,
    {
        if s.get_char(i) == c {
            return i;
        }
        i = i + 1;
    }
    n
}

/// Last occurrence of `c` in `s` strictly before `end`, or `None` when absent.
pub fn rindex_of_before(s: &str, end: usize, c: char) -> (r: Option<usize>)
    requires
        end <= s@.len(),
    ensures
        match r {
            Some(j) => j == rfind_char_before(s@, end as int, c),
            None => rfind_char_before(s@, end as int, c) == -1,
        },
{
    let mut i: usize = end;
    while i > 0
        invariant
            0 <= i <= end <= s@.len(),
            rfind_char_before(s@, end as int, c) == rfind_char_before(s@, i as int, c),
        decreases i,
    {
        if s.get_char(i - 1) == c {
            return Some(i - 1);
        }
        i = i - 1;
    }
    None
}

/// Does `pat` occur in `s` starting at index `at`?
pub fn starts_with_at(s: &str, at: usize, pat: &str) -> (r: bool)
    requires
        at <= s@.len(),
    ensures
        r == occurs_at(s@, at as int, pat@),
{
    let n: usize = s.unicode_len();
    let m: usize = pat.unicode_len();
    if m > n - at {
        return false;
    }
    let mut k: usize = 0;
    while k < m
        invariant
            0 <= k <= m,
            n == s@.len(),
            m == pat@.len(),
            at + m <= n,
            forall|j: int| 0 <= j < k ==> s@[at + j] == pat@[j],
        decreases m - k,
    {
        if s.get_char(at + k) != pat.get_char(k) {
            assert(!occurs_at(s@, at as int, pat@));
            return false;
        }
        k = k + 1;
    }
    true
}

/// Character-for-character equality of two string slices.
pub fn str_eq(a: &str, b: &str) -> (r: bool)
    ensures
        r == (a@ == b@),
{
    let n: usize = a.unicode_len();
    let m: usize = b.unicode_len();
    if n != m {
        return false;
    }
    let mut k: usize = 0;
    while k < n
        invariant
            0 <= k <= n,
            n == a@.len(),
            n == b@.len(),
            forall|j: int| 0 <= j < k ==> a@[j] == b@[j],
        decreases n - k,
    {
        if a.get_char(k) != b.get_char(k) {
            return false;
        }
        k = k + 1;
    }
    proof {
        assert(a@ =~= b@);
    }
    true
}

/// The substring of `s` between the character indices `from` and `to`,
/// as an owned `String`.
pub fn substr_string(s: &str, from: usize, to: usize) -> (r: String)
    requires
        from <= to <= s@.len(),
    ensures
        r@ == s@.subrange(from as int, to as int),
{
    let part: &str = s.substring_char(from, to);
    String::from_str(part)
}

} // verus!
