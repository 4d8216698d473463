//! Grouping of compiled items by top-level path segment, for
//! template-side navigation data.
//!
//! An item whose path has a slash belongs to the section named by the text
//! before the first slash; items without a slash fill the literal `default`
//! bucket. `default` holds exactly the top-level items, so a directory that
//! happens to be called `default` does not add to it.

use vstd::prelude::*;

use crate::content::Content;
use crate::text::{find_char_from, index_of_from, lemma_find_char_from, str_eq, substr_string};

verus! {

/// Is `p` a top-level path (no slash)?
pub open spec fn top_level(p: Seq<char>) -> bool {
    find_char_from(p, 0, '/') >= p.len()
}

/// The section key of a path: the text before its first slash, or
/// `default` when it has none.
pub open spec fn section_key_chars(p: Seq<char>) -> Seq<char> {
    if top_level(p) {
        "default"@
    } else {
        p.subrange(0, find_char_from(p, 0, '/'))
    }
}

/// Does the item at path `p` belong in the bucket named `k`? The `default`
/// bucket takes exactly the top-level items; every other bucket takes the
/// items whose first path segment is its name.
pub open spec fn in_bucket(p: Seq<char>, k: Seq<char>) -> bool {
    if k == "default"@ {
        top_level(p)
    } else {
        !top_level(p) && section_key_chars(p) == k
    }
}

/// The indices below `n` of the items that belong in bucket `k`, in order.
pub open spec fn bucket_idxs(items: Seq<Content>, k: Seq<char>, n: int) -> Seq<usize>
    decreases n,
{
    if n <= 0 {
        Seq::empty()
    } else if in_bucket(items[n - 1].path@, k) {
        bucket_idxs(items, k, n - 1).push((n - 1) as usize)
    } else {
        bucket_idxs(items, k, n - 1)
    }
}

/// All items grouped by section: a list of named buckets holding item
/// indices in traversal order.
pub struct SectionIndex {
    pub sections: Vec<(String, Vec<usize>)>,
}

impl SectionIndex {
    /// Bucket names never repeat.
    pub open spec fn names_unique(&self) -> bool {
        forall|i: int, j: int|
            0 <= i < j < self.sections@.len() ==> self.sections@[i].0@ != self.sections@[j].0@
    }

    /// Does a bucket named `k` exist?
    pub open spec fn has_name(&self, k: Seq<char>) -> bool {
        exists|j: int| 0 <= j < self.sections@.len() && self.sections@[j].0@ == k
    }

    /// The index groups all items of `items` correctly: names never
    /// repeat, every bucket holds exactly the indices of its items in
    /// order, every bucket name is `default` or the section of some item,
    /// and every item's section has its bucket.
    pub open spec fn groups(&self, items: Seq<Content>) -> bool {
        &&& self.names_unique()
        &&& forall|j: int|
            0 <= j < self.sections@.len() ==> self.sections@[j].1@ == bucket_idxs(
                items,
                self.sections@[j].0@,
                items.len() as int,
            )
        &&& forall|j: int|
            #![trigger self.sections@[j]]
            0 <= j < self.sections@.len() ==> self.sections@[j].0@ == "default"@ || exists|i: int|
                0 <= i < items.len() && !top_level(items[i].path@) && #[trigger] section_key_chars(
                    items[i].path@,
                ) == self.sections@[j].0@
        &&& forall|i: int|
            0 <= i < items.len() && !top_level(items[i].path@) ==> self.has_name(
                #[trigger] section_key_chars(items[i].path@),
            )
    }

    /// The bucket named `key`, if it exists.
    pub fn get(&self, key: &str) -> (r: Option<&Vec<usize>>)
        ensures
            match r {
                Some(v) => exists|j: int|
                    0 <= j < self.sections@.len() && self.sections@[j].0@ == key@ && v@
                        == self.sections@[j].1@,
                None => !self.has_name(key@),
            },
    {
        let mut j: usize = 0;
        while j < self.sections.len()
            invariant
                j <= self.sections@.len(),
                forall|t: int| 0 <= t < j ==> self.sections@[t].0@ != key@,
            decreases self.sections@.len() - j,
        {
            if str_eq(self.sections[j].0.as_str(), key) {
                return Some(&self.sections[j].1);
            }
            j = j + 1;
        }
        None
    }
}

/// Where in `sections` the name `key` stands, if anywhere.
fn find_section(sections: &Vec<(String, Vec<usize>)>, key: &str) -> (r: Option<usize>)
    ensures
        match r {
            Some(j) => 0 <= j < sections@.len() && sections@[j as int].0@ == key@,
            None => forall|t: int| 0 <= t < sections@.len() ==> sections@[t].0@ != key@,
        },
{
    let mut j: usize = 0;
    while j < sections.len()
        invariant
            j <= sections@.len(),
            forall|t: int| 0 <= t < j ==> sections@[t].0@ != key@,
        decreases sections@.len() - j,
    {
        if str_eq(sections[j].0.as_str(), key) {
            return Some(j);
        }
        j = j + 1;
    }
    None
}

/// Group all compiled items into the section index: one bucket per
/// first path segment seen, plus the `default` bucket for top-level
/// items, which is always present.
#[verifier::rlimit(30)]
pub fn compile_content_map(contents: &Vec<Content>) -> (r: SectionIndex)
    ensures
        r.groups(contents@),
        r.has_name("default"@),
{
    let n: usize = contents.len();
    let mut sections: Vec<(String, Vec<usize>)> = Vec::new();
    let mut top: Vec<usize> = Vec::new();
    let mut i: usize = 0;
    while i < n
        invariant
            i <= n,
            n == contents@.len(),
            forall|a: int, b: int|
                0 <= a < b < sections@.len() ==> sections@[a].0@ != sections@[b].0@,
            forall|j: int| 0 <= j < sections@.len() ==> sections@[j].0@ != "default"@,
            forall|j: int|
                0 <= j < sections@.len() ==> sections@[j].1@ == bucket_idxs(
                    contents@,
                    sections@[j].0@,
                    i as int,
                ),
            top@ == bucket_idxs(contents@, "default"@, i as int),
            forall|j: int|
                #![trigger sections@[j]]
                0 <= j < sections@.len() ==> exists|t: int|
                    0 <= t < i && !top_level(contents@[t].path@) && #[trigger] section_key_chars(
                        contents@[t].path@,
                    ) == sections@[j].0@,
            forall|t: int|
                0 <= t < i && !top_level(contents@[t].path@) && section_key_chars(
                    contents@[t].path@,
                ) != "default"@ ==> exists|j: int|
                    0 <= j < sections@.len() && #[trigger] sections@[j].0@
                        == section_key_chars(contents@[t].path@),
        decreases n - i,
    {
        let path: &str = contents[i].path.as_str();
        let m: usize = path.unicode_len();
        let f: usize = index_of_from(path, 0, '/');
        proof {
            lemma_find_char_from(path@, 0, '/');
        }
        if f < m {
            let key = substr_string(path, 0, f);
            proof {
                assert(key@ == section_key_chars(path@));
                assert(key@ != "default"@ ==> in_bucket(path@, key@));
            }
            if str_eq(key.as_str(), "default") {
                proof {
                    assert(!in_bucket(path@, "default"@));
                    assert(forall|k: Seq<char>|
                        in_bucket(path@, k) ==> k == #[trigger] section_key_chars(path@) && k
                            != "default"@);
                }
            } else {
                match find_section(&sections, key.as_str()) {
                    Some(j) => {
                        let ghost before = sections@;
                        let (name, mut group) = sections.remove(j);
                        group.push(i);
                        sections.insert(j, (name, group));
                        proof {
                            assert(sections@ =~= before.update(
                                j as int,
                                (before[j as int].0, sections@[j as int].1),
                            ));
                            assert(sections@[j as int].0@ == key@);
                            assert(forall|t: int|
                                0 <= t < sections@.len() && t != j ==> sections@[t]
                                    == before[t]);
                            assert(forall|k: Seq<char>|
                                in_bucket(path@, k) ==> k == #[trigger] section_key_chars(
                                    path@,
                                ));
                            assert forall|t: int|
                                0 <= t < i + 1 && !top_level(contents@[t].path@)
                                    && section_key_chars(contents@[t].path@)
                                    != "default"@ implies exists|jj: int|
                                0 <= jj < sections@.len() && #[trigger] sections@[jj].0@
                                    == section_key_chars(contents@[t].path@) by {
                                if t < i {
                                    let jj = choose|jj: int|
                                        0 <= jj < before.len() && #[trigger] before[jj].0@
                                            == section_key_chars(contents@[t].path@);
                                    assert(sections@[jj].0@ == before[jj].0@);
                                } else {
                                    assert(sections@[j as int].0@ == section_key_chars(
                                        contents@[t].path@,
                                    ));
                                }
                            };
                        }
                    },
                    None => {
                        proof {
                            assert forall|t: int| 0 <= t < i implies !in_bucket(
                                contents@[t].path@,
                                key@,
                            ) by {
                                if !top_level(contents@[t].path@) && section_key_chars(
                                    contents@[t].path@,
                                ) == key@ {
                                    assert(false);
                                }
                            };
                            lemma_bucket_idxs_empty(contents@, key@, i as int);
                        }
                        let ghost before = sections@;
                        let mut group: Vec<usize> = Vec::new();
                        group.push(i);
                        sections.push((key, group));
                        proof {
                            assert(forall|k: Seq<char>|
                                in_bucket(path@, k) ==> k == #[trigger] section_key_chars(
                                    path@,
                                ));
                            assert(sections@[before.len() as int].0@ == key@);
                            assert(forall|t: int|
                                0 <= t < before.len() ==> sections@[t] == before[t]);
                            assert forall|t: int|
                                0 <= t < i + 1 && !top_level(contents@[t].path@)
                                    && section_key_chars(contents@[t].path@)
                                    != "default"@ implies exists|jj: int|
                                0 <= jj < sections@.len() && #[trigger] sections@[jj].0@
                                    == section_key_chars(contents@[t].path@) by {
                                if t < i {
                                    let jj = choose|jj: int|
                                        0 <= jj < before.len() && #[trigger] before[jj].0@
                                            == section_key_chars(contents@[t].path@);
                                    assert(sections@[jj].0@ == before[jj].0@);
                                } else {
                                    assert(sections@[before.len() as int].0@
                                        == section_key_chars(contents@[t].path@));
                                }
                            };
                        }
                    },
                }
            }
        } else {
            top.push(i);
            proof {
                assert(top_level(path@));
                assert(in_bucket(path@, "default"@));
                assert(forall|k: Seq<char>|
                    in_bucket(path@, k) ==> k == "default"@) by {
                    assert(top_level(path@));
                }
            }
        }
        i = i + 1;
    }
    let ghost pre = sections@;
    sections.push((String::from_str("default"), top));
    let r = SectionIndex { sections };
    proof {
        let last = pre.len() as int;
        assert(r.sections@[last].0@ == "default"@);
        assert(r.has_name("default"@));
        assert(forall|j: int| 0 <= j < last ==> r.sections@[j] == pre[j]);
        assert forall|t: int|
            0 <= t < contents@.len() && !top_level(contents@[t].path@) implies r.has_name(
            #[trigger] section_key_chars(contents@[t].path@),
        ) by {
            if section_key_chars(contents@[t].path@) != "default"@ {
                let j = choose|j: int|
                    0 <= j < pre.len() && #[trigger] pre[j].0@ == section_key_chars(
                        contents@[t].path@,
                    );
                assert(r.sections@[j].0@ == section_key_chars(contents@[t].path@));
            }
        };
    }
    r
}

/// A bucket that no item below `n` belongs in is empty.
proof fn lemma_bucket_idxs_empty(items: Seq<Content>, k: Seq<char>, n: int)
    requires
        forall|t: int| #![trigger items[t]] 0 <= t < n ==> !in_bucket(items[t].path@, k),
    ensures
        bucket_idxs(items, k, n) == Seq::<usize>::empty(),
    decreases n,
{
    if n > 0 {
        lemma_bucket_idxs_empty(items, k, n - 1);
    }
}

} // verus!
