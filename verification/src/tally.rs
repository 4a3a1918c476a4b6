//! The extension tally of counting mode: occurrence counts per file
//! extension, with an explicit marker for files without one.

use vstd::prelude::*;
use crate::resolver::str_eq;

verus! {

/// The abstract key of a tally entry: an extension, or none.
pub open spec fn key_view(k: Option<String>) -> Option<Seq<char>> {
    match k {
        Some(s) => Some(s@),
        None => None,
    }
}

fn key_eq(a: &Option<String>, b: &Option<String>) -> (r: bool)
    ensures
        r == (key_view(*a) == key_view(*b)),
{
    match (a, b) {
        (None, None) => true,
        (Some(x), Some(y)) => str_eq(x.as_str(), y.as_str()),
        _ => false,
    }
}

/// Occurrence counts keyed by file extension (or its absence).  Each key
/// appears in at most one entry.
pub struct ExtensionTally {
    entries: Vec<(Option<String>, u32)>,
}

/// Keys of a tally's entries are pairwise distinct.
pub open spec fn keys_distinct(s: Seq<(Option<String>, u32)>) -> bool {
    forall|i: int, j: int|
        0 <= i < j < s.len() ==> key_view(#[trigger] s[i].0) != key_view(#[trigger] s[j].0)
}

pub open spec fn seq_has_key(s: Seq<(Option<String>, u32)>, k: Option<Seq<char>>) -> bool {
    exists|i: int| 0 <= i < s.len() && key_view(#[trigger] s[i].0) == k
}

/// The count recorded for a key; zero when the key appears nowhere.
pub open spec fn seq_count_of(s: Seq<(Option<String>, u32)>, k: Option<Seq<char>>) -> int {
    if seq_has_key(s, k) {
        let i = choose|i: int| 0 <= i < s.len() && key_view(#[trigger] s[i].0) == k;
        s[i].1 as int
    } else {
        0
    }
}

impl ExtensionTally {
    /// Keys are pairwise distinct.
    pub closed spec fn wf(self) -> bool {
        keys_distinct(self.entries@)
    }

    pub closed spec fn contains_key(self, k: Option<Seq<char>>) -> bool {
        seq_has_key(self.entries@, k)
    }

    /// The recorded count for a key; zero when the key was never recorded.
    pub closed spec fn count_of(self, k: Option<Seq<char>>) -> int {
        seq_count_of(self.entries@, k)
    }

    pub fn new() -> (r: ExtensionTally)
        ensures
            r.wf(),
            forall|k: Option<Seq<char>>| r.count_of(k) == 0,
    {
        ExtensionTally { entries: Vec::new() }
    }

    /// Records one occurrence of an extension: its count grows by one and
    /// every other count is unchanged.
    pub fn record(&mut self, ext: &Option<String>)
        requires
            old(self).wf(),
            old(self).count_of(key_view(*ext)) < u32::MAX,
        ensures
            final(self).wf(),
            final(self).count_of(key_view(*ext)) == old(self).count_of(key_view(*ext)) + 1,
            forall|k2: Option<Seq<char>>|
                k2 != key_view(*ext) ==> final(self).count_of(k2) == old(self).count_of(k2),
    {
        let ghost kv = key_view(*ext);
        let n = self.entries.len();
        let mut i: usize = 0;
        while i < n
            invariant
                i <= n,
                n == self.entries@.len(),
                self.entries@ == old(self).entries@,
                keys_distinct(self.entries@),
                seq_count_of(self.entries@, kv) < u32::MAX,
                forall|j: int| 0 <= j < i ==> key_view(#[trigger] self.entries@[j].0) != kv,
                kv == key_view(*ext),
            decreases n - i,
        {
            if key_eq(&self.entries[i].0, ext) {
                let ghost s1 = self.entries@;
                let c = self.entries[i].1;
                proof {
                    lemma_count_at(s1, i as int);
                    assert(seq_count_of(s1, kv) == c as int);
                }
                let entry = &mut self.entries[i];
                entry.1 = c + 1;
                proof {
                    lemma_record_update(s1, self.entries@, i as int, kv, c as int);
                }
                return ;
            }
            i += 1;
        }
        let ghost s1 = self.entries@;
        proof {
            lemma_absent(s1, kv);
        }
        self.entries.push((clone_key(ext), 1));
        proof {
            lemma_record_push(s1, self.entries@, kv);
        }
    }

    /// The recorded entries, one per distinct key, each carrying its count.
    pub fn entries(&self) -> (r: &Vec<(Option<String>, u32)>)
        requires
            self.wf(),
        ensures
            forall|i: int|
                0 <= i < r@.len() ==> self.count_of(key_view(#[trigger] r@[i].0)) == r@[i].1
                    as int,
            forall|i: int, j: int|
                0 <= i < j < r@.len() ==> key_view(#[trigger] r@[i].0) != key_view(
                    #[trigger] r@[j].0,
                ),
    {
        proof {
            assert forall|i: int| 0 <= i < self.entries@.len() implies self.count_of(
                key_view(#[trigger] self.entries@[i].0),
            ) == self.entries@[i].1 as int by {
                lemma_count_at(self.entries@, i);
            }
        }
        &self.entries
    }
}

/// The count of the key at a live index is that entry's value.
proof fn lemma_count_at(s: Seq<(Option<String>, u32)>, i: int)
    requires
        keys_distinct(s),
        0 <= i < s.len(),
    ensures
        seq_has_key(s, key_view(s[i].0)),
        seq_count_of(s, key_view(s[i].0)) == s[i].1 as int,
{
    let k = key_view(s[i].0);
    assert(seq_has_key(s, k));
    let w = choose|w: int| 0 <= w < s.len() && key_view(#[trigger] s[w].0) == k;
    if w != i {
        if w < i {
            assert(key_view(s[w].0) != key_view(s[i].0));
        } else {
            assert(key_view(s[i].0) != key_view(s[w].0));
        }
        assert(false);
    }
}

/// A key at no index has count zero.
proof fn lemma_absent(s: Seq<(Option<String>, u32)>, k: Option<Seq<char>>)
    requires
        forall|j: int| 0 <= j < s.len() ==> key_view(#[trigger] s[j].0) != k,
    ensures
        !seq_has_key(s, k),
        seq_count_of(s, k) == 0,
{
}

/// Bumping the value at the index that holds `kv` raises that key's count
/// by one and no other.
proof fn lemma_record_update(s1: Seq<(Option<String>, u32)>, s2: Seq<(Option<String>, u32)>, i: int, kv: Option<
    Seq<char>,
>, c: int)
    requires
        keys_distinct(s1),
        0 <= i < s1.len(),
        key_view(s1[i].0) == kv,
        s1[i].1 == c,
        s2.len() == s1.len(),
        s2[i].0 == s1[i].0,
        s2[i].1 == c + 1,
        forall|j: int| 0 <= j < s1.len() && j != i ==> s2[j] == s1[j],
    ensures
        keys_distinct(s2),
        seq_count_of(s2, kv) == c + 1,
        forall|k2: Option<Seq<char>>| k2 != kv ==> seq_count_of(s2, k2) == seq_count_of(s1, k2),
{
    assert forall|a: int, b: int| 0 <= a < b < s2.len() implies key_view(
        #[trigger] s2[a].0,
    ) != key_view(#[trigger] s2[b].0) by {
        assert(s2[a].0 == s1[a].0);
        assert(s2[b].0 == s1[b].0);
    }
    lemma_count_at(s2, i);
    assert forall|k2: Option<Seq<char>>| k2 != kv implies seq_count_of(s2, k2) == seq_count_of(
        s1,
        k2,
    ) by {
        if seq_has_key(s2, k2) {
            let u = choose|u: int| 0 <= u < s2.len() && key_view(#[trigger] s2[u].0) == k2;
            assert(u != i);
            assert(s2[u] == s1[u]);
            lemma_count_at(s2, u);
            lemma_count_at(s1, u);
        } else {
            assert forall|j: int|
                0 <= j < s1.len() implies key_view(#[trigger] s1[j].0) != k2 by {
                if key_view(s1[j].0) == k2 {
                    assert(j != i);
                    assert(key_view(s2[j].0) == k2);
                    assert(false);
                }
            }
            lemma_absent(s1, k2);
            lemma_absent(s2, k2);
        }
    }
}

/// Appending a fresh key with value one gives it count one and leaves every
/// other count unchanged.
proof fn lemma_record_push(s1: Seq<(Option<String>, u32)>, s2: Seq<(Option<String>, u32)>, kv: Option<Seq<char>>)
    requires
        keys_distinct(s1),
        !seq_has_key(s1, kv),
        s2.len() == s1.len() + 1,
        key_view(s2[s1.len() as int].0) == kv,
        s2[s1.len() as int].1 == 1,
        forall|j: int| 0 <= j < s1.len() ==> s2[j] == s1[j],
    ensures
        keys_distinct(s2),
        seq_count_of(s2, kv) == 1,
        forall|k2: Option<Seq<char>>| k2 != kv ==> seq_count_of(s2, k2) == seq_count_of(s1, k2),
{
    let n = s1.len() as int;
    assert forall|a: int, b: int| 0 <= a < b < s2.len() implies key_view(
        #[trigger] s2[a].0,
    ) != key_view(#[trigger] s2[b].0) by {
        if b < n {
            assert(s2[a].0 == s1[a].0);
            assert(s2[b].0 == s1[b].0);
        } else {
            assert(s2[a].0 == s1[a].0);
            if key_view(s2[a].0) == kv {
                assert(seq_has_key(s1, kv));
                assert(false);
            }
        }
    }
    lemma_count_at(s2, n);
    assert forall|k2: Option<Seq<char>>| k2 != kv implies seq_count_of(s2, k2) == seq_count_of(
        s1,
        k2,
    ) by {
        if seq_has_key(s2, k2) {
            let u = choose|u: int| 0 <= u < s2.len() && key_view(#[trigger] s2[u].0) == k2;
            assert(u != n);
            assert(s2[u] == s1[u]);
            lemma_count_at(s2, u);
            lemma_count_at(s1, u);
        } else {
            assert forall|j: int|
                0 <= j < s1.len() implies key_view(#[trigger] s1[j].0) != k2 by {
                if key_view(s1[j].0) == k2 {
                    assert(key_view(s2[j].0) == k2);
                    assert(false);
                }
            }
            lemma_absent(s1, k2);
            lemma_absent(s2, k2);
        }
    }
}

fn clone_key(k: &Option<String>) -> (r: Option<String>)
    ensures
        key_view(r) == key_view(*k),
{
    match k {
        None => None,
        Some(s) => Some(s.clone()),
    }
}

} // verus!
