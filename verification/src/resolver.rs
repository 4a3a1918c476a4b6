//! Finding or naming the dated bucket directory under the destination root.

use vstd::prelude::*;

verus! {

/// Whether an existing directory name serves as the bucket for a date
/// prefix: either it is the prefix itself, or the prefix followed by a
/// literal dot and an arbitrary human-added suffix.
pub open spec fn bucket_matches(name: Seq<char>, prefix: Seq<char>) -> bool {
    ||| name == prefix
    ||| (name.len() > prefix.len() && name.subrange(0, prefix.len() as int) == prefix
        && name[prefix.len() as int] == '.')
}

/// The index of the first entry of `listing` that serves as the bucket for
/// `prefix`, searching from `i` on.
pub open spec fn find_bucket(listing: Seq<Seq<char>>, prefix: Seq<char>, i: int) -> Option<int>
    decreases listing.len() - i,
{
    if i < 0 || i >= listing.len() {
        None
    } else if bucket_matches(listing[i], prefix) {
        Some(i)
    } else {
        find_bucket(listing, prefix, i + 1)
    }
}

/// The bucket directory name chosen for `prefix` given the names already
/// present, and whether it must be created: the first matching existing name
/// is reused, else the bare prefix names a fresh directory.
pub open spec fn resolve_bucket_spec(listing: Seq<Seq<char>>, prefix: Seq<char>) -> (
    Seq<char>,
    bool,
) {
    match find_bucket(listing, prefix, 0) {
        Some(i) => (listing[i], false),
        None => (prefix, true),
    }
}

/// Character-wise equality of two strings.
pub fn str_eq(a: &str, b: &str) -> (r: bool)
    ensures
        r == (a@ == b@),
{
    let alen = a.unicode_len();
    let blen = b.unicode_len();
    if alen != blen {
        return false;
    }
    let mut i: usize = 0;
    while i < alen
        invariant
            i <= alen,
            alen == a@.len() == b@.len(),
            forall|j: int| 0 <= j < i ==> a@[j] == b@[j],
        decreases alen - i,
    {
        if a.get_char(i) != b.get_char(i) {
            return false;
        }
        i += 1;
    }
    proof {
        assert(a@ =~= b@);
    }
    true
}

/// Whether `name` serves as the bucket directory for `prefix`.
fn name_matches(name: &String, prefix: &String) -> (r: bool)
    ensures
        r == bucket_matches(name@, prefix@),
{
    if str_eq(name.as_str(), prefix.as_str()) {
        return true;
    }
    let nlen = name.as_str().unicode_len();
    let plen = prefix.as_str().unicode_len();
    if nlen <= plen {
        assert(!bucket_matches(name@, prefix@));
        return false;
    }
    if name.as_str().get_char(plen) != '.' {
        assert(!bucket_matches(name@, prefix@));
        return false;
    }
    let mut i: usize = 0;
    while i < plen
        invariant
            i <= plen,
            plen == prefix@.len(),
            nlen == name@.len(),
            nlen > plen,
            name@[plen as int] == '.',
            forall|j: int| 0 <= j < i ==> name@[j] == prefix@[j],
        decreases plen - i,
    {
        if name.as_str().get_char(i) != prefix.as_str().get_char(i) {
            assert(name@.subrange(0, plen as int) != prefix@);
            return false;
        }
        i += 1;
    }
    proof {
        assert(name@.subrange(0, plen as int) =~= prefix@);
    }
    true
}

/// Picks the bucket directory for `prefix` among the entries of the year
/// directory: the first existing match is reused (preserving any human
/// suffix); otherwise the bare prefix is to be created.
pub fn resolve_bucket(listing: &Vec<String>, prefix: &String) -> (r: (String, bool))
    ensures
        (r.0@, r.1) == resolve_bucket_spec(listing@.map_values(|s: String| s@), prefix@),
        bucket_matches(r.0@, prefix@),
{
    let ghost views = listing@.map_values(|s: String| s@);
    let n = listing.len();
    let mut i: usize = 0;
    while i < n
        invariant
            i <= n,
            n == listing@.len(),
            views == listing@.map_values(|s: String| s@),
            find_bucket(views, prefix@, 0) == find_bucket(views, prefix@, i as int),
        decreases n - i,
    {
        if name_matches(&listing[i], prefix) {
            assert(find_bucket(views, prefix@, i as int) == Some(i as int));
            return (listing[i].clone(), false);
        }
        i += 1;
    }
    assert(find_bucket(views, prefix@, 0) is None);
    (prefix.clone(), true)
}

} // verus!
