//! Content hashing, used only to test byte-for-byte equality between a
//! source file and an existing destination file.

use vstd::prelude::*;
use sha1::Digest;
use crate::text::{hex_char, hex_spec, hex_str};

verus! {

/// The SHA-1 digest of a byte sequence.  The digest is a function of the
/// bytes alone; nothing here states what its value is.
pub uninterp spec fn sha1_of(data: Seq<u8>) -> Seq<u8>;

/// Relies on sha1's `Sha1` (through the `Digest` trait): the digest depends
/// on the input bytes alone and is 20 bytes wide.
#[verifier::external_body]
fn sha1_digest(data: &Vec<u8>) -> (r: Vec<u8>)
    ensures
        r@ == sha1_of(data@),
        r@.len() == 20,
{
    sha1::Sha1::digest(data.as_slice()).to_vec()
}

/// Byte-for-byte equality of two vectors.
fn bytes_equal(a: &Vec<u8>, b: &Vec<u8>) -> (r: bool)
    ensures
        r == (a@ == b@),
{
    if a.len() != b.len() {
        assert(a@ != b@);
        return false;
    }
    let n = a.len();
    let mut i: usize = 0;
    while i < n
        invariant
            n == a@.len() == b@.len(),
            i <= n,
            forall|j: int| 0 <= j < i ==> a@[j] == b@[j],
        decreases n - i,
    {
        if a[i] != b[i] {
            assert(a@ != b@);
            return false;
        }
        i += 1;
    }
    proof {
        assert(a@ =~= b@);
    }
    true
}

/// Whether two byte contents have the same digest; the engine treats this as
/// content equality when deciding that a file is a duplicate.
pub fn same_content(a: &Vec<u8>, b: &Vec<u8>) -> (r: bool)
    ensures
        r == (sha1_of(a@) == sha1_of(b@)),
{
    let da = sha1_digest(a);
    let db = sha1_digest(b);
    bytes_equal(&da, &db)
}

proof fn lemma_hex_push(s: Seq<u8>, x: u8)
    ensures
        hex_spec(s.push(x)) == hex_spec(s) + seq![
            hex_char(x as int / 16),
            hex_char(x as int % 16),
        ],
    decreases s.len(),
{
    if s.len() == 0 {
        assert(s.push(x).drop_first() =~= Seq::<u8>::empty());
        assert(s.push(x).first() == x);
        assert(hex_spec(s.push(x)) == seq![
            hex_char(x as int / 16),
            hex_char(x as int % 16),
        ] + hex_spec(Seq::<u8>::empty()));
        assert(hex_spec(s) =~= Seq::<char>::empty());
        assert(hex_spec(s.push(x)) =~= hex_spec(s) + seq![
            hex_char(x as int / 16),
            hex_char(x as int % 16),
        ]);
    } else {
        assert(s.push(x).drop_first() =~= s.drop_first().push(x));
        lemma_hex_push(s.drop_first(), x);
        assert(hex_spec(s.push(x)) =~= hex_spec(s) + seq![
            hex_char(x as int / 16),
            hex_char(x as int % 16),
        ]);
    }
}

/// The digest of `data`, rendered as a fixed-width lower-case hexadecimal
/// string.
pub fn content_hash(data: &Vec<u8>) -> (r: String)
    ensures
        r@ == hex_spec(sha1_of(data@)),
        r@.len() == 40,
{
    let d = sha1_digest(data);
    let mut s = String::new();
    let n = d.len();
    let mut i: usize = 0;
    proof {
        assert(d@.take(0) =~= Seq::<u8>::empty());
    }
    while i < n
        invariant
            n == d@.len(),
            i <= n,
            s@ == hex_spec(d@.take(i as int)),
            s@.len() == 2 * i,
        decreases n - i,
    {
        let b = d[i];
        s.append(hex_str(b / 16));
        s.append(hex_str(b % 16));
        proof {
            assert(d@.take(i as int + 1) =~= d@.take(i as int).push(d@[i as int]));
            lemma_hex_push(d@.take(i as int), d@[i as int]);
        }
        i += 1;
    }
    proof {
        assert(d@.take(n as int) =~= d@);
    }
    s
}

} // verus!
