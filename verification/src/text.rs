//! Decimal and hexadecimal rendering of numbers into strings, with exact
//! character-level specifications.  Directory names, canonical file names and
//! collision suffixes are all built from these pieces.

use vstd::prelude::*;

verus! {

/// The decimal digit character for `d` (`0 <= d <= 9`).
pub open spec fn digit_char(d: int) -> char {
    if d == 0 { '0' }
    else if d == 1 { '1' }
    else if d == 2 { '2' }
    else if d == 3 { '3' }
    else if d == 4 { '4' }
    else if d == 5 { '5' }
    else if d == 6 { '6' }
    else if d == 7 { '7' }
    else if d == 8 { '8' }
    else { '9' }
}

/// The hexadecimal digit character for `d` (`0 <= d <= 15`), lower case.
pub open spec fn hex_char(d: int) -> char {
    if d < 10 { digit_char(d) }
    else if d == 10 { 'a' }
    else if d == 11 { 'b' }
    else if d == 12 { 'c' }
    else if d == 13 { 'd' }
    else if d == 14 { 'e' }
    else { 'f' }
}

/// Plain decimal rendering of `n`, without padding.
pub open spec fn dec_spec(n: nat) -> Seq<char>
    decreases n,
{
    if n < 10 {
        seq![digit_char(n as int)]
    } else {
        dec_spec(n / 10).push(digit_char((n % 10) as int))
    }
}

/// Two-digit zero-padded rendering, for values below one hundred.
pub open spec fn pad2_spec(n: int) -> Seq<char> {
    seq![digit_char(n / 10), digit_char(n % 10)]
}

/// Four-digit zero-padded rendering, for values below ten thousand.
pub open spec fn pad4_spec(n: int) -> Seq<char> {
    seq![
        digit_char(n / 1000),
        digit_char((n / 100) % 10),
        digit_char((n / 10) % 10),
        digit_char(n % 10),
    ]
}

/// Decimal rendering padded to at least two digits: `5` renders as `05`,
/// `123` as `123`.
pub open spec fn dec_pad2_spec(n: nat) -> Seq<char> {
    if n < 10 {
        seq!['0', digit_char(n as int)]
    } else {
        dec_spec(n)
    }
}

/// Lower-case hexadecimal rendering of a byte sequence, two characters per
/// byte.
pub open spec fn hex_spec(s: Seq<u8>) -> Seq<char>
    decreases s.len(),
{
    if s.len() == 0 {
        Seq::<char>::empty()
    } else {
        seq![hex_char(s.first() as int / 16), hex_char(s.first() as int % 16)]
            + hex_spec(s.drop_first())
    }
}

/// The one-character string for the decimal digit `d`.
pub fn digit_str(d: u8) -> (r: &'static str)
    requires
        d < 10,
    ensures
        r@ == seq![digit_char(d as int)],
{
    proof {
        reveal_strlit("0");
        reveal_strlit("1");
        reveal_strlit("2");
        reveal_strlit("3");
        reveal_strlit("4");
        reveal_strlit("5");
        reveal_strlit("6");
        reveal_strlit("7");
        reveal_strlit("8");
        reveal_strlit("9");
    }
    let r: &'static str = match d {
        0 => "0",
        1 => "1",
        2 => "2",
        3 => "3",
        4 => "4",
        5 => "5",
        6 => "6",
        7 => "7",
        8 => "8",
        _ => "9",
    };
    proof {
        assert(r@ =~= seq![digit_char(d as int)]);
    }
    r
}

/// The one-character string for the hexadecimal digit `d`, lower case.
pub fn hex_str(d: u8) -> (r: &'static str)
    requires
        d < 16,
    ensures
        r@ == seq![hex_char(d as int)],
{
    proof {
        reveal_strlit("a");
        reveal_strlit("b");
        reveal_strlit("c");
        reveal_strlit("d");
        reveal_strlit("e");
        reveal_strlit("f");
    }
    if d < 10 {
        digit_str(d)
    } else {
        let r: &'static str = match d {
            10 => "a",
            11 => "b",
            12 => "c",
            13 => "d",
            14 => "e",
            _ => "f",
        };
        proof {
            assert(r@ =~= seq![hex_char(d as int)]);
        }
        r
    }
}

/// Appends the decimal digit `d` to `s`.
pub fn push_digit(s: &mut String, d: u8)
    requires
        d < 10,
    ensures
        final(s)@ == old(s)@ + seq![digit_char(d as int)],
{
    s.append(digit_str(d));
}

/// Appends `n` as exactly two digits, zero padded.
pub fn push_pad2(s: &mut String, n: u8)
    requires
        n < 100,
    ensures
        final(s)@ == old(s)@ + pad2_spec(n as int),
{
    push_digit(s, n / 10);
    push_digit(s, n % 10);
    proof {
        assert(final(s)@ =~= old(s)@ + pad2_spec(n as int));
    }
}

/// Appends `n` as exactly four digits, zero padded.
pub fn push_pad4(s: &mut String, n: u16)
    requires
        n < 10000,
    ensures
        final(s)@ == old(s)@ + pad4_spec(n as int),
{
    push_digit(s, (n / 1000) as u8);
    push_digit(s, ((n / 100) % 10) as u8);
    push_digit(s, ((n / 10) % 10) as u8);
    push_digit(s, (n % 10) as u8);
    proof {
        assert(final(s)@ =~= old(s)@ + pad4_spec(n as int));
    }
}

/// Appends the plain decimal rendering of `n`.
pub fn push_dec(s: &mut String, n: u32)
    ensures
        final(s)@ == old(s)@ + dec_spec(n as nat),
    decreases n,
{
    if n < 10 {
        push_digit(s, n as u8);
    } else {
        push_dec(s, n / 10);
        push_digit(s, (n % 10) as u8);
        proof {
            assert(final(s)@ =~= old(s)@ + dec_spec(n as nat));
        }
    }
}

/// Appends `n` padded to at least two digits.
pub fn push_dec_pad2(s: &mut String, n: u32)
    ensures
        final(s)@ == old(s)@ + dec_pad2_spec(n as nat),
{
    if n < 10 {
        proof {
            reveal_strlit("0");
        }
        s.append("0");
        push_digit(s, n as u8);
        proof {
            assert(final(s)@ =~= old(s)@ + dec_pad2_spec(n as nat));
        }
    } else {
        push_dec(s, n);
    }
}

/// Joins two path fragments with a single separator.
pub fn join_path(a: &str, b: &str) -> (r: String)
    ensures
        r@ == a@ + seq!['/'] + b@,
{
    proof {
        reveal_strlit("/");
    }
    let mut s = String::from_str(a);
    s.append("/");
    s.append(b);
    proof {
        assert(s@ =~= a@ + seq!['/'] + b@);
    }
    s
}

/// A decimal rendering never starts with a zero unless the value is zero.
pub proof fn lemma_dec_first_nonzero(n: nat)
    requires
        n >= 1,
    ensures
        dec_spec(n).len() >= 1,
        dec_spec(n).first() != '0',
    decreases n,
{
    if n >= 10 {
        lemma_dec_first_nonzero(n / 10);
        assert(dec_spec(n).first() == dec_spec(n / 10).first());
    }
}

/// A value below ten renders as one digit; a larger one as at least two.
pub proof fn lemma_dec_len(n: nat)
    ensures
        n < 10 ==> dec_spec(n).len() == 1,
        n >= 10 ==> dec_spec(n).len() >= 2,
    decreases n,
{
    if n >= 10 {
        lemma_dec_len(n / 10);
    }
}

/// Distinct values have distinct plain decimal renderings.
pub proof fn lemma_dec_injective(a: nat, b: nat)
    requires
        dec_spec(a) == dec_spec(b),
    ensures
        a == b,
    decreases a,
{
    lemma_dec_len(a);
    lemma_dec_len(b);
    if a < 10 && b < 10 {
        assert(dec_spec(a) == seq![digit_char(a as int)]);
        assert(dec_spec(b) == seq![digit_char(b as int)]);
        assert(seq![digit_char(a as int)][0] == seq![digit_char(b as int)][0]);
        assert(digit_char(a as int) == digit_char(b as int));
        assert(a == b);
    } else if a >= 10 && b >= 10 {
        assert(dec_spec(a).last() == digit_char((a % 10) as int));
        assert(dec_spec(b).last() == digit_char((b % 10) as int));
        assert(a % 10 == b % 10);
        assert(dec_spec(a).drop_last() =~= dec_spec(a / 10));
        assert(dec_spec(b).drop_last() =~= dec_spec(b / 10));
        assert(dec_spec(a / 10) == dec_spec(b / 10));
        lemma_dec_injective(a / 10, b / 10);
        assert(a == 10 * (a / 10) + a % 10);
        assert(b == 10 * (b / 10) + b % 10);
        assert(a == b);
    } else {
        assert(dec_spec(a).len() != dec_spec(b).len());
        assert(false);
    }
}

/// Distinct values have distinct padded decimal renderings.
pub proof fn lemma_dec_pad2_injective(a: nat, b: nat)
    requires
        dec_pad2_spec(a) == dec_pad2_spec(b),
    ensures
        a == b,
{
    lemma_dec_len(a);
    lemma_dec_len(b);
    if a < 10 && b < 10 {
        assert(dec_pad2_spec(a)[1] == dec_pad2_spec(b)[1]);
    } else if a >= 10 && b >= 10 {
        lemma_dec_injective(a, b);
    } else if a < 10 && b >= 10 {
        if dec_spec(b).len() == 2 {
            lemma_dec_first_nonzero(b);
            assert(dec_pad2_spec(a)[0] == '0');
            assert(false);
        } else {
            assert(dec_pad2_spec(a).len() == 2);
            assert(false);
        }
    } else {
        if dec_spec(a).len() == 2 {
            lemma_dec_first_nonzero(a);
            assert(dec_pad2_spec(b)[0] == '0');
            assert(false);
        } else {
            assert(dec_pad2_spec(b).len() == 2);
            assert(false);
        }
    }
}

} // verus!
