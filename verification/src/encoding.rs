//! The canonical text encoding that content digests are computed over.
//!
//! Strings are length-prefixed and numbers written in decimal, so a
//! record's encoding pins its fields down; a block's nonce stands last in
//! its encoding, which together with `lemma_dec_inj` makes the encoding
//! injective in the nonce.

use vstd::prelude::*;
use vstd::string::StrSliceExecFns;
use vstd::string::StringExecFns;

verus! {

/// The decimal digit character for a value below 10.
pub open spec fn digit_char(d: nat) -> char {
    if d == 0 {
        '0'
    } else if d == 1 {
        '1'
    } else if d == 2 {
        '2'
    } else if d == 3 {
        '3'
    } else if d == 4 {
        '4'
    } else if d == 5 {
        '5'
    } else if d == 6 {
        '6'
    } else if d == 7 {
        '7'
    } else if d == 8 {
        '8'
    } else {
        '9'
    }
}

/// The decimal digits of a number, most significant first, no sign and no
/// leading zero (a single zero for 0).
pub open spec fn spec_dec(n: nat) -> Seq<char>
    decreases n,
{
    if n < 10 {
        seq![digit_char(n)]
    } else {
        spec_dec((n / 10) as nat) + seq![digit_char(n % 10)]
    }
}

/// The decimal form of a possibly negative number.
pub open spec fn spec_dec_i64(n: int) -> Seq<char> {
    if n < 0 {
        seq!['-'] + spec_dec((-n) as nat)
    } else {
        spec_dec(n as nat)
    }
}

/// A length-prefixed string: its length in decimal, a colon, the text.
pub open spec fn spec_lp(s: Seq<char>) -> Seq<char> {
    spec_dec(s.len()) + seq![':'] + s
}

/// The one-character string for a digit below 10.
fn digit_str(d: u64) -> (r: &'static str)
    requires
        d < 10,
    ensures
        r@ == seq![digit_char(d as nat)],
{
    proof {
        reveal_strlit("0");
        reveal_strlit("1");
        reveal_strlit("2");
        reveal_strlit("3");
        reveal_strlit("4");
        reveal_strlit("5");
        reveal_strlit("6");
        reveal_strlit("7");
        reveal_strlit("8");
        reveal_strlit("9");
    }
    match d {
        0 => "0",
        1 => "1",
        2 => "2",
        3 => "3",
        4 => "4",
        5 => "5",
        6 => "6",
        7 => "7",
        8 => "8",
        _ => "9",
    }
}

/// Writes a number in decimal.
pub fn u64_to_dec(n: u64) -> (r: String)
    ensures
        r@ == spec_dec(n as nat),
    decreases n,
{
    if n < 10 {
        digit_str(n).to_owned()
    } else {
        let mut s = u64_to_dec(n / 10);
        s.append(digit_str(n % 10));
        s
    }
}

/// Writes a possibly negative number in decimal.
pub fn i64_to_dec(n: i64) -> (r: String)
    ensures
        r@ == spec_dec_i64(n as int),
{
    if n < 0 {
        let m: u64 = (-(n as i128)) as u64;
        assert(m == -(n as int));
        let mut s = "-".to_owned();
        proof {
            reveal_strlit("-");
            assert(s@ =~= seq!['-']);
        }
        let digits = u64_to_dec(m);
        s.append(digits.as_str());
        s
    } else {
        u64_to_dec(n as u64)
    }
}

/// Appends the length-prefixed form of a string.
pub fn push_lp(out: &mut String, s: &str)
    ensures
        final(out)@ == old(out)@ + spec_lp(s@),
{
    let n = s.unicode_len();
    let len_dec = u64_to_dec(n as u64);
    out.append(len_dec.as_str());
    out.append(":");
    proof {
        reveal_strlit(":");
        assert(":"@ =~= seq![':']);
    }
    out.append(s);
    assert(final(out)@ =~= old(out)@ + spec_lp(s@));
}

/// Distinct digits have distinct characters.
pub proof fn lemma_digit_char_inj(a: nat, b: nat)
    requires
        a < 10,
        b < 10,
        digit_char(a) == digit_char(b),
    ensures
        a == b,
{
}

/// A decimal encoding is never empty.
pub proof fn lemma_dec_len(n: nat)
    ensures
        spec_dec(n).len() >= 1,
    decreases n,
{
    if n >= 10 {
        lemma_dec_len((n / 10) as nat);
    }
}

/// Law: distinct numbers have distinct decimal encodings.
pub proof fn lemma_dec_inj(a: nat, b: nat)
    requires
        spec_dec(a) == spec_dec(b),
    ensures
        a == b,
    decreases a,
{
    if a < 10 && b < 10 {
        assert(spec_dec(a)[0] == digit_char(a));
        assert(spec_dec(b)[0] == digit_char(b));
        lemma_digit_char_inj(a, b);
    } else if a < 10 {
        lemma_dec_len((b / 10) as nat);
        assert(spec_dec(b).len() >= 2);
        assert(spec_dec(a).len() == 1);
    } else if b < 10 {
        lemma_dec_len((a / 10) as nat);
        assert(spec_dec(a).len() >= 2);
        assert(spec_dec(b).len() == 1);
    } else {
        assert(spec_dec(a).last() == digit_char(a % 10));
        assert(spec_dec(b).last() == digit_char(b % 10));
        lemma_digit_char_inj((a % 10) as nat, (b % 10) as nat);
        assert(spec_dec(a).drop_last() =~= spec_dec((a / 10) as nat));
        assert(spec_dec(b).drop_last() =~= spec_dec((b / 10) as nat));
        lemma_dec_inj((a / 10) as nat, (b / 10) as nat);
    }
}

/// Appending different suffixes to one prefix gives different sequences.
pub proof fn lemma_concat_inj(p: Seq<char>, s1: Seq<char>, s2: Seq<char>)
    requires
        p + s1 == p + s2,
    ensures
        s1 == s2,
{
    assert((p + s1).len() == p.len() + s1.len());
    assert((p + s2).len() == p.len() + s2.len());
    assert(s1.len() == s2.len());
    assert forall|i: int| 0 <= i < s1.len() implies s1[i] == s2[i] by {
        assert((p + s1)[p.len() + i] == s1[i]);
        assert((p + s2)[p.len() + i] == s2[i]);
    }
    assert(s1 =~= s2);
}

} // verus!
