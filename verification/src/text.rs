//! Character-level string helpers.
//!
//! Currency codes, broker tickers and mode names are compared here without
//! any locale machinery: equality is character equality, and the only case
//! folding offered is over the ASCII letters, which is all the three-letter
//! currency codes need.

use vstd::prelude::*;

verus! {

/// The two characters are equal, or they are the same ASCII letter in
/// different cases.
pub open spec fn spec_char_eq_ignore_ascii_case(c: char, d: char) -> bool {
    ||| c == d
    ||| ('A' <= c <= 'Z' && d as u32 == c as u32 + 32)
    ||| ('A' <= d <= 'Z' && c as u32 == d as u32 + 32)
}

/// The two character sequences are equal up to ASCII case.
pub open spec fn spec_eq_ignore_ascii_case(s: Seq<char>, t: Seq<char>) -> bool {
    s.len() == t.len() && forall|i: int|
        0 <= i < s.len() ==> spec_char_eq_ignore_ascii_case(s[i], t[i])
}

/// An ASCII whitespace character.
pub open spec fn spec_is_space(c: char) -> bool {
    c == ' ' || c == '\t' || c == '\n' || c == '\r'
}

/// Every character of the sequence is ASCII whitespace (an empty
/// sequence is blank).
pub open spec fn spec_is_blank(s: Seq<char>) -> bool {
    forall|i: int| 0 <= i < s.len() ==> spec_is_space(#[trigger] s[i])
}

/// The string holds nothing but ASCII whitespace.
pub fn str_is_blank(s: &str) -> (r: bool)
    ensures
        r == spec_is_blank(s@),
{
    let n: usize = s.unicode_len();
    let mut i: usize = 0;
    while i < n
        invariant
            n == s@.len(),
            0 <= i <= n,
            forall|j: int| 0 <= j < i ==> spec_is_space(#[trigger] s@[j]),
        decreases n - i,
    {
        let c = s.get_char(i);
        if !(c == ' ' || c == '\t' || c == '\n' || c == '\r') {
            return false;
        }
        i = i + 1;
    }
    true
}

/// Exact string equality.
pub fn str_eq(a: &str, b: &str) -> (r: bool)
    ensures
        r == (a@ == b@),
{
    let an: usize = a.unicode_len();
    let bn: usize = b.unicode_len();
    if an != bn {
        proof {
            assert(a@.len() != b@.len());
        }
        return false;
    }
    let mut i: usize = 0;
    while i < an
        invariant
            an == a@.len(),
            an == b@.len(),
            0 <= i <= an,
            forall|j: int| 0 <= j < i ==> a@[j] == b@[j],
        decreases an - i,
    {
        if a.get_char(i) != b.get_char(i) {
            return false;
        }
        i = i + 1;
    }
    proof {
        assert(a@ =~= b@);
    }
    true
}

/// String equality up to ASCII case.
pub fn str_eq_ignore_ascii_case(a: &str, b: &str) -> (r: bool)
    ensures
        r == spec_eq_ignore_ascii_case(a@, b@),
{
    let an: usize = a.unicode_len();
    let bn: usize = b.unicode_len();
    if an != bn {
        return false;
    }
    let mut i: usize = 0;
    while i < an
        invariant
            an == a@.len(),
            an == b@.len(),
            0 <= i <= an,
            forall|j: int| 0 <= j < i ==> spec_char_eq_ignore_ascii_case(a@[j], b@[j]),
        decreases an - i,
    {
        let c = a.get_char(i);
        let d = b.get_char(i);
        let same = if c == d {
            true
        } else if 'A' <= c && c <= 'Z' && d as u32 == c as u32 + 32 {
            true
        } else if 'A' <= d && d <= 'Z' && c as u32 == d as u32 + 32 {
            true
        } else {
            false
        };
        if !same {
            return false;
        }
        i = i + 1;
    }
    true
}

} // verus!
