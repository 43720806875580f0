//! Prefix and substring tests on strings, stated over sequences of characters.

use vstd::prelude::*;
use vstd::string::*;

verus! {

/// `p` is the beginning of `s`.
pub open spec fn has_prefix(s: Seq<char>, p: Seq<char>) -> bool {
    occurs_at(s, p, 0)
}

/// `p` stands in `s` at position `i`.
pub open spec fn occurs_at(s: Seq<char>, p: Seq<char>, i: int) -> bool {
    0 <= i && i + p.len() <= s.len() && s.subrange(i, i + p.len()) == p
}

/// `p` stands somewhere in `s`.
pub open spec fn has_substring(s: Seq<char>, p: Seq<char>) -> bool {
    exists|i: int| occurs_at(s, p, i)
}

/// The view of an optional string.
pub open spec fn text_of(o: Option<String>) -> Option<Seq<char>> {
    match o {
        Some(s) => Some(s@),
        None => None,
    }
}

/// Compares `p` with the characters of `s` from `start` on.
fn matches_at(s: &str, p: &str, start: usize, s_len: usize, p_len: usize) -> (r: bool)
    requires
        s_len == s@.len(),
        p_len == p@.len(),
        start + p_len <= s_len,
    ensures
        r == occurs_at(s@, p@, start as int),
{
    let mut k: usize = 0;
    while k < p_len
        invariant
            k <= p_len,
            s_len == s@.len(),
            p_len == p@.len(),
            start + p_len <= s_len,
            forall|j: int| 0 <= j < k ==> s@[start + j] == p@[j],
        decreases p_len - k,
    {
        if s.get_char(start + k) != p.get_char(k) {
            proof {
                let window = s@.subrange(start as int, start + p_len);
                assert(window[k as int] == s@[start + k]);
            }
            return false;
        }
        k += 1;
    }
    proof {
        assert(s@.subrange(start as int, start + p_len) =~= p@);
    }
    true
}

/// Whether `s` begins with `p`.
pub fn starts_with(s: &str, p: &str) -> (r: bool)
    ensures
        r == has_prefix(s@, p@),
{
    let s_len: usize = s.unicode_len();
    let p_len: usize = p.unicode_len();
    if p_len > s_len {
        return false;
    }
    matches_at(s, p, 0, s_len, p_len)
}

/// Whether `p` stands somewhere in `s`.
pub fn contains(s: &str, p: &str) -> (r: bool)
    ensures
        r == has_substring(s@, p@),
{
    let s_len: usize = s.unicode_len();
    let p_len: usize = p.unicode_len();
    if p_len > s_len {
        return false;
    }
    let last: usize = s_len - p_len;
    let mut i: usize = 0;
    while i < last
        invariant
            i <= last,
            last == s_len - p_len,
            s_len == s@.len(),
            p_len == p@.len(),
            p_len <= s_len,
            forall|j: int| 0 <= j < i ==> !occurs_at(s@, p@, j),
        decreases last - i,
    {
        if matches_at(s, p, i, s_len, p_len) {
            return true;
        }
        i += 1;
    }
    matches_at(s, p, last, s_len, p_len)
}

} // verus!
