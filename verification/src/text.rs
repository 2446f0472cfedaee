//! Character-level text utilities: locating separators, comparing
//! strings, and case-insensitive matching against lowercase ASCII words.

use vstd::prelude::*;

verus! {

/// The index of the last occurrence of `c` in `s`, or -1 when `c` does
/// not occur.
pub open spec fn last_idx(s: Seq<char>, c: char) -> int
    decreases s.len(),
{
    if s.len() == 0 {
        -1
    } else if s.last() == c {
        s.len() - 1
    } else {
        last_idx(s.drop_last(), c)
    }
}

/// The index of the first occurrence of `c` in `s`, or -1 when `c` does
/// not occur.
pub open spec fn first_idx(s: Seq<char>, c: char) -> int
    decreases s.len(),
{
    if s.len() == 0 {
        -1
    } else if s[0] == c {
        0
    } else {
        let r = first_idx(s.drop_first(), c);
        if r == -1 {
            -1
        } else {
            r + 1
        }
    }
}

/// What `last_idx` returns: either -1 and `c` is absent, or the largest
/// index holding `c`.
pub proof fn lemma_last_idx(s: Seq<char>, c: char)
    ensures
        last_idx(s, c) == -1 ==> (forall|k: int| 0 <= k < s.len() ==> s[k] != c),
        last_idx(s, c) != -1 ==> 0 <= last_idx(s, c) < s.len() && s[last_idx(s, c)] == c && (
        forall|k: int| last_idx(s, c) < k < s.len() ==> s[k] != c),
    decreases s.len(),
{
    if s.len() > 0 && s.last() != c {
        lemma_last_idx(s.drop_last(), c);
        let li = last_idx(s, c);
        if li == -1 {
            assert forall|k: int| 0 <= k < s.len() implies s[k] != c by {
                if k < s.len() - 1 {
                    assert(s.drop_last()[k] != c);
                }
            }
        } else {
            assert(s[li] == s.drop_last()[li]);
            assert forall|k: int| li < k < s.len() implies s[k] != c by {
                if k < s.len() - 1 {
                    assert(s.drop_last()[k] != c);
                }
            }
        }
    }
}

/// What `first_idx` returns: either -1 and `c` is absent, or the smallest
/// index holding `c`.
pub proof fn lemma_first_idx(s: Seq<char>, c: char)
    ensures
        first_idx(s, c) == -1 ==> (forall|k: int| 0 <= k < s.len() ==> s[k] != c),
        first_idx(s, c) != -1 ==> 0 <= first_idx(s, c) < s.len() && s[first_idx(s, c)] == c && (
        forall|k: int| 0 <= k < first_idx(s, c) ==> s[k] != c),
    decreases s.len(),
{
    if s.len() > 0 && s[0] != c {
        lemma_first_idx(s.drop_first(), c);
        let fi0 = first_idx(s.drop_first(), c);
        if fi0 == -1 {
            assert forall|k: int| 0 <= k < s.len() implies s[k] != c by {
                if k > 0 {
                    assert(s.drop_first()[k - 1] != c);
                }
            }
        } else {
            assert(s[fi0 + 1] == s.drop_first()[fi0]);
            assert forall|k: int| 0 <= k < fi0 + 1 implies s[k] != c by {
                if k > 0 {
                    assert(s.drop_first()[k - 1] != c);
                }
            }
        }
    }
}

/// Finds the last occurrence of `c` in `s`.
pub fn find_last(s: &str, c: char) -> (r: Option<usize>)
    ensures
        r is Some <==> last_idx(s@, c) >= 0,
        r is None ==> last_idx(s@, c) == -1,
        r is Some ==> r->0 == last_idx(s@, c) && r->0 < s@.len(),
{
    let mut i = s.unicode_len();
    while i > 0
        invariant
            0 <= i <= s@.len(),
            forall|k: int| i <= k < s@.len() ==> s@[k] != c,
        decreases i,
    {
        i = i - 1;
        if s.get_char(i) == c {
            proof {
                lemma_last_idx(s@, c);
                let li = last_idx(s@, c);
                assert(s@[i as int] == c);
                if li > i {
                    assert(s@[li] != c);
                }
            }
            return Some(i);
        }
    }
    proof {
        lemma_last_idx(s@, c);
        let li = last_idx(s@, c);
        if li >= 0 {
            assert(s@[li] != c);
        }
    }
    None
}

/// Finds the first occurrence of `c` in `s`.
pub fn find_first(s: &str, c: char) -> (r: Option<usize>)
    ensures
        r is Some <==> first_idx(s@, c) >= 0,
        r is None ==> first_idx(s@, c) == -1,
        r is Some ==> r->0 == first_idx(s@, c) && r->0 < s@.len(),
{
    let n = s.unicode_len();
    let mut i: usize = 0;
    while i < n
        invariant
            0 <= i <= n == s@.len(),
            forall|k: int| 0 <= k < i ==> s@[k] != c,
        decreases n - i,
    {
        if s.get_char(i) == c {
            proof {
                lemma_first_idx(s@, c);
                let fi = first_idx(s@, c);
                assert(s@[i as int] == c);
                if 0 <= fi < i {
                    assert(s@[fi] != c);
                }
            }
            return Some(i);
        }
        i = i + 1;
    }
    proof {
        lemma_first_idx(s@, c);
        let fi = first_idx(s@, c);
        if fi >= 0 {
            assert(s@[fi] != c);
        }
    }
    None
}

/// Whether two strings hold the same characters.
pub fn str_eq(a: &str, b: &str) -> (r: bool)
    ensures
        r == (a@ == b@),
{
    let n = a.unicode_len();
    if n != b.unicode_len() {
        return false;
    }
    let mut i: usize = 0;
    while i < n
        invariant
            0 <= i <= n,
            n == a@.len() == b@.len(),
            forall|k: int| 0 <= k < i ==> a@[k] == b@[k],
        decreases n - i,
    {
        if a.get_char(i) != b.get_char(i) {
            return false;
        }
        i = i + 1;
    }
    proof {
        assert(a@ =~= b@);
    }
    true
}

/// Whether `c` reads as the lowercase ASCII letter `l` once letter case is
/// ignored: either `c` is `l` itself, or `c` is the uppercase ASCII form
/// of `l`.
pub open spec fn char_matches_lower(c: char, l: char) -> bool {
    c == l || ('A' <= c && c <= 'Z' && (c as int) + 32 == (l as int))
}

/// Whether `s` reads as the lowercase ASCII word `w` once ASCII letter
/// case is ignored.
pub open spec fn matches_lower(s: Seq<char>, w: Seq<char>) -> bool {
    s.len() == w.len() && (forall|i: int|
        0 <= i < s.len() ==> char_matches_lower(#[trigger] s[i], w[i]))
}

/// Compares `s` against a lowercase ASCII word `w`, ignoring ASCII letter
/// case in `s`.
pub fn eq_lowered(s: &str, w: &str) -> (r: bool)
    ensures
        r == matches_lower(s@, w@),
{
    let n = s.unicode_len();
    if n != w.unicode_len() {
        return false;
    }
    let mut i: usize = 0;
    while i < n
        invariant
            0 <= i <= n,
            n == s@.len() == w@.len(),
            forall|k: int| 0 <= k < i ==> char_matches_lower(s@[k], w@[k]),
        decreases n - i,
    {
        let c = s.get_char(i);
        let l = w.get_char(i);
        let is_upper = 'A' <= c && c <= 'Z';
        let folded_matches = is_upper && (c as u32) + 32 == (l as u32);
        if !(c == l || folded_matches) {
            return false;
        }
        i = i + 1;
    }
    true
}

/// Whether `p` is a prefix of `s`.
pub open spec fn has_prefix(s: Seq<char>, p: Seq<char>) -> bool {
    s.len() >= p.len() && s.subrange(0, p.len() as int) == p
}

/// Tests whether `s` starts with `p`.
pub fn starts_with(s: &str, p: &str) -> (r: bool)
    ensures
        r == has_prefix(s@, p@),
{
    let n = s.unicode_len();
    let m = p.unicode_len();
    if n < m {
        return false;
    }
    let mut i: usize = 0;
    while i < m
        invariant
            0 <= i <= m,
            m == p@.len() <= n == s@.len(),
            forall|k: int| 0 <= k < i ==> s@[k] == p@[k],
        decreases m - i,
    {
        if s.get_char(i) != p.get_char(i) {
            proof {
                assert(s@.subrange(0, p@.len() as int)[i as int] == s@[i as int]);
            }
            return false;
        }
        i = i + 1;
    }
    proof {
        assert(s@.subrange(0, p@.len() as int) =~= p@);
    }
    true
}

} // verus!
