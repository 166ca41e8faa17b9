//! Character-level text helpers: pattern occurrence at a position, and a
//! verified substring search used for the sender allow-pattern.

use vstd::prelude::*;
use vstd::string::StrSliceExecFns;

verus! {

/// `p` occurs in `t` starting at position `i`.
pub open spec fn matches_at(t: Seq<char>, p: Seq<char>, i: int) -> bool {
    &&& 0 <= i
    &&& i + p.len() <= t.len()
    &&& t.subrange(i, i + p.len() as int) == p
}

/// `p` occurs somewhere in `t`.
pub open spec fn contains_seq(t: Seq<char>, p: Seq<char>) -> bool {
    exists|i: int| matches_at(t, p, i)
}

/// The characters of `s`, in order.
pub fn chars_of(s: &str) -> (v: Vec<char>)
    ensures
        v@ == s@,
{
    let n = s.unicode_len();
    let mut v: Vec<char> = Vec::new();
    let mut i: usize = 0;
    while i < n
        invariant
            i <= n,
            n == s@.len(),
            v@ =~= s@.take(i as int),
        decreases n - i,
    {
        let c = s.get_char(i);
        v.push(c);
        assert(v@ =~= s@.take(i + 1));
        i += 1;
    }
    proof {
        assert(v@ =~= s@);
    }
    v
}

/// Whether `p` occurs in `t` at position `i`.
pub fn matches_pat_at(t: &Vec<char>, p: &Vec<char>, i: usize) -> (r: bool)
    requires
        i <= t@.len(),
    ensures
        r == matches_at(t@, p@, i as int),
{
    let m = p.len();
    let n = t.len();
    if m > n - i {
        return false;
    }
    let mut k: usize = 0;
    while k < m
        invariant
            k <= m,
            m == p@.len(),
            n == t@.len(),
            i + m <= n,
            forall|j: int| 0 <= j < k ==> t@[i + j] == p@[j],
        decreases m - k,
    {
        if t[i + k] != p[k] {
            assert(t@[i + k as int] != p@[k as int]);
            assert(!matches_at(t@, p@, i as int)) by {
                if t@.subrange(i as int, i + p@.len() as int) == p@ {
                    assert(t@.subrange(i as int, i + p@.len() as int)[k as int] == p@[k as int]);
                }
            }
            return false;
        }
        k += 1;
    }
    proof {
        assert(t@.subrange(i as int, i + p@.len() as int) =~= p@);
    }
    true
}

/// Substring search: whether `pat` occurs anywhere in `text`.
pub fn contains_pattern(text: &str, pat: &str) -> (r: bool)
    ensures
        r == contains_seq(text@, pat@),
{
    let t = chars_of(text);
    let p = chars_of(pat);
    let n = t.len();
    let m = p.len();
    if m == 0 {
        proof {
            assert(text@.subrange(0, 0) =~= pat@);
            assert(matches_at(text@, pat@, 0));
        }
        return true;
    }
    if m > n {
        assert(!contains_seq(text@, pat@)) by {
            if contains_seq(text@, pat@) {
                let i = choose|i: int| matches_at(text@, pat@, i);
            }
        }
        return false;
    }
    let mut i: usize = 0;
    while i <= n - m
        invariant
            1 <= m <= n,
            n == t@.len(),
            m == p@.len(),
            t@ == text@,
            p@ == pat@,
            i <= n - m + 1,
            forall|j: int| 0 <= j < i ==> !matches_at(text@, pat@, j),
        decreases n - m + 1 - i,
    {
        if matches_pat_at(&t, &p, i) {
            assert(matches_at(text@, pat@, i as int));
            return true;
        }
        i += 1;
    }
    assert(!contains_seq(text@, pat@)) by {
        if contains_seq(text@, pat@) {
            let j = choose|j: int| matches_at(text@, pat@, j);
            assert(j + pat@.len() <= text@.len());
            assert(j < i);
        }
    }
    false
}

} // verus!
