//! First-occurrence search for a fixed byte pattern inside a buffer. Both the
//! chunk delimiter and the four field tags are located with this search.

use vstd::prelude::*;

verus! {

/// `pat` occurs in `s` starting at position `i`.
pub open spec fn occurs_at(s: Seq<u8>, pat: Seq<u8>, i: int) -> bool {
    &&& 0 <= i
    &&& i + pat.len() <= s.len()
    &&& s.subrange(i, i + pat.len()) == pat
}

/// The first position at or after `i` where `pat` occurs in `s`, if any.
pub open spec fn find_from(s: Seq<u8>, pat: Seq<u8>, i: int) -> Option<int>
    decreases s.len() - i,
{
    if i < 0 || i + pat.len() > s.len() {
        None
    } else if pat.len() == 0 {
        Some(i)
    } else if s.subrange(i, i + pat.len()) == pat {
        Some(i)
    } else {
        find_from(s, pat, i + 1)
    }
}

/// What a result of `find_from` means: a hit is the first occurrence at or
/// after the start position, and a miss means there is none.
pub proof fn lemma_find_from_props(s: Seq<u8>, pat: Seq<u8>, i: int)
    requires
        0 <= i,
    ensures
        match find_from(s, pat, i) {
            Some(j) => {
                &&& i <= j
                &&& occurs_at(s, pat, j)
                &&& forall|k: int| i <= k < j ==> !occurs_at(s, pat, k)
            },
            None => forall|k: int| i <= k ==> !occurs_at(s, pat, k),
        },
    decreases s.len() - i,
{
    if i + pat.len() > s.len() {
        assert forall|k: int| i <= k implies !occurs_at(s, pat, k) by {}
    } else if pat.len() == 0 {
        assert(s.subrange(i, i + pat.len()) =~= pat);
    } else if s.subrange(i, i + pat.len()) == pat {
    } else {
        lemma_find_from_props(s, pat, i + 1);
    }
}

/// Find the first occurrence of `pat` in `s`, scanning from the front.
pub fn find_pattern(s: &[u8], pat: &[u8]) -> (r: Option<usize>)
    ensures
        r matches Some(j) ==> find_from(s@, pat@, 0) == Some(j as int),
        r is None ==> find_from(s@, pat@, 0) is None,
{
    let n: usize = s.len();
    let mut i: usize = 0;
    loop
        invariant
            n == s@.len(),
            0 <= i <= s@.len(),
            find_from(s@, pat@, 0) == find_from(s@, pat@, i as int),
        decreases s@.len() - i,
    {
        if pat.len() > s.len() - i {
            return None;
        }
        let mut k: usize = 0;
        while k < pat.len() && s[i + k] == pat[k]
            invariant
                n == s@.len(),
                0 <= k <= pat@.len(),
                i + pat@.len() <= s@.len(),
                forall|m: int| 0 <= m < k ==> s@[i + m] == pat@[m],
            decreases pat@.len() - k,
        {
            k = k + 1;
        }
        if k == pat.len() {
            proof {
                assert(s@.subrange(i as int, i + pat@.len()) =~= pat@);
            }
            return Some(i);
        }
        proof {
            assert(s@.subrange(i as int, i + pat@.len())[k as int] == s@[i + k]);
            assert(s@.subrange(i as int, i + pat@.len()) != pat@);
        }
        i = i + 1;
    }
}

} // verus!
