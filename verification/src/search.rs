//! Byte-sequence searching: occurrence of one byte string inside another,
//! first occurrence at or after a position, and executable counterparts.
//! The multipart codec is built on these.

use vstd::prelude::*;

verus! {

/// True when `d` occurs in `s` at position `i`.
pub open spec fn match_at(s: Seq<u8>, d: Seq<u8>, i: int) -> bool {
    &&& 0 <= i
    &&& i + d.len() <= s.len()
    &&& s.subrange(i, i + d.len() as int) == d
}

/// The first position at or after `from` where `d` occurs in `s`, if any.
/// An empty pattern is never searched for and is treated as absent.
pub open spec fn find_from(s: Seq<u8>, d: Seq<u8>, from: int) -> Option<int>
    decreases s.len() - from,
{
    if from < 0 || from + d.len() > s.len() || d.len() == 0 {
        Option::None
    } else if match_at(s, d, from) {
        Option::Some(from)
    } else {
        find_from(s, d, from + 1)
    }
}

/// A found occurrence is the first one: if `d` occurs at `m` and nowhere in
/// `[from, m)`, the search from `from` returns `m`.
pub proof fn lemma_find_from_exact(s: Seq<u8>, d: Seq<u8>, from: int, m: int)
    requires
        d.len() >= 1,
        0 <= from <= m,
        match_at(s, d, m),
        forall|i: int| from <= i < m ==> !match_at(s, d, i),
    ensures
        find_from(s, d, from) == Option::Some(m),
    decreases m - from,
{
    if from < m {
        lemma_find_from_exact(s, d, from + 1, m);
    }
}

/// What a successful search means: an occurrence at the returned position and
/// none before it.
pub proof fn lemma_find_from_some(s: Seq<u8>, d: Seq<u8>, from: int, m: int)
    requires
        d.len() >= 1,
        0 <= from,
        find_from(s, d, from) == Option::Some(m),
    ensures
        from <= m,
        match_at(s, d, m),
        forall|i: int| from <= i < m ==> !match_at(s, d, i),
    decreases s.len() - from,
{
    if from + d.len() <= s.len() && !match_at(s, d, from) {
        lemma_find_from_some(s, d, from + 1, m);
    }
}

/// If `d` occurs nowhere at or after `from`, the search returns nothing.
pub proof fn lemma_find_from_none_of_no_match(s: Seq<u8>, d: Seq<u8>, from: int)
    requires
        d.len() >= 1,
        0 <= from,
        forall|i: int| from <= i ==> !match_at(s, d, i),
    ensures
        find_from(s, d, from) == Option::None::<int>,
    decreases s.len() - from,
{
    if from + d.len() <= s.len() {
        lemma_find_from_none_of_no_match(s, d, from + 1);
    }
}

/// Whether `d` occurs in `s` at position `i`, executably.
pub fn is_match_at(s: &Vec<u8>, d: &Vec<u8>, i: usize) -> (r: bool)
    requires
        i + d@.len() <= s@.len(),
    ensures
        r == match_at(s@, d@, i as int),
{
    let n = s.len();
    let dl = d.len();
    let mut k: usize = 0;
    while k < dl
        invariant
            n == s@.len(),
            dl == d@.len(),
            i + dl <= n,
            0 <= k <= dl,
            forall|l: int| 0 <= l < k ==> s@[i + l] == d@[l],
        decreases dl - k,
    {
        if s[i + k] != d[k] {
            assert(s@.subrange(i as int, i + d@.len()) != d@) by {
                assert(s@.subrange(i as int, i + d@.len())[k as int] != d@[k as int]);
            }
            return false;
        }
        k += 1;
    }
    assert(s@.subrange(i as int, i + d@.len()) =~= d@);
    true
}

/// The first occurrence of `d` in `s` at or after `from`, executably.
pub fn find_sub(s: &Vec<u8>, d: &Vec<u8>, from: usize) -> (r: Option<usize>)
    requires
        d@.len() >= 1,
    ensures
        match r {
            Some(m) => find_from(s@, d@, from as int) == Option::Some(m as int),
            None => find_from(s@, d@, from as int) == Option::None::<int>,
        },
{
    let n = s.len();
    let dl = d.len();
    if dl > n || from > n - dl {
        return None;
    }
    let mut j = from;
    while j <= n - dl
        invariant
            n == s@.len(),
            dl == d@.len(),
            1 <= dl <= n,
            from <= j <= n - dl + 1,
            forall|i: int| from <= i < j ==> !match_at(s@, d@, i),
        decreases n - dl + 1 - j,
    {
        if is_match_at(s, d, j) {
            proof {
                lemma_find_from_exact(s@, d@, from as int, j as int);
            }
            return Some(j);
        }
        j += 1;
    }
    proof {
        assert forall|i: int| from <= i implies !match_at(s@, d@, i) by {
            if i < j {
            } else {
                assert(i + d@.len() > s@.len());
            }
        }
        lemma_find_from_none_of_no_match(s@, d@, from as int);
    }
    None
}

/// A copy of `s[a..b]` as its own vector.
pub fn sub_vec(s: &Vec<u8>, a: usize, b: usize) -> (r: Vec<u8>)
    requires
        a <= b <= s@.len(),
    ensures
        r@ == s@.subrange(a as int, b as int),
{
    let mut r: Vec<u8> = Vec::new();
    let mut k = a;
    while k < b
        invariant
            a <= k <= b <= s@.len(),
            r@ == s@.subrange(a as int, k as int),
        decreases b - k,
    {
        r.push(s[k]);
        assert(r@ =~= s@.subrange(a as int, k + 1 as int));
        k += 1;
    }
    r
}


/// Matches translate into a window: when `w` is the copy of `s` at
/// `[off, off + |w|)` and a whole candidate window at `k` lies inside it, an
/// occurrence of `d` at `off + k` in `s` is one at `k` in `w`.
pub proof fn lemma_match_at_in_window(s: Seq<u8>, w: Seq<u8>, d: Seq<u8>, off: int, k: int)
    requires
        0 <= off,
        0 <= k,
        k + d.len() <= w.len(),
        off + w.len() <= s.len(),
        s.subrange(off, off + w.len() as int) == w,
    ensures
        match_at(s, d, off + k) == match_at(w, d, k),
{
    assert forall|m: int| 0 <= m < w.len() implies w[m] == s[off + m] by {
        assert(w[m] == s.subrange(off, off + w.len() as int)[m]);
    }
    assert(s.subrange(off + k, off + k + d.len()) =~= w.subrange(k, k + d.len()));
}

/// A subrange of a suffix is the corresponding subrange of the whole.
pub proof fn lemma_suffix_subrange(s: Seq<u8>, t: Seq<u8>, pos: int, a: int, b: int)
    requires
        0 <= pos <= s.len(),
        s.subrange(pos, s.len() as int) == t,
        0 <= a <= b <= t.len(),
    ensures
        s.subrange(pos + a, pos + b) == t.subrange(a, b),
{
    assert forall|m: int| 0 <= m < t.len() implies t[m] == s[pos + m] by {
        assert(t[m] == s.subrange(pos, s.len() as int)[m]);
    }
    assert(s.subrange(pos + a, pos + b) =~= t.subrange(a, b));
}

} // verus!
