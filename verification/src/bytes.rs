//! Byte-level scanning primitives used by the container, package and content
//! parsers: substring search, range copy, and ASCII whitespace trimming.

use vstd::prelude::*;

verus! {

/// `pat` occurs in `hay` starting at index `i`.
pub open spec fn match_at(hay: Seq<u8>, pat: Seq<u8>, i: int) -> bool {
    &&& 0 <= i
    &&& i + pat.len() <= hay.len()
    &&& forall|j: int| 0 <= j < pat.len() ==> hay[i + j] == pat[j]
}

/// Index of the first occurrence of `pat` in `hay` at or after `from`,
/// if there is one.
pub open spec fn first_match(hay: Seq<u8>, pat: Seq<u8>, from: int) -> Option<int>
    decreases hay.len() - from,
{
    if from < 0 || from + pat.len() > hay.len() {
        None
    } else if match_at(hay, pat, from) {
        Some(from)
    } else {
        first_match(hay, pat, from + 1)
    }
}

/// A found occurrence before which no other occurrence lies is the first one.
pub proof fn lemma_first_match_found(hay: Seq<u8>, pat: Seq<u8>, from: int, i: int)
    requires
        0 <= from <= i,
        match_at(hay, pat, i),
        forall|k: int| from <= k < i ==> !match_at(hay, pat, k),
    ensures
        first_match(hay, pat, from) == Some(i),
    decreases i - from,
{
    if from < i {
        lemma_first_match_found(hay, pat, from + 1, i);
    }
}

/// If no occurrence begins at or after `from`, the search fails.
pub proof fn lemma_first_match_none(hay: Seq<u8>, pat: Seq<u8>, from: int)
    requires
        0 <= from,
        forall|k: int| from <= k ==> !match_at(hay, pat, k),
    ensures
        first_match(hay, pat, from) is None,
    decreases hay.len() - from,
{
    if from + pat.len() <= hay.len() {
        lemma_first_match_none(hay, pat, from + 1);
    }
}

/// A successful search result is an occurrence, and the earliest one.
pub proof fn lemma_first_match_some(hay: Seq<u8>, pat: Seq<u8>, from: int, i: int)
    requires
        0 <= from,
        first_match(hay, pat, from) == Some(i),
    ensures
        from <= i,
        match_at(hay, pat, i),
        forall|k: int| from <= k < i ==> !match_at(hay, pat, k),
    decreases hay.len() - from,
{
    if from + pat.len() <= hay.len() && !match_at(hay, pat, from) {
        assert(pat.len() >= 1) by {
            if pat.len() == 0 {
                assert(match_at(hay, pat, from));
            }
        }
        lemma_first_match_some(hay, pat, from + 1, i);
    }
}

/// Compares `hay[i .. i + pat.len()]` with `pat`.
pub fn eq_at(hay: &Vec<u8>, i: usize, pat: &Vec<u8>) -> (r: bool)
    requires
        i + pat@.len() <= hay@.len(),
    ensures
        r == match_at(hay@, pat@, i as int),
{
    let n = hay.len();
    let mut j: usize = 0;
    while j < pat.len()
        invariant
            i + pat@.len() <= n == hay@.len(),
            j <= pat@.len(),
            forall|k: int| 0 <= k < j ==> hay@[i + k] == pat@[k],
        decreases pat@.len() - j,
    {
        if hay[i + j] != pat[j] {
            return false;
        }
        j += 1;
    }
    true
}

/// First occurrence of `pat` that begins at or after `from` and ends at or
/// before `to`; `None` when there is none in that window.
pub fn find_sub_in(hay: &Vec<u8>, from: usize, to: usize, pat: &Vec<u8>) -> (r: Option<usize>)
    requires
        from <= to <= hay@.len(),
        pat@.len() >= 1,
    ensures
        match r {
            Some(i) => {
                &&& from <= i
                &&& i + pat@.len() <= to
                &&& match_at(hay@, pat@, i as int)
                &&& forall|k: int| from <= k < i ==> !match_at(hay@, pat@, k)
            },
            None => forall|k: int| from <= k && k + pat@.len() <= to ==> !match_at(hay@, pat@, k),
        },
{
    if pat.len() > to - from {
        return None;
    }
    let mut i = from;
    while i <= to - pat.len()
        invariant
            from <= i,
            pat@.len() >= 1,
            pat@.len() <= to - from,
            from <= to <= hay@.len(),
            forall|k: int| from <= k < i ==> !match_at(hay@, pat@, k),
        decreases to - i,
    {
        if eq_at(hay, i, pat) {
            return Some(i);
        }
        i += 1;
    }
    None
}

/// First occurrence of `pat` at or after `from`, over the whole of `hay`.
/// The result is exactly what the specification-level search gives.
pub fn find_sub(hay: &Vec<u8>, from: usize, pat: &Vec<u8>) -> (r: Option<usize>)
    requires
        from <= hay@.len(),
        pat@.len() >= 1,
    ensures
        match r {
            Some(i) => first_match(hay@, pat@, from as int) == Some(i as int),
            None => first_match(hay@, pat@, from as int) is None,
        },
{
    let r = find_sub_in(hay, from, hay.len(), pat);
    proof {
        match r {
            Some(i) => lemma_first_match_found(hay@, pat@, from as int, i as int),
            None => {
                assert forall|k: int| from <= k implies !match_at(hay@, pat@, k) by {
                    if k + pat@.len() <= hay@.len() {
                        assert(!match_at(hay@, pat@, k));
                    }
                }
                lemma_first_match_none(hay@, pat@, from as int);
            },
        }
    }
    r
}

/// Copy of `v[lo .. hi]`.
pub fn copy_range(v: &Vec<u8>, lo: usize, hi: usize) -> (r: Vec<u8>)
    requires
        lo <= hi <= v@.len(),
    ensures
        r@ == v@.subrange(lo as int, hi as int),
{
    let mut r: Vec<u8> = Vec::new();
    let mut k = lo;
    while k < hi
        invariant
            lo <= k <= hi <= v@.len(),
            r@ == v@.subrange(lo as int, k as int),
        decreases hi - k,
    {
        r.push(v[k]);
        proof {
            assert(r@ =~= v@.subrange(lo as int, k + 1 as int));
        }
        k += 1;
    }
    r
}

/// Decides whether `hay` begins with `pat`.
pub fn starts_with(hay: &Vec<u8>, pat: &Vec<u8>) -> (r: bool)
    ensures
        r == match_at(hay@, pat@, 0),
{
    if pat.len() > hay.len() {
        return false;
    }
    eq_at(hay, 0, pat)
}

/// The largest index below `hi` holding byte `b`, if any.
pub open spec fn last_byte(p: Seq<u8>, b: u8, hi: int) -> Option<int>
    decreases hi,
{
    if hi <= 0 {
        None
    } else if p[hi - 1] == b {
        Some(hi - 1)
    } else {
        last_byte(p, b, hi - 1)
    }
}

/// Finds the last occurrence of byte `b` in `p`.
#[verifier::loop_isolation(false)]
pub fn find_last_byte(p: &Vec<u8>, b: u8) -> (r: Option<usize>)
    ensures
        match r {
            Some(i) => {
                &&& last_byte(p@, b, p@.len() as int) == Some(i as int)
                &&& i < p@.len()
                &&& p@[i as int] == b
            },
            None => last_byte(p@, b, p@.len() as int) is None,
        },
{
    let mut k = p.len();
    while k > 0
        invariant
            k <= p@.len(),
            last_byte(p@, b, p@.len() as int) == last_byte(p@, b, k as int),
        decreases k,
    {
        if p[k - 1] == b {
            return Some(k - 1);
        }
        k -= 1;
    }
    None
}

/// Whether two byte vectors hold the same bytes.
pub fn bytes_eq(a: &Vec<u8>, b: &Vec<u8>) -> (r: bool)
    ensures
        r == (a@ == b@),
{
    if a.len() != b.len() {
        return false;
    }
    let mut k: usize = 0;
    while k < a.len()
        invariant
            k <= a@.len() == b@.len(),
            forall|j: int| 0 <= j < k ==> a@[j] == b@[j],
        decreases a@.len() - k,
    {
        if a[k] != b[k] {
            return false;
        }
        k += 1;
    }
    proof {
        assert(a@ =~= b@);
    }
    true
}

/// `pat` occurs somewhere in `hay`.
pub open spec fn has_sub(hay: Seq<u8>, pat: Seq<u8>) -> bool {
    exists|i: int| match_at(hay, pat, i)
}

/// Decides `has_sub`.
pub fn contains_sub(hay: &Vec<u8>, pat: &Vec<u8>) -> (r: bool)
    requires
        pat@.len() >= 1,
    ensures
        r == has_sub(hay@, pat@),
{
    match find_sub_in(hay, 0, hay.len(), pat) {
        Some(_) => true,
        None => {
            proof {
                assert forall|i: int| !match_at(hay@, pat@, i) by {
                    if 0 <= i && i + pat@.len() <= hay@.len() {
                        assert(!match_at(hay@, pat@, i));
                    }
                }
            }
            false
        },
    }
}

/// ASCII whitespace: space, tab, line feed, carriage return.
pub open spec fn is_ws(b: u8) -> bool {
    b == 32 || b == 9 || b == 10 || b == 13
}

/// Executable twin of `is_ws`.
#[verifier::when_used_as_spec(is_ws)]
pub fn ws(b: u8) -> (r: bool)
    ensures
        r == is_ws(b),
{
    b == 32 || b == 9 || b == 10 || b == 13
}

/// First index in `[lo, hi)` holding a non-whitespace byte, or `hi`.
pub open spec fn skip_ws_fwd(v: Seq<u8>, lo: int, hi: int) -> int
    decreases hi - lo,
{
    if lo >= hi {
        hi
    } else if is_ws(v[lo]) {
        skip_ws_fwd(v, lo + 1, hi)
    } else {
        lo
    }
}

/// Index after the last non-whitespace byte in `[lo, hi)`, or `lo`.
pub open spec fn skip_ws_back(v: Seq<u8>, lo: int, hi: int) -> int
    decreases hi - lo,
{
    if hi <= lo {
        lo
    } else if is_ws(v[hi - 1]) {
        skip_ws_back(v, lo, hi - 1)
    } else {
        hi
    }
}

/// The window `[lo, hi)` of `v` with ASCII whitespace removed at both ends.
pub open spec fn trim_spec(v: Seq<u8>, lo: int, hi: int) -> Seq<u8> {
    let a = skip_ws_fwd(v, lo, hi);
    let b = skip_ws_back(v, a, hi);
    v.subrange(a, b)
}

/// Narrows `[lo, hi)` to its whitespace-trimmed sub-window.
#[verifier::loop_isolation(false)]
pub fn trim_range(v: &Vec<u8>, lo: usize, hi: usize) -> (r: (usize, usize))
    requires
        lo <= hi <= v@.len(),
    ensures
        r.0 == skip_ws_fwd(v@, lo as int, hi as int),
        r.1 == skip_ws_back(v@, r.0 as int, hi as int),
        r.0 <= r.1 <= hi,
        v@.subrange(r.0 as int, r.1 as int) == trim_spec(v@, lo as int, hi as int),
{
    let mut a = lo;
    while a < hi && ws(v[a])
        invariant
            lo <= a <= hi,
            skip_ws_fwd(v@, lo as int, hi as int) == skip_ws_fwd(v@, a as int, hi as int),
        decreases hi - a,
    {
        a += 1;
    }
    let mut b = hi;
    while b > a && ws(v[b - 1])
        invariant
            a <= b <= hi,
            skip_ws_back(v@, a as int, hi as int) == skip_ws_back(v@, a as int, b as int),
        decreases b - a,
    {
        b -= 1;
    }
    (a, b)
}

/// Copy of the whitespace-trimmed window `[lo, hi)` of `v`.
pub fn trim_copy(v: &Vec<u8>, lo: usize, hi: usize) -> (r: Vec<u8>)
    requires
        lo <= hi <= v@.len(),
    ensures
        r@ == trim_spec(v@, lo as int, hi as int),
{
    let (a, b) = trim_range(v, lo, hi);
    copy_range(v, a, b)
}

} // verus!
