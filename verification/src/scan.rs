//! Searching a byte sequence for the first place where a pattern occurs.

use vstd::prelude::*;
use vstd::slice::slice_subrange;

verus! {

/// Carriage return.
pub const CR: u8 = 13;

/// Line feed.
pub const LF: u8 = 10;

/// The line terminator, CR LF.
pub open spec fn crlf() -> Seq<u8> {
    seq![CR, LF]
}

/// The blank line that ends a head: CR LF CR LF.
pub open spec fn boundary() -> Seq<u8> {
    seq![CR, LF, CR, LF]
}

/// `pat` stands in `hay` at index `i`.
pub open spec fn occurs_at(hay: Seq<u8>, pat: Seq<u8>, i: int) -> bool {
    &&& 0 <= i
    &&& i + pat.len() <= hay.len()
    &&& hay.subrange(i, i + pat.len()) == pat
}

/// `pat` stands somewhere in `hay`.
pub open spec fn contains(hay: Seq<u8>, pat: Seq<u8>) -> bool {
    exists|i: int| occurs_at(hay, pat, i)
}

/// `s` holds no line terminator.
pub open spec fn single_line(s: Seq<u8>) -> bool {
    !contains(s, crlf())
}

/// `pat` stands in `hay` at `i` and nowhere before `i`.
pub open spec fn first_at(hay: Seq<u8>, pat: Seq<u8>, i: int) -> bool {
    &&& occurs_at(hay, pat, i)
    &&& forall|j: int| 0 <= j < i ==> !occurs_at(hay, pat, j)
}

/// The least index at which `pat` stands in `hay`, if there is one.
pub open spec fn first_occurrence(hay: Seq<u8>, pat: Seq<u8>) -> Option<int> {
    if exists|i: int| first_at(hay, pat, i) {
        Some(choose|i: int| first_at(hay, pat, i))
    } else {
        None
    }
}

/// Below any occurrence there is a first one.
proof fn lemma_least_occurrence(hay: Seq<u8>, pat: Seq<u8>, k: int)
    requires
        occurs_at(hay, pat, k),
    ensures
        exists|i: int| first_at(hay, pat, i) && i <= k,
    decreases k,
{
    if forall|j: int| 0 <= j < k ==> !occurs_at(hay, pat, j) {
        assert(first_at(hay, pat, k));
    } else {
        let j = choose|j: int| 0 <= j < k && occurs_at(hay, pat, j);
        lemma_least_occurrence(hay, pat, j);
    }
}

/// What `first_occurrence` returns: the first place, or nothing when the
/// pattern stands nowhere.
pub proof fn lemma_first_occurrence(hay: Seq<u8>, pat: Seq<u8>)
    ensures
        match first_occurrence(hay, pat) {
            Some(i) => first_at(hay, pat, i),
            None => !contains(hay, pat),
        },
{
    if first_occurrence(hay, pat) is None {
        if contains(hay, pat) {
            let k = choose|k: int| occurs_at(hay, pat, k);
            lemma_least_occurrence(hay, pat, k);
        }
    }
}

/// A first place is the first place.
pub proof fn lemma_first_occurrence_is(hay: Seq<u8>, pat: Seq<u8>, i: int)
    requires
        first_at(hay, pat, i),
    ensures
        first_occurrence(hay, pat) == Some(i),
{
    let c = choose|c: int| first_at(hay, pat, c);
    assert(first_at(hay, pat, c));
    if c < i {
        assert(!occurs_at(hay, pat, c));
    } else if i < c {
        assert(!occurs_at(hay, pat, i));
    }
}

/// Where the pattern stands nowhere, there is no first place.
pub proof fn lemma_first_occurrence_none(hay: Seq<u8>, pat: Seq<u8>)
    requires
        !contains(hay, pat),
    ensures
        first_occurrence(hay, pat) is None,
{
    if first_occurrence(hay, pat) is Some {
        let c = choose|c: int| first_at(hay, pat, c);
        assert(occurs_at(hay, pat, c));
    }
}

/// A single byte occurs where the sequence holds that byte.
pub proof fn lemma_occurs_byte(hay: Seq<u8>, b: u8, i: int)
    ensures
        occurs_at(hay, seq![b], i) <==> (0 <= i < hay.len() && hay[i] == b),
{
    let pat = seq![b];
    if 0 <= i < hay.len() {
        if hay[i] == b {
            assert(hay.subrange(i, i + 1) =~= pat);
        } else {
            assert(hay.subrange(i, i + 1)[0] == hay[i]);
        }
    }
}

/// CR LF occurs where a CR is followed by an LF.
pub proof fn lemma_occurs_crlf(hay: Seq<u8>, i: int)
    ensures
        occurs_at(hay, crlf(), i) <==> (0 <= i && i + 2 <= hay.len() && hay[i] == CR && hay[i + 1]
            == LF),
{
    if 0 <= i && i + 2 <= hay.len() {
        let sub = hay.subrange(i, i + 2);
        assert(sub[0] == hay[i]);
        assert(sub[1] == hay[i + 1]);
        if hay[i] == CR && hay[i + 1] == LF {
            assert(sub =~= crlf());
        }
    }
}

/// The boundary occurs where two line terminators follow each other.
pub proof fn lemma_occurs_boundary(hay: Seq<u8>, i: int)
    ensures
        occurs_at(hay, boundary(), i) <==> (0 <= i && i + 4 <= hay.len() && hay[i] == CR && hay[i
            + 1] == LF && hay[i + 2] == CR && hay[i + 3] == LF),
{
    if 0 <= i && i + 4 <= hay.len() {
        let sub = hay.subrange(i, i + 4);
        assert(sub[0] == hay[i]);
        assert(sub[1] == hay[i + 1]);
        assert(sub[2] == hay[i + 2]);
        assert(sub[3] == hay[i + 3]);
        if hay[i] == CR && hay[i + 1] == LF && hay[i + 2] == CR && hay[i + 3] == LF {
            assert(sub =~= boundary());
        }
    }
}

/// The parts of `s` before and after the first occurrence of `pat`.
pub open spec fn spec_split_once(s: Seq<u8>, pat: Seq<u8>) -> Option<(Seq<u8>, Seq<u8>)> {
    match first_occurrence(s, pat) {
        Some(i) => Some((s.take(i), s.skip(i + pat.len()))),
        None => None,
    }
}

/// Whether `pat` stands in `hay` at index `i`.
pub fn matches_at(hay: &[u8], pat: &[u8], i: usize) -> (found: bool)
    ensures
        found == occurs_at(hay@, pat@, i as int),
{
    let n: usize = hay.len();
    let m: usize = pat.len();
    if i > n || m > n - i {
        return false;
    }
    let mut k: usize = 0;
    while k < m
        invariant
            n == hay@.len(),
            m == pat@.len(),
            k <= m,
            i + m <= n,
            forall|l: int| 0 <= l < k ==> hay@[i + l] == pat@[l],
        decreases m - k,
    {
        if hay[i + k] != pat[k] {
            proof {
                assert(hay@.subrange(i as int, i + m)[k as int] == hay@[i + k]);
            }
            return false;
        }
        k = k + 1;
    }
    proof {
        assert(hay@.subrange(i as int, i + m) =~= pat@);
    }
    true
}

/// The first index at which `pat` stands in `hay`.
pub fn find(hay: &[u8], pat: &[u8]) -> (found: Option<usize>)
    ensures
        match found {
            Some(i) => first_occurrence(hay@, pat@) == Some(i as int) && i + pat@.len()
                <= hay@.len(),
            None => first_occurrence(hay@, pat@) is None,
        },
{
    let n: usize = hay.len();
    let m: usize = pat.len();
    if m > n {
        proof {
            lemma_first_occurrence_none(hay@, pat@);
        }
        return None;
    }
    let last: usize = n - m;
    let mut i: usize = 0;
    loop
        invariant
            n == hay@.len(),
            m == pat@.len(),
            last == n - m,
            i <= last,
            forall|j: int| 0 <= j < i ==> !occurs_at(hay@, pat@, j),
        decreases last - i,
    {
        if matches_at(hay, pat, i) {
            proof {
                lemma_first_occurrence_is(hay@, pat@, i as int);
            }
            return Some(i);
        }
        if i == last {
            proof {
                lemma_first_occurrence_none(hay@, pat@);
            }
            return None;
        }
        i = i + 1;
    }
}

/// Cuts `s` at the first occurrence of `pat`: what stands before it, and
/// what stands after it.
pub fn split_once<'a>(s: &'a [u8], pat: &[u8]) -> (parts: Option<(&'a [u8], &'a [u8])>)
    ensures
        match parts {
            Some((before, after)) => spec_split_once(s@, pat@) == Some((before@, after@)),
            None => spec_split_once(s@, pat@) is None,
        },
{
    let n: usize = s.len();
    let m: usize = pat.len();
    match find(s, pat) {
        Some(i) => {
            let before = slice_subrange(s, 0, i);
            let after = slice_subrange(s, i + m, n);
            Some((before, after))
        },
        None => None,
    }
}

/// The line terminator as bytes.
pub fn crlf_bytes() -> (pat: [u8; 2])
    ensures
        pat@ == crlf(),
{
    let pat: [u8; 2] = [CR, LF];
    assert(pat@ =~= crlf());
    pat
}

/// The boundary as bytes.
pub fn boundary_bytes() -> (pat: [u8; 4])
    ensures
        pat@ == boundary(),
{
    let pat: [u8; 4] = [CR, LF, CR, LF];
    assert(pat@ =~= boundary());
    pat
}

} // verus!
