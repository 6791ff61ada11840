//! Verified text primitives: equality and substring containment over the
//! character sequences of `&str`, and a trusted case-folding wrapper.

use vstd::prelude::*;
use vstd::string::StrSliceExecFns;

verus! {

/// The needle `n` occurs in the haystack `h` starting at character position `i`.
pub open spec fn matches_at(h: Seq<char>, n: Seq<char>, i: int) -> bool {
    &&& 0 <= i
    &&& i + n.len() <= h.len()
    &&& forall|j: int| 0 <= j < n.len() ==> h[i + j] == n[j]
}

/// The needle `n` occurs somewhere in the haystack `h` as a contiguous run.
pub open spec fn is_substring_of(n: Seq<char>, h: Seq<char>) -> bool {
    exists|i: int| matches_at(h, n, i)
}

/// Character-for-character equality of two string slices.
pub fn str_eq(a: &str, b: &str) -> (r: bool)
    ensures
        r == (a@ == b@),
{
    let alen = a.unicode_len();
    let blen = b.unicode_len();
    if alen != blen {
        return false;
    }
    for i in 0..alen
        invariant
            alen == a@.len(),
            alen == b@.len(),
            forall|j: int| 0 <= j < i ==> a@[j] == b@[j],
    {
        if a.get_char(i) != b.get_char(i) {
            return false;
        }
    }
    proof {
        assert(a@ =~= b@);
    }
    true
}

/// Does the needle `n` occur in the haystack `h`, at any character position?
/// An empty needle occurs in every haystack.
pub fn contains_substring(h: &str, n: &str) -> (r: bool)
    ensures
        r == is_substring_of(n@, h@),
{
    let hlen = h.unicode_len();
    let nlen = n.unicode_len();
    if nlen > hlen {
        proof {
            assert(forall|i: int| !matches_at(h@, n@, i));
        }
        return false;
    }
    let mut i: usize = 0;
    while i <= hlen - nlen
        invariant
            hlen == h@.len(),
            nlen == n@.len(),
            nlen <= hlen,
            i <= hlen - nlen + 1,
            forall|p: int| 0 <= p < i ==> !matches_at(h@, n@, p),
        decreases hlen - nlen - i + 1,
    {
        let mut ok = true;
        let ghost pos = i as int;
        let mut j: usize = 0;
        while j < nlen
            invariant
                hlen == h@.len(),
                nlen == n@.len(),
                pos == i,
                0 <= i,
                i + nlen <= hlen,
                j <= nlen,
                ok ==> forall|q: int| 0 <= q < j ==> h@[pos + q] == n@[q],
                !ok ==> !matches_at(h@, n@, pos),
            decreases nlen - j,
        {
            if h.get_char(i + j) != n.get_char(j) {
                ok = false;
                proof {
                    assert(!matches_at(h@, n@, pos));
                }
                j = nlen;
            } else {
                j = j + 1;
            }
        }
        if ok {
            proof {
                assert(matches_at(h@, n@, pos));
            }
            return true;
        }
        i = i + 1;
    }
    proof {
        assert(forall|p: int| !matches_at(h@, n@, p));
    }
    false
}

/// The lowercase folding of a character sequence, as `str::to_lowercase`
/// computes it. Its value is not written out here: contracts speak of it by
/// name, and it is pinned down only by the folding depending on the input
/// characters alone.
pub uninterp spec fn lower_of(s: Seq<char>) -> Seq<char>;

/// Relies on `str::to_lowercase`: the returned string is the Unicode lowercase
/// folding of the input, a function of the input characters alone.
#[verifier::external_body]
pub fn lowercase(s: &str) -> (r: String)
    ensures
        r@ == lower_of(s@),
{
    s.to_lowercase()
}

} // verus!
