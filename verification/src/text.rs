//! Verified text helpers: character access, string equality, substring
//! search, and the lowercase wrapper the matchers rely on.

use vstd::prelude::*;
use vstd::string::StrSliceExecFns;

verus! {

/// The characters of `s.to_lowercase()`: a function of the characters of `s`
/// alone, left without a definition here.
pub uninterp spec fn lower_of(s: Seq<char>) -> Seq<char>;

/// Relies on str::to_lowercase: the result depends on the characters alone,
/// and an empty string stays empty.
#[verifier::external_body]
pub fn lowercase(s: &str) -> (r: String)
    ensures
        r@ == lower_of(s@),
        s@.len() == 0 ==> r@.len() == 0,
{
    s.to_lowercase()
}

/// Decide whether a string's characters equal a literal's.
pub(crate) fn str_eq(w: &String, lit: &str) -> (r: bool)
    ensures
        r == (w@ == lit@),
{
    w.eq(&lit.to_owned())
}

/// Collect the characters of a string into a vector.
pub fn chars_of(s: &str) -> (r: Vec<char>)
    ensures
        r@ == s@,
{
    let n = s.unicode_len();
    let mut out: Vec<char> = Vec::new();
    let mut i: usize = 0;
    while i < n
        invariant
            n == s@.len(),
            i <= n,
            out@ == s@.take(i as int),
        decreases n - i,
    {
        out.push(s.get_char(i));
        i = i + 1;
        proof {
            assert(out@ =~= s@.take(i as int));
        }
    }
    proof {
        assert(s@.take(n as int) =~= s@);
    }
    out
}

/// Decide equality of two vectors of strings, element by element.
pub fn string_vec_eq(a: &Vec<String>, b: &Vec<String>) -> (r: bool)
    ensures
        r == (a.deep_view() == b.deep_view()),
{
    if a.len() != b.len() {
        proof {
            assert(a.deep_view().len() == a@.len());
            assert(b.deep_view().len() == b@.len());
        }
        return false;
    }
    let mut i: usize = 0;
    while i < a.len()
        invariant
            a@.len() == b@.len(),
            i <= a@.len(),
            forall|j: int| 0 <= j < i ==> a@[j]@ == b@[j]@,
        decreases a@.len() - i,
    {
        if a[i] != b[i] {
            proof {
                assert(a.deep_view()[i as int] == a@[i as int]@);
                assert(b.deep_view()[i as int] == b@[i as int]@);
            }
            return false;
        }
        i = i + 1;
    }
    proof {
        assert(a.deep_view() =~= b.deep_view());
    }
    true
}

/// Whether `needle` stands in `hay` at position `i`.
pub open spec fn matches_at(hay: Seq<char>, needle: Seq<char>, i: int) -> bool {
    hay.subrange(i, i + needle.len() as int) == needle
}

/// Whether `needle` occurs in `hay` as a contiguous run of characters.
pub open spec fn spec_contains(hay: Seq<char>, needle: Seq<char>) -> bool {
    exists|i: int|
        0 <= i <= hay.len() - needle.len() && #[trigger] matches_at(hay, needle, i)
}

/// Decide whether `needle` occurs in `hay` as a contiguous run of characters.
///
/// The empty needle occurs in every string.
pub fn contains_sub(hay: &[char], needle: &[char]) -> (r: bool)
    ensures
        r == spec_contains(hay@, needle@),
{
    let n = hay.len();
    let m = needle.len();
    if m > n {
        return false;
    }
    let mut i: usize = 0;
    while i <= n - m
        invariant
            m <= n == hay@.len(),
            m == needle@.len(),
            i <= n - m + 1,
            forall|k: int| 0 <= k < i ==> !#[trigger] matches_at(hay@, needle@, k),
        decreases n - m + 1 - i,
    {
        let mut j: usize = 0;
        let mut all_eq = true;
        while j < m
            invariant
                m <= n == hay@.len(),
                m == needle@.len(),
                i <= n - m,
                j <= m,
                all_eq == (forall|k: int| 0 <= k < j ==> hay@[i + k] == needle@[k]),
            decreases m - j,
        {
            if hay[i + j] != needle[j] {
                all_eq = false;
                proof {
                    assert(hay@[i + j] != needle@[j as int]);
                }
                j = m;
            } else {
                j = j + 1;
            }
        }
        if all_eq {
            proof {
                assert(hay@.subrange(i as int, i + m as int) =~= needle@);
                assert(matches_at(hay@, needle@, i as int));
            }
            return true;
        }
        proof {
            if matches_at(hay@, needle@, i as int) {
                assert(forall|k: int| 0 <= k < m ==> #[trigger] hay@.subrange(
                    i as int,
                    i + m as int,
                )[k] == hay@[i + k]);
                assert(false);
            }
        }
        i = i + 1;
    }
    false
}

/// Decide whether the lowercased `needle` occurs in the lowercased `hay`.
pub fn contains_lower(hay: &str, needle: &str) -> (r: bool)
    ensures
        r == spec_contains(lower_of(hay@), lower_of(needle@)),
{
    let h = lowercase(hay);
    let n = lowercase(needle);
    let hc = chars_of(h.as_str());
    let nc = chars_of(n.as_str());
    contains_sub(hc.as_slice(), nc.as_slice())
}

} // verus!
