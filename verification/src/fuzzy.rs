//! The fuzzy matcher: normalized edit-distance scoring over lowercased
//! strings, used to find the single best-matching candidate.
//!
//! Similarity is the rational `(max(l1, l2) - distance) / max(l1, l2)`, a
//! score between zero and one; a score below the caller's threshold is
//! reported as zero. On candidates of equal score the last one scanned
//! wins.

use vstd::prelude::*;
use vstd::string::StrSliceExecFns;

use crate::cards::Card;
use crate::text::{chars_of, lower_of, lowercase};

verus! {

/// The edit distance between two character sequences: the least number of
/// insertions, deletions and substitutions turning one into the other.
pub open spec fn lev_dist(a: Seq<char>, b: Seq<char>) -> int
    decreases a.len() + b.len(),
{
    if a.len() == 0 {
        b.len() as int
    } else if b.len() == 0 {
        a.len() as int
    } else {
        let del = lev_dist(a.drop_last(), b) + 1;
        let ins = lev_dist(a, b.drop_last()) + 1;
        let sub = lev_dist(a.drop_last(), b.drop_last()) + if a.last() == b.last() {
            0int
        } else {
            1int
        };
        min3(del, ins, sub)
    }
}

/// The least of three values.
pub open spec fn min3(a: int, b: int, c: int) -> int {
    if a <= b && a <= c {
        a
    } else if b <= c {
        b
    } else {
        c
    }
}

/// The edit distance is never negative and never more than the longer
/// input.
pub proof fn lemma_lev_dist_bounds(a: Seq<char>, b: Seq<char>)
    ensures
        0 <= lev_dist(a, b),
        lev_dist(a, b) <= if a.len() >= b.len() {
            a.len() as int
        } else {
            b.len() as int
        },
    decreases a.len() + b.len(),
{
    if a.len() == 0 || b.len() == 0 {
    } else {
        lemma_lev_dist_bounds(a.drop_last(), b);
        lemma_lev_dist_bounds(a, b.drop_last());
        lemma_lev_dist_bounds(a.drop_last(), b.drop_last());
    }
}

/// A similarity score, kept as an exact rational with a positive
/// denominator.
#[derive(Clone, Copy, Debug, PartialEq, Eq, Structural)]
pub struct Similarity {
    /// The numerator: zero means no match.
    pub num: usize,
    /// The denominator: the longer of the two compared lengths, or one.
    pub den: usize,
}

/// Whether score `x` is at least score `y`, comparing the rationals by
/// cross-multiplication.
pub open spec fn sim_ge(x: Similarity, y: Similarity) -> bool {
    x.num * y.den >= y.num * x.den
}

/// Whether score `x` is strictly greater than score `y`.
pub open spec fn sim_gt(x: Similarity, y: Similarity) -> bool {
    x.num * y.den > y.num * x.den
}

/// Ordering of scores with positive denominators carries over a chain.
proof fn lemma_sim_ge_trans(x: Similarity, y: Similarity, z: Similarity)
    requires
        x.den > 0,
        y.den > 0,
        z.den > 0,
        sim_ge(x, y),
        sim_ge(y, z),
    ensures
        sim_ge(x, z),
{
    assert(x.num * y.den >= y.num * x.den && y.num * z.den >= z.num * y.den ==> x.num * z.den
        >= z.num * x.den) by (nonlinear_arith)
        requires
            x.den > 0,
            y.den > 0,
            z.den > 0,
    ;
}

/// The normalized, thresholded similarity of two character sequences: the
/// share of the longer length not spent on edits, and zero when that share
/// falls below `tn / td` or either input is degenerate.
///
/// An empty first input scores zero; inputs too long for the machine to
/// measure score zero as well.
pub open spec fn lev_sim(a: Seq<char>, b: Seq<char>, tn: int, td: int) -> Similarity {
    if a.len() == 0 || a.len() + b.len() >= usize::MAX {
        Similarity { num: 0, den: 1 }
    } else {
        let mx = if a.len() >= b.len() {
            a.len() as int
        } else {
            b.len() as int
        };
        let t = mx - lev_dist(a, b);
        if t * td >= tn * mx {
            Similarity { num: t as usize, den: mx as usize }
        } else {
            Similarity { num: 0, den: mx as usize }
        }
    }
}

/// Compare two non-negative rationals by cross-multiplication, wide enough
/// that the products cannot overflow.
fn cross_ge(an: usize, ad: usize, bn: usize, bd: usize) -> (r: bool)
    ensures
        r == (an * bd >= bn * ad),
{
    let x: u128 = an as u128;
    let y: u128 = bd as u128;
    let z: u128 = bn as u128;
    let w: u128 = ad as u128;
    proof {
        assert(x * y < u128::MAX && z * w < u128::MAX) by (nonlinear_arith)
            requires
                x <= u64::MAX,
                y <= u64::MAX,
                z <= u64::MAX,
                w <= u64::MAX,
        ;
    }
    x * y >= z * w
}

/// Compute the edit distance between two character vectors by the usual
/// single-row dynamic programme.
fn lev_dist_exec(a: &Vec<char>, b: &Vec<char>) -> (d: usize)
    requires
        a@.len() + b@.len() < usize::MAX,
    ensures
        d as int == lev_dist(a@, b@),
{
    let l1 = a.len();
    let l2 = b.len();
    let mut prev_dist: Vec<usize> = Vec::new();
    let mut k: usize = 0;
    while k <= l1
        invariant
            l1 == a@.len(),
            l1 + l2 < usize::MAX,
            k <= l1 + 1,
            prev_dist@.len() == k,
            forall|i: int| 0 <= i < k ==> prev_dist@[i] == lev_dist(a@.take(i), Seq::empty()),
        decreases l1 + 1 - k,
    {
        proof {
            assert(a@.take(k as int).len() == k);
            assert(lev_dist(a@.take(k as int), Seq::empty()) == k);
        }
        prev_dist.push(k);
        k = k + 1;
    }
    let mut row: usize = 0;
    while row < l2
        invariant
            l1 == a@.len(),
            l2 == b@.len(),
            l1 + l2 < usize::MAX,
            row <= l2,
            prev_dist@.len() == l1 + 1,
            forall|i: int| 0 <= i <= l1 ==> prev_dist@[i] == lev_dist(
                a@.take(i),
                b@.take(row as int),
            ),
        decreases l2 - row,
    {
        let c2 = b[row];
        let mut prev_sub = prev_dist[0];
        proof {
            assert(a@.take(0) =~= Seq::<char>::empty());
            assert(b@.take(row + 1).len() == row + 1);
            assert(lev_dist(Seq::empty(), b@.take(row + 1)) == row + 1);
        }
        prev_dist.set(0, row + 1);
        let mut col: usize = 0;
        while col < l1
            invariant
                l1 == a@.len(),
                l2 == b@.len(),
                l1 + l2 < usize::MAX,
                row < l2,
                c2 == b@[row as int],
                col <= l1,
                prev_dist@.len() == l1 + 1,
                prev_sub as int == lev_dist(a@.take(col as int), b@.take(row as int)),
                forall|i: int| 0 <= i <= col ==> prev_dist@[i] == lev_dist(
                    a@.take(i),
                    b@.take(row + 1),
                ),
                forall|i: int| col < i <= l1 ==> prev_dist@[i] == lev_dist(
                    a@.take(i),
                    b@.take(row as int),
                ),
            decreases l1 - col,
        {
            let c1 = a[col];
            proof {
                lemma_lev_dist_bounds(a@.take(col as int), b@.take(row + 1));
                lemma_lev_dist_bounds(a@.take(col + 1), b@.take(row as int));
                lemma_lev_dist_bounds(a@.take(col as int), b@.take(row as int));
            }
            let deletion_cost = prev_dist[col] + 1;
            let insertion_cost = prev_dist[col + 1] + 1;
            let substitution_cost = if c1 == c2 {
                prev_sub
            } else {
                prev_sub + 1
            };
            prev_sub = prev_dist[col + 1];
            let mut best = substitution_cost;
            if deletion_cost < best {
                best = deletion_cost;
            }
            if insertion_cost < best {
                best = insertion_cost;
            }
            proof {
                let ap = a@.take(col + 1);
                let bp = b@.take(row + 1);
                assert(ap.drop_last() =~= a@.take(col as int));
                assert(bp.drop_last() =~= b@.take(row as int));
                assert(ap.last() == a@[col as int]);
                assert(bp.last() == b@[row as int]);
                assert(ap.len() > 0 && bp.len() > 0);
                assert(best as int == lev_dist(ap, bp));
            }
            prev_dist.set(col + 1, best);
            col = col + 1;
        }
        proof {
            assert(b@.take(row + 1).len() == row + 1);
        }
        row = row + 1;
    }
    proof {
        assert(a@.take(l1 as int) =~= a@);
        assert(b@.take(l2 as int) =~= b@);
    }
    prev_dist[l1]
}

/// Score two strings, exactly as [`lev_sim`] states: their normalized edit
/// similarity, or zero below the threshold `tn / td`.
pub fn lev(s1: &str, s2: &str, tn: usize, td: usize) -> (r: Similarity)
    requires
        td > 0,
    ensures
        r == lev_sim(s1@, s2@, tn as int, td as int),
{
    let a = chars_of(s1);
    let b = chars_of(s2);
    let l1 = a.len();
    let l2 = b.len();
    if l1 == 0 || l1 as u128 + l2 as u128 >= usize::MAX as u128 {
        return Similarity { num: 0, den: 1 };
    }
    let d = lev_dist_exec(&a, &b);
    let mx = if l1 >= l2 {
        l1
    } else {
        l2
    };
    proof {
        lemma_lev_dist_bounds(a@, b@);
    }
    let t = mx - d;
    if cross_ge(t, mx, tn, td) {
        Similarity { num: t, den: mx }
    } else {
        Similarity { num: 0, den: mx }
    }
}

/// A type the fuzzy matcher can search: it offers the string it is compared
/// by.
pub trait SearchKey {
    /// The characters of the comparison string.
    spec fn key_spec(&self) -> Seq<char>;

    /// The comparison string, exactly the characters of
    /// [`SearchKey::key_spec`].
    fn key(&self) -> (r: &str)
        ensures
            r@ == self.key_spec(),
    ;
}

impl SearchKey for String {
    open spec fn key_spec(&self) -> Seq<char> {
        self@
    }

    fn key(&self) -> (r: &str) {
        self.as_str()
    }
}

impl<E, C> SearchKey for Card<E, C> {
    open spec fn key_spec(&self) -> Seq<char> {
        self.name@
    }

    fn key(&self) -> (r: &str) {
        self.name.as_str()
    }
}

/// One result of the fuzzy matcher: the best candidate and its score.
pub struct FuzzyRes<'a, T> {
    /// The score of this result.
    pub rank: Similarity,
    /// The item of this result.
    pub data: &'a T,
}

/// The score of candidate `i` against the query: both lowercased, then
/// scored by [`lev_sim`] with the threshold `tn / td`.
pub open spec fn fuzzy_score<T: SearchKey>(
    vec: Seq<&T>,
    value: Seq<char>,
    tn: int,
    td: int,
    i: int,
) -> Similarity {
    lev_sim(lower_of(vec[i].key_spec()), lower_of(value), tn, td)
}

/// Whether candidate `i` is the one the scan keeps: a positive score, no
/// candidate strictly better, and every later candidate strictly worse --
/// on ties the last equal candidate wins.
pub open spec fn fuzzy_best_at<T: SearchKey>(
    vec: Seq<&T>,
    value: Seq<char>,
    tn: int,
    td: int,
    i: int,
) -> bool {
    &&& 0 <= i < vec.len()
    &&& fuzzy_score(vec, value, tn, td, i).num > 0
    &&& forall|j: int| 0 <= j < vec.len() ==> !sim_gt(
        #[trigger] fuzzy_score(vec, value, tn, td, j),
        fuzzy_score(vec, value, tn, td, i),
    )
    &&& forall|j: int| i < j < vec.len() ==> !sim_ge(
        #[trigger] fuzzy_score(vec, value, tn, td, j),
        fuzzy_score(vec, value, tn, td, i),
    )
}

/// Fuzzy match a query against a list of candidates and return the best
/// one: the candidate singled out by [`fuzzy_best_at`], or nothing when no
/// candidate scores above zero.
pub fn fuzzy_best<'a, T: SearchKey>(value: &str, vec: Vec<&'a T>, tn: usize, td: usize) -> (r:
    Option<FuzzyRes<'a, T>>)
    requires
        td > 0,
    ensures
        r is None <==> (forall|j: int| 0 <= j < vec@.len() ==> (#[trigger] fuzzy_score(
            vec@,
            value@,
            tn as int,
            td as int,
            j,
        )).num == 0),
        r matches Some(res) ==> exists|i: int|
            #[trigger] fuzzy_best_at(vec@, value@, tn as int, td as int, i) && res.data == vec@[i]
                && res.rank == fuzzy_score(vec@, value@, tn as int, td as int, i),
{
    let lv = lowercase(value);
    let n = vec.len();
    let mut best: Option<FuzzyRes<'a, T>> = None;
    let ghost mut best_idx: int = 0;
    let mut i: usize = 0;
    while i < n
        invariant
            td > 0,
            n == vec@.len(),
            i <= n,
            lv@ == lower_of(value@),
            best is None ==> forall|j: int| 0 <= j < i ==> (#[trigger] fuzzy_score(
                vec@,
                value@,
                tn as int,
                td as int,
                j,
            )).num == 0,
            best matches Some(res) ==> {
                &&& 0 <= best_idx < i
                &&& res.data == vec@[best_idx]
                &&& res.rank == fuzzy_score(vec@, value@, tn as int, td as int, best_idx)
                &&& res.rank.num > 0
                &&& res.rank.den > 0
                &&& forall|j: int| 0 <= j < i ==> !sim_gt(
                    #[trigger] fuzzy_score(vec@, value@, tn as int, td as int, j),
                    res.rank,
                )
                &&& forall|j: int| best_idx < j < i ==> !sim_ge(
                    #[trigger] fuzzy_score(vec@, value@, tn as int, td as int, j),
                    res.rank,
                )
            },
        decreases n - i,
    {
        let lk = lowercase(vec[i].key());
        let sc = lev(lk.as_str(), lv.as_str(), tn, td);
        proof {
            assert(sc == fuzzy_score(vec@, value@, tn as int, td as int, i as int));
            assert(sc.den > 0) by {
                assert(sc == lev_sim(lower_of(vec@[i as int].key_spec()), lower_of(value@),
                    tn as int, td as int));
            }
        }
        match &best {
            Some(res) => {
                let replace = cross_ge(sc.num, sc.den, res.rank.num, res.rank.den);
                if replace {
                    proof {
                        let ghost old_rank = best->Some_0.rank;
                        assert(sim_ge(sc, old_rank));
                        assert forall|j: int| 0 <= j < i implies !sim_gt(
                            #[trigger] fuzzy_score(vec@, value@, tn as int, td as int, j),
                            sc,
                        ) by {
                            let sj = fuzzy_score(vec@, value@, tn as int, td as int, j);
                            assert(!sim_gt(sj, old_rank));
                            if sim_gt(sj, sc) {
                                lemma_sim_ge_trans(sj, sc, old_rank);
                                assert(sim_ge(sj, old_rank));
                                assert(sj.num * old_rank.den > old_rank.num * sj.den)
                                    by (nonlinear_arith)
                                    requires
                                        sim_gt(sj, sc),
                                        sim_ge(sc, old_rank),
                                        sj.den > 0,
                                        sc.den > 0,
                                        old_rank.den > 0,
                                ;
                            }
                        }
                        assert(old_rank.num * sc.den > 0) by (nonlinear_arith)
                            requires
                                old_rank.num > 0,
                                sc.den > 0,
                        ;
                        assert(sc.num * old_rank.den > 0);
                        assert(sc.num > 0) by (nonlinear_arith)
                            requires
                                sc.num * old_rank.den > 0,
                                old_rank.den > 0,
                        ;
                        best_idx = i as int;
                    }
                    best = Some(FuzzyRes { rank: sc, data: vec[i] });
                } else {
                    proof {
                        assert(!sim_ge(sc, best->Some_0.rank));
                        assert(!sim_gt(sc, best->Some_0.rank)) by (nonlinear_arith)
                            requires
                                !sim_ge(sc, best->Some_0.rank),
                        ;
                    }
                }
            },
            None => {
                if sc.num > 0 {
                    proof {
                        best_idx = i as int;
                        assert forall|j: int| 0 <= j < i implies !sim_gt(
                            #[trigger] fuzzy_score(vec@, value@, tn as int, td as int, j),
                            sc,
                        ) by {
                            let sj = fuzzy_score(vec@, value@, tn as int, td as int, j);
                            assert(sj.num == 0);
                            assert(sj.num * sc.den == 0);
                            assert(sc.num * sj.den > 0) by (nonlinear_arith)
                                requires
                                    sc.num > 0,
                                    sj.den > 0,
                            ;
                        }
                    }
                    best = Some(FuzzyRes { rank: sc, data: vec[i] });
                }
            },
        }
        i = i + 1;
    }
    proof {
        if best is Some {
            assert(fuzzy_best_at(vec@, value@, tn as int, td as int, best_idx));
        }
    }
    best
}

} // verus!
