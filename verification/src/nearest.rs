//! The nearest of a sequence of candidate hits.
//!
//! A ray may meet a scene in many places. The hit to report is the one with
//! the least parameter strictly inside the search interval; where several
//! share the least parameter, the one that comes first in the sequence.

use vstd::prelude::*;
use crate::hit::{inside, spec_inside, HitRecord};
use crate::scalar::Scalar;

verus! {

/// `c[k]` is the hit to report: it lies inside the interval, every earlier
/// candidate inside the interval is strictly farther, and no later one is
/// nearer.
pub open spec fn first_least(c: Seq<HitRecord>, t_min: Scalar, t_max: Scalar, k: int) -> bool {
    &&& 0 <= k < c.len()
    &&& spec_inside(c[k].t, t_min, t_max)
    &&& forall|i: int|
        #![trigger c[i]]
        0 <= i < c.len() && spec_inside(c[i].t, t_min, t_max) ==> if i < k {
            c[k].t.spec_lt(c[i].t)
        } else {
            c[k].t.spec_le(c[i].t)
        }
}

/// Some candidate lies inside the interval.
pub open spec fn any_inside(c: Seq<HitRecord>, t_min: Scalar, t_max: Scalar) -> bool {
    exists|i: int| #![trigger c[i]] 0 <= i < c.len() && spec_inside(c[i].t, t_min, t_max)
}

/// The hit to report for the candidates `c`, if there is one.
pub open spec fn nearest(c: Seq<HitRecord>, t_min: Scalar, t_max: Scalar) -> Option<HitRecord> {
    if exists|k: int| first_least(c, t_min, t_max, k) {
        Some(c[choose|k: int| first_least(c, t_min, t_max, k)])
    } else {
        None
    }
}

/// The bound below which a further candidate has to lie to replace `best`.
pub open spec fn upper(best: Option<HitRecord>, t_max: Scalar) -> Scalar {
    match best {
        Some(h) => h.t,
        None => t_max,
    }
}

/// One step of the search: `x` replaces `best` where it lies inside the
/// interval that `best` has shrunk.
pub open spec fn closer(best: Option<HitRecord>, x: HitRecord, t_min: Scalar, t_max: Scalar) -> Option<
    HitRecord,
> {
    if spec_inside(x.t, t_min, upper(best, t_max)) {
        Some(x)
    } else {
        best
    }
}

/// The nearer of two results of independent searches; the first wins a tie.
pub open spec fn nearer_of(a: Option<HitRecord>, b: Option<HitRecord>) -> Option<HitRecord> {
    match (a, b) {
        (None, _) => b,
        (Some(_), None) => a,
        (Some(x), Some(y)) => if y.t.spec_lt(x.t) {
            b
        } else {
            a
        },
    }
}

/// A search of no candidates finds nothing.
pub proof fn lemma_nearest_empty(t_min: Scalar, t_max: Scalar)
    ensures
        nearest(Seq::<HitRecord>::empty(), t_min, t_max) is None,
{
}

/// At most one index is the hit to report.
pub proof fn lemma_first_least_unique(c: Seq<HitRecord>, t_min: Scalar, t_max: Scalar, j: int, k: int)
    requires
        first_least(c, t_min, t_max, j),
        first_least(c, t_min, t_max, k),
    ensures
        j == k,
{
    if j < k {
        assert(c[k].t.spec_lt(c[j].t));
        assert(c[j].t.spec_le(c[k].t));
    } else if k < j {
        assert(c[j].t.spec_lt(c[k].t));
        assert(c[k].t.spec_le(c[j].t));
    }
}

/// The index that `first_least` singles out is the one that `nearest` reports.
pub proof fn lemma_nearest_at(c: Seq<HitRecord>, t_min: Scalar, t_max: Scalar, k: int)
    requires
        first_least(c, t_min, t_max, k),
    ensures
        nearest(c, t_min, t_max) == Some(c[k]),
{
    let j = choose|j: int| first_least(c, t_min, t_max, j);
    lemma_first_least_unique(c, t_min, t_max, j, k);
}

/// Where some candidate lies inside the interval, one of them is the hit to
/// report.
pub proof fn lemma_first_least_exists(c: Seq<HitRecord>, t_min: Scalar, t_max: Scalar)
    requires
        any_inside(c, t_min, t_max),
    ensures
        exists|k: int| first_least(c, t_min, t_max, k),
    decreases c.len(),
{
    let n = c.len() as int;
    let w = choose|i: int| #![trigger c[i]] 0 <= i < c.len() && spec_inside(c[i].t, t_min, t_max);
    let c0 = c.drop_last();
    let x = c.last();
    assert(forall|i: int| 0 <= i < n - 1 ==> c0[i] == c[i]);
    if any_inside(c0, t_min, t_max) {
        lemma_first_least_exists(c0, t_min, t_max);
        let k0 = choose|k: int| first_least(c0, t_min, t_max, k);
        assert(c0[k0] == c[k0]);
        if spec_inside(x.t, t_min, t_max) && x.t.spec_lt(c[k0].t) {
            assert forall|i: int|
                #![trigger c[i]]
                0 <= i < c.len() && spec_inside(c[i].t, t_min, t_max) implies if i < n - 1 {
                c[n - 1].t.spec_lt(c[i].t)
            } else {
                c[n - 1].t.spec_le(c[i].t)
            } by {
                if i < n - 1 {
                    assert(c0[i] == c[i]);
                    assert(c0[k0].t.spec_le(c0[i].t));
                }
            }
            assert(first_least(c, t_min, t_max, n - 1));
        } else {
            assert forall|i: int|
                #![trigger c[i]]
                0 <= i < c.len() && spec_inside(c[i].t, t_min, t_max) implies if i < k0 {
                c[k0].t.spec_lt(c[i].t)
            } else {
                c[k0].t.spec_le(c[i].t)
            } by {
                if i < n - 1 {
                    assert(c0[i] == c[i]);
                }
            }
            assert(first_least(c, t_min, t_max, k0));
        }
    } else {
        if w < n - 1 {
            assert(c0[w] == c[w]);
            assert(false);
        }
        assert forall|i: int|
            #![trigger c[i]]
            0 <= i < c.len() && spec_inside(c[i].t, t_min, t_max) implies if i < n - 1 {
            c[n - 1].t.spec_lt(c[i].t)
        } else {
            c[n - 1].t.spec_le(c[i].t)
        } by {
            if i < n - 1 {
                assert(c0[i] == c[i]);
            }
        }
        assert(first_least(c, t_min, t_max, n - 1));
    }
}

/// What `nearest` reports, said without the index: nothing exactly where no
/// candidate lies inside the interval; otherwise a candidate inside the
/// interval that no candidate inside the interval undercuts.
pub proof fn lemma_nearest_is_least(c: Seq<HitRecord>, t_min: Scalar, t_max: Scalar)
    ensures
        nearest(c, t_min, t_max) is None <==> !any_inside(c, t_min, t_max),
        nearest(c, t_min, t_max) matches Some(h) ==> {
            &&& c.contains(h)
            &&& spec_inside(h.t, t_min, t_max)
            &&& forall|i: int|
                #![trigger c[i]]
                0 <= i < c.len() && spec_inside(c[i].t, t_min, t_max) ==> h.t.spec_le(c[i].t)
        },
{
    if any_inside(c, t_min, t_max) {
        lemma_first_least_exists(c, t_min, t_max);
    }
    if exists|k: int| first_least(c, t_min, t_max, k) {
        let k = choose|k: int| first_least(c, t_min, t_max, k);
        assert(spec_inside(c[k].t, t_min, t_max));
        assert(any_inside(c, t_min, t_max));
        assert(c.contains(c[k]));
    }
}

/// Adding one candidate at the end is one step of the search.
pub proof fn lemma_nearest_push(c: Seq<HitRecord>, x: HitRecord, t_min: Scalar, t_max: Scalar)
    ensures
        nearest(c.push(x), t_min, t_max) == closer(nearest(c, t_min, t_max), x, t_min, t_max),
{
    lemma_nearest_concat_shrink(c, seq![x], t_min, t_max);
    let u = upper(nearest(c, t_min, t_max), t_max);
    let s = seq![x];
    assert(c.push(x) =~= c + s);
    if spec_inside(x.t, t_min, u) {
        assert(s[0] == x);
        assert(first_least(s, t_min, u, 0));
        lemma_nearest_at(s, t_min, u, 0);
    } else {
        lemma_nearest_is_least(s, t_min, u);
        if any_inside(s, t_min, u) {
            let i = choose|i: int| #![trigger s[i]] 0 <= i < s.len() && spec_inside(s[i].t, t_min, u);
            assert(s[i] == x);
        }
    }
}

/// Searching `a` and then `b` in the interval that the result for `a` has
/// shrunk finds what one search of both finds.
pub proof fn lemma_nearest_concat_shrink(a: Seq<HitRecord>, b: Seq<HitRecord>, t_min: Scalar, t_max: Scalar)
    ensures
        nearest(a + b, t_min, t_max) == match nearest(
            b,
            t_min,
            upper(nearest(a, t_min, t_max), t_max),
        ) {
            Some(h) => Some(h),
            None => nearest(a, t_min, t_max),
        },
{
    let c = a + b;
    let na = nearest(a, t_min, t_max);
    let u = upper(na, t_max);
    let nb = nearest(b, t_min, u);
    let la = a.len() as int;
    lemma_nearest_is_least(a, t_min, t_max);
    lemma_nearest_is_least(b, t_min, u);
    assert(forall|i: int| 0 <= i < la ==> c[i] == a[i]);
    assert(forall|i: int| la <= i < c.len() ==> c[i] == b[i - la]);
    if exists|k: int| first_least(b, t_min, u, k) {
        let k = choose|k: int| first_least(b, t_min, u, k);
        assert(c[la + k] == b[k]);
        assert(spec_inside(b[k].t, t_min, t_max));
        assert forall|i: int|
            #![trigger c[i]]
            0 <= i < c.len() && spec_inside(c[i].t, t_min, t_max) implies if i < la + k {
            c[la + k].t.spec_lt(c[i].t)
        } else {
            c[la + k].t.spec_le(c[i].t)
        } by {
            if i < la {
                assert(c[i] == a[i]);
                assert(any_inside(a, t_min, t_max));
            } else {
                assert(c[i] == b[i - la]);
            }
        }
        assert(first_least(c, t_min, t_max, la + k));
        lemma_nearest_at(c, t_min, t_max, la + k);
    } else {
        assert(!any_inside(b, t_min, u));
        if exists|j: int| first_least(a, t_min, t_max, j) {
            let j = choose|j: int| first_least(a, t_min, t_max, j);
            assert(c[j] == a[j]);
            assert forall|i: int|
                #![trigger c[i]]
                0 <= i < c.len() && spec_inside(c[i].t, t_min, t_max) implies if i < j {
                c[j].t.spec_lt(c[i].t)
            } else {
                c[j].t.spec_le(c[i].t)
            } by {
                if i < la {
                    assert(c[i] == a[i]);
                } else {
                    assert(c[i] == b[i - la]);
                    assert(!spec_inside(b[i - la].t, t_min, u));
                }
            }
            assert(first_least(c, t_min, t_max, j));
            lemma_nearest_at(c, t_min, t_max, j);
        } else {
            assert(!any_inside(a, t_min, t_max));
            if any_inside(c, t_min, t_max) {
                let i = choose|i: int| #![trigger c[i]] 0 <= i < c.len() && spec_inside(c[i].t, t_min, t_max);
                if i < la {
                    assert(c[i] == a[i]);
                } else {
                    assert(c[i] == b[i - la]);
                }
                assert(false);
            }
            lemma_nearest_is_least(c, t_min, t_max);
        }
    }
}

/// Searching a shorter interval with the same lower bound finds the same hit
/// where that hit lies below the new upper bound, and nothing otherwise.
pub proof fn lemma_nearest_shrink(c: Seq<HitRecord>, t_min: Scalar, t_max: Scalar, bound: Scalar)
    requires
        bound.spec_le(t_max),
    ensures
        nearest(c, t_min, bound) == match nearest(c, t_min, t_max) {
            Some(h) => if h.t.spec_lt(bound) {
                Some(h)
            } else {
                None
            },
            None => None,
        },
{
    lemma_nearest_is_least(c, t_min, t_max);
    lemma_nearest_is_least(c, t_min, bound);
    if exists|k: int| first_least(c, t_min, t_max, k) {
        let k = choose|k: int| first_least(c, t_min, t_max, k);
        if c[k].t.spec_lt(bound) {
            assert(first_least(c, t_min, bound, k));
            lemma_nearest_at(c, t_min, bound, k);
        } else {
            if any_inside(c, t_min, bound) {
                let i = choose|i: int| #![trigger c[i]] 0 <= i < c.len() && spec_inside(c[i].t, t_min, bound);
                assert(spec_inside(c[i].t, t_min, t_max));
                assert(c[k].t.spec_le(c[i].t));
                assert(false);
            }
        }
    } else {
        if any_inside(c, t_min, bound) {
            let i = choose|i: int| #![trigger c[i]] 0 <= i < c.len() && spec_inside(c[i].t, t_min, bound);
            assert(spec_inside(c[i].t, t_min, t_max));
            assert(false);
        }
    }
}

/// One search of two sequences finds the nearer of what a search of each
/// finds in the same interval.
pub proof fn lemma_nearest_concat(a: Seq<HitRecord>, b: Seq<HitRecord>, t_min: Scalar, t_max: Scalar)
    ensures
        nearest(a + b, t_min, t_max) == nearer_of(nearest(a, t_min, t_max), nearest(b, t_min, t_max)),
{
    lemma_nearest_concat_shrink(a, b, t_min, t_max);
    lemma_nearest_is_least(a, t_min, t_max);
    match nearest(a, t_min, t_max) {
        Some(x) => {
            lemma_nearest_shrink(b, t_min, t_max, x.t);
        },
        None => {},
    }
}

/// The order of the candidates decides nothing but ties: searched in either
/// order, two sequences give nothing both times, or hits at the same
/// parameter.
pub proof fn lemma_order_decides_only_ties(a: Seq<HitRecord>, b: Seq<HitRecord>, t_min: Scalar, t_max: Scalar)
    ensures
        match (nearest(a + b, t_min, t_max), nearest(b + a, t_min, t_max)) {
            (None, None) => true,
            (Some(x), Some(y)) => x.t.same_number(y.t),
            _ => false,
        },
{
    lemma_nearest_concat(a, b, t_min, t_max);
    lemma_nearest_concat(b, a, t_min, t_max);
    lemma_nearest_is_least(a, t_min, t_max);
    lemma_nearest_is_least(b, t_min, t_max);
}

/// One step of the search.
#[verifier::when_used_as_spec(closer)]
pub fn take_closer(best: Option<HitRecord>, x: HitRecord, t_min: Scalar, t_max: Scalar) -> (r: Option<
    HitRecord,
>)
    ensures
        r == closer(best, x, t_min, t_max),
{
    let bound = match best {
        Some(h) => h.t,
        None => t_max,
    };
    if inside(x.t, t_min, bound) {
        Some(x)
    } else {
        best
    }
}

} // verus!
