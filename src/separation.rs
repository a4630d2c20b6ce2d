//! Exact comparison of separations measured along axes of any length, and the
//! search for the best of a list of candidate axes.
//!
//! A candidate is `(num, len_sq, axis)`: the separation along `axis` is the
//! real number `num / sqrt(len_sq)`, with `len_sq == |axis|^2 > 0`.
use vstd::prelude::*;
use crate::math::{abs, lemma_mul_bound};

verus! {

/// Largest magnitude of a separation numerator that can be compared.
pub const NUM_BOUND: i64 = 0x1000_0000_0000;

/// Largest squared axis length that can be compared.
pub const LEN_SQ_BOUND: i64 = 0x10_0000_0000;

/// `n1 / sqrt(d1) > n2 / sqrt(d2)`, for `d1, d2 > 0`, decided without roots:
/// by sign first, then by comparing squares scaled by the other length.
pub open spec fn sep_gt(n1: int, d1: int, n2: int, d2: int) -> bool {
    if n1 >= 0 && n2 < 0 {
        true
    } else if n1 < 0 && n2 >= 0 {
        false
    } else if n1 >= 0 {
        n1 * n1 * d2 > n2 * n2 * d1
    } else {
        n1 * n1 * d2 < n2 * n2 * d1
    }
}

pub open spec fn cand_gt<A>(a: (int, int, A), b: (int, int, A)) -> bool {
    sep_gt(a.0, a.1, b.0, b.1)
}

/// A candidate whose squared length is positive.
pub open spec fn cand_valid<A>(c: Option<(int, int, A)>) -> bool {
    match c {
        Some(c) => c.1 > 0,
        None => true,
    }
}

/// Keeps the running best, replaced only by a strictly greater candidate:
/// on a tie the candidate seen first wins.
pub open spec fn keep_best<A>(best: Option<(int, int, A)>, c: Option<(int, int, A)>) -> Option<(int, int, A)> {
    match c {
        None => best,
        Some(c) => match best {
            None => Some(c),
            Some(b) => if cand_gt(c, b) { Some(c) } else { Some(b) },
        },
    }
}

/// The best candidate of a list, in order; `None` where no axis was usable.
pub open spec fn fold_best<A>(cs: Seq<Option<(int, int, A)>>) -> Option<(int, int, A)>
    decreases cs.len(),
{
    if cs.len() == 0 {
        None
    } else {
        keep_best(fold_best(cs.drop_last()), cs.last())
    }
}

/// `a` is at least as large as `b`.
pub open spec fn cand_ge<A>(a: (int, int, A), b: (int, int, A)) -> bool {
    !cand_gt(b, a)
}

proof fn lemma_sep_ge_trans(n1: int, d1: int, n2: int, d2: int, n3: int, d3: int)
    requires
        d1 > 0,
        d2 > 0,
        d3 > 0,
        !sep_gt(n2, d2, n1, d1),
        !sep_gt(n3, d3, n2, d2),
    ensures
        !sep_gt(n3, d3, n1, d1),
{
    if n1 >= 0 && n2 >= 0 && n3 >= 0 {
        assert(n3 * n3 * d1 <= n1 * n1 * d3) by (nonlinear_arith)
            requires
                d1 > 0,
                d2 > 0,
                d3 > 0,
                n2 * n2 * d1 <= n1 * n1 * d2,
                n3 * n3 * d2 <= n2 * n2 * d3,
        {
            if n2 * n2 == 0 {
                assert(n3 * n3 * d2 <= 0);
                assert(n3 * n3 >= 0);
                assert(n3 * n3 == 0);
            } else {
                assert(n2 * n2 > 0);
                assert(n3 * n3 * d2 * n2 * n2 * d1 <= n2 * n2 * d3 * n1 * n1 * d2);
            }
        }
    } else if n1 < 0 && n2 < 0 && n3 < 0 {
        assert(n3 * n3 * d1 >= n1 * n1 * d3) by (nonlinear_arith)
            requires
                d1 > 0,
                d2 > 0,
                d3 > 0,
                n2 < 0,
                n2 * n2 * d1 >= n1 * n1 * d2,
                n3 * n3 * d2 >= n2 * n2 * d3,
        {
            assert(n2 * n2 > 0);
            assert(n3 * n3 * d2 * n2 * n2 * d1 >= n2 * n2 * d3 * n1 * n1 * d2);
        }
    }
}

pub proof fn lemma_cand_ge_trans<A>(a: (int, int, A), b: (int, int, A), c: (int, int, A))
    requires
        a.1 > 0,
        b.1 > 0,
        c.1 > 0,
        cand_ge(a, b),
        cand_ge(b, c),
    ensures
        cand_ge(a, c),
{
    lemma_sep_ge_trans(a.0, a.1, b.0, b.1, c.0, c.1);
}

/// The best candidate found is one of the usable candidates.
pub proof fn lemma_fold_best_valid<A>(cs: Seq<Option<(int, int, A)>>)
    requires
        forall|i: int| 0 <= i < cs.len() ==> cand_valid(#[trigger] cs[i]),
    ensures
        cand_valid(fold_best(cs)),
        fold_best(cs).is_none() <==> forall|i: int| 0 <= i < cs.len() ==> (#[trigger] cs[i]).is_none(),
    decreases cs.len(),
{
    if cs.len() > 0 {
        let init = cs.drop_last();
        assert forall|i: int| 0 <= i < init.len() implies cand_valid(#[trigger] init[i]) by {
            assert(init[i] == cs[i]);
        }
        lemma_fold_best_valid(init);
        if fold_best(cs).is_none() {
            assert forall|i: int| 0 <= i < cs.len() implies (#[trigger] cs[i]).is_none() by {
                if i < init.len() {
                    assert(init[i] == cs[i]);
                }
            }
        }
        if forall|i: int| 0 <= i < cs.len() ==> (#[trigger] cs[i]).is_none() {
            assert forall|i: int| 0 <= i < init.len() implies (#[trigger] init[i]).is_none() by {
                assert(init[i] == cs[i]);
                assert(cs[i].is_none());
            }
            assert(cs[cs.len() - 1].is_none());
        }
    }
}

/// The best candidate is at least as large as every usable candidate of the
/// list, and is one of them.
pub proof fn lemma_fold_best_is_max<A>(cs: Seq<Option<(int, int, A)>>)
    requires
        forall|i: int| 0 <= i < cs.len() ==> cand_valid(#[trigger] cs[i]),
    ensures
        forall|i: int| 0 <= i < cs.len() && (#[trigger] cs[i]).is_some()
            ==> fold_best(cs).is_some() && cand_ge(fold_best(cs).unwrap(), cs[i].unwrap()),
        fold_best(cs).is_some() ==> exists|i: int| 0 <= i < cs.len() && cs[i] == fold_best(cs),
    decreases cs.len(),
{
    if cs.len() > 0 {
        let init = cs.drop_last();
        assert forall|i: int| 0 <= i < init.len() implies cand_valid(#[trigger] init[i]) by {
            assert(init[i] == cs[i]);
        }
        lemma_fold_best_is_max(init);
        lemma_fold_best_valid(init);
        let last = cs.len() - 1;
        assert forall|i: int| 0 <= i < cs.len() && (#[trigger] cs[i]).is_some()
            implies fold_best(cs).is_some() && cand_ge(fold_best(cs).unwrap(), cs[i].unwrap()) by {
            let b = fold_best(cs).unwrap();
            if i < last {
                assert(init[i] == cs[i]);
                let p = fold_best(init).unwrap();
                if b != p {
                    lemma_cand_ge_trans(b, p, cs[i].unwrap());
                }
            } else {
                let c = cs[i].unwrap();
                if b != c {
                    assert(!cand_gt(c, b));
                } else {
                    assert(!sep_gt(c.0, c.1, c.0, c.1)) by (nonlinear_arith);
                }
            }
        }
        if fold_best(cs).is_some() {
            if fold_best(cs) == cs[last] {
            } else {
                let k = choose|k: int| 0 <= k < init.len() && init[k] == fold_best(init);
                assert(cs[k] == init[k]);
            }
        }
    }
}

/// Adding candidate axes to a search never lowers the best separation found:
/// the best over `cs + more` is at least the best over `cs`.
pub proof fn lemma_more_axes_never_lower<A>(cs: Seq<Option<(int, int, A)>>, more: Seq<Option<(int, int, A)>>)
    requires
        forall|i: int| 0 <= i < cs.len() ==> cand_valid(#[trigger] cs[i]),
        forall|i: int| 0 <= i < more.len() ==> cand_valid(#[trigger] more[i]),
        fold_best(cs).is_some(),
    ensures
        fold_best(cs + more).is_some(),
        cand_ge(fold_best(cs + more).unwrap(), fold_best(cs).unwrap()),
    decreases more.len(),
{
    let all = cs + more;
    assert forall|i: int| 0 <= i < all.len() implies cand_valid(#[trigger] all[i]) by {
        if i < cs.len() {
            assert(all[i] == cs[i]);
        } else {
            assert(all[i] == more[i - cs.len()]);
        }
    }
    lemma_fold_best_valid(cs);
    if more.len() == 0 {
        assert(all =~= cs);
        let b = fold_best(cs).unwrap();
        assert(!sep_gt(b.0, b.1, b.0, b.1)) by (nonlinear_arith);
    } else {
        let init = more.drop_last();
        assert forall|i: int| 0 <= i < init.len() implies cand_valid(#[trigger] init[i]) by {
            assert(init[i] == more[i]);
        }
        lemma_more_axes_never_lower(cs, init);
        assert(all.drop_last() =~= cs + init);
        let prev = fold_best(cs + init).unwrap();
        lemma_fold_best_valid(cs + init);
        let cur = fold_best(all).unwrap();
        let c = all.last();
        assert(c == more[more.len() - 1]);
        if cur != prev {
            lemma_cand_ge_trans(cur, prev, fold_best(cs).unwrap());
        } else {
            assert(cand_ge(cur, fold_best(cs).unwrap()));
        }
    }
}

/// Decides `sep_gt(n1, d1, n2, d2)` exactly.
pub fn sep_greater(n1: i64, d1: i64, n2: i64, d2: i64) -> (r: bool)
    requires
        abs(n1 as int) <= NUM_BOUND,
        abs(n2 as int) <= NUM_BOUND,
        0 < d1 <= LEN_SQ_BOUND,
        0 < d2 <= LEN_SQ_BOUND,
    ensures
        r == sep_gt(n1 as int, d1 as int, n2 as int, d2 as int),
{
    if n1 >= 0 && n2 < 0 {
        true
    } else if n1 < 0 && n2 >= 0 {
        false
    } else {
        let a1 = n1 as i128;
        let a2 = n2 as i128;
        proof {
            lemma_mul_bound(n1 as int, n1 as int, NUM_BOUND as int, NUM_BOUND as int);
            lemma_mul_bound(n2 as int, n2 as int, NUM_BOUND as int, NUM_BOUND as int);
        }
        let s1 = a1 * a1;
        let s2 = a2 * a2;
        proof {
            lemma_mul_bound(s1 as int, d2 as int, NUM_BOUND * NUM_BOUND, LEN_SQ_BOUND as int);
            lemma_mul_bound(s2 as int, d1 as int, NUM_BOUND * NUM_BOUND, LEN_SQ_BOUND as int);
        }
        let l = s1 * (d2 as i128);
        let rr = s2 * (d1 as i128);
        if n1 >= 0 {
            l > rr
        } else {
            l < rr
        }
    }
}

} // verus!
