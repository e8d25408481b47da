//! Properties that relate the entry points to one another.
use vstd::prelude::*;
use crate::model::{
    deterministic, is_image, is_mapped_sum, is_partial_image, lemma_images_equal, sum_fits, sum_of,
};

verus! {

/// Every strategy, at every degree, agrees with the sequential fold: for a
/// transform that returns one value per argument, any two sums of images of
/// the same sequence are equal.
pub proof fn lemma_strategies_agree<F: Fn(u32) -> u64>(f: F, xs: Seq<u32>, a: int, b: int)
    requires
        deterministic(f),
        is_mapped_sum(f, xs, a),
        is_mapped_sum(f, xs, b),
    ensures
        a == b,
{
    let ya = choose|ys: Seq<u64>| is_image(f, xs, ys) && sum_of(ys) == a;
    let yb = choose|ys: Seq<u64>| is_image(f, xs, ys) && sum_of(ys) == b;
    lemma_images_equal(f, xs, ya, yb);
}

/// An empty sequence sums to zero, whatever the transform.
pub proof fn lemma_empty_sums_to_zero<F: Fn(u32) -> u64>(f: F, r: int)
    requires
        is_mapped_sum(f, Seq::empty(), r),
    ensures
        r == 0,
{
    let ys = choose|ys: Seq<u64>| is_image(f, Seq::<u32>::empty(), ys) && sum_of(ys) == r;
    assert(ys.len() == 0);
}

proof fn lemma_sum_bounded(ys: Seq<u64>, bound: int)
    requires
        forall|i: int| 0 <= i < ys.len() ==> #[trigger] ys[i] <= bound,
        bound >= 0,
    ensures
        sum_of(ys) <= ys.len() * bound,
    decreases ys.len(),
{
    if ys.len() > 0 {
        lemma_sum_bounded(ys.drop_last(), bound);
        assert(ys.len() * bound == (ys.len() - 1) * bound + bound) by (nonlinear_arith);
    }
}

/// A transform whose outputs never exceed `bound` fits any sequence of at
/// most `u64::MAX / bound` elements.
pub proof fn lemma_bounded_outputs_fit<F: Fn(u32) -> u64>(f: F, xs: Seq<u32>, bound: int)
    requires
        bound >= 0,
        forall|x: u32, y: u64| #[trigger] f.ensures((x,), y) ==> y <= bound,
        xs.len() * bound <= u64::MAX,
    ensures
        sum_fits(f, xs),
{
    assert forall|ys: Seq<u64>| #[trigger] is_partial_image(f, xs, ys) implies sum_of(ys)
        <= u64::MAX by {
        assert forall|i: int| 0 <= i < ys.len() implies #[trigger] ys[i] <= bound by {
            if ys[i] != 0 {
                assert(f.ensures((xs[i],), ys[i]));
            }
        }
        lemma_sum_bounded(ys, bound);
    }
}

} // verus!
