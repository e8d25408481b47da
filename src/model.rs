//! The mathematical model: sums of sequences and the images of a sequence
//! under a transform.
use vstd::prelude::*;

verus! {

/// The exact sum of a sequence of `u64` values.
pub open spec fn sum_of(ys: Seq<u64>) -> int
    decreases ys.len(),
{
    if ys.len() == 0 {
        0
    } else {
        sum_of(ys.drop_last()) + ys.last()
    }
}

/// The exact sum of a sequence of `u32` values.
pub open spec fn sum32(ys: Seq<u32>) -> int
    decreases ys.len(),
{
    if ys.len() == 0 {
        0
    } else {
        sum32(ys.drop_last()) + ys.last()
    }
}

/// `ys` is one possible result of applying `f` to each element of `xs`.
pub open spec fn is_image<F: Fn(u32) -> u64>(f: F, xs: Seq<u32>, ys: Seq<u64>) -> bool {
    &&& ys.len() == xs.len()
    &&& forall|i: int| 0 <= i < xs.len() ==> #[trigger] f.ensures((xs[i],), ys[i])
}

/// `ys` holds, at each position, either zero or a possible output of `f` on the
/// element of `xs` there: the image of any subset of the elements.
pub open spec fn is_partial_image<F: Fn(u32) -> u64>(f: F, xs: Seq<u32>, ys: Seq<u64>) -> bool {
    &&& ys.len() == xs.len()
    &&& forall|i: int| 0 <= i < xs.len() ==> ys[i] == 0 || #[trigger] f.ensures((xs[i],), ys[i])
}

/// No sum of transformed elements of `xs`, over any subset of them, exceeds
/// `u64::MAX`.
pub open spec fn sum_fits<F: Fn(u32) -> u64>(f: F, xs: Seq<u32>) -> bool {
    forall|ys: Seq<u64>| #[trigger] is_partial_image(f, xs, ys) ==> sum_of(ys) <= u64::MAX
}

/// `f` may be called on every element of `xs`.
pub open spec fn callable_on<F: Fn(u32) -> u64>(f: F, xs: Seq<u32>) -> bool {
    forall|i: int| 0 <= i < xs.len() ==> #[trigger] f.requires((xs[i],))
}

/// `r` is the sum of some image of `xs` under `f`.
pub open spec fn is_mapped_sum<F: Fn(u32) -> u64>(f: F, xs: Seq<u32>, r: int) -> bool {
    exists|ys: Seq<u64>| is_image(f, xs, ys) && sum_of(ys) == r
}

/// `f` returns at most one value for each argument.
pub open spec fn deterministic<F: Fn(u32) -> u64>(f: F) -> bool {
    forall|x: u32, a: u64, b: u64| f.ensures((x,), a) && f.ensures((x,), b) ==> a == b
}

/// A sequence of `n` zeros.
pub open spec fn zeros(n: nat) -> Seq<u64> {
    Seq::new(n, |i: int| 0u64)
}

pub proof fn lemma_sum_push(ys: Seq<u64>, y: u64)
    ensures
        sum_of(ys.push(y)) == sum_of(ys) + y,
{
    assert(ys.push(y).drop_last() =~= ys);
}

pub proof fn lemma_sum_concat(a: Seq<u64>, b: Seq<u64>)
    ensures
        sum_of(a + b) == sum_of(a) + sum_of(b),
    decreases b.len(),
{
    if b.len() == 0 {
        assert(a + b =~= a);
    } else {
        lemma_sum_concat(a, b.drop_last());
        assert((a + b).drop_last() =~= a + b.drop_last());
    }
}

pub proof fn lemma_sum32_concat(a: Seq<u32>, b: Seq<u32>)
    ensures
        sum32(a + b) == sum32(a) + sum32(b),
    decreases b.len(),
{
    if b.len() == 0 {
        assert(a + b =~= a);
    } else {
        lemma_sum32_concat(a, b.drop_last());
        assert((a + b).drop_last() =~= a + b.drop_last());
    }
}

pub proof fn lemma_sum_zeros(n: nat)
    ensures
        sum_of(zeros(n)) == 0,
    decreases n,
{
    if n > 0 {
        lemma_sum_zeros((n - 1) as nat);
        assert(zeros(n).drop_last() =~= zeros((n - 1) as nat));
    }
}

pub proof fn lemma_image_concat<F: Fn(u32) -> u64>(
    f: F,
    xa: Seq<u32>,
    ya: Seq<u64>,
    xb: Seq<u32>,
    yb: Seq<u64>,
)
    requires
        is_image(f, xa, ya),
        is_image(f, xb, yb),
    ensures
        is_image(f, xa + xb, ya + yb),
{
    assert forall|i: int| 0 <= i < (xa + xb).len() implies #[trigger] f.ensures(
        ((xa + xb)[i],),
        (ya + yb)[i],
    ) by {
        if i < xa.len() {
            assert(f.ensures((xa[i],), ya[i]));
        } else {
            assert(f.ensures((xb[i - xa.len()],), yb[i - xa.len()]));
        }
    }
}

/// The image of a contiguous range of `xs` sums within `u64` when `xs` does.
pub proof fn lemma_range_fits<F: Fn(u32) -> u64>(f: F, xs: Seq<u32>, s: int, e: int, ys: Seq<u64>)
    requires
        0 <= s <= e <= xs.len(),
        sum_fits(f, xs),
        is_image(f, xs.subrange(s, e), ys),
    ensures
        sum_of(ys) <= u64::MAX,
{
    let pad = zeros(s as nat) + ys + zeros((xs.len() - e) as nat);
    assert forall|i: int| 0 <= i < xs.len() implies pad[i] == 0 || #[trigger] f.ensures(
        (xs[i],),
        pad[i],
    ) by {
        if s <= i < e {
            assert(f.ensures((xs.subrange(s, e)[i - s],), ys[i - s]));
        }
    }
    assert(is_partial_image(f, xs, pad));
    lemma_sum_concat(zeros(s as nat) + ys, zeros((xs.len() - e) as nat));
    lemma_sum_concat(zeros(s as nat), ys);
    lemma_sum_zeros(s as nat);
    lemma_sum_zeros((xs.len() - e) as nat);
}

/// Two images of one sequence under a deterministic transform are equal.
pub proof fn lemma_images_equal<F: Fn(u32) -> u64>(f: F, xs: Seq<u32>, a: Seq<u64>, b: Seq<u64>)
    requires
        deterministic(f),
        is_image(f, xs, a),
        is_image(f, xs, b),
    ensures
        a == b,
{
    assert forall|i: int| 0 <= i < a.len() implies a[i] == b[i] by {
        assert(f.ensures((xs[i],), a[i]));
        assert(f.ensures((xs[i],), b[i]));
    }
    assert(a =~= b);
}

/// Every contiguous range of a sequence that fits in `u64` fits as well.
pub proof fn lemma_subrange_fits<F: Fn(u32) -> u64>(f: F, xs: Seq<u32>, s: int, e: int)
    requires
        0 <= s <= e <= xs.len(),
        sum_fits(f, xs),
    ensures
        sum_fits(f, xs.subrange(s, e)),
{
    let sub = xs.subrange(s, e);
    assert forall|ys: Seq<u64>| #[trigger] is_partial_image(f, sub, ys) implies sum_of(ys)
        <= u64::MAX by {
        let pad = zeros(s as nat) + ys + zeros((xs.len() - e) as nat);
        assert forall|i: int| 0 <= i < xs.len() implies pad[i] == 0 || #[trigger] f.ensures(
            (xs[i],),
            pad[i],
        ) by {
            if s <= i < e {
                assert(ys[i - s] == 0 || f.ensures((sub[i - s],), ys[i - s]));
            }
        }
        assert(is_partial_image(f, xs, pad));
        lemma_sum_concat(zeros(s as nat) + ys, zeros((xs.len() - e) as nat));
        lemma_sum_concat(zeros(s as nat), ys);
        lemma_sum_zeros(s as nat);
        lemma_sum_zeros((xs.len() - e) as nat);
    }
}

} // verus!
