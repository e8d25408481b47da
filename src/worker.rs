//! What one worker does with one chunk, and how the partial results are
//! combined.
use vstd::prelude::*;
use crate::model::{
    callable_on, is_image, is_mapped_sum, lemma_image_concat, lemma_range_fits, lemma_sum_concat,
    lemma_sum32_concat, lemma_sum_push, sum32, sum_fits, sum_of,
};

verus! {

/// The sum of the images of `data[start..end]` under `f`, computed in order.
pub fn range_sum<F: Fn(u32) -> u64 + Copy>(data: &Vec<u32>, start: usize, end: usize, f: F) -> (r:
    u64)
    requires
        start <= end <= data.len(),
        callable_on(f, data@),
        sum_fits(f, data@),
    ensures
        is_mapped_sum(f, data@.subrange(start as int, end as int), r as int),
{
    let ghost xs = data@;
    let ghost mut ys: Seq<u64> = Seq::empty();
    let mut acc: u64 = 0;
    let mut j: usize = start;
    assert(is_image(f, xs.subrange(start as int, start as int), ys));
    while j < end
        invariant
            start <= j <= end <= data.len(),
            xs == data@,
            callable_on(f, xs),
            sum_fits(f, xs),
            is_image(f, xs.subrange(start as int, j as int), ys),
            sum_of(ys) == acc,
        decreases end - j,
    {
        let y = f(data[j]);
        proof {
            let next = xs.subrange(start as int, j + 1);
            assert(next =~= xs.subrange(start as int, j as int).push(xs[j as int]));
            assert(is_image(f, next, ys.push(y))) by {
                assert forall|i: int| 0 <= i < next.len() implies #[trigger] f.ensures(
                    (next[i],),
                    ys.push(y)[i],
                ) by {
                    if i < ys.len() {
                        assert(f.ensures((xs.subrange(start as int, j as int)[i],), ys[i]));
                    }
                }
            }
            lemma_sum_push(ys, y);
            lemma_range_fits(f, xs, start as int, j + 1, ys.push(y));
            ys = ys.push(y);
        }
        acc = acc + y;
        j = j + 1;
    }
    acc
}

/// The sequential reference: the sum of the images of all of `data`.
pub fn sequential_fold_sum<F: Fn(u32) -> u64 + Copy>(data: &Vec<u32>, f: F) -> (r: u64)
    requires
        callable_on(f, data@),
        sum_fits(f, data@),
    ensures
        is_mapped_sum(f, data@, r as int),
{
    let r = range_sum(data, 0, data.len(), f);
    assert(data@.subrange(0, data.len() as int) =~= data@);
    r
}

/// `chunks` are adjacent ranges that start at zero and end at `len`.
pub open spec fn tiles(chunks: Seq<(usize, usize)>, len: int) -> bool {
    &&& chunks.len() > 0 ==> chunks[0].0 == 0 && chunks.last().1 == len
    &&& chunks.len() == 0 ==> len == 0
    &&& forall|k: int| 0 <= k < chunks.len() ==> #[trigger] chunks[k].0 <= chunks[k].1 <= len
    &&& forall|k: int| 0 <= k < chunks.len() - 1 ==> #[trigger] chunks[k].1 == chunks[k + 1].0
}

/// Each of `partials` is a sum of images of its chunk of `xs`.
pub open spec fn partials_of<F: Fn(u32) -> u64>(
    f: F,
    xs: Seq<u32>,
    chunks: Seq<(usize, usize)>,
    partials: Seq<u64>,
) -> bool {
    &&& partials.len() == chunks.len()
    &&& forall|k: int|
        0 <= k < chunks.len() ==> is_mapped_sum(
            f,
            xs.subrange(chunks[k].0 as int, chunks[k].1 as int),
            #[trigger] partials[k] as int,
        )
}

/// Sums the partial results of the chunks that tile `data`, in chunk order:
/// the total is a sum of images of the whole of `data`.
pub fn combine_partials<F: Fn(u32) -> u64 + Copy>(
    data: &Vec<u32>,
    chunks: &Vec<(usize, usize)>,
    partials: &Vec<u64>,
    f: F,
) -> (r: u64)
    requires
        tiles(chunks@, data.len() as int),
        partials_of(f, data@, chunks@, partials@),
        sum_fits(f, data@),
    ensures
        is_mapped_sum(f, data@, r as int),
{
    let ghost xs = data@;
    let ghost mut ys: Seq<u64> = Seq::empty();
    let mut acc: u64 = 0;
    let mut k: usize = 0;
    assert(is_image(f, xs.subrange(0, 0), ys));
    while k < partials.len()
        invariant
            xs == data@,
            tiles(chunks@, xs.len() as int),
            partials_of(f, xs, chunks@, partials@),
            sum_fits(f, xs),
            k <= partials.len(),
            k == 0 ==> is_image(f, xs.subrange(0, 0), ys),
            k > 0 ==> is_image(f, xs.subrange(0, chunks@[k - 1].1 as int), ys),
            sum_of(ys) == acc,
        decreases partials.len() - k,
    {
        proof {
            let lo = chunks@[k as int].0 as int;
            let hi = chunks@[k as int].1 as int;
            assert(is_mapped_sum(f, xs.subrange(lo, hi), partials@[k as int] as int));
            let part = choose|p: Seq<u64>|
                is_image(f, xs.subrange(lo, hi), p) && sum_of(p) == partials@[k as int];
            if k > 0 {
                assert(chunks@[k - 1].1 == chunks@[k as int].0);
            }
            assert(xs.subrange(0, lo) + xs.subrange(lo, hi) =~= xs.subrange(0, hi));
            lemma_image_concat(f, xs.subrange(0, lo), ys, xs.subrange(lo, hi), part);
            lemma_sum_concat(ys, part);
            lemma_range_fits(f, xs, 0, hi, ys + part);
            ys = ys + part;
        }
        acc = acc + partials[k];
        k = k + 1;
    }
    proof {
        if k > 0 {
            assert(xs.subrange(0, xs.len() as int) =~= xs);
        } else {
            assert(xs.subrange(0, 0) =~= xs);
        }
    }
    acc
}

/// Replaces `*x` by its image under `g`.
pub fn apply_in_place<G: Fn(u32) -> u32>(x: &mut u32, g: G)
    requires
        g.requires((*old(x),)),
    ensures
        g.ensures((*old(x),), *final(x)),
{
    *x = g(*x);
}

/// The modulus of `u32` arithmetic.
pub open spec fn u32_modulus() -> int {
    0x1_0000_0000
}

/// The sum of `data[start..end]` modulo `2^32`, computed in order.
pub fn range_wrapping_sum(data: &Vec<u32>, start: usize, end: usize) -> (r: u32)
    requires
        start <= end <= data.len(),
    ensures
        r == sum32(data@.subrange(start as int, end as int)) % u32_modulus(),
{
    let mut acc: u32 = 0;
    let mut j: usize = start;
    while j < end
        invariant
            start <= j <= end <= data.len(),
            acc == sum32(data@.subrange(start as int, j as int)) % u32_modulus(),
        decreases end - j,
    {
        proof {
            let s = data@.subrange(start as int, j + 1);
            assert(s.drop_last() =~= data@.subrange(start as int, j as int));
            vstd::arithmetic::div_mod::lemma_add_mod_noop(
                sum32(data@.subrange(start as int, j as int)),
                data@[j as int] as int,
                u32_modulus(),
            );
            vstd::arithmetic::div_mod::lemma_small_mod(data@[j as int] as nat, u32_modulus() as nat);
        }
        acc = ((acc as u64 + data[j] as u64) % 0x1_0000_0000) as u32;
        j = j + 1;
    }
    acc
}

/// Sums, modulo `2^32`, the totals of the chunks that tile `data`: the
/// result is the sum of all of `data` modulo `2^32`.
pub fn combine_totals(data: &Vec<u32>, chunks: &Vec<(usize, usize)>, totals: &Vec<u32>) -> (r: u32)
    requires
        tiles(chunks@, data.len() as int),
        totals.len() == chunks.len(),
        forall|k: int|
            0 <= k < chunks.len() ==> #[trigger] totals@[k] == sum32(
                data@.subrange(chunks@[k].0 as int, chunks@[k].1 as int),
            ) % u32_modulus(),
    ensures
        r == sum32(data@) % u32_modulus(),
{
    let ghost xs = data@;
    let mut acc: u32 = 0;
    let mut k: usize = 0;
    while k < totals.len()
        invariant
            xs == data@,
            tiles(chunks@, xs.len() as int),
            totals.len() == chunks.len(),
            forall|k: int|
                0 <= k < chunks.len() ==> #[trigger] totals@[k] == sum32(
                    xs.subrange(chunks@[k].0 as int, chunks@[k].1 as int),
                ) % u32_modulus(),
            k <= totals.len(),
            k == 0 ==> acc == 0,
            k > 0 ==> acc == sum32(xs.subrange(0, chunks@[k - 1].1 as int)) % u32_modulus(),
        decreases totals.len() - k,
    {
        proof {
            let lo = chunks@[k as int].0 as int;
            let hi = chunks@[k as int].1 as int;
            if k > 0 {
                assert(chunks@[k - 1].1 == chunks@[k as int].0);
            } else {
                assert(xs.subrange(0, 0) =~= Seq::<u32>::empty());
            }
            assert(xs.subrange(0, lo) + xs.subrange(lo, hi) =~= xs.subrange(0, hi));
            lemma_sum32_concat(xs.subrange(0, lo), xs.subrange(lo, hi));
            vstd::arithmetic::div_mod::lemma_add_mod_noop(
                sum32(xs.subrange(0, lo)),
                sum32(xs.subrange(lo, hi)),
                u32_modulus(),
            );
        }
        acc = ((acc as u64 + totals[k] as u64) % 0x1_0000_0000) as u32;
        k = k + 1;
    }
    proof {
        if k > 0 {
            assert(xs.subrange(0, xs.len() as int) =~= xs);
        } else {
            assert(xs =~= Seq::<u32>::empty());
        }
    }
    acc
}

/// A copy of `data[start..end]`.
pub fn copy_range(data: &Vec<u32>, start: usize, end: usize) -> (r: Vec<u32>)
    requires
        start <= end <= data.len(),
    ensures
        r@ == data@.subrange(start as int, end as int),
{
    let mut r: Vec<u32> = Vec::new();
    let mut j: usize = start;
    while j < end
        invariant
            start <= j <= end <= data.len(),
            r@ == data@.subrange(start as int, j as int),
        decreases end - j,
    {
        r.push(data[j]);
        proof {
            assert(r@ =~= data@.subrange(start as int, j + 1));
        }
        j = j + 1;
    }
    r
}

} // verus!
