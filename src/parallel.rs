//! The work-stealing pool: each function here hands its work to rayon, whose
//! scheduler runs it on as many threads as are available and returns once
//! every task has finished.
use vstd::prelude::*;
use rayon::iter::{IndexedParallelIterator, IntoParallelIterator, IntoParallelRefIterator,
    IntoParallelRefMutIterator, ParallelIterator};
use std::sync::atomic::{AtomicU64, Ordering};
use crate::model::{callable_on, is_mapped_sum, sum32, sum_fits};
use crate::worker::{
    apply_in_place, partials_of, range_sum, range_wrapping_sum, sequential_fold_sum, u32_modulus,
};

verus! {

/// Every range in `chunks` lies within `[0, len)`.
pub open spec fn ranges_within(chunks: Seq<(usize, usize)>, len: int) -> bool {
    forall|k: int| 0 <= k < chunks.len() ==> #[trigger] chunks[k].0 <= chunks[k].1 <= len
}

/// Adds the image of `x` under `f` to the shared counter.
pub fn accumulate_image<F: Fn(u32) -> u64>(counter: &AtomicU64, x: u32, f: F)
    requires
        f.requires((x,)),
{
    counter.fetch_add(f(x), Ordering::Relaxed);
}

/// Relies on rayon's `par_iter().map(..).collect_into_vec(..)`: one task per
/// range, each running `range_sum`, with the results stored in the order of
/// `chunks`.
#[verifier::external_body]
pub(crate) fn par_range_sums<F: Fn(u32) -> u64 + Copy + Send + Sync>(
    data: &Vec<u32>,
    chunks: &Vec<(usize, usize)>,
    f: F,
) -> (r: Vec<u64>)
    requires
        ranges_within(chunks@, data.len() as int),
        callable_on(f, data@),
        sum_fits(f, data@),
    ensures
        partials_of(f, data@, chunks@, r@),
{
    let mut out = Vec::new();
    chunks.par_iter().map(|&(start, end)| range_sum(data, start, end, f)).collect_into_vec(
        &mut out,
    );
    out
}

/// Relies on rayon's `into_par_iter().map(..).collect_into_vec(..)`: one task
/// per part, which owns it and runs `sequential_fold_sum` on it, with the
/// results stored in the order of `parts`.
#[verifier::external_body]
pub(crate) fn par_owned_sums<F: Fn(u32) -> u64 + Copy + Send + Sync>(parts: Vec<Vec<u32>>, f: F) -> (r:
    Vec<u64>)
    requires
        forall|k: int| 0 <= k < parts.len() ==> callable_on(f, (#[trigger] parts@[k])@),
        forall|k: int| 0 <= k < parts.len() ==> sum_fits(f, (#[trigger] parts@[k])@),
    ensures
        r.len() == parts.len(),
        forall|k: int| 0 <= k < parts.len() ==> is_mapped_sum(f, parts@[k]@, #[trigger] r@[k] as int),
{
    let mut out = Vec::new();
    parts.into_par_iter().map(|part| sequential_fold_sum(&part, f)).collect_into_vec(&mut out);
    out
}

/// Relies on rayon's `par_iter().map(..).collect_into_vec(..)`: one task per
/// range, each running `range_wrapping_sum`, with the results stored in the
/// order of `chunks`.
#[verifier::external_body]
pub(crate) fn par_range_totals(data: &Vec<u32>, chunks: &Vec<(usize, usize)>) -> (r: Vec<u32>)
    requires
        ranges_within(chunks@, data.len() as int),
    ensures
        r.len() == chunks.len(),
        forall|k: int|
            0 <= k < chunks.len() ==> #[trigger] r@[k] == sum32(
                data@.subrange(chunks@[k].0 as int, chunks@[k].1 as int),
            ) % u32_modulus(),
{
    let mut out = Vec::new();
    chunks.par_iter().map(|&(start, end)| range_wrapping_sum(data, start, end)).collect_into_vec(
        &mut out,
    );
    out
}

/// Relies on rayon's `into_par_iter().map(f).sum()`: the sum of the images of
/// all items, combined in an unspecified order. The sum of `u64` panics on
/// overflow where overflow checks are on, which `sum_fits` rules out.
#[verifier::external_body]
pub(crate) fn par_map_sum<F: Fn(u32) -> u64 + Copy + Send + Sync>(data: Vec<u32>, f: F) -> (r: u64)
    requires
        callable_on(f, data@),
        sum_fits(f, data@),
    ensures
        is_mapped_sum(f, data@, r as int),
{
    data.into_par_iter().map(f).sum()
}

/// Relies on rayon's `into_par_iter().for_each(..)`, which runs
/// `accumulate_image` once on each item and returns after all have run, and on
/// `AtomicU64::fetch_add`, which loses no update: the final load sees the sum
/// of every image (wrapping, which `sum_fits` rules out).
#[verifier::external_body]
pub(crate) fn par_atomic_sum<F: Fn(u32) -> u64 + Copy + Send + Sync>(data: Vec<u32>, f: F) -> (r:
    u64)
    requires
        callable_on(f, data@),
        sum_fits(f, data@),
    ensures
        is_mapped_sum(f, data@, r as int),
{
    let counter = AtomicU64::new(0);
    data.into_par_iter().for_each(|x| accumulate_image(&counter, x, f));
    counter.load(Ordering::Relaxed)
}

/// Relies on rayon's `par_iter_mut().for_each(..)`, which runs
/// `apply_in_place` once on each element, each task holding the only
/// reference to its element, and returns after all have run.
#[verifier::external_body]
pub(crate) fn par_apply_in_place<G: Fn(u32) -> u32 + Copy + Send + Sync>(data: &mut Vec<u32>, g: G)
    requires
        forall|i: int| 0 <= i < old(data).len() ==> #[trigger] g.requires((old(data)@[i],)),
    ensures
        final(data).len() == old(data).len(),
        forall|i: int|
            0 <= i < old(data).len() ==> #[trigger] g.ensures((old(data)@[i],), final(data)@[i]),
{
    data.par_iter_mut().for_each(|x| apply_in_place(x, g));
}

} // verus!
