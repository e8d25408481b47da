//! The entry points: four interchangeable strategies that all compute the
//! sum of the images of a sequence, and an in-place variant.
use vstd::prelude::*;
use crate::model::{callable_on, is_mapped_sum, lemma_subrange_fits, sum32, sum_fits};
use crate::parallel::{
    par_apply_in_place, par_atomic_sum, par_map_sum, par_owned_sums, par_range_sums, par_range_totals,
};
use crate::partition::{lemma_partition_tiles, split_ranges, MapReduceError};
use crate::worker::{combine_partials, combine_totals, copy_range, tiles, u32_modulus};

verus! {

/// How `map_reduce` runs its workers.
#[derive(Debug, Clone, Copy, PartialEq, Eq, Structural)]
pub enum Strategy {
    /// One task per chunk of a fixed partition, joined and summed in chunk order.
    FixedThread,
    /// Every image added to one shared atomic counter by the pool's workers.
    WorkStealingAtomic,
    /// One task per chunk, each owning a copy of its chunk and handing exactly
    /// one partial sum to a collector.
    ChannelFanIn,
    /// A parallel map followed by a parallel sum, with no chunk bookkeeping.
    DirectFold,
}

/// Splits `data` into `degree` chunks, sums each in its own task, and
/// combines the partial sums in chunk order.
fn chunked_sum<F: Fn(u32) -> u64 + Copy + Send + Sync>(data: &Vec<u32>, degree: usize, f: F) -> (r:
    u64)
    requires
        degree > 0,
        callable_on(f, data@),
        sum_fits(f, data@),
    ensures
        is_mapped_sum(f, data@, r as int),
{
    let chunks = split_ranges(data.len(), degree);
    proof {
        lemma_partition_tiles(data.len() as int, degree as int, chunks@);
    }
    let partials = par_range_sums(data, &chunks, f);
    combine_partials(data, &chunks, &partials, f)
}

/// Splits `data` into `degree` chunks, hands each task its own copy of one
/// chunk, and collects the one partial sum that each task yields.
fn fan_in_sum<F: Fn(u32) -> u64 + Copy + Send + Sync>(data: &Vec<u32>, degree: usize, f: F) -> (r:
    u64)
    requires
        degree > 0,
        callable_on(f, data@),
        sum_fits(f, data@),
    ensures
        is_mapped_sum(f, data@, r as int),
{
    let chunks = split_ranges(data.len(), degree);
    proof {
        lemma_partition_tiles(data.len() as int, degree as int, chunks@);
    }
    let mut parts: Vec<Vec<u32>> = Vec::new();
    let mut k: usize = 0;
    while k < chunks.len()
        invariant
            tiles(chunks@, data.len() as int),
            callable_on(f, data@),
            sum_fits(f, data@),
            k <= chunks.len(),
            parts.len() == k,
            forall|j: int|
                0 <= j < k ==> (#[trigger] parts@[j])@ == data@.subrange(
                    chunks@[j].0 as int,
                    chunks@[j].1 as int,
                ),
        decreases chunks.len() - k,
    {
        let (start, end) = chunks[k];
        parts.push(copy_range(data, start, end));
        k = k + 1;
    }
    assert forall|j: int| 0 <= j < parts.len() implies callable_on(f, (#[trigger] parts@[j])@)
        && sum_fits(f, parts@[j]@) by {
        lemma_subrange_fits(f, data@, chunks@[j].0 as int, chunks@[j].1 as int);
    }
    let ghost copies = parts@;
    let partials = par_owned_sums(parts, f);
    assert forall|j: int| 0 <= j < chunks.len() implies is_mapped_sum(
        f,
        data@.subrange(chunks@[j].0 as int, chunks@[j].1 as int),
        #[trigger] partials@[j] as int,
    ) by {
        assert(copies[j]@ == data@.subrange(chunks@[j].0 as int, chunks@[j].1 as int));
    }
    combine_partials(data, &chunks, &partials, f)
}

/// Fixed-thread strategy: `N` tasks on rayon's pool, each bound to one chunk
/// of a ceiling-size partition of `data`; rayon collects their sums in chunk
/// order and they are added in that order. The degree `N` must be positive;
/// `map_reduce` reports a zero degree as an error.
pub fn map_sum1<const N: usize>(data: Vec<u32>, map_fn: impl Fn(u32) -> u64 + Copy + Send + Sync) -> (r:
    u64)
    requires
        N > 0,
        callable_on(map_fn, data@),
        sum_fits(map_fn, data@),
    ensures
        is_mapped_sum(map_fn, data@, r as int),
{
    chunked_sum(&data, N, map_fn)
}

/// Work-stealing strategy: rayon's pool adds every image to one shared atomic
/// counter. The degree `N` must be positive, as for every strategy; the pool
/// sizes itself to the machine, so `N` does not set how the work is split.
pub fn map_sum2<const N: usize>(data: Vec<u32>, map_fn: impl Fn(u32) -> u64 + Copy + Send + Sync) -> (r:
    u64)
    requires
        N > 0,
        callable_on(map_fn, data@),
        sum_fits(map_fn, data@),
    ensures
        is_mapped_sum(map_fn, data@, r as int),
{
    par_atomic_sum(data, map_fn)
}

/// Fan-in strategy: one task on rayon's pool per chunk of a ceiling-size
/// partition into `N` chunks, each owning a copy of its chunk and yielding
/// exactly one partial sum; rayon collects these and they are summed. The
/// degree `N` must be positive.
pub fn map_sum3<const N: usize>(data: Vec<u32>, map_fn: impl Fn(u32) -> u64 + Copy + Send + Sync) -> (r:
    u64)
    requires
        N > 0,
        callable_on(map_fn, data@),
        sum_fits(map_fn, data@),
    ensures
        is_mapped_sum(map_fn, data@, r as int),
{
    fan_in_sum(&data, N, map_fn)
}

/// Direct parallel fold: rayon maps every element and sums the images. The
/// degree `N` must be positive, as for every strategy; rayon splits the work
/// itself, so `N` does not set how it is split.
pub fn map_sum4<const N: usize>(data: Vec<u32>, map_fn: impl Fn(u32) -> u64 + Copy + Send + Sync) -> (r:
    u64)
    requires
        N > 0,
        callable_on(map_fn, data@),
        sum_fits(map_fn, data@),
    ensures
        is_mapped_sum(map_fn, data@, r as int),
{
    par_map_sum(data, map_fn)
}

/// The engine: the sum of the images of `data` under `transform`, computed by
/// `strategy` with `degree` chunks. A zero `degree` is refused, whatever the
/// strategy.
pub fn map_reduce<F: Fn(u32) -> u64 + Copy + Send + Sync>(
    data: Vec<u32>,
    transform: F,
    degree: usize,
    strategy: Strategy,
) -> (r: Result<u64, MapReduceError>)
    requires
        callable_on(transform, data@),
        sum_fits(transform, data@),
    ensures
        degree == 0 <==> r is Err,
        r is Err ==> r == Err::<u64, MapReduceError>(MapReduceError::InvalidArgument),
        r matches Ok(total) ==> is_mapped_sum(transform, data@, total as int),
{
    if degree == 0 {
        return Err(MapReduceError::InvalidArgument);
    }
    let total = match strategy {
        Strategy::FixedThread => chunked_sum(&data, degree, transform),
        Strategy::WorkStealingAtomic => par_atomic_sum(data, transform),
        Strategy::ChannelFanIn => fan_in_sum(&data, degree, transform),
        Strategy::DirectFold => par_map_sum(data, transform),
    };
    Ok(total)
}

/// Replaces every element of `data` by its image under `transform` on
/// rayon's pool, then sums the new elements in `thread_count` chunks in
/// parallel, and returns that sum modulo `2^32`.
pub fn map_mutate_reduce(
    data: &mut Vec<u32>,
    transform: impl Fn(u32) -> u32 + Copy + Send + Sync,
    thread_count: usize,
) -> (r: u32)
    requires
        thread_count > 0,
        forall|i: int| 0 <= i < old(data).len() ==> #[trigger] transform.requires((old(data)@[i],)),
    ensures
        final(data).len() == old(data).len(),
        forall|i: int|
            0 <= i < old(data).len() ==> #[trigger] transform.ensures(
                (old(data)@[i],),
                final(data)@[i],
            ),
        r == sum32(final(data)@) % u32_modulus(),
{
    par_apply_in_place(data, transform);
    let chunks = split_ranges(data.len(), thread_count);
    proof {
        lemma_partition_tiles(data.len() as int, thread_count as int, chunks@);
    }
    let totals = par_range_totals(data, &chunks);
    combine_totals(data, &chunks, &totals)
}

} // verus!
