//! Splitting `[0, len)` into contiguous chunks, one per unit of parallelism.
use vstd::prelude::*;
use crate::worker::tiles;

verus! {

/// Why a request to the engine was refused.
#[derive(Debug, Clone, Copy, PartialEq, Eq, Structural)]
pub enum MapReduceError {
    /// The degree of parallelism (the number of chunks) was zero.
    InvalidArgument,
}

/// The size of every chunk but the last: the ceiling of `len / n`.
pub open spec fn chunk_size(len: int, n: int) -> int {
    len / n + if len % n == 0 {
        0int
    } else {
        1int
    }
}

/// Where chunk `i` of `n` over `[0, len)` begins.
pub open spec fn chunk_start(len: int, n: int, i: int) -> int {
    if i * chunk_size(len, n) < len {
        i * chunk_size(len, n)
    } else {
        len
    }
}

/// Where chunk `i` of `n` over `[0, len)` ends (exclusive).
pub open spec fn chunk_end(len: int, n: int, i: int) -> int {
    chunk_start(len, n, i + 1)
}

/// `chunks` is the partition of `[0, len)` into `n` chunks of ceiling size,
/// or no chunks at all when `len` is zero.
pub open spec fn is_partition(len: int, n: int, chunks: Seq<(usize, usize)>) -> bool {
    &&& len == 0 ==> chunks.len() == 0
    &&& len > 0 ==> chunks.len() == n
    &&& forall|i: int|
        0 <= i < chunks.len() ==> (#[trigger] chunks[i]).0 == chunk_start(len, n, i) && chunks[i].1
            == chunk_end(len, n, i)
}

proof fn lemma_step(len: int, n: int, i: int)
    requires
        len >= 0,
        n > 0,
        i >= 0,
    ensures
        (i + 1) * chunk_size(len, n) == i * chunk_size(len, n) + chunk_size(len, n),
        i * chunk_size(len, n) >= 0,
        chunk_size(len, n) >= 0,
{
    let c = chunk_size(len, n);
    assert(len / n >= 0) by (nonlinear_arith)
        requires
            len >= 0,
            n > 0,
    ;
    assert((i + 1) * c == i * c + c) by (nonlinear_arith);
    assert(i * c >= 0) by (nonlinear_arith)
        requires
            i >= 0,
            c >= 0,
    ;
}

/// `n` chunks of ceiling size reach at least `len`.
pub proof fn lemma_chunks_reach(len: int, n: int)
    requires
        len >= 0,
        n > 0,
    ensures
        n * chunk_size(len, n) >= len,
{
    let q = len / n;
    let r = len % n;
    vstd::arithmetic::div_mod::lemma_fundamental_div_mod(len, n);
    assert(n * (q + 1) == n * q + n) by (nonlinear_arith);
    assert(0 <= r < n);
}

/// Splits `[0, len)` into `n` contiguous chunks of `ceil(len / n)` elements,
/// the last one taking what remains; some trailing chunks are empty when `n`
/// exceeds `len`. An empty range has no chunks; `n == 0` is refused.
pub fn partition(len: usize, n: usize) -> (r: Result<Vec<(usize, usize)>, MapReduceError>)
    ensures
        n == 0 <==> r is Err,
        r is Err ==> r == Err::<Vec<(usize, usize)>, MapReduceError>(
            MapReduceError::InvalidArgument,
        ),
        r matches Ok(chunks) ==> is_partition(len as int, n as int, chunks@),
{
    if n == 0 {
        Err(MapReduceError::InvalidArgument)
    } else {
        Ok(split_ranges(len, n))
    }
}

/// The chunks of `partition` for a positive `n`.
pub fn split_ranges(len: usize, n: usize) -> (chunks: Vec<(usize, usize)>)
    requires
        n > 0,
    ensures
        is_partition(len as int, n as int, chunks@),
{
    let mut chunks: Vec<(usize, usize)> = Vec::new();
    if len == 0 {
        return chunks;
    }
    proof {
        if len % n != 0 {
            assert(n >= 2);
            assert(len / n <= len / 2) by {
                vstd::arithmetic::div_mod::lemma_div_is_ordered_by_denominator(len as int, 2, n as int);
            }
        }
    }
    let size: usize = len / n + if len % n == 0 {
        0usize
    } else {
        1usize
    };
    let mut start: usize = 0;
    let mut i: usize = 0;
    while i < n
        invariant
            n > 0,
            len > 0,
            size == chunk_size(len as int, n as int),
            i <= n,
            start == chunk_start(len as int, n as int, i as int),
            chunks.len() == i,
            forall|k: int|
                0 <= k < i ==> (#[trigger] chunks@[k]).0 == chunk_start(len as int, n as int, k)
                    && chunks@[k].1 == chunk_end(len as int, n as int, k),
        decreases n - i,
    {
        proof {
            lemma_step(len as int, n as int, i as int);
        }
        let end: usize = if len - start > size {
            start + size
        } else {
            len
        };
        chunks.push((start, end));
        start = end;
        i = i + 1;
    }
    chunks
}

/// The chunks of a partition are ordered, adjacent and each within bounds;
/// the first begins at zero and the last ends at `len`: together they cover
/// `[0, len)` exactly once.
pub proof fn lemma_partition_covers(len: int, n: int, chunks: Seq<(usize, usize)>)
    requires
        len > 0,
        n > 0,
        is_partition(len, n, chunks),
    ensures
        chunks.len() == n,
        chunks[0].0 == 0,
        chunks[n - 1].1 == len,
        forall|i: int| 0 <= i < n ==> #[trigger] chunks[i].0 <= chunks[i].1 <= len,
        forall|i: int| 0 <= i < n - 1 ==> #[trigger] chunks[i].1 == chunks[i + 1].0,
        forall|i: int| 0 <= i < n ==> #[trigger] chunks[i].1 - chunks[i].0 <= chunk_size(len, n),
{
    assert(chunks[0].0 == chunk_start(len, n, 0));
    assert(0 * chunk_size(len, n) == 0);
    lemma_chunks_reach(len, n);
    assert(chunks[n - 1].1 == chunk_end(len, n, n - 1));
    assert forall|i: int| 0 <= i < n implies #[trigger] chunks[i].0 <= chunks[i].1 <= len
        && chunks[i].1 - chunks[i].0 <= chunk_size(len, n) by {
        lemma_step(len, n, i);
        assert(chunks[i].0 == chunk_start(len, n, i));
        assert(chunks[i].1 == chunk_end(len, n, i));
    }
    assert forall|i: int| 0 <= i < n - 1 implies #[trigger] chunks[i].1 == chunks[i + 1].0 by {
        assert(chunks[i].1 == chunk_end(len, n, i));
        assert(chunks[i + 1].0 == chunk_start(len, n, i + 1));
    }
}

/// A partition tiles its range, as the combiner needs.
pub proof fn lemma_partition_tiles(len: int, n: int, chunks: Seq<(usize, usize)>)
    requires
        len >= 0,
        n > 0,
        is_partition(len, n, chunks),
    ensures
        tiles(chunks, len),
{
    if len > 0 {
        lemma_partition_covers(len, n, chunks);
    }
}

} // verus!
