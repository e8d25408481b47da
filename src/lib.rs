//! Parallel chunked map-reduce over `u32` sequences, with an exact,
//! order-independent integer sum as the result.
use vstd::prelude::*;

pub mod engine;
pub mod kernel;
pub mod laws;
pub mod model;
pub mod parallel;
pub mod partition;
pub mod worker;

pub use engine::{map_mutate_reduce, map_reduce, map_sum1, map_sum2, map_sum3, map_sum4, Strategy};
pub use kernel::{example_map_fn, vector_add8};
pub use partition::{partition, MapReduceError};
pub use worker::sequential_fold_sum;

verus! {

} // verus!
