//! The eight-lane elementwise add used as a worker body, and the example
//! transform.
use vstd::prelude::*;
use crate::worker::u32_modulus;

verus! {

/// Adds `a` and `b` lane by lane with `u32` wraparound.
pub fn vector_add8(a: [u32; 8], b: [u32; 8]) -> (r: [u32; 8])
    ensures
        forall|i: int| 0 <= i < 8 ==> #[trigger] r[i] == (a[i] + b[i]) % u32_modulus(),
{
    let mut r: [u32; 8] = [0u32; 8];
    let mut i: usize = 0;
    while i < 8
        invariant
            i <= 8,
            forall|k: int| 0 <= k < i ==> #[trigger] r[k] == (a[k] + b[k]) % u32_modulus(),
        decreases 8 - i,
    {
        r[i] = ((a[i] as u64 + b[i] as u64) % 0x1_0000_0000) as u32;
        i = i + 1;
    }
    r
}

/// The example transform: twice its argument.
pub fn example_map_fn(x: u32) -> (r: u64)
    requires
        x <= u32::MAX / 2,
    ensures
        r == 2 * x,
{
    (x * 2) as u64
}

} // verus!
