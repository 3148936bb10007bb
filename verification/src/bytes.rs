//! Fixed-size byte copies.
use vstd::prelude::*;

verus! {

/// The 32 bytes of `src` that start at `from`, as an array.
pub fn array_32_at(src: &[u8], from: usize) -> (r: [u8; 32])
    requires
        from + 32 <= src@.len(),
    ensures
        r@ == src@.subrange(from as int, from + 32),
{
    let n = src.len();
    let mut a = [0u8; 32];
    let mut i: usize = 0;
    while i < 32
        invariant
            i <= 32,
            n == src@.len(),
            from + 32 <= n,
            forall|j: int| 0 <= j < i ==> a@[j] == src@[from + j],
        decreases 32 - i,
    {
        a[i] = src[from + i];
        i = i + 1;
    }
    assert(a@ =~= src@.subrange(from as int, from + 32));
    a
}

} // verus!
