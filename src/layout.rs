//! Helpers for reading fixed-layout byte records.
use vstd::prelude::*;

verus! {

/// The bytes `b[lo..hi]`.
pub fn slice_range(b: &[u8], lo: usize, hi: usize) -> (r: &[u8])
    requires
        lo <= hi <= b@.len(),
    ensures
        r@ == b@.subrange(lo as int, hi as int),
{
    let (head, _) = b.split_at(hi);
    let (_, mid) = head.split_at(lo);
    mid
}

/// The `N` bytes of `b` that start at `off`, as an array.
pub fn read_array<const N: usize>(b: &[u8], off: usize) -> (r: [u8; N])
    requires
        off + N <= b@.len(),
        off + N <= usize::MAX,
    ensures
        r@ == b@.subrange(off as int, off + N),
{
    let mut a: [u8; N] = [0u8; N];
    let mut i: usize = 0;
    while i < N
        invariant
            i <= N,
            off + N <= b@.len(),
            off + N <= usize::MAX,
            a@.len() == N,
            forall|j: int| 0 <= j < i ==> a@[j] == b@[off + j],
        decreases N - i,
    {
        a[i] = b[off + i];
        i = i + 1;
    }
    assert(a@ =~= b@.subrange(off as int, off + N));
    a
}

} // verus!
