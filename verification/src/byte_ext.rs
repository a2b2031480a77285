//! Byte-level helpers shared by the decoders: fixed-size byte grouping,
//! 4-byte alignment of running offsets, and the NUL scan used for
//! NUL-terminated strings.

use vstd::prelude::*;

verus! {

/// The smallest multiple of 4 that is at least `n`.
pub open spec fn spec_align4(n: int) -> int {
    if n % 4 == 0 {
        n
    } else {
        n + 4 - n % 4
    }
}

pub proof fn lemma_align4(n: int)
    requires
        n >= 0,
    ensures
        spec_align4(n) % 4 == 0,
        n <= spec_align4(n) < n + 4,
{
    if n % 4 != 0 {
        assert((n + 4 - n % 4) % 4 == 0) by (nonlinear_arith);
    }
}

/// Relies on align_address::usize_align_up with alignment 4: it returns the
/// smallest multiple of 4 that is >= the address (4 is a power of two), and
/// panics only when that value would overflow, which the precondition rules
/// out.
#[verifier::external_body]
pub fn align_up4(n: usize) -> (r: usize)
    requires
        n + 3 <= usize::MAX,
    ensures
        r as int == spec_align4(n as int),
{
    align_address::usize_align_up(n, 4)
}

/// The position of the first NUL byte at or after `from`, if any.
pub open spec fn spec_find_nul(data: Seq<u8>, from: int) -> Option<int>
    decreases data.len() - from,
{
    if from < 0 || from >= data.len() {
        None
    } else if data[from] == 0 {
        Some(from)
    } else {
        spec_find_nul(data, from + 1)
    }
}

/// Copies the `N` bytes starting at the front of `slice` into a fresh array.
pub fn copy<const N: usize>(slice: &[u8]) -> (r: [u8; N])
    requires
        N <= slice@.len(),
    ensures
        r@ == slice@.subrange(0, N as int),
{
    let mut array = [0u8; N];
    let mut i: usize = 0;
    while i < N
        invariant
            i <= N,
            N <= slice@.len(),
            array@.len() == N,
            forall|k: int| 0 <= k < i ==> array@[k] == slice@[k],
        decreases N - i,
    {
        array[i] = slice[i];
        i = i + 1;
    }
    assert(array@ =~= slice@.subrange(0, N as int));
    array
}

} // verus!
