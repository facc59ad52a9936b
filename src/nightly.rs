//! Hints to the optimiser. They never change a result.
use vstd::prelude::*;

verus! {

/// Marks a condition that is usually true.
pub fn likely(b: bool) -> (r: bool)
    ensures
        r == b,
{
    b
}

/// Marks a condition that is usually false.
pub fn unlikely(b: bool) -> (r: bool)
    ensures
        r == b,
{
    b
}

/// Announces that the bytes of `data` from `pos` on are about to be read.
/// A hint only: it reads nothing and has no effect.
pub fn prefetch(data: &[u8], pos: usize) {
}

} // verus!
