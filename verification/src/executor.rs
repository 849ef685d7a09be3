//! Decisions of the single-threaded executor.
use vstd::prelude::*;

verus! {

/// Futures larger than this many bytes are boxed before they are stored in a
/// task, so that the task allocation stays small.
pub const INLINE_FUTURE_LIMIT: usize = 2048;

/// Whether a future of `future_size` bytes is boxed when spawned.
pub fn boxes_future(future_size: usize) -> (b: bool)
    ensures
        b == (future_size > INLINE_FUTURE_LIMIT),
{
    future_size > INLINE_FUTURE_LIMIT
}

} // verus!
