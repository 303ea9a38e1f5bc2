//! Small verified utility primitives: a bounded, order-preserving merge of a
//! sorted batch into a sorted, capacity-limited vector; a two-valued tie-break
//! marker; a sequential message-dispatch loop; and a pseudo-random text
//! generator for fixtures.
use vstd::prelude::*;

pub mod bias;
pub mod dispatch;
pub mod merge;
pub mod random_text;
pub mod surf_ext;

verus! {

/// Returns the counter's current value and increments it in place.
pub fn post_inc(value: &mut usize) -> (prev: usize)
    requires
        *old(value) < usize::MAX,
    ensures
        prev == *old(value),
        *final(value) == *old(value) + 1,
{
    let prev: usize = *value;
    *value = *value + 1;
    prev
}

} // verus!
