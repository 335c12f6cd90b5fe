//! Allocation bookkeeping shared with a foreign packet-capture library.
use vstd::prelude::*;

verus! {

/// The address given out for an allocation of size zero: aligned for bytes,
/// never null, and never read or written through.
pub const EMPTY_ADDRESS: usize = 1;

/// The address of an allocation of size zero.
pub fn empty() -> (r: usize)
    ensures
        r == EMPTY_ADDRESS,
        r != 0,
{
    EMPTY_ADDRESS
}

} // verus!
