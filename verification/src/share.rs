//! Shares of a whole.

use vstd::prelude::*;

verus! {

/// A part of a whole that is not 0.
#[derive(Clone, Copy, PartialEq, Eq, Structural, Debug)]
pub struct Share {
    pub part: u64,
    pub whole: u64,
}

/// The share that `part` is of `whole`; `None` where there is no whole.
pub open spec fn share(part: u64, whole: u64) -> Option<Share> {
    if whole > 0 {
        Some(Share { part, whole })
    } else {
        None
    }
}

impl Share {
    /// Makes a share, where there is a whole.
    pub fn of(part: u64, whole: u64) -> (r: Option<Share>)
        ensures
            r == share(part, whole),
    {
        if whole > 0 {
            Some(Share { part, whole })
        } else {
            None
        }
    }
}

/// A share is of the part and the whole that it was made of, and is there exactly where there is a
/// whole.
pub proof fn share_keeps_its_numbers(part: u64, whole: u64)
    ensures
        share(part, whole) is Some <==> whole != 0,
        whole != 0 ==> share(part, whole)->0.part == part && share(part, whole)->0.whole == whole,
{
}

} // verus!
