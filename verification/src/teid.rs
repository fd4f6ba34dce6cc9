//! Tunnel endpoint identifiers and the order in which they are walked.

use vstd::prelude::*;

verus! {

/// A tunnel endpoint identifier.
pub type Teid = u32;

/// The number of tunnel endpoint identifiers there are.
pub const TEID_SPACE: u64 = 0x1_0000_0000;

/// The identifier after `teid`; after the largest one comes zero.
pub open spec fn successor(teid: Teid) -> Teid {
    if teid == u32::MAX {
        0
    } else {
        (teid + 1) as Teid
    }
}

/// The identifier `steps` places after `start`, going round past the largest
/// one.
pub open spec fn nth_after(start: Teid, steps: int) -> Teid {
    ((start + steps) % (TEID_SPACE as int)) as Teid
}

/// The number of places from `start` forward to `teid`, going round past the
/// largest identifier.
pub open spec fn distance(start: Teid, teid: Teid) -> int {
    (teid - start) % (TEID_SPACE as int)
}

/// The identifier after `teid`.
pub fn following(teid: Teid) -> (next: Teid)
    ensures
        next == successor(teid),
        next == nth_after(teid, 1),
{
    teid.wrapping_add(1)
}

/// Walking `distance(start, teid)` places from `start` ends on `teid`, and no
/// shorter walk does.
pub proof fn lemma_distance(start: Teid, teid: Teid)
    ensures
        0 <= distance(start, teid) < TEID_SPACE,
        nth_after(start, distance(start, teid)) == teid,
        forall|steps: int|
            0 <= steps < distance(start, teid) ==> #[trigger] nth_after(start, steps) != teid,
{
}

} // verus!
