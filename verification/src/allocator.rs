//! The identifier allocator: a counter that proposes candidate tunnel endpoint
//! identifiers, and the search for an unused one after a collision.

use crate::table::TunnelTable;
use crate::teid::{following, successor, Teid};
use vstd::prelude::*;

verus! {

/// How many occupied pseudorandom draws a collision search takes before it
/// walks on from the last one.
pub const REDRAW_LIMIT: u32 = 16;

/// Whether some identifier is not live in `table`.
pub open spec fn has_unused_teid(table: &TunnelTable) -> bool {
    exists|teid: Teid| !table.forward().contains_key(teid)
}

/// `fastrand::u32` on the range `..u32::MAX`: a pseudorandom identifier below
/// the largest one.
#[verifier::external_body]
fn draw_teid() -> (teid: Teid)
    ensures
        teid < u32::MAX,
{
    fastrand::u32(..u32::MAX)
}

/// The source of candidate identifiers.
pub struct TeidAllocator {
    counter: Teid,
}

impl TeidAllocator {
    /// The candidate that the next call of [`TeidAllocator::generate`] returns.
    pub closed spec fn next(&self) -> Teid {
        self.counter
    }

    /// An allocator that starts at a pseudorandom identifier.
    pub fn new() -> (allocator: Self)
        ensures
            allocator.next() < u32::MAX,
    {
        TeidAllocator { counter: draw_teid() }
    }

    /// An allocator whose first candidate is `first`.
    pub fn starting_at(first: Teid) -> (allocator: Self)
        ensures
            allocator.next() == first,
    {
        TeidAllocator { counter: first }
    }

    /// Returns the current candidate and moves the counter to its successor.
    pub fn generate(&mut self) -> (teid: Teid)
        ensures
            teid == old(self).next(),
            final(self).next() == successor(teid),
    {
        let teid: Teid = self.counter;
        self.counter = following(teid);
        teid
    }

    /// Offers the drawn identifier `draw` as the new counter: it is taken where
    /// it is not live in `table`, and otherwise the counter stays as it is.
    pub fn offer(&mut self, table: &TunnelTable, draw: Teid) -> (taken: bool)
        ensures
            taken == !table.forward().contains_key(draw),
            final(self).next() == if taken {
                draw
            } else {
                old(self).next()
            },
    {
        if table.contains_id(draw) {
            false
        } else {
            self.counter = draw;
            true
        }
    }

    /// Moves the counter to an identifier that is not live in `table`.
    ///
    /// Fresh pseudorandom identifiers are drawn and offered one by one, and the
    /// first that is not live becomes the counter. A search has to end, so
    /// after [`REDRAW_LIMIT`] live draws it walks on from the last draw, one
    /// identifier at a time, to the first that is not live. It fails only where
    /// every identifier is live, and then leaves the counter as it was.
    pub fn resolve_collision(&mut self, table: &TunnelTable) -> (found: bool)
        ensures
            found == has_unused_teid(table),
            found ==> !table.forward().contains_key(final(self).next()),
            !found ==> final(self).next() == old(self).next(),
    {
        let mut last: Teid = 0;
        let mut draws: u32 = 0;
        while draws < REDRAW_LIMIT
            invariant
                draws <= REDRAW_LIMIT,
                self.next() == old(self).next(),
            decreases REDRAW_LIMIT - draws,
        {
            last = draw_teid();
            if self.offer(table, last) {
                return true;
            }
            draws = draws + 1;
        }
        match table.first_unused_from(last) {
            Some(unused) => self.offer(table, unused),
            None => false,
        }
    }
}

} // verus!
