//! The tunnel-endpoint controller: the allocator and the two-way table put
//! together behind the registration and lookup operations of the gateway.

use crate::allocator::{has_unused_teid, TeidAllocator};
use crate::store::{Resource, Slots};
use crate::table::{Cause, Key, TunnelTable};
use crate::teid::{successor, Teid};
use std::time::Duration;
use vstd::prelude::*;

verus! {

/// Associates each registered flow key with a tunnel endpoint identifier and
/// a forwarding resource, and finds each of them again from the other.
pub struct GtpController {
    table: TunnelTable,
    allocator: TeidAllocator,
}

impl GtpController {
    /// The two-way table of the live entries.
    pub closed spec fn table(&self) -> TunnelTable {
        self.table
    }

    /// The candidate identifier of the next registration.
    pub closed spec fn next_teid(&self) -> Teid {
        self.allocator.next()
    }

    /// The table's invariant: the maps mirror each other and point into the
    /// store.
    pub open spec fn wf(&self) -> bool {
        self.table().wf()
    }

    /// The cause a registration fails with, given how the race for its
    /// reservations ended: the cause the race gave, or a full store where the
    /// race was won.
    pub open spec fn failure(verdict: Result<(), Cause>) -> Cause {
        match verdict {
            Err(cause) => cause,
            Ok(_) => Cause::StoreFull,
        }
    }

    /// What one registration of `key` with `res` under the budget `budget`
    /// does: `post` is the controller that `pre` becomes when the result is
    /// `result`.
    ///
    /// The candidate is the allocator's next identifier. A success needs the
    /// race for the reservations to be won; it assigns the candidate and adds
    /// exactly one entry. A failure names its cause and leaves table and store
    /// as they were; where the race was won, it is a full store, and the store
    /// had no room. The allocator moves on to the candidate's successor,
    /// except after a collision of identifiers: then it stands on an
    /// identifier that is not live, provided there is one.
    pub open spec fn registration(
        pre: &Self,
        post: &Self,
        key: Key,
        res: Seq<u8>,
        budget: Duration,
        result: Result<Teid, Cause>,
    ) -> bool {
        let teid = pre.next_teid();
        let verdict = pre.table().reservation(teid, key, budget);
        match result {
            Ok(assigned) => {
                &&& verdict is Ok
                &&& assigned == teid
                &&& post.table().extends(&pre.table(), teid, key, res)
                &&& post.next_teid() == successor(teid)
            },
            Err(cause) => {
                &&& cause == Self::failure(verdict)
                &&& verdict is Ok ==> !pre.table().has_room()
                &&& post.table().same_entries(&pre.table())
                &&& if cause == Cause::DuplicateId && has_unused_teid(&pre.table()) {
                    !post.table().forward().contains_key(post.next_teid())
                } else {
                    post.next_teid() == successor(teid)
                }
            },
        }
    }

    /// A controller with no entries whose first candidate is pseudorandom.
    pub fn new() -> (controller: Self)
        ensures
            controller.wf(),
            controller.table().forward() == Map::<Teid, (Key, usize)>::empty(),
            controller.table().backward() == Map::<Key, (Teid, usize)>::empty(),
            controller.table().store() == Slots::empty(),
            controller.next_teid() < u32::MAX,
    {
        GtpController { table: TunnelTable::new(), allocator: TeidAllocator::new() }
    }

    /// A controller over the entries of `table` that takes its candidates from
    /// `allocator`.
    pub fn from_parts(table: TunnelTable, allocator: TeidAllocator) -> (controller: Self)
        requires
            table.wf(),
        ensures
            controller.wf(),
            controller.table() == table,
            controller.next_teid() == allocator.next(),
    {
        GtpController { table, allocator }
    }

    /// Registers `key` with the resource `res` and returns the identifier
    /// assigned to it, or the cause for which none was assigned.
    ///
    /// The attempt succeeds where the candidate identifier and the key are
    /// both free, the budget is not zero and the store has room, which it has
    /// while fewer than [`crate::store::ROOM`] entries are live.
    /// After a collision of identifiers the allocator is moved to an unused
    /// identifier before the call returns, so that a new attempt can succeed.
    ///
    /// # Panics
    ///
    /// The store panics when more threads are alive than its slab allows for.
    pub fn try_add_resource(&mut self, key: Key, res: Resource, duration: Duration) -> (result:
        Result<Teid, Cause>)
        requires
            old(self).wf(),
        ensures
            final(self).wf(),
            Self::registration(old(self), final(self), key, res@, duration, result),
            old(self).table().reservation(old(self).next_teid(), key, duration) is Ok && old(
                self,
            ).table().has_room() ==> result is Ok,
    {
        let teid: Teid = self.allocator.generate();
        match self.table.insert(teid, key, res, duration) {
            Ok(_) => Ok(teid),
            Err(Cause::DuplicateId) => {
                self.allocator.resolve_collision(&self.table);
                Err(Cause::DuplicateId)
            },
            Err(cause) => Err(cause),
        }
    }

    /// Registers `key` with the resource `res` and returns the identifier
    /// assigned to it, or `None` where the attempt timed out, collided on the
    /// identifier, or found the store full.
    ///
    /// The attempt succeeds where the candidate identifier and the key are
    /// both free, the budget is not zero and the store has room, which it has
    /// while fewer than [`crate::store::ROOM`] entries are live.
    ///
    /// A key that is already registered must not be registered again: the
    /// precondition leaves out the attempts that would end on the duplicate
    /// key.
    ///
    /// # Panics
    ///
    /// The store panics when more threads are alive than its slab allows for.
    pub fn add_resource(&mut self, key: Key, res: Resource, duration: Duration) -> (assigned:
        Option<Teid>)
        requires
            old(self).wf(),
            old(self).table().reservation(old(self).next_teid(), key, duration) != Err::<(), Cause>(
                Cause::DuplicateKey,
            ),
        ensures
            final(self).wf(),
            Self::registration(
                old(self),
                final(self),
                key,
                res@,
                duration,
                match assigned {
                    Some(teid) => Ok(teid),
                    None => Err(
                        Self::failure(
                            old(self).table().reservation(old(self).next_teid(), key, duration),
                        ),
                    ),
                },
            ),
            old(self).table().reservation(old(self).next_teid(), key, duration) is Ok && old(
                self,
            ).table().has_room() ==> assigned is Some,
    {
        match self.try_add_resource(key, res, duration) {
            Ok(teid) => Some(teid),
            Err(_) => None,
        }
    }

    /// The number of live entries.
    pub fn len(&self) -> (len: usize)
        requires
            self.wf(),
        ensures
            len == self.table().count(),
    {
        self.table.len()
    }

    /// The key that `teid` is assigned to, with a copy of the resource
    /// registered for it; `None` where `teid` is not live.
    pub fn get(&self, teid: Teid) -> (found: Option<(Key, Resource)>)
        requires
            self.wf(),
        ensures
            match found {
                Some((key, res)) => self.table().lookup(teid) == Some((key, res@)),
                None => self.table().lookup(teid) is None,
            },
    {
        self.table.get(teid)
    }

    /// The identifier that `key` is registered under, with a copy of the
    /// resource registered for it; `None` where `key` is not live.
    pub fn get_with_key(&self, key: Key) -> (found: Option<(Teid, Resource)>)
        requires
            self.wf(),
        ensures
            match found {
                Some((teid, res)) => self.table().lookup_key(key) == Some((teid, res@)),
                None => self.table().lookup_key(key) is None,
            },
    {
        self.table.get_with_key(key)
    }
}

impl Default for GtpController {
    fn default() -> (controller: Self)
        ensures
            controller.wf(),
            controller.table().forward() == Map::<Teid, (Key, usize)>::empty(),
            controller.table().backward() == Map::<Key, (Teid, usize)>::empty(),
            controller.table().store() == Slots::empty(),
            controller.next_teid() < u32::MAX,
    {
        GtpController::new()
    }
}

} // verus!
