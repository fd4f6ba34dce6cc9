//! The two-way table between tunnel endpoint identifiers and flow keys.
//!
//! The forward map leads from an identifier to the key it was assigned to, the
//! backward map from a key to its identifier; both name the slot of the
//! resource store that holds the flow's forwarding resource.

use crate::store::{Resource, ResourceStore, Slots, ROOM};
use crate::teid::{distance, following, lemma_distance, nth_after, Teid, TEID_SPACE};
use std::collections::hash_map::{Entry, VacantEntry};
use std::collections::HashMap;
use std::time::Duration;
use vstd::prelude::*;
use vstd::std_specs::hash::*;

verus! {

broadcast use group_hash_axioms;

/// What identifies an inbound flow to the gateway.
pub type Key = u128;

/// Why a registration made no assignment.
#[derive(Debug, Clone, Copy, PartialEq, Eq)]
pub enum Cause {
    /// The time budget ran out before both reservations were granted.
    Timeout,
    /// The candidate identifier is already assigned.
    DuplicateId,
    /// The key is already registered.
    DuplicateKey,
    /// The resource store could not take the resource.
    StoreFull,
}

/// Whether a time budget is zero, as `Duration::is_zero` reports it.
pub uninterp spec fn duration_is_zero(budget: Duration) -> bool;

/// `Duration::is_zero`: whether the budget is the zero duration.
#[verifier::external_body]
fn budget_spent(budget: &Duration) -> (spent: bool)
    ensures
        spent == duration_is_zero(*budget),
{
    budget.is_zero()
}

/// Ends a registration for which both slots are reserved, on what the store
/// answered when it was given the resource: with the index `Some(idx)` both
/// entries are written, `key` and `idx` under `teid` and `teid` and `idx`
/// under `key`; with `None` both reservations are given up.
pub fn commit(
    forward_slot: VacantEntry<'_, Teid, (Key, usize)>,
    backward_slot: VacantEntry<'_, Key, (Teid, usize)>,
    teid: Teid,
    key: Key,
    stored: Option<usize>,
) -> (r: Result<(), Cause>)
    ensures
        match stored {
            Some(idx) => {
                &&& r is Ok
                &&& forward_slot.final_value() == Some((key, idx))
                &&& backward_slot.final_value() == Some((teid, idx))
            },
            None => {
                &&& r == Err::<(), Cause>(Cause::StoreFull)
                &&& forward_slot.final_value() is None
                &&& backward_slot.final_value() is None
            },
        },
{
    match stored {
        Some(idx) => {
            forward_slot.insert_entry((key, idx));
            backward_slot.insert_entry((teid, idx));
            Ok(())
        },
        None => Err(Cause::StoreFull),
    }
}

/// The forward and backward maps with the store their entries point into.
pub struct TunnelTable {
    forward: HashMap<Teid, (Key, usize)>,
    backward: HashMap<Key, (Teid, usize)>,
    store: ResourceStore,
}

impl TunnelTable {
    /// The forward map: each live identifier with its key and store index.
    pub closed spec fn forward(&self) -> Map<Teid, (Key, usize)> {
        self.forward@
    }

    /// The backward map: each live key with its identifier and store index.
    pub closed spec fn backward(&self) -> Map<Key, (Teid, usize)> {
        self.backward@
    }

    /// The resource store: each live index with the resource under it.
    pub closed spec fn store(&self) -> Slots {
        self.store@
    }

    /// Whether the entry of `teid` is live and points at the slot `idx`.
    pub open spec fn owns(&self, teid: Teid, idx: usize) -> bool {
        self.forward().contains_key(teid) && self.forward()[teid].1 == idx
    }

    /// The two maps mirror each other, every entry points at a live slot of
    /// the store, and every slot of the store belongs to one entry and no
    /// more; so there are as many slots as entries, finitely many.
    pub open spec fn wf(&self) -> bool {
        &&& forall|id: Teid| #[trigger]
            self.forward().contains_key(id) ==> {
                &&& self.backward().contains_key(self.forward()[id].0)
                &&& self.backward()[self.forward()[id].0] == (id, self.forward()[id].1)
                &&& self.store().contains_key(self.forward()[id].1)
            }
        &&& forall|key: Key| #[trigger]
            self.backward().contains_key(key) ==> {
                &&& self.forward().contains_key(self.backward()[key].0)
                &&& self.forward()[self.backward()[key].0] == (key, self.backward()[key].1)
            }
        &&& forall|a: Teid, b: Teid|
            #![trigger self.forward().contains_key(a), self.forward().contains_key(b)]
            self.forward().contains_key(a) && self.forward().contains_key(b)
                && self.forward()[a].1 == self.forward()[b].1 ==> a == b
        &&& forall|idx: usize| #[trigger]
            self.store().contains_key(idx) ==> exists|teid: Teid| #[trigger] self.owns(teid, idx)
        &&& self.forward().dom().finite()
        &&& self.store().dom().finite()
        &&& self.store().dom().len() == self.forward().dom().len()
    }

    /// The number of live entries, which is the number of resources in the
    /// store.
    pub open spec fn count(&self) -> nat {
        self.store().dom().len()
    }

    /// Whether the store is sure to take one more resource: it holds fewer
    /// than [`ROOM`] of them.
    pub open spec fn has_room(&self) -> bool {
        self.store().dom().finite() && self.store().dom().len() < ROOM
    }

    /// How the race between the two reservations and the timer ends for the
    /// candidate `teid` and `key`, where `timer_fired` says whether the timer
    /// has fired by the time both reservations are answered. The forward map
    /// is asked first, then the backward map, then the timer, and the first of
    /// them to refuse decides.
    pub open spec fn verdict(&self, teid: Teid, key: Key, timer_fired: bool) -> Result<(), Cause> {
        if self.forward().contains_key(teid) {
            Err(Cause::DuplicateId)
        } else if self.backward().contains_key(key) {
            Err(Cause::DuplicateKey)
        } else if timer_fired {
            Err(Cause::Timeout)
        } else {
            Ok(())
        }
    }

    /// How the race ends under the time budget `budget`. A reservation on this
    /// table is granted or refused at once, so the timer has fired by then only
    /// where the budget is zero.
    pub open spec fn reservation(&self, teid: Teid, key: Key, budget: Duration) -> Result<
        (),
        Cause,
    > {
        self.verdict(teid, key, duration_is_zero(budget))
    }

    /// Whether `self` holds the entries and slots of `other`, no more and no
    /// less.
    pub open spec fn same_entries(&self, other: &Self) -> bool {
        &&& self.forward() == other.forward()
        &&& self.backward() == other.backward()
        &&& self.store() == other.store()
    }

    /// Whether `self` is `before` with one more entry: `key` under `teid`,
    /// with `res` in a slot that `before` did not use.
    pub open spec fn extends(&self, before: &Self, teid: Teid, key: Key, res: Seq<u8>) -> bool {
        let idx = self.forward()[teid].1;
        &&& !before.store().contains_key(idx)
        &&& self.store() == before.store().insert(idx, res)
        &&& self.forward() == before.forward().insert(teid, (key, idx))
        &&& self.backward() == before.backward().insert(key, (teid, idx))
    }

    /// What a lookup by identifier yields: the key and the resource that
    /// `teid` is assigned to, if it is live.
    pub open spec fn lookup(&self, teid: Teid) -> Option<(Key, Seq<u8>)> {
        if self.forward().contains_key(teid) {
            Some((self.forward()[teid].0, self.store()[self.forward()[teid].1]))
        } else {
            None
        }
    }

    /// What a lookup by key yields: the identifier and the resource that `key`
    /// is registered with, if it is live.
    pub open spec fn lookup_key(&self, key: Key) -> Option<(Teid, Seq<u8>)> {
        if self.backward().contains_key(key) {
            Some((self.backward()[key].0, self.store()[self.backward()[key].1]))
        } else {
            None
        }
    }

    /// An empty table.
    pub fn new() -> (table: Self)
        ensures
            table.wf(),
            table.forward() == Map::<Teid, (Key, usize)>::empty(),
            table.backward() == Map::<Key, (Teid, usize)>::empty(),
            table.store() == Slots::empty(),
    {
        TunnelTable { forward: HashMap::new(), backward: HashMap::new(), store: ResourceStore::new() }
    }

    /// Registers `key` under the candidate identifier `teid` with the resource
    /// `res`, where `timer_fired` says whether the timer has fired by the time
    /// both reservations are answered.
    ///
    /// Both slots are reserved first. Only when both are vacant and the timer
    /// has not fired does the resource go into the store, and only then are
    /// the two entries written, with the index the store gave. A reservation
    /// that is given up leaves its map as it was.
    ///
    /// The registration succeeds wherever the race is won and the store has
    /// room. It fails on a full store only where the store has none.
    ///
    /// # Panics
    ///
    /// The store panics when more threads are alive than its slab allows for.
    pub fn insert_raced(&mut self, teid: Teid, key: Key, res: Resource, timer_fired: bool) -> (r:
        Result<(), Cause>)
        requires
            old(self).wf(),
        ensures
            final(self).wf(),
            old(self).verdict(teid, key, timer_fired) is Err ==> r == old(self).verdict(
                teid,
                key,
                timer_fired,
            ),
            old(self).verdict(teid, key, timer_fired) is Ok ==> r is Ok || r == Err::<(), Cause>(
                Cause::StoreFull,
            ),
            old(self).verdict(teid, key, timer_fired) is Ok && old(self).has_room() ==> r is Ok,
            r is Err ==> final(self).same_entries(old(self)),
            r is Ok ==> final(self).extends(old(self), teid, key, res@),
    {
        let forward_slot = match self.forward.entry(teid) {
            Entry::Vacant(slot) => slot,
            Entry::Occupied(_) => {
                proof {
                    assert(self.forward@ =~= old(self).forward@);
                    self.lemma_same_entries_wf(old(self));
                }
                return Err(Cause::DuplicateId);
            },
        };
        let backward_slot = match self.backward.entry(key) {
            Entry::Vacant(slot) => slot,
            Entry::Occupied(_) => {
                proof {
                    assert(self.forward@ =~= old(self).forward@);
                    assert(self.backward@ =~= old(self).backward@);
                    self.lemma_same_entries_wf(old(self));
                }
                return Err(Cause::DuplicateKey);
            },
        };
        if timer_fired {
            proof {
                assert(self.forward@ =~= old(self).forward@);
                assert(self.backward@ =~= old(self).backward@);
                self.lemma_same_entries_wf(old(self));
            }
            return Err(Cause::Timeout);
        }
        let stored: Option<usize> = self.store.insert(res);
        let r = commit(forward_slot, backward_slot, teid, key, stored);
        proof {
            match stored {
                Some(idx) => {
                    assert forall|slot: usize| #[trigger]
                        self.store().contains_key(slot) implies exists|id: Teid| #[trigger]
                        self.owns(id, slot) by {
                        if slot == idx {
                            assert(self.owns(teid, slot));
                        } else {
                            assert(old(self).store().contains_key(slot));
                            let owner = choose|id: Teid| #[trigger] old(self).owns(id, slot);
                            assert(self.owns(owner, slot));
                        }
                    }
                },
                None => {
                    assert(self.forward@ =~= old(self).forward@);
                    assert(self.backward@ =~= old(self).backward@);
                    self.lemma_same_entries_wf(old(self));
                },
            }
        }
        r
    }

    /// Registers `key` under the candidate identifier `teid` with the resource
    /// `res`, under the time budget `duration`: the timer has fired by the time
    /// the reservations are answered where the budget is zero.
    ///
    /// See [`TunnelTable::insert_raced`] for the protocol, and for when the
    /// registration succeeds.
    ///
    /// # Panics
    ///
    /// The store panics when more threads are alive than its slab allows for.
    pub fn insert(&mut self, teid: Teid, key: Key, res: Resource, duration: Duration) -> (r: Result<
        (),
        Cause,
    >)
        requires
            old(self).wf(),
        ensures
            final(self).wf(),
            old(self).reservation(teid, key, duration) is Err ==> r == old(self).reservation(
                teid,
                key,
                duration,
            ),
            old(self).reservation(teid, key, duration) is Ok ==> r is Ok || r == Err::<(), Cause>(
                Cause::StoreFull,
            ),
            old(self).reservation(teid, key, duration) is Ok && old(self).has_room() ==> r is Ok,
            r is Err ==> final(self).same_entries(old(self)),
            r is Ok ==> final(self).extends(old(self), teid, key, res@),
    {
        let timer_fired: bool = budget_spent(&duration);
        self.insert_raced(teid, key, res, timer_fired)
    }

    /// The number of live entries.
    pub fn len(&self) -> (len: usize)
        requires
            self.wf(),
        ensures
            len == self.count(),
    {
        self.forward.len()
    }

    /// In a well-formed table the two maps are each other's mirror: `teid`
    /// leads to `key` and the slot `idx` exactly where `key` leads to `teid`
    /// and the same slot, and that slot then holds a resource.
    pub proof fn lemma_mirror(&self, teid: Teid, key: Key, idx: usize)
        requires
            self.wf(),
        ensures
            (self.forward().contains_key(teid) && self.forward()[teid] == (key, idx)) <==> (
            self.backward().contains_key(key) && self.backward()[key] == (teid, idx)),
            self.forward().contains_key(teid) && self.forward()[teid] == (key, idx)
                ==> self.store().contains_key(idx),
    {
    }

    /// A table with the entries and slots of a well-formed one is well formed.
    pub proof fn lemma_same_entries_wf(&self, other: &Self)
        requires
            other.wf(),
            self.same_entries(other),
        ensures
            self.wf(),
    {
        assert forall|idx: usize| #[trigger] self.store().contains_key(idx) implies exists|
            teid: Teid,
        | #[trigger] self.owns(teid, idx) by {
            let owner = choose|teid: Teid| #[trigger] other.owns(teid, idx);
            assert(self.owns(owner, idx));
        }
    }

    /// Whether every identifier fewer than `steps` places after `start` is
    /// live.
    pub open spec fn live_run(&self, start: Teid, steps: int) -> bool {
        forall|k: int| 0 <= k < steps ==> self.forward().contains_key(#[trigger] nth_after(start, k))
    }

    /// The first identifier at or after `start` that is not live, going round
    /// past the largest one; `None` where every identifier is live.
    pub fn first_unused_from(&self, start: Teid) -> (found: Option<Teid>)
        ensures
            match found {
                Some(teid) => !self.forward().contains_key(teid) && self.live_run(
                    start,
                    distance(start, teid),
                ),
                None => forall|teid: Teid| self.forward().contains_key(teid),
            },
            !self.forward().contains_key(start) ==> found == Some(start),
    {
        let mut teid: Teid = start;
        let mut steps: u64 = 0;
        while steps < TEID_SPACE
            invariant
                steps <= TEID_SPACE,
                steps < TEID_SPACE ==> teid == nth_after(start, steps as int),
                self.live_run(start, steps as int),
                steps > 0 ==> self.forward().contains_key(start),
            decreases TEID_SPACE - steps,
        {
            if !self.contains_id(teid) {
                return Some(teid);
            }
            teid = following(teid);
            steps = steps + 1;
        }
        proof {
            assert forall|t: Teid| self.forward().contains_key(t) by {
                lemma_distance(start, t);
            }
        }
        None
    }

    /// Whether `teid` is live in the forward map.
    pub fn contains_id(&self, teid: Teid) -> (live: bool)
        ensures
            live == self.forward().contains_key(teid),
    {
        self.forward.contains_key(&teid)
    }

    /// Whether `key` is live in the backward map.
    pub fn contains_key(&self, key: Key) -> (live: bool)
        ensures
            live == self.backward().contains_key(key),
    {
        self.backward.contains_key(&key)
    }

    /// The key that `teid` is assigned to, with a copy of the resource
    /// registered for it; `None` where `teid` is not live.
    pub fn get(&self, teid: Teid) -> (found: Option<(Key, Resource)>)
        requires
            self.wf(),
        ensures
            match found {
                Some((key, res)) => self.lookup(teid) == Some((key, res@)),
                None => self.lookup(teid) is None,
            },
    {
        match self.forward.get(&teid) {
            Some(entry) => {
                let key: Key = entry.0;
                match self.store.get(entry.1) {
                    Some(res) => Some((key, res)),
                    None => None,
                }
            },
            None => None,
        }
    }

    /// The identifier that `key` is registered under, with a copy of the
    /// resource registered for it; `None` where `key` is not live.
    pub fn get_with_key(&self, key: Key) -> (found: Option<(Teid, Resource)>)
        requires
            self.wf(),
        ensures
            match found {
                Some((teid, res)) => self.lookup_key(key) == Some((teid, res@)),
                None => self.lookup_key(key) is None,
            },
    {
        match self.backward.get(&key) {
            Some(entry) => {
                let teid: Teid = entry.0;
                match self.store.get(entry.1) {
                    Some(res) => Some((teid, res)),
                    None => None,
                }
            },
            None => None,
        }
    }
}

} // verus!
