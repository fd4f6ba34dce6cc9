//! The resource store: an indexed pool that hands out a stable index for each
//! resource put into it.
//!
//! The pool is a `sharded_slab::Slab`. What it holds is known here only
//! through [`store_slots`], and the three functions that touch the slab are
//! taken on trust.

use sharded_slab::Slab;
use vstd::prelude::*;

verus! {

/// The forwarding resource registered for a flow: an opaque payload.
pub type Resource = Vec<u8>;

/// What a store holds: the bytes of a resource under each live index.
pub type Slots = Map<usize, Seq<u8>>;

/// The number of resources that a store takes in any case.
///
/// The slab keeps one shard for each calling thread, and a shard is a row of
/// pages of 32, 64, 128, ... slots, half as many pages as a `usize` has bits.
/// So a shard holds 32 * (2^16 - 1) slots where a `usize` has 32 bits and
/// more where it has 64, and a store with fewer resources than that has room
/// in the shard of every thread.
pub const ROOM: usize = 2_097_120;

/// The pool of forwarding resources. Slots are only ever added: a resource
/// keeps its index and its content for as long as the store lives.
///
/// The slab inside is hidden from the verifier, which knows the store by
/// [`store_slots`] alone.
#[verifier::external_body]
pub struct ResourceStore {
    slab: Slab<Resource>,
}

/// The live slots of the slab inside a store: each index that `Slab::get`
/// resolves, with the bytes of the resource stored under it.
pub uninterp spec fn store_slots(store: ResourceStore) -> Slots;

/// `Slab::new`: a slab with the default configuration, in which no index is
/// live.
#[verifier::external_body]
fn slab_new() -> (fresh: ResourceStore)
    ensures
        store_slots(fresh) == Slots::empty(),
{
    ResourceStore { slab: Slab::new() }
}

/// `Slab::insert`: stores `value` under an index that was not live before and
/// returns that index, or returns `None` when the shard of the calling thread
/// has no room, and then leaves the slab as it was. Every other slot keeps its
/// index and its content.
///
/// The slab tries every page of the calling thread's shard, and a page
/// refuses only when all its slots are taken. Nothing is ever removed from
/// this slab, so a shard holds no more than the slab does, and a slab with
/// fewer than [`ROOM`] live slots returns an index, whatever the thread.
///
/// Not covered: `Slab::insert` panics when more threads are alive than the
/// slab's configuration allows for.
#[verifier::external_body]
fn slab_insert(store: &mut ResourceStore, value: Vec<u8>) -> (slot: Option<usize>)
    ensures
        match slot {
            Some(idx) => {
                &&& !store_slots(*old(store)).contains_key(idx)
                &&& store_slots(*final(store)) == store_slots(*old(store)).insert(idx, value@)
            },
            None => store_slots(*final(store)) == store_slots(*old(store)),
        },
        store_slots(*old(store)).dom().finite() && store_slots(*old(store)).dom().len() < ROOM
            ==> slot is Some,
{
    store.slab.insert(value)
}

/// `Slab::get`, followed by a copy of the resource behind the guard: the
/// content of the slot `idx` where that index is live, `None` where it is not.
///
/// `Slab::get` also returns `None` for a live index once the slot has as many
/// guards as the slab can count. That does not happen here: the guard is
/// released before this call returns and none is ever handed out, so a slot
/// has at most one guard for each thread that is reading it.
#[verifier::external_body]
fn slab_read(store: &ResourceStore, idx: usize) -> (value: Option<Vec<u8>>)
    ensures
        match value {
            Some(bytes) => store_slots(*store).contains_key(idx) && bytes@ == store_slots(
                *store,
            )[idx],
            None => !store_slots(*store).contains_key(idx),
        },
{
    match store.slab.get(idx) {
        Some(entry) => Some(entry.to_vec()),
        None => None,
    }
}

impl View for ResourceStore {
    type V = Slots;

    /// The live indices with the resource stored under each.
    open spec fn view(&self) -> Slots {
        store_slots(*self)
    }
}

impl ResourceStore {
    /// Whether the store is sure to take one more resource: it holds fewer
    /// than [`ROOM`] of them.
    pub open spec fn has_room(&self) -> bool {
        self@.dom().finite() && self@.dom().len() < ROOM
    }

    /// An empty store.
    pub fn new() -> (store: Self)
        ensures
            store@ == Slots::empty(),
    {
        slab_new()
    }

    /// Puts `res` into the store and returns the index it now lives under, or
    /// `None` when the pool could not take it. The index was free before the
    /// call; no other slot changes.
    ///
    /// A store that holds fewer than [`ROOM`] resources takes one more. Above
    /// that the slab decides: it has room shard by shard, one shard for each
    /// calling thread. [`crate::table::commit`] says what follows from either
    /// answer.
    ///
    /// # Panics
    ///
    /// The slab panics when more threads are alive than its configuration
    /// allows for.
    pub fn insert(&mut self, res: Resource) -> (slot: Option<usize>)
        ensures
            match slot {
                Some(idx) => !old(self)@.contains_key(idx) && final(self)@ == old(self)@.insert(
                    idx,
                    res@,
                ),
                None => final(self)@ == old(self)@,
            },
            old(self).has_room() ==> slot is Some,
    {
        slab_insert(self, res)
    }

    /// A copy of the resource stored under `idx`, if that index is live.
    pub fn get(&self, idx: usize) -> (res: Option<Resource>)
        ensures
            match res {
                Some(bytes) => self@.contains_key(idx) && bytes@ == self@[idx],
                None => !self@.contains_key(idx),
            },
    {
        slab_read(self, idx)
    }
}

} // verus!
