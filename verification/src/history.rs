//! What holds of a controller over any run of registrations.
//!
//! A history is the sequence of states a controller goes through, with the
//! registration that leads from each state to the next. Nothing but a
//! registration changes a controller, so a history describes a whole life of
//! one.

use crate::allocator::has_unused_teid;
use crate::gtp::GtpController;
use crate::store::{Slots, ROOM};
use crate::table::{duration_is_zero, Cause, Key};
use crate::teid::{nth_after, Teid, TEID_SPACE};
use std::time::Duration;
use vstd::prelude::*;

verus! {

/// One registration: what was asked for and what came back.
pub struct Attempt {
    pub key: Key,
    pub res: Seq<u8>,
    pub budget: Duration,
    pub result: Result<Teid, Cause>,
}

/// Whether `attempt` leads from `pre` to `post`.
pub open spec fn step(pre: &GtpController, post: &GtpController, attempt: Attempt) -> bool {
    GtpController::registration(
        pre,
        post,
        attempt.key,
        attempt.res,
        attempt.budget,
        attempt.result,
    )
}

/// Whether `states` is what a controller goes through under `attempts`: the
/// attempt at a position leads from the state at that position to the next
/// one.
pub open spec fn history(states: Seq<GtpController>, attempts: Seq<Attempt>) -> bool {
    &&& states.len() == attempts.len() + 1
    &&& forall|n: int|
        0 <= n < attempts.len() ==> step(&states[n], &states[n + 1], #[trigger] attempts[n])
}

/// A registration never takes an entry or a resource away, nor changes one.
pub proof fn lemma_step_keeps_entries(pre: &GtpController, post: &GtpController, attempt: Attempt)
    requires
        step(pre, post, attempt),
    ensures
        pre.table().forward().submap_of(post.table().forward()),
        pre.table().backward().submap_of(post.table().backward()),
        pre.table().store().submap_of(post.table().store()),
{
}

/// In a history, whatever is live at one state is live, and unchanged, at
/// every later state.
pub proof fn lemma_history_keeps_entries(
    states: Seq<GtpController>,
    attempts: Seq<Attempt>,
    from: int,
    to: int,
)
    requires
        history(states, attempts),
        0 <= from <= to < states.len(),
    ensures
        states[from].table().forward().submap_of(states[to].table().forward()),
        states[from].table().backward().submap_of(states[to].table().backward()),
        states[from].table().store().submap_of(states[to].table().store()),
    decreases to - from,
{
    if from < to {
        lemma_history_keeps_entries(states, attempts, from, to - 1);
        lemma_step_keeps_entries(&states[to - 1], &states[to], attempts[to - 1]);
    }
}

/// A failed registration writes nothing: the forward map, the backward map
/// and the store are what they were.
pub proof fn lemma_failure_writes_nothing(
    pre: &GtpController,
    post: &GtpController,
    attempt: Attempt,
)
    requires
        step(pre, post, attempt),
        attempt.result is Err,
    ensures
        post.table().forward() == pre.table().forward(),
        post.table().backward() == pre.table().backward(),
        post.table().store() == pre.table().store(),
{
}

/// A registration whose candidate identifier is live fails on the collision,
/// and leaves the allocator on an identifier that is not live. This is said of
/// a table that has an identifier left.
pub proof fn lemma_collision_is_resolved(
    pre: &GtpController,
    post: &GtpController,
    attempt: Attempt,
)
    requires
        step(pre, post, attempt),
        pre.table().forward().contains_key(pre.next_teid()),
        has_unused_teid(&pre.table()),
    ensures
        attempt.result == Err::<Teid, Cause>(Cause::DuplicateId),
        !post.table().forward().contains_key(post.next_teid()),
{
}

/// A second registration of a live key fails on the duplicate key, whatever
/// the budget, where the candidate identifier is free.
pub proof fn lemma_duplicate_key_is_refused(
    pre: &GtpController,
    post: &GtpController,
    attempt: Attempt,
)
    requires
        step(pre, post, attempt),
        pre.table().backward().contains_key(attempt.key),
        !pre.table().forward().contains_key(pre.next_teid()),
    ensures
        attempt.result == Err::<Teid, Cause>(Cause::DuplicateKey),
{
}

/// The identifiers that the successful registrations of a history returned
/// are pairwise distinct, and so are the keys they were given.
pub proof fn lemma_assignments_are_distinct(
    states: Seq<GtpController>,
    attempts: Seq<Attempt>,
    i: int,
    j: int,
)
    requires
        history(states, attempts),
        0 <= i < j < attempts.len(),
        attempts[i].result is Ok,
        attempts[j].result is Ok,
    ensures
        attempts[i].result->Ok_0 != attempts[j].result->Ok_0,
        attempts[i].key != attempts[j].key,
{
    lemma_history_keeps_entries(states, attempts, i + 1, j);
    let teid = attempts[i].result->Ok_0;
    assert(states[i + 1].table().forward().contains_key(teid));
    assert(states[i + 1].table().backward().contains_key(attempts[i].key));
}

/// Once a registration of `key` with `res` has returned an identifier, every
/// later state of the history finds `key` and `res` from that identifier and
/// the identifier and `res` from `key`, both through one slot of the store.
pub proof fn lemma_assignment_is_found(
    states: Seq<GtpController>,
    attempts: Seq<Attempt>,
    i: int,
    later: int,
)
    requires
        history(states, attempts),
        0 <= i < later < states.len(),
        attempts[i].result is Ok,
    ensures
        ({
            let teid = attempts[i].result->Ok_0;
            let table = states[later].table();
            &&& table.lookup(teid) == Some((attempts[i].key, attempts[i].res))
            &&& table.lookup_key(attempts[i].key) == Some((teid, attempts[i].res))
            &&& table.forward()[teid].1 == table.backward()[attempts[i].key].1
        }),
{
    lemma_history_keeps_entries(states, attempts, i + 1, later);
    let teid = attempts[i].result->Ok_0;
    let key = attempts[i].key;
    let after = states[i + 1].table();
    let idx = after.forward()[teid].1;
    assert(after.forward().contains_key(teid) && after.forward()[teid] == (key, idx));
    assert(after.backward().contains_key(key) && after.backward()[key] == (teid, idx));
    assert(after.store().contains_key(idx) && after.store()[idx] == attempts[i].res);
    let table = states[later].table();
    assert(table.forward().contains_key(teid) && table.forward()[teid] == (key, idx));
    assert(table.backward().contains_key(key) && table.backward()[key] == (teid, idx));
    assert(table.store().contains_key(idx) && table.store()[idx] == attempts[i].res);
}

/// Whether the first `done` attempts of a history that began on an empty
/// table have kept to the run of candidates that began at `first`: the next
/// candidate is `done` places after `first`, every live identifier is an
/// earlier candidate, every live key is the key of an earlier attempt, and
/// the store holds no more resources than attempts were made.
pub open spec fn kept_to_run(
    states: Seq<GtpController>,
    attempts: Seq<Attempt>,
    first: Teid,
    done: int,
) -> bool {
    &&& states[done].next_teid() == nth_after(first, done)
    &&& forall|teid: Teid| #[trigger]
        states[done].table().forward().contains_key(teid) ==> exists|k: int|
            0 <= k < done && teid == #[trigger] nth_after(first, k)
    &&& forall|key: Key| #[trigger]
        states[done].table().backward().contains_key(key) ==> exists|k: int|
            0 <= k < done && key == (#[trigger] attempts[k]).key
    &&& states[done].table().store().dom().finite()
    &&& states[done].table().store().dom().len() <= done
}

/// Whether a history begins on an empty table and registers keys that differ
/// from each other, each under a budget that is not zero, no more often than
/// there are identifiers.
pub open spec fn fresh_run(states: Seq<GtpController>, attempts: Seq<Attempt>) -> bool {
    &&& history(states, attempts)
    &&& attempts.len() <= TEID_SPACE
    &&& states[0].table().forward() == Map::<Teid, (Key, usize)>::empty()
    &&& states[0].table().backward() == Map::<Key, (Teid, usize)>::empty()
    &&& states[0].table().store() == Slots::empty()
    &&& forall|i: int, j: int|
        0 <= i < j < attempts.len() ==> (#[trigger] attempts[i]).key != (#[trigger] attempts[j]).key
    &&& forall|i: int| 0 <= i < attempts.len() ==> !duration_is_zero((#[trigger] attempts[i]).budget)
}

/// In a fresh run no attempt collides. Each of the first [`ROOM`] attempts is
/// assigned its candidate, which lies as many places after the first one as
/// attempts went before; a later one is assigned its candidate unless the
/// store is full. Before and after each attempt the run is kept to.
pub proof fn lemma_fresh_run_has_no_collision(
    states: Seq<GtpController>,
    attempts: Seq<Attempt>,
    n: int,
)
    requires
        fresh_run(states, attempts),
        0 <= n < attempts.len(),
    ensures
        kept_to_run(states, attempts, states[0].next_teid(), n),
        kept_to_run(states, attempts, states[0].next_teid(), n + 1),
        attempts[n].result == Ok::<Teid, Cause>(nth_after(states[0].next_teid(), n))
            || attempts[n].result == Err::<Teid, Cause>(Cause::StoreFull),
        n < ROOM ==> attempts[n].result == Ok::<Teid, Cause>(
            nth_after(states[0].next_teid(), n),
        ),
    decreases n,
{
    let first = states[0].next_teid();
    if n > 0 {
        lemma_fresh_run_has_no_collision(states, attempts, n - 1);
    }
    let pre = states[n];
    let post = states[n + 1];
    let attempt = attempts[n];
    assert(step(&pre, &post, attempt));
    let teid = pre.next_teid();
    assert(teid == nth_after(first, n));
    // The candidate is not live: every live identifier is an earlier
    // candidate, and the run has not come round yet.
    if pre.table().forward().contains_key(teid) {
        let k = choose|k: int| 0 <= k < n && teid == #[trigger] nth_after(first, k);
        assert(false);
    }
    // The key is not live: every live key is the key of an earlier attempt.
    if pre.table().backward().contains_key(attempt.key) {
        let k = choose|k: int| 0 <= k < n && attempt.key == (#[trigger] attempts[k]).key;
        assert(attempts[k].key != attempts[n].key);
        assert(false);
    }
    assert(pre.table().reservation(teid, attempt.key, attempt.budget) is Ok);
    assert forall|id: Teid| #[trigger] post.table().forward().contains_key(id) implies exists|
        k: int,
    | 0 <= k < n + 1 && id == #[trigger] nth_after(first, k) by {
        if id == teid && attempt.result is Ok {
            assert(id == nth_after(first, n));
        } else {
            assert(pre.table().forward().contains_key(id));
            let k = choose|k: int| 0 <= k < n && id == #[trigger] nth_after(first, k);
            assert(0 <= k < n + 1 && id == nth_after(first, k));
        }
    }
    assert forall|key: Key| #[trigger] post.table().backward().contains_key(key) implies exists|
        k: int,
    | 0 <= k < n + 1 && key == (#[trigger] attempts[k]).key by {
        if key == attempt.key && attempt.result is Ok {
            assert(key == attempts[n].key);
        } else {
            assert(pre.table().backward().contains_key(key));
            let k = choose|k: int| 0 <= k < n && key == (#[trigger] attempts[k]).key;
            assert(0 <= k < n + 1 && key == attempts[k].key);
        }
    }
}

} // verus!
