//! What the store of creation attempts answers and keeps: which key leads, and what
//! each step changes of which attempt.

use crate::attempts::{
    begun, begun_store, cached_result, claimed_store, finished_store, noted_store, pending_lookup,
    pending_object, read_left, recovered_store, remembered_slot, running, stepped, witnessed_store,
    AttemptState, PendingV, StoreStep, StoreV, MAX_PENDING_READS,
};
use crate::rich_flow::CreateDisposition;
use vstd::prelude::*;

verus! {

/// A key leads exactly where it is new, in time, and there is room. A known key is
/// answered by its attempt, where the request is the same one, and is a conflict
/// otherwise. A store that is full still answers for the keys it knows.
pub proof fn keys_are_answered_by_their_attempt<R>(
    store: StoreV<R>,
    key: Seq<char>,
    fingerprint: Seq<u8>,
    expired: bool,
)
    ensures
        ({
            let known = store.attempts.contains_key(key);
            let same = known && store.attempts[key].fingerprint == fingerprint;
            let room = store.attempts.dom().len() < store.capacity;
            let outcome = begun(store, key, fingerprint, expired);
            &&& outcome is Expired <==> expired
            &&& outcome is Lead <==> !expired && !known && room
            &&& outcome is Full <==> !expired && !known && !room
            &&& outcome is Conflict <==> !expired && known && !same
            &&& outcome is Wait <==> !expired && same && store.attempts[key].state is Running
            &&& outcome is Indeterminate <==> !expired && same
                && store.attempts[key].state is Indeterminate
            &&& outcome is Cached <==> !expired && same && store.attempts[key].state is Finished
        }),
{
}

/// A key that leads is kept as a running attempt of its request, with nothing
/// remembered; no other key begins anything.
pub proof fn leading_key_starts_running<R>(
    store: StoreV<R>,
    key: Seq<char>,
    fingerprint: Seq<u8>,
    expired: bool,
)
    ensures
        ({
            let next = begun_store(store, key, fingerprint, expired);
            &&& begun(store, key, fingerprint, expired) is Lead ==> {
                &&& running(next, key)
                &&& next.attempts[key].fingerprint == fingerprint
                &&& next.attempts[key].pending is None
                &&& next.attempts[key].reads == 0
                &&& next.attempts[key].root_slot is None
            }
            &&& !(begun(store, key, fingerprint, expired) is Lead) ==> next == store
        }),
        running(store, key) <==> store.attempts.contains_key(key)
            && store.attempts[key].state is Running,
{
}

/// Key that a step is about.
pub open spec fn step_key<R>(step: StoreStep<R>) -> Seq<char> {
    match step {
        StoreStep::Begin { key, .. } => key,
        StoreStep::Finish { key, .. } => key,
        StoreStep::Note { key, .. } => key,
        StoreStep::Claim { key } => key,
        StoreStep::Recover { key, .. } => key,
        StoreStep::Witness { key, .. } => key,
    }
}

/// A step leaves the capacity and the attempts of every other key as they are.
pub proof fn steps_leave_other_keys<R>(store: StoreV<R>, step: StoreStep<R>, other: Seq<char>)
    requires
        other != step_key(step),
    ensures
        stepped(store, step).capacity == store.capacity,
        stepped(store, step).attempts.contains_key(other) <==> store.attempts.contains_key(other),
        store.attempts.contains_key(other) ==> stepped(store, step).attempts[other]
            == store.attempts[other],
{
}

/// The request of an attempt never changes while it is kept.
pub proof fn steps_keep_the_request<R>(store: StoreV<R>, step: StoreStep<R>, key: Seq<char>)
    ensures
        store.attempts.contains_key(key) && stepped(store, step).attempts.contains_key(key)
            ==> stepped(store, step).attempts[key].fingerprint == store.attempts[key].fingerprint,
        store.attempts.contains_key(key) && !stepped(store, step).attempts.contains_key(key)
            ==> running(store, key) && (step matches StoreStep::Finish { disposition, .. }
            && disposition is PreDispatchFailure),
{
}

/// A running attempt ends as its disposition says: verified and terminal ends keep
/// their result, an uncertain end keeps none, and an end before anything was sent
/// forgets the attempt. What else the attempt remembers stays. An attempt that is not
/// running does not end again.
pub proof fn running_attempts_end_once<R>(
    store: StoreV<R>,
    key: Seq<char>,
    result: R,
    disposition: CreateDisposition,
)
    ensures
        ({
            let next = finished_store(store, key, result, disposition);
            let a = store.attempts[key];
            let b = next.attempts[key];
            &&& !running(store, key) ==> next == store
            &&& running(store, key) ==> {
                &&& disposition is PreDispatchFailure <==> !next.attempts.contains_key(key)
                &&& disposition is Verified || disposition is Terminal ==> b.state
                    == AttemptState::Finished(result)
                &&& disposition is Indeterminate ==> b.state is Indeterminate
                &&& !(disposition is PreDispatchFailure) ==> b.fingerprint == a.fingerprint
                    && b.pending == a.pending && b.reads == a.reads && b.root_slot == a.root_slot
            }
        }),
{
}

/// A kept result is given exactly for the same request of a finished attempt, and
/// the remembered object exactly for the same request of an uncertain one. It may be
/// read while reads are left. The remembered slot needs the same request only.
pub proof fn memories_are_given_for_the_same_request<R>(
    store: StoreV<R>,
    key: Seq<char>,
    fingerprint: Seq<u8>,
)
    ensures
        ({
            let same = store.attempts.contains_key(key) && store.attempts[key].fingerprint
                == fingerprint;
            let a = store.attempts[key];
            &&& cached_result(store, key, fingerprint) is Some <==> same && a.state is Finished
            &&& cached_result(store, key, fingerprint) matches Some(result) ==> a.state
                == AttemptState::Finished(result)
            &&& pending_object(store, key, fingerprint) is Some <==> same && a.state
                is Indeterminate && a.pending is Some
            &&& pending_object(store, key, fingerprint) is Some ==> pending_object(
                store,
                key,
                fingerprint,
            ) == a.pending
            &&& pending_lookup(store, key, fingerprint) is Available <==> pending_object(
                store,
                key,
                fingerprint,
            ) is Some && a.reads < MAX_PENDING_READS
            &&& pending_lookup(store, key, fingerprint) is Exhausted <==> pending_object(
                store,
                key,
                fingerprint,
            ) is Some && a.reads >= MAX_PENDING_READS
            &&& same ==> remembered_slot(store, key, fingerprint) == a.root_slot
            &&& !same ==> remembered_slot(store, key, fingerprint) is None
        }),
{
}

/// A running attempt remembers its object, with no read of it yet, and the slot of
/// its first entry. An attempt that is not running remembers nothing new.
pub proof fn running_attempts_remember<R>(
    store: StoreV<R>,
    key: Seq<char>,
    candidate: PendingV,
    slot: u64,
)
    ensures
        !running(store, key) ==> noted_store(store, key, candidate) == store && witnessed_store(
            store,
            key,
            slot,
        ) == store,
        running(store, key) ==> {
            let a = store.attempts[key];
            let noted = noted_store(store, key, candidate).attempts[key];
            let seen = witnessed_store(store, key, slot).attempts[key];
            &&& noted.pending == Some(candidate) && noted.reads == 0
            &&& noted.state is Running && noted.fingerprint == a.fingerprint && noted.root_slot
                == a.root_slot
            &&& seen.root_slot == Some(slot)
            &&& seen.state is Running && seen.fingerprint == a.fingerprint && seen.pending
                == a.pending && seen.reads == a.reads
        },
{
}

/// A claimed read counts one read, exactly where an object is remembered and a read
/// is left, and changes nothing else.
pub proof fn claimed_reads_are_counted<R>(store: StoreV<R>, key: Seq<char>)
    ensures
        ({
            let left = store.attempts.contains_key(key) && store.attempts[key].pending is Some
                && store.attempts[key].reads < MAX_PENDING_READS;
            let a = store.attempts[key];
            let b = claimed_store(store, key).attempts[key];
            &&& read_left(store, key) <==> left
            &&& !left ==> claimed_store(store, key) == store
            &&& left ==> b.reads == a.reads + 1 && b.state == a.state && b.pending == a.pending
                && b.fingerprint == a.fingerprint && b.root_slot == a.root_slot
        }),
{
}

/// A recovery ends an uncertain attempt with its result and forgets the object,
/// exactly where the object is the remembered one of the same request.
pub proof fn recovery_ends_an_uncertain_attempt<R>(
    store: StoreV<R>,
    key: Seq<char>,
    fingerprint: Seq<u8>,
    candidate: PendingV,
    result: R,
)
    ensures
        ({
            let matching = pending_object(store, key, fingerprint) == Some(candidate);
            let next = recovered_store(store, key, fingerprint, candidate, result);
            let a = store.attempts[key];
            let b = next.attempts[key];
            &&& !matching ==> next == store
            &&& matching ==> cached_result(next, key, fingerprint) == Some(result) && b.pending
                is None && b.fingerprint == a.fingerprint && b.reads == a.reads && b.root_slot
                == a.root_slot && pending_object(next, key, fingerprint) is None
        }),
{
}

} // verus!
