//! Attempts of this process by idempotency key: who leads an attempt, what it
//! left behind, and what a later call with its key is answered.

use crate::domain::IdempotencyKey;
use crate::rich_flow::{BeginOutcome, CreateDisposition, PendingLookup};
use crate::text::{opt_view, same_text, Same};
use vstd::prelude::*;

verus! {

/// Attempts that one store holds unless another bound is asked for.
pub const DEFAULT_IDEMPOTENCY_CAPACITY: usize = 256;

/// Reads of a created object that may be made before it is given up.
pub const MAX_PENDING_READS: u8 = 3;

/// An object that an attempt has created but not verified.
#[derive(Debug)]
pub struct PendingCandidate {
    pub space_id: String,
    pub object_id: String,
}

/// Model of a created object.
#[verifier::ext_equal]
pub struct PendingV {
    pub space_id: Seq<char>,
    pub object_id: Seq<char>,
}

impl View for PendingCandidate {
    type V = PendingV;

    open spec fn view(&self) -> PendingV {
        PendingV { space_id: self.space_id@, object_id: self.object_id@ }
    }
}

impl Clone for PendingCandidate {
    fn clone(&self) -> (r: PendingCandidate)
        ensures
            r@ == self@,
    {
        PendingCandidate { space_id: self.space_id.clone(), object_id: self.object_id.clone() }
    }
}

/// Where an attempt stands.
#[derive(Debug)]
pub enum AttemptState<R> {
    /// Its leader is still at work.
    Running,
    /// It may have applied.
    Indeterminate,
    /// It left a result that is given again.
    Finished(R),
}

/// What a store holds of one attempt.
#[derive(Debug)]
pub struct Attempt<R> {
    pub key: IdempotencyKey,
    pub fingerprint: [u8; 32],
    pub state: AttemptState<R>,
    pub pending: Option<PendingCandidate>,
    /// Reads of the created object so far.
    pub reads: u8,
    /// Root slot at which the first entry of a plan was appended.
    pub root_slot: Option<u64>,
}

/// Model of an attempt.
#[verifier::ext_equal]
pub struct AttemptV<R> {
    pub fingerprint: Seq<u8>,
    pub state: AttemptState<R>,
    pub pending: Option<PendingV>,
    pub reads: int,
    pub root_slot: Option<u64>,
}

/// An attempt whose leader has just been chosen.
pub open spec fn fresh_attempt<R>(fingerprint: Seq<u8>) -> AttemptV<R> {
    AttemptV {
        fingerprint,
        state: AttemptState::Running,
        pending: None,
        reads: 0,
        root_slot: None,
    }
}

impl<R> View for Attempt<R> {
    type V = AttemptV<R>;

    open spec fn view(&self) -> AttemptV<R> {
        AttemptV {
            fingerprint: self.fingerprint@,
            state: self.state,
            pending: opt_view(self.pending),
            reads: self.reads as int,
            root_slot: self.root_slot,
        }
    }
}

/// Model of a store: its bound, and its attempts by key.
#[verifier::ext_equal]
pub struct StoreV<R> {
    pub capacity: int,
    pub attempts: Map<Seq<char>, AttemptV<R>>,
}

/// What a store says of a key and a fingerprint. A call that is out of time is
/// told so; a key that is held under another fingerprint is a conflict; a new key
/// leads while there is room.
pub open spec fn begun<R>(
    store: StoreV<R>,
    key: Seq<char>,
    fingerprint: Seq<u8>,
    expired: bool,
) -> BeginOutcome {
    if expired {
        BeginOutcome::Expired
    } else if store.attempts.contains_key(key) {
        if store.attempts[key].fingerprint != fingerprint {
            BeginOutcome::Conflict
        } else {
            match store.attempts[key].state {
                AttemptState::Running => BeginOutcome::Wait,
                AttemptState::Indeterminate => BeginOutcome::Indeterminate,
                AttemptState::Finished(_) => BeginOutcome::Cached,
            }
        }
    } else if store.attempts.dom().len() >= store.capacity {
        BeginOutcome::Full
    } else {
        BeginOutcome::Lead
    }
}

/// The store after a lookup: only a new leader is entered.
pub open spec fn begun_store<R>(
    store: StoreV<R>,
    key: Seq<char>,
    fingerprint: Seq<u8>,
    expired: bool,
) -> StoreV<R> {
    if begun(store, key, fingerprint, expired) == BeginOutcome::Lead {
        StoreV {
            attempts: store.attempts.insert(key, fresh_attempt(fingerprint)),
            ..store
        }
    } else {
        store
    }
}

/// An attempt under this key is running.
pub open spec fn running<R>(store: StoreV<R>, key: Seq<char>) -> bool {
    store.attempts.contains_key(key) && store.attempts[key].state == AttemptState::<R>::Running
}

/// The store after a running attempt has ended: a verified or final result is
/// kept, an uncertain attempt stays uncertain, and an attempt that dispatched
/// nothing leaves its key free. No other attempt can be ended.
pub open spec fn finished_store<R>(
    store: StoreV<R>,
    key: Seq<char>,
    result: R,
    disposition: CreateDisposition,
) -> StoreV<R> {
    if !running(store, key) {
        store
    } else {
        StoreV {
            attempts: match disposition {
                CreateDisposition::Verified | CreateDisposition::Terminal => store.attempts.insert(
                    key,
                    AttemptV { state: AttemptState::Finished(result), ..store.attempts[key] },
                ),
                CreateDisposition::Indeterminate => store.attempts.insert(
                    key,
                    AttemptV { state: AttemptState::Indeterminate, ..store.attempts[key] },
                ),
                CreateDisposition::PreDispatchFailure => store.attempts.remove(key),
            },
            ..store
        }
    }
}

/// Result that is given again for a key and a fingerprint, if any.
pub open spec fn cached_result<R>(
    store: StoreV<R>,
    key: Seq<char>,
    fingerprint: Seq<u8>,
) -> Option<R> {
    if store.attempts.contains_key(key) && store.attempts[key].fingerprint == fingerprint {
        match store.attempts[key].state {
            AttemptState::Finished(result) => Some(result),
            _ => None,
        }
    } else {
        None
    }
}

/// Created object of an uncertain attempt, if there is one under this key and
/// fingerprint.
pub open spec fn pending_object<R>(
    store: StoreV<R>,
    key: Seq<char>,
    fingerprint: Seq<u8>,
) -> Option<PendingV> {
    if store.attempts.contains_key(key) && store.attempts[key].fingerprint == fingerprint
        && store.attempts[key].state == AttemptState::<R>::Indeterminate {
        store.attempts[key].pending
    } else {
        None
    }
}

/// What a store says of the created object of an uncertain attempt.
pub open spec fn pending_lookup<R>(
    store: StoreV<R>,
    key: Seq<char>,
    fingerprint: Seq<u8>,
) -> PendingLookup {
    if pending_object(store, key, fingerprint) is None {
        PendingLookup::Absent
    } else if store.attempts[key].reads < MAX_PENDING_READS {
        PendingLookup::Available
    } else {
        PendingLookup::Exhausted
    }
}

/// The store after the recovery of a created object: its result is kept in place
/// of the uncertain attempt. A stale or completed candidate changes nothing.
pub open spec fn recovered_store<R>(
    store: StoreV<R>,
    key: Seq<char>,
    fingerprint: Seq<u8>,
    candidate: PendingV,
    result: R,
) -> StoreV<R> {
    if pending_object(store, key, fingerprint) == Some(candidate) {
        StoreV {
            attempts: store.attempts.insert(
                key,
                AttemptV {
                    state: AttemptState::Finished(result),
                    pending: None,
                    ..store.attempts[key]
                },
            ),
            ..store
        }
    } else {
        store
    }
}

/// The store after a created object was noted on its running attempt.
pub open spec fn noted_store<R>(store: StoreV<R>, key: Seq<char>, candidate: PendingV) -> StoreV<R> {
    if running(store, key) {
        StoreV {
            attempts: store.attempts.insert(
                key,
                AttemptV { pending: Some(candidate), reads: 0, ..store.attempts[key] },
            ),
            ..store
        }
    } else {
        store
    }
}

/// A read of the created object may still be made.
pub open spec fn read_left<R>(store: StoreV<R>, key: Seq<char>) -> bool {
    store.attempts.contains_key(key) && store.attempts[key].pending is Some
        && store.attempts[key].reads < MAX_PENDING_READS
}

/// The store after a read of the created object was claimed.
pub open spec fn claimed_store<R>(store: StoreV<R>, key: Seq<char>) -> StoreV<R> {
    if read_left(store, key) {
        StoreV {
            attempts: store.attempts.insert(
                key,
                AttemptV { reads: store.attempts[key].reads + 1, ..store.attempts[key] },
            ),
            ..store
        }
    } else {
        store
    }
}

/// The store after the root slot of a plan was noted on its running attempt.
pub open spec fn witnessed_store<R>(store: StoreV<R>, key: Seq<char>, slot: u64) -> StoreV<R> {
    if running(store, key) {
        StoreV {
            attempts: store.attempts.insert(
                key,
                AttemptV { root_slot: Some(slot), ..store.attempts[key] },
            ),
            ..store
        }
    } else {
        store
    }
}

/// Root slot that is remembered for a key and a fingerprint, if any.
pub open spec fn remembered_slot<R>(
    store: StoreV<R>,
    key: Seq<char>,
    fingerprint: Seq<u8>,
) -> Option<u64> {
    if store.attempts.contains_key(key) && store.attempts[key].fingerprint == fingerprint {
        store.attempts[key].root_slot
    } else {
        None
    }
}

/// One step of a store.
pub ghost enum StoreStep<R> {
    Begin { key: Seq<char>, fingerprint: Seq<u8>, expired: bool },
    Finish { key: Seq<char>, result: R, disposition: CreateDisposition },
    Note { key: Seq<char>, candidate: PendingV },
    Claim { key: Seq<char> },
    Recover { key: Seq<char>, fingerprint: Seq<u8>, candidate: PendingV, result: R },
    Witness { key: Seq<char>, slot: u64 },
}

/// The store after one step.
pub open spec fn stepped<R>(store: StoreV<R>, step: StoreStep<R>) -> StoreV<R> {
    match step {
        StoreStep::Begin { key, fingerprint, expired } => begun_store(
            store,
            key,
            fingerprint,
            expired,
        ),
        StoreStep::Finish { key, result, disposition } => finished_store(
            store,
            key,
            result,
            disposition,
        ),
        StoreStep::Note { key, candidate } => noted_store(store, key, candidate),
        StoreStep::Claim { key } => claimed_store(store, key),
        StoreStep::Recover { key, fingerprint, candidate, result } => recovered_store(
            store,
            key,
            fingerprint,
            candidate,
            result,
        ),
        StoreStep::Witness { key, slot } => witnessed_store(store, key, slot),
    }
}

/// The store after a run of steps.
pub open spec fn stepped_through<R>(store: StoreV<R>, steps: Seq<StoreStep<R>>) -> StoreV<R>
    decreases steps.len(),
{
    if steps.len() == 0 {
        store
    } else {
        stepped(stepped_through(store, steps.drop_last()), steps.last())
    }
}

/// A result that is given again stays so whatever happens to the store: every
/// later call with its key and fingerprint is answered with it, every call with
/// its key and another fingerprint is a conflict, and no call with its key leads.
pub proof fn kept_result_is_always_given_again<R>(
    store: StoreV<R>,
    key: Seq<char>,
    fingerprint: Seq<u8>,
    result: R,
    steps: Seq<StoreStep<R>>,
    other: Seq<u8>,
)
    requires
        cached_result(store, key, fingerprint) == Some(result),
    ensures
        ({
            let later = stepped_through(store, steps);
            &&& cached_result(later, key, fingerprint) == Some(result)
            &&& begun(later, key, fingerprint, false) == BeginOutcome::Cached
            &&& pending_lookup(later, key, fingerprint) == PendingLookup::Absent
            &&& other != fingerprint ==> begun(later, key, other, false) == BeginOutcome::Conflict
        }),
    decreases steps.len(),
{
    if steps.len() > 0 {
        kept_result_is_always_given_again(
            store,
            key,
            fingerprint,
            result,
            steps.drop_last(),
            other,
        );
    }
}

/// No created object was read more often than it may be.
pub open spec fn reads_bounded<R>(store: StoreV<R>) -> bool {
    forall|key: Seq<char>| #[trigger]
        store.attempts.contains_key(key) ==> 0 <= store.attempts[key].reads <= MAX_PENDING_READS
}

/// Whatever happens to a store, no created object is read more often than it may
/// be; where a lookup says so, no read is left.
pub proof fn pending_reads_are_bounded<R>(store: StoreV<R>, steps: Seq<StoreStep<R>>)
    requires
        reads_bounded(store),
    ensures
        reads_bounded(stepped_through(store, steps)),
        forall|key: Seq<char>, fingerprint: Seq<u8>| #[trigger]
            pending_lookup(stepped_through(store, steps), key, fingerprint)
                == PendingLookup::Exhausted ==> !read_left(stepped_through(store, steps), key),
    decreases steps.len(),
{
    if steps.len() > 0 {
        pending_reads_are_bounded(store, steps.drop_last());
    }
}

/// An attempt that leads is alone: until it ends, every call with its key waits
/// for it, or is a conflict where the request is another.
pub proof fn leader_is_alone<R>(
    store: StoreV<R>,
    key: Seq<char>,
    fingerprint: Seq<u8>,
    other: Seq<u8>,
)
    requires
        begun(store, key, fingerprint, false) == BeginOutcome::Lead,
    ensures
        ({
            let led = begun_store(store, key, fingerprint, false);
            &&& running(led, key)
            &&& begun(led, key, fingerprint, false) == BeginOutcome::Wait
            &&& other != fingerprint ==> begun(led, key, other, false) == BeginOutcome::Conflict
        }),
{
}

/// What an attempt leaves behind decides what its key is answered afterwards.
pub proof fn disposition_decides_the_answer<R>(
    store: StoreV<R>,
    key: Seq<char>,
    result: R,
    disposition: CreateDisposition,
)
    requires
        running(store, key),
    ensures
        ({
            let fingerprint = store.attempts[key].fingerprint;
            let ended = finished_store(store, key, result, disposition);
            match disposition {
                CreateDisposition::Verified | CreateDisposition::Terminal => cached_result(
                    ended,
                    key,
                    fingerprint,
                ) == Some(result),
                CreateDisposition::Indeterminate => begun(ended, key, fingerprint, false)
                    == BeginOutcome::Indeterminate,
                CreateDisposition::PreDispatchFailure => !ended.attempts.contains_key(key),
            }
        }),
{
}

/// Position of a key.
spec fn at_key<R>(attempts: Seq<Attempt<R>>, key: Seq<char>, i: int) -> bool {
    0 <= i < attempts.len() && attempts[i].key@ == key
}

spec fn listed<R>(attempts: Seq<Attempt<R>>, key: Seq<char>) -> bool {
    exists|i: int| at_key(attempts, key, i)
}

spec fn by_key<R>(attempts: Seq<Attempt<R>>) -> Map<Seq<char>, AttemptV<R>> {
    Map::new(
        |key: Seq<char>| listed(attempts, key),
        |key: Seq<char>| attempts[choose|i: int| at_key(attempts, key, i)]@,
    )
}

spec fn keys_differ<R>(attempts: Seq<Attempt<R>>) -> bool {
    forall|i: int, j: int|
        0 <= i < j < attempts.len() ==> (#[trigger] attempts[i]).key@ != (
        #[trigger] attempts[j]).key@
}

/// An attempt is found under its key.
proof fn found_by_key<R>(attempts: Seq<Attempt<R>>, i: int)
    requires
        keys_differ(attempts),
        0 <= i < attempts.len(),
    ensures
        by_key(attempts).contains_key(attempts[i].key@),
        by_key(attempts)[attempts[i].key@] == attempts[i]@,
{
    let key = attempts[i].key@;
    assert(at_key(attempts, key, i));
    let j = choose|j: int| at_key(attempts, key, j);
    assert(at_key(attempts, key, j));
    if j < i {
        assert(attempts[j].key@ != attempts[i].key@);
    } else if i < j {
        assert(attempts[i].key@ != attempts[j].key@);
    }
}

/// A store holds as many keys as attempts.
proof fn keys_counted<R>(attempts: Seq<Attempt<R>>)
    requires
        keys_differ(attempts),
    ensures
        by_key(attempts).dom().len() == attempts.len(),
{
    let keys = Seq::new(attempts.len(), |i: int| attempts[i].key@);
    assert(keys.no_duplicates()) by {
        assert forall|i: int, j: int| 0 <= i < keys.len() && 0 <= j < keys.len() && i != j implies
            keys[i] != keys[j] by {
            if i < j {
                assert(attempts[i].key@ != attempts[j].key@);
            } else {
                assert(attempts[j].key@ != attempts[i].key@);
            }
        }
    }
    keys.unique_seq_to_set();
    assert(by_key(attempts).dom() =~= keys.to_set()) by {
        assert forall|key: Seq<char>| by_key(attempts).dom().contains(key) implies
            keys.to_set().contains(key) by {
            let i = choose|i: int| at_key(attempts, key, i);
            assert(keys[i] == key);
        }
        assert forall|key: Seq<char>| keys.to_set().contains(key) implies by_key(
            attempts,
        ).dom().contains(key) by {
            let i = choose|i: int| 0 <= i < keys.len() && keys[i] == key;
            assert(at_key(attempts, key, i));
        }
    }
}

/// A new attempt is entered under its key.
proof fn pushed<R>(attempts: Seq<Attempt<R>>, attempt: Attempt<R>)
    requires
        keys_differ(attempts),
        !by_key(attempts).contains_key(attempt.key@),
    ensures
        keys_differ(attempts.push(attempt)),
        by_key(attempts.push(attempt)) == by_key(attempts).insert(attempt.key@, attempt@),
{
    let longer = attempts.push(attempt);
    assert forall|i: int| 0 <= i < attempts.len() implies (#[trigger] attempts[i]).key@
        != attempt.key@ by {
        found_by_key(attempts, i);
    }
    assert forall|i: int, j: int| 0 <= i < j < longer.len() implies (#[trigger] longer[i]).key@ != (
    #[trigger] longer[j]).key@ by {
        assert(longer[i] == attempts[i]);
        if j < attempts.len() {
            assert(longer[j] == attempts[j]);
        }
    }
    same_attempts(
        longer,
        by_key(attempts).insert(attempt.key@, attempt@),
        attempts.len() as int,
        attempts,
    );
}

/// A map that holds exactly the attempts of a sequence is the one by key; the
/// sequence is another with one attempt put at `at` or taken from there.
proof fn same_attempts<R>(
    attempts: Seq<Attempt<R>>,
    map: Map<Seq<char>, AttemptV<R>>,
    at: int,
    before: Seq<Attempt<R>>,
)
    requires
        keys_differ(attempts),
        keys_differ(before),
        0 <= at < attempts.len(),
        at <= before.len(),
        attempts.len() == before.len() || (attempts.len() == before.len() + 1 && at
            == before.len()),
        attempts.len() == before.len() ==> attempts[at].key@ == before[at].key@,
        forall|i: int|
            0 <= i < attempts.len() && i != at ==> #[trigger] attempts[i] == before[i],
        map == by_key(before).insert(attempts[at].key@, attempts[at]@),
    ensures
        by_key(attempts) == map,
{
    assert forall|key: Seq<char>| #[trigger] by_key(attempts).dom().contains(key) implies
        map.dom().contains(key) && by_key(attempts)[key] == map[key] by {
        let i = choose|i: int| at_key(attempts, key, i);
        found_by_key(attempts, i);
        if i != at {
            assert(attempts[i] == before[i]);
            found_by_key(before, i);
            if i < at {
                assert(attempts[i].key@ != attempts[at].key@);
            } else {
                assert(attempts[at].key@ != attempts[i].key@);
            }
        }
    }
    assert forall|key: Seq<char>| #[trigger] map.dom().contains(key) implies by_key(
        attempts,
    ).dom().contains(key) by {
        found_by_key(attempts, at);
        if key != attempts[at].key@ {
            let i = choose|i: int| at_key(before, key, i);
            assert(at_key(before, key, i));
            assert(i != at);
            assert(attempts[i] == before[i]);
            found_by_key(attempts, i);
        }
    }
    assert(by_key(attempts).dom() =~= map.dom());
    assert(by_key(attempts) =~= map);
}

/// An attempt is changed under its key.
proof fn changed<R>(attempts: Seq<Attempt<R>>, i: int, attempt: Attempt<R>)
    requires
        keys_differ(attempts),
        0 <= i < attempts.len(),
        attempt.key@ == attempts[i].key@,
    ensures
        keys_differ(attempts.update(i, attempt)),
        by_key(attempts.update(i, attempt)) == by_key(attempts).insert(attempt.key@, attempt@),
{
    let after = attempts.update(i, attempt);
    assert forall|j: int, k: int| 0 <= j < k < after.len() implies (#[trigger] after[j]).key@ != (
    #[trigger] after[k]).key@ by {
        assert(attempts[j].key@ != attempts[k].key@);
    }
    same_attempts(after, by_key(attempts).insert(attempt.key@, attempt@), i, attempts);
}

/// An attempt is taken out with its key.
proof fn removed<R>(attempts: Seq<Attempt<R>>, i: int)
    requires
        keys_differ(attempts),
        0 <= i < attempts.len(),
    ensures
        keys_differ(attempts.remove(i)),
        by_key(attempts.remove(i)) == by_key(attempts).remove(attempts[i].key@),
{
    let after = attempts.remove(i);
    let map = by_key(attempts).remove(attempts[i].key@);
    assert forall|j: int, k: int| 0 <= j < k < after.len() implies (#[trigger] after[j]).key@ != (
    #[trigger] after[k]).key@ by {
        let j0 = if j < i { j } else { j + 1 };
        let k0 = if k < i { k } else { k + 1 };
        assert(after[j] == attempts[j0] && after[k] == attempts[k0]);
    }
    assert forall|key: Seq<char>| #[trigger] by_key(after).dom().contains(key) implies
        map.dom().contains(key) && by_key(after)[key] == map[key] by {
        let j = choose|j: int| at_key(after, key, j);
        let j0 = if j < i { j } else { j + 1 };
        assert(after[j] == attempts[j0]);
        found_by_key(after, j);
        found_by_key(attempts, j0);
        if j0 < i {
            assert(attempts[j0].key@ != attempts[i].key@);
        } else {
            assert(attempts[i].key@ != attempts[j0].key@);
        }
    }
    assert forall|key: Seq<char>| #[trigger] map.dom().contains(key) implies by_key(
        after,
    ).dom().contains(key) by {
        let j0 = choose|j: int| at_key(attempts, key, j);
        assert(at_key(attempts, key, j0));
        let j = if j0 < i { j0 } else { j0 - 1 };
        assert(after[j] == attempts[j0]);
        found_by_key(after, j);
    }
    assert(by_key(after).dom() =~= map.dom());
    assert(by_key(after) =~= map);
}

fn same_fingerprint(a: &[u8; 32], b: &[u8; 32]) -> (r: bool)
    ensures
        r == (a@ == b@),
{
    let mut i: usize = 0;
    while i < 32
        invariant
            i <= 32,
            forall|k: int| 0 <= k < i ==> a@[k] == b@[k],
        decreases 32 - i,
    {
        if a[i] != b[i] {
            assert(a@[i as int] != b@[i as int]);
            return false;
        }
        i += 1;
    }
    assert(a@ =~= b@);
    true
}

/// Attempts of this process by idempotency key, up to a bound. An attempt is
/// never dropped to make room for another.
#[derive(Debug)]
pub struct IdempotencyStore<R> {
    capacity: usize,
    attempts: Vec<Attempt<R>>,
}

impl<R> View for IdempotencyStore<R> {
    type V = StoreV<R>;

    closed spec fn view(&self) -> StoreV<R> {
        StoreV { capacity: self.capacity as int, attempts: by_key(self.attempts@) }
    }
}

impl<R> IdempotencyStore<R> {
    /// Every attempt has a key of its own.
    pub closed spec fn wf(&self) -> bool {
        keys_differ(self.attempts@)
    }

    /// A store without attempts.
    pub fn new(capacity: usize) -> (r: IdempotencyStore<R>)
        ensures
            r.wf(),
            r@ == (StoreV::<R> { capacity: capacity as int, attempts: Map::empty() }),
    {
        let r = IdempotencyStore { capacity, attempts: Vec::new() };
        assert(r@.attempts =~= Map::empty());
        r
    }

    /// Position of the attempt under a key.
    fn position(&self, key: &IdempotencyKey) -> (r: Option<usize>)
        requires
            self.wf(),
        ensures
            match r {
                Some(i) => {
                    &&& i < self.attempts.len()
                    &&& self.attempts@[i as int].key@ == key@
                    &&& self@.attempts.contains_key(key@)
                    &&& self@.attempts[key@] == self.attempts@[i as int]@
                },
                None => !self@.attempts.contains_key(key@),
            },
    {
        let mut i: usize = 0;
        while i < self.attempts.len()
            invariant
                i <= self.attempts.len(),
                keys_differ(self.attempts@),
                forall|j: int| 0 <= j < i ==> (#[trigger] self.attempts@[j]).key@ != key@,
            decreases self.attempts.len() - i,
        {
            if self.attempts[i].key.same(key) {
                proof {
                    found_by_key(self.attempts@, i as int);
                }
                return Some(i);
            }
            i += 1;
        }
        assert(!listed(self.attempts@, key@));
        None
    }

    /// Position of the attempt under a key, if it is of this fingerprint.
    fn matching(&self, key: &IdempotencyKey, fingerprint: &[u8; 32]) -> (r: Option<usize>)
        requires
            self.wf(),
        ensures
            match r {
                Some(i) => {
                    &&& i < self.attempts.len()
                    &&& self.attempts@[i as int].key@ == key@
                    &&& self@.attempts.contains_key(key@)
                    &&& self@.attempts[key@] == self.attempts@[i as int]@
                    &&& self@.attempts[key@].fingerprint == fingerprint@
                },
                None => !self@.attempts.contains_key(key@) || self@.attempts[key@].fingerprint
                    != fingerprint@,
            },
    {
        match self.position(key) {
            Some(i) => if same_fingerprint(&self.attempts[i].fingerprint, fingerprint) {
                Some(i)
            } else {
                None
            },
            None => None,
        }
    }

    /// Looks a key up, and enters it where it leads.
    pub fn begin(&mut self, key: &IdempotencyKey, fingerprint: &[u8; 32], expired: bool) -> (r:
        BeginOutcome)
        requires
            old(self).wf(),
        ensures
            final(self).wf(),
            r == begun(old(self)@, key@, fingerprint@, expired),
            final(self)@ == begun_store(old(self)@, key@, fingerprint@, expired),
    {
        if expired {
            return BeginOutcome::Expired;
        }
        match self.position(key) {
            Some(i) => if !same_fingerprint(&self.attempts[i].fingerprint, fingerprint) {
                BeginOutcome::Conflict
            } else {
                match &self.attempts[i].state {
                    AttemptState::Running => BeginOutcome::Wait,
                    AttemptState::Indeterminate => BeginOutcome::Indeterminate,
                    AttemptState::Finished(_) => BeginOutcome::Cached,
                }
            },
            None => {
                proof {
                    keys_counted(self.attempts@);
                }
                if self.attempts.len() >= self.capacity {
                    return BeginOutcome::Full;
                }
                let attempt = Attempt {
                    key: key.clone(),
                    fingerprint: *fingerprint,
                    state: AttemptState::Running,
                    pending: None,
                    reads: 0,
                    root_slot: None,
                };
                proof {
                    pushed(self.attempts@, attempt);
                }
                self.attempts.push(attempt);
                BeginOutcome::Lead
            },
        }
    }

    /// Ends a running attempt with its result.
    pub fn finish(&mut self, key: &IdempotencyKey, result: R, disposition: CreateDisposition)
        requires
            old(self).wf(),
        ensures
            final(self).wf(),
            final(self)@ == finished_store(old(self)@, key@, result, disposition),
    {
        let i: usize = match self.position(key) {
            Some(i) => i,
            None => {
                return;
            },
        };
        match &self.attempts[i].state {
            AttemptState::Running => {},
            _ => {
                return;
            },
        }
        let ghost before = self.attempts@;
        match disposition {
            CreateDisposition::Verified | CreateDisposition::Terminal => {
                proof {
                    let attempt = Attempt { state: AttemptState::Finished(result), ..before[i as int] };
                    changed(before, i as int, attempt);
                }
                self.attempts[i].state = AttemptState::Finished(result);
            },
            CreateDisposition::Indeterminate => {
                proof {
                    let attempt = Attempt { state: AttemptState::Indeterminate, ..before[i as int] };
                    changed(before, i as int, attempt);
                }
                self.attempts[i].state = AttemptState::Indeterminate;
            },
            CreateDisposition::PreDispatchFailure => {
                proof {
                    removed(before, i as int);
                }
                self.attempts.remove(i);
            },
        }
    }

    /// Tests that the attempt under a key is running.
    pub fn is_running(&self, key: &IdempotencyKey) -> (r: bool)
        requires
            self.wf(),
        ensures
            r == running(self@, key@),
    {
        match self.position(key) {
            Some(i) => match &self.attempts[i].state {
                AttemptState::Running => true,
                _ => false,
            },
            None => false,
        }
    }

    /// The result that is given again for a key and a fingerprint.
    pub fn cached(&self, key: &IdempotencyKey, fingerprint: &[u8; 32]) -> (r: Option<&R>)
        requires
            self.wf(),
        ensures
            match r {
                Some(result) => cached_result(self@, key@, fingerprint@) == Some(*result),
                None => cached_result(self@, key@, fingerprint@) is None,
            },
    {
        match self.matching(key, fingerprint) {
            Some(i) => match &self.attempts[i].state {
                AttemptState::Finished(result) => Some(result),
                _ => None,
            },
            None => None,
        }
    }

    /// Notes the object that a running attempt has created.
    pub fn record_pending_candidate(&mut self, key: &IdempotencyKey, candidate: PendingCandidate)
        requires
            old(self).wf(),
        ensures
            final(self).wf(),
            final(self)@ == noted_store(old(self)@, key@, candidate@),
    {
        let i: usize = match self.position(key) {
            Some(i) => i,
            None => {
                return;
            },
        };
        match &self.attempts[i].state {
            AttemptState::Running => {},
            _ => {
                return;
            },
        }
        let ghost before = self.attempts@;
        let ghost attempt = Attempt { pending: Some(candidate), reads: 0, ..before[i as int] };
        self.attempts[i].pending = Some(candidate);
        self.attempts[i].reads = 0;
        proof {
            changed(before, i as int, attempt);
            assert(self.attempts@ =~= before.update(i as int, attempt));
        }
    }

    /// Claims one read of a created object, where one is left.
    pub fn claim_get_attempt(&mut self, key: &IdempotencyKey) -> (r: bool)
        requires
            old(self).wf(),
        ensures
            r == read_left(old(self)@, key@),
            final(self).wf(),
            final(self)@ == claimed_store(old(self)@, key@),
    {
        let i: usize = match self.position(key) {
            Some(i) => i,
            None => {
                return false;
            },
        };
        let reads: u8 = self.attempts[i].reads;
        if self.attempts[i].pending.is_none() || reads >= MAX_PENDING_READS {
            return false;
        }
        let ghost before = self.attempts@;
        proof {
            let attempt = Attempt { reads: (reads + 1) as u8, ..before[i as int] };
            changed(before, i as int, attempt);
        }
        self.attempts[i].reads = reads + 1;
        true
    }

    /// What is known of the created object of an uncertain attempt.
    pub fn pending_candidate(&self, key: &IdempotencyKey, fingerprint: &[u8; 32]) -> (r:
        PendingLookup)
        requires
            self.wf(),
        ensures
            r == pending_lookup(self@, key@, fingerprint@),
    {
        match self.matching(key, fingerprint) {
            Some(i) => match (&self.attempts[i].state, &self.attempts[i].pending) {
                (AttemptState::Indeterminate, Some(_)) => if self.attempts[i].reads
                    < MAX_PENDING_READS {
                    PendingLookup::Available
                } else {
                    PendingLookup::Exhausted
                },
                _ => PendingLookup::Absent,
            },
            None => PendingLookup::Absent,
        }
    }

    /// The created object of an uncertain attempt.
    pub fn candidate(&self, key: &IdempotencyKey, fingerprint: &[u8; 32]) -> (r: Option<
        PendingCandidate,
    >)
        requires
            self.wf(),
        ensures
            opt_view(r) == pending_object(self@, key@, fingerprint@),
    {
        match self.matching(key, fingerprint) {
            Some(i) => match (&self.attempts[i].state, &self.attempts[i].pending) {
                (AttemptState::Indeterminate, Some(candidate)) => Some(candidate.clone()),
                _ => None,
            },
            None => None,
        }
    }

    /// Keeps the result of a recovery in place of an uncertain attempt, where its
    /// created object still is the candidate.
    pub fn complete_pending_candidate(
        &mut self,
        key: &IdempotencyKey,
        fingerprint: &[u8; 32],
        candidate: &PendingCandidate,
        result: R,
    ) -> (r: bool)
        requires
            old(self).wf(),
        ensures
            r == (pending_object(old(self)@, key@, fingerprint@) == Some(candidate@)),
            final(self).wf(),
            final(self)@ == recovered_store(
                old(self)@,
                key@,
                fingerprint@,
                candidate@,
                result,
            ),
    {
        let i: usize = match self.matching(key, fingerprint) {
            Some(i) => i,
            None => {
                return false;
            },
        };
        let holds: bool = match (&self.attempts[i].state, &self.attempts[i].pending) {
            (AttemptState::Indeterminate, Some(found)) => same_text(
                found.space_id.as_str(),
                candidate.space_id.as_str(),
            ) && same_text(found.object_id.as_str(), candidate.object_id.as_str()),
            _ => false,
        };
        if !holds {
            return false;
        }
        let ghost before = self.attempts@;
        let ghost attempt = Attempt {
            state: AttemptState::Finished(result),
            pending: None,
            ..before[i as int]
        };
        self.attempts[i].state = AttemptState::Finished(result);
        self.attempts[i].pending = None;
        proof {
            changed(before, i as int, attempt);
            assert(self.attempts@ =~= before.update(i as int, attempt));
        }
        true
    }

    /// Notes the root slot at which a running attempt appends its plan.
    pub fn record_replay_witness(&mut self, key: &IdempotencyKey, slot: u64)
        requires
            old(self).wf(),
        ensures
            final(self).wf(),
            final(self)@ == witnessed_store(old(self)@, key@, slot),
    {
        let i: usize = match self.position(key) {
            Some(i) => i,
            None => {
                return;
            },
        };
        match &self.attempts[i].state {
            AttemptState::Running => {},
            _ => {
                return;
            },
        }
        let ghost before = self.attempts@;
        proof {
            let attempt = Attempt { root_slot: Some(slot), ..before[i as int] };
            changed(before, i as int, attempt);
        }
        self.attempts[i].root_slot = Some(slot);
    }

    /// The root slot that is remembered for a key and a fingerprint.
    pub fn replay_witness(&self, key: &IdempotencyKey, fingerprint: &[u8; 32]) -> (r: Option<u64>)
        requires
            self.wf(),
        ensures
            r == remembered_slot(self@, key@, fingerprint@),
    {
        match self.matching(key, fingerprint) {
            Some(i) => self.attempts[i].root_slot,
            None => None,
        }
    }
}

} // verus!
