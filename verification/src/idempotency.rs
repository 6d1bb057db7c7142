//! The idempotency engine: a replay-protection oracle with time-bounded
//! memory.
//!
//! Operations are identified by a scope tag and a caller-supplied 32-byte
//! operation hash. A record blocks re-execution while it is live: forever
//! when it carries no TTL, and until `now - executed_at` reaches the TTL
//! otherwise (elapsed time saturates at zero, so a clock that has not moved
//! past `executed_at` never reports expiry). Expired records are reclaimed
//! by an explicit cleanup call, or overwritten by the next guarded call.

use vstd::prelude::*;

use crate::errors::ContractError;
use crate::store::kv_lookup;
use crate::store::kv_unique;
use crate::store::lemma_kv_lookup_absent;
use crate::store::lemma_kv_lookup_at;
use crate::store::lemma_kv_push_other;
use crate::store::lemma_kv_remove_other;
use crate::store::lemma_kv_update_other;

verus! {

/// A short tag partitioning the idempotency key space by feature.
#[derive(Clone, Copy, Debug, PartialEq, Eq, Structural)]
pub enum Scope {
    Settlement,
    SpinExec,
    NftMint,
}

/// A caller-supplied 32-byte identifier naming one logical request.
#[derive(Clone, Copy, Debug)]
pub struct OperationHash {
    bytes: [u8; 32],
}

impl View for OperationHash {
    type V = Seq<u8>;

    closed spec fn view(&self) -> Seq<u8> {
        self.bytes@
    }
}

impl OperationHash {
    /// Wraps the raw 32 bytes of an operation identifier.
    pub fn from_bytes(bytes: [u8; 32]) -> (h: Self)
        ensures
            h@ == bytes@,
    {
        OperationHash { bytes }
    }
}

impl PartialEq for OperationHash {
    fn eq(&self, other: &OperationHash) -> (r: bool) {
        let mut idx: usize = 0;
        while idx < 32
            invariant
                idx <= 32,
                self@.len() == 32,
                other@.len() == 32,
                forall|i: int| 0 <= i < idx ==> self@[i] == other@[i],
            decreases 32 - idx,
        {
            if self.bytes[idx] != other.bytes[idx] {
                assert(self@[idx as int] != other@[idx as int]);
                return false;
            }
            idx = idx + 1;
        }
        proof {
            assert(self@ =~= other@);
        }
        true
    }
}

impl vstd::std_specs::cmp::PartialEqSpecImpl for OperationHash {
    open spec fn obeys_eq_spec() -> bool {
        true
    }

    open spec fn eq_spec(&self, other: &OperationHash) -> bool {
        self@ == other@
    }
}

impl Eq for OperationHash {

}

/// Two operation hashes over the same bytes are the same hash.
pub proof fn lemma_hash_view_injective(a: OperationHash, b: OperationHash)
    requires
        a@ == b@,
    ensures
        a == b,
{
    assert(a.bytes@ =~= b.bytes@);
    assert(a.bytes =~= b.bytes);
}

/// One operation record: when the operation first ran, and for how long the
/// record guards against a rerun (absent TTL: forever).
#[derive(Clone, Copy, Debug, PartialEq, Eq, Structural)]
pub struct ExecutionRecord {
    pub executed_at: u64,
    pub ttl_seconds: Option<u64>,
}

/// Audit record of a rejected replay, carrying the scope and hash.
#[derive(Clone, Copy, Debug)]
pub struct ReplayRejectedEvent {
    pub operation_hash: OperationHash,
    pub scope: Scope,
    pub timestamp: u64,
}

/// Time elapsed since `executed_at`, saturating at zero for a clock that
/// has not advanced past it.
pub open spec fn spec_elapsed(executed_at: u64, now: u64) -> int {
    if now >= executed_at {
        now - executed_at
    } else {
        0
    }
}

/// Whether a record has outlived its TTL at instant `now`. A record with no
/// TTL never expires.
pub open spec fn record_expired(r: ExecutionRecord, now: u64) -> bool {
    match r.ttl_seconds {
        Some(ttl) => spec_elapsed(r.executed_at, now) >= ttl,
        None => false,
    }
}

/// Whether a record has outlived its TTL at instant `now`.
fn is_expired(record: &ExecutionRecord, now: u64) -> (r: bool)
    ensures
        r == record_expired(*record, now),
{
    match record.ttl_seconds {
        Some(ttl) => now.saturating_sub(record.executed_at) >= ttl,
        None => false,
    }
}

/// Scans the record list for the entry keyed by `(scope, hash)`.
fn kv_find_op(
    entries: &Vec<((Scope, OperationHash), ExecutionRecord)>,
    scope: Scope,
    hash: &OperationHash,
) -> (r: Option<usize>)
    ensures
        match r {
            Some(i) => i < entries@.len() && entries@[i as int].0 == (scope, *hash),
            None => forall|i: int|
                0 <= i < entries@.len() ==> (#[trigger] entries@[i]).0 != (scope, *hash),
        },
{
    let n = entries.len();
    let mut idx: usize = 0;
    while idx < n
        invariant
            n == entries@.len(),
            idx <= n,
            forall|i: int| 0 <= i < idx ==> (#[trigger] entries@[i]).0 != (scope, *hash),
        decreases n - idx,
    {
        if entries[idx].0.0 == scope && entries[idx].0.1 == *hash {
            proof {
                lemma_hash_view_injective(entries@[idx as int].0.1, *hash);
            }
            return Some(idx);
        }
        idx = idx + 1;
    }
    None
}

/// The engine's owned state: the operation records and the audit log of
/// rejected replays.
pub struct IdempotencyStore {
    records: Vec<((Scope, OperationHash), ExecutionRecord)>,
    events: Vec<ReplayRejectedEvent>,
}

impl IdempotencyStore {
    /// The record stored under `(scope, hash)`, if any.
    pub closed spec fn record_of(self, scope: Scope, hash: OperationHash) -> Option<
        ExecutionRecord,
    > {
        kv_lookup(self.records@, (scope, hash))
    }

    /// Whether a live (non-expired) record guards `(scope, hash)` at `now`.
    pub open spec fn has_live_record(self, scope: Scope, hash: OperationHash, now: u64) -> bool {
        match self.record_of(scope, hash) {
            Some(r) => !record_expired(r, now),
            None => false,
        }
    }

    /// The audit log of rejected replays, oldest first.
    pub closed spec fn events_log(self) -> Seq<ReplayRejectedEvent> {
        self.events@
    }

    /// Well-formedness: at most one record per `(scope, hash)` key.
    pub closed spec fn wf(self) -> bool {
        kv_unique(self.records@)
    }

    /// A guard call that accepted the operation: no live record blocked it,
    /// a fresh record stamped `now` now guards the key, and nothing else
    /// moved.
    pub open spec fn guard_accepted(
        pre: Self,
        post: Self,
        scope: Scope,
        hash: OperationHash,
        ttl_seconds: Option<u64>,
        now: u64,
    ) -> bool {
        &&& !pre.has_live_record(scope, hash, now)
        &&& post.record_of(scope, hash) == Some(ExecutionRecord { executed_at: now, ttl_seconds })
        &&& forall|s2: Scope, h2: OperationHash|
            (s2, h2) != (scope, hash) ==> post.record_of(s2, h2) == pre.record_of(s2, h2)
        &&& post.events_log() == pre.events_log()
    }

    /// A fresh engine with no records and no events.
    pub fn new() -> (s: Self)
        ensures
            s.wf(),
            forall|sc: Scope, h: OperationHash| s.record_of(sc, h) == None::<ExecutionRecord>,
            s.events_log() == Seq::<ReplayRejectedEvent>::empty(),
    {
        let s = IdempotencyStore { records: Vec::new(), events: Vec::new() };
        s
    }

    /// The replay guard. Succeeds — (re)writing a record stamped `now` —
    /// unless a live record already guards `(scope, operation_hash)`; a
    /// rejected replay changes no record and is logged.
    pub fn ensure_not_replayed(
        &mut self,
        scope: Scope,
        operation_hash: OperationHash,
        ttl_seconds: Option<u64>,
        now: u64,
    ) -> (r: Result<(), ContractError>)
        requires
            old(self).wf(),
        ensures
            final(self).wf(),
            r is Ok <==> !old(self).has_live_record(scope, operation_hash, now),
            r is Ok ==> Self::guard_accepted(
                *old(self),
                *final(self),
                scope,
                operation_hash,
                ttl_seconds,
                now,
            ),
            r is Err ==> r->Err_0 == ContractError::DuplicateOperation && (forall|
                s2: Scope,
                h2: OperationHash,
            | final(self).record_of(s2, h2) == old(self).record_of(s2, h2))
                && final(self).events_log() == old(self).events_log().push(
                ReplayRejectedEvent { operation_hash, scope, timestamp: now },
            ),
    {
        if self.is_operation_executed(scope, operation_hash, now) {
            self.log_replay_rejected(scope, operation_hash, now);
            return Err(ContractError::DuplicateOperation);
        }
        self.mark_executed(scope, operation_hash, ttl_seconds, now);
        Ok(())
    }

    /// Writes the record that stamps `(scope, operation_hash)` as executed
    /// at `now`, overwriting any previous record under that key.
    pub(crate) fn mark_executed(
        &mut self,
        scope: Scope,
        operation_hash: OperationHash,
        ttl_seconds: Option<u64>,
        now: u64,
    )
        requires
            old(self).wf(),
        ensures
            final(self).wf(),
            final(self).record_of(scope, operation_hash) == Some(
                ExecutionRecord { executed_at: now, ttl_seconds },
            ),
            forall|s2: Scope, h2: OperationHash|
                (s2, h2) != (scope, operation_hash) ==> final(self).record_of(s2, h2) == old(
                    self,
                ).record_of(s2, h2),
            final(self).events_log() == old(self).events_log(),
    {
        let fresh = ExecutionRecord { executed_at: now, ttl_seconds };
        let ghost pre = self.records@;
        match kv_find_op(&self.records, scope, &operation_hash) {
            Some(i) => {
                self.records.set(i, ((scope, operation_hash), fresh));
                proof {
                    let post = self.records@;
                    assert(forall|j: int| 0 <= j < post.len() ==> post[j].0 == pre[j].0);
                    assert(kv_unique(post));
                    lemma_kv_lookup_at(post, (scope, operation_hash), i as int);
                    assert forall|s2: Scope, h2: OperationHash|
                        (s2, h2) != (scope, operation_hash) implies self.record_of(s2, h2) == old(
                        self,
                    ).record_of(s2, h2) by {
                        lemma_kv_update_other(
                            pre,
                            (scope, operation_hash),
                            fresh,
                            i as int,
                            (s2, h2),
                        );
                    }
                }
            },
            None => {
                self.records.push(((scope, operation_hash), fresh));
                proof {
                    let post = self.records@;
                    assert(kv_unique(post));
                    lemma_kv_lookup_at(post, (scope, operation_hash), post.len() - 1);
                    assert forall|s2: Scope, h2: OperationHash|
                        (s2, h2) != (scope, operation_hash) implies self.record_of(s2, h2) == old(
                        self,
                    ).record_of(s2, h2) by {
                        lemma_kv_push_other(pre, (scope, operation_hash), fresh, (s2, h2));
                    }
                }
            },
        }
    }

    /// Logs that a replay of `(scope, operation_hash)` was rejected at `now`,
    /// changing no record.
    pub(crate) fn log_replay_rejected(&mut self, scope: Scope, operation_hash: OperationHash, now: u64)
        requires
            old(self).wf(),
        ensures
            final(self).wf(),
            forall|s2: Scope, h2: OperationHash|
                final(self).record_of(s2, h2) == old(self).record_of(s2, h2),
            final(self).events_log() == old(self).events_log().push(
                ReplayRejectedEvent { operation_hash, scope, timestamp: now },
            ),
    {
        self.events.push(ReplayRejectedEvent { operation_hash, scope, timestamp: now });
    }

    /// Deletes the record for `(scope, operation_hash)` if it exists and has
    /// expired, reclaiming storage; otherwise an idempotent no-op.
    pub fn cleanup_operation(&mut self, scope: Scope, operation_hash: OperationHash, now: u64) -> (r:
        bool)
        requires
            old(self).wf(),
        ensures
            final(self).wf(),
            r == (old(self).record_of(scope, operation_hash) is Some && record_expired(
                old(self).record_of(scope, operation_hash)->Some_0,
                now,
            )),
            r ==> final(self).record_of(scope, operation_hash) == None::<ExecutionRecord> && (
            forall|s2: Scope, h2: OperationHash|
                (s2, h2) != (scope, operation_hash) ==> final(self).record_of(s2, h2) == old(
                    self,
                ).record_of(s2, h2)) && final(self).events_log() == old(self).events_log(),
            !r ==> *final(self) == *old(self),
    {
        let ghost pre = self.records@;
        match kv_find_op(&self.records, scope, &operation_hash) {
            Some(i) => {
                proof {
                    lemma_kv_lookup_at(pre, (scope, operation_hash), i as int);
                }
                let rec = self.records[i].1;
                if is_expired(&rec, now) {
                    self.records.remove(i);
                    proof {
                        let post = self.records@;
                        assert(forall|j: int|
                            0 <= j < post.len() ==> post[j] == (if j < i as int {
                                pre[j]
                            } else {
                                pre[j + 1]
                            }));
                        assert(kv_unique(post));
                        assert forall|j: int|
                            0 <= j < post.len() implies (#[trigger] post[j]).0 != (
                            scope,
                            operation_hash,
                        ) by {
                            if j < i as int {
                                assert(pre[j].0 != pre[i as int].0);
                            } else {
                                assert(pre[j + 1].0 != pre[i as int].0);
                            }
                        }
                        lemma_kv_lookup_absent(post, (scope, operation_hash));
                        assert forall|s2: Scope, h2: OperationHash|
                            (s2, h2) != (scope, operation_hash) implies self.record_of(s2, h2)
                            == old(self).record_of(s2, h2) by {
                            lemma_kv_remove_other(
                                pre,
                                (scope, operation_hash),
                                i as int,
                                (s2, h2),
                            );
                        }
                    }
                    true
                } else {
                    false
                }
            },
            None => {
                proof {
                    lemma_kv_lookup_absent(pre, (scope, operation_hash));
                }
                false
            },
        }
    }

    /// Whether a live record guards `(scope, operation_hash)` at `now`.
    pub fn is_operation_executed(&self, scope: Scope, operation_hash: OperationHash, now: u64) -> (r:
        bool)
        requires
            self.wf(),
        ensures
            r == self.has_live_record(scope, operation_hash, now),
    {
        match kv_find_op(&self.records, scope, &operation_hash) {
            Some(i) => {
                proof {
                    lemma_kv_lookup_at(self.records@, (scope, operation_hash), i as int);
                }
                let rec = self.records[i].1;
                !is_expired(&rec, now)
            },
            None => {
                proof {
                    lemma_kv_lookup_absent(self.records@, (scope, operation_hash));
                }
                false
            },
        }
    }

    /// The audit log of rejected replays so far, oldest first.
    pub fn event_log(&self) -> (r: &Vec<ReplayRejectedEvent>)
        ensures
            r@ == self.events_log(),
    {
        &self.events
    }
}

/// Idempotency: after a guard accepts an operation, the record stays live at
/// every instant still inside the TTL window (always, when there is no
/// TTL) — so a second guard call there is refused as a duplicate.
pub proof fn lemma_guard_blocks_replay(
    pre: IdempotencyStore,
    post: IdempotencyStore,
    scope: Scope,
    hash: OperationHash,
    ttl_seconds: Option<u64>,
    now1: u64,
    now2: u64,
)
    requires
        IdempotencyStore::guard_accepted(pre, post, scope, hash, ttl_seconds, now1),
        ttl_seconds is Some ==> spec_elapsed(now1, now2) < ttl_seconds->Some_0,
    ensures
        post.has_live_record(scope, hash, now2),
{
}

/// Idempotency: once the TTL of a guarded operation has elapsed, the record
/// is expired — a cleanup call then reclaims it, and a fresh guard call
/// would be accepted again.
pub proof fn lemma_expired_record_is_reclaimable(
    pre: IdempotencyStore,
    post: IdempotencyStore,
    scope: Scope,
    hash: OperationHash,
    ttl: u64,
    now1: u64,
    now2: u64,
)
    requires
        IdempotencyStore::guard_accepted(pre, post, scope, hash, Some(ttl), now1),
        spec_elapsed(now1, now2) >= ttl,
    ensures
        post.record_of(scope, hash) is Some,
        record_expired(post.record_of(scope, hash)->Some_0, now2),
        !post.has_live_record(scope, hash, now2),
{
}

/// Idempotency: once the record is gone, a further cleanup finds nothing to
/// reclaim, and no instant reports the operation as executed.
pub proof fn lemma_cleanup_is_one_shot(s: IdempotencyStore, scope: Scope, hash: OperationHash)
    requires
        s.record_of(scope, hash) == None::<ExecutionRecord>,
    ensures
        forall|now: u64| !s.has_live_record(scope, hash, now),
{
}

} // verus!
