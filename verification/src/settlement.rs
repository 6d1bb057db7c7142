//! The settlement orchestrator: resolves a wager's outcome exactly once.
//!
//! `settle_bet` runs under the same backend identity model as the ledger,
//! consults the idempotency engine under a dedicated scope, refuses wagers
//! that are already settled, and drives the ledger's `apply_delta` primitive
//! to pay out (`WIN`), retain (`LOSS`), or refund (`DRAW`) the escrowed
//! stake. The operation-hash record and the settlement record are written
//! only after the ledger calls succeed, so a retry after a failure reuses
//! the same operation hash. The two ledger calls of a `WIN` settlement are
//! not one transaction: when the first succeeds and the second fails, the
//! bettor's escrow release persists while the winner is not yet credited —
//! [`SettlementContract::win_first_leg_applies`] names that window exactly.

use vstd::prelude::*;

use crate::errors::contract_error_of;
use crate::errors::spec_contract_error_of;
use crate::errors::ContractError;
use crate::idempotency::record_expired;
use crate::idempotency::ExecutionRecord;
use crate::idempotency::IdempotencyStore;
use crate::idempotency::OperationHash;
use crate::idempotency::ReplayRejectedEvent;
use crate::idempotency::Scope;
use crate::ledger::spec_delta_outcome;
use crate::ledger::BalanceLedgerContract;
use crate::store::kv_lookup;
use crate::store::kv_unique;
use crate::store::lemma_kv_lookup_absent;
use crate::store::lemma_kv_lookup_at;
use crate::store::lemma_kv_push_other;

verus! {

/// A wager identifier: a 256-bit value held as two 128-bit halves.
#[derive(Clone, Copy, Debug, PartialEq, Eq, Structural)]
pub struct WagerId {
    pub hi: u128,
    pub lo: u128,
}

impl WagerId {
    /// The wager identifier with value `v`.
    pub fn from_u32(v: u32) -> (w: Self)
        ensures
            w == (WagerId { hi: 0, lo: v as u128 }),
    {
        WagerId { hi: 0, lo: v as u128 }
    }

    /// The wager identifier with value `v`.
    pub fn from_u64(v: u64) -> (w: Self)
        ensures
            w == (WagerId { hi: 0, lo: v as u128 }),
    {
        WagerId { hi: 0, lo: v as u128 }
    }

    /// The wager identifier with value `v`.
    pub fn from_u128(v: u128) -> (w: Self)
        ensures
            w == (WagerId { hi: 0, lo: v }),
    {
        WagerId { hi: 0, lo: v }
    }
}

/// The durable record of one settled wager; its existence is the "settled"
/// flag.
#[derive(Debug)]
pub struct SettlementRecord {
    pub bet_id: WagerId,
    pub outcome: String,
    pub bettor: u64,
    pub winner: Option<u64>,
    pub payout: i128,
    pub timestamp: u64,
}

/// Audit record of one executed settlement.
#[derive(Clone, Copy, Debug)]
pub struct SettlementExecutedEvent {
    pub operation_hash: OperationHash,
    pub bet_id: WagerId,
    pub bettor: u64,
    pub winner: Option<u64>,
    pub payout: i128,
    pub timestamp: u64,
}

/// Scans the settlement records for the entry keyed by `key`.
fn kv_find_wager(entries: &Vec<(WagerId, SettlementRecord)>, key: WagerId) -> (r: Option<usize>)
    ensures
        match r {
            Some(i) => i < entries@.len() && entries@[i as int].0 == key,
            None => forall|i: int|
                0 <= i < entries@.len() ==> (#[trigger] entries@[i]).0 != key,
        },
{
    let n = entries.len();
    let mut idx: usize = 0;
    while idx < n
        invariant
            n == entries@.len(),
            idx <= n,
            forall|i: int| 0 <= i < idx ==> (#[trigger] entries@[i]).0 != key,
        decreases n - idx,
    {
        if entries[idx].0 == key {
            return Some(idx);
        }
        idx = idx + 1;
    }
    None
}

/// The orchestrator's owned state: the configured backend identity, its
/// slice of the idempotency engine, the settlement records, and the audit
/// log.
pub struct SettlementContract {
    backend: Option<u64>,
    ops: IdempotencyStore,
    settled: Vec<(WagerId, SettlementRecord)>,
    events: Vec<SettlementExecutedEvent>,
}

impl SettlementContract {
    /// The configured backend identity, if any.
    pub closed spec fn spec_backend(self) -> Option<u64> {
        self.backend
    }

    /// Whether `caller` is the configured backend identity.
    pub open spec fn is_backend(self, caller: u64) -> bool {
        self.spec_backend() == Some(caller)
    }

    /// The operation records this orchestrator guards with.
    pub closed spec fn ops_state(self) -> IdempotencyStore {
        self.ops
    }

    /// The settlement record of a wager, if it has been settled.
    pub closed spec fn settlement_of(self, wager_id: WagerId) -> Option<SettlementRecord> {
        kv_lookup(self.settled@, wager_id)
    }

    /// Whether the wager has been settled.
    pub open spec fn wager_settled(self, wager_id: WagerId) -> bool {
        self.settlement_of(wager_id) is Some
    }

    /// The audit log of executed settlements, oldest first.
    pub closed spec fn events_log(self) -> Seq<SettlementExecutedEvent> {
        self.events@
    }

    /// Well-formedness: one record per wager, and a well-formed engine.
    pub closed spec fn wf(self) -> bool {
        &&& kv_unique(self.settled@)
        &&& self.ops.wf()
    }

    /// The outcome `settle_bet` returns, case by case: authorization, then
    /// the replay guard, then the permanent per-wager guard, then the
    /// outcome dispatch with the ledger's own failures carried through.
    pub open spec fn spec_settle_outcome(
        st: Self,
        lg: BalanceLedgerContract,
        caller: u64,
        operation_hash: OperationHash,
        wager_id: WagerId,
        bettor: u64,
        winner: Option<u64>,
        bet_amount: i128,
        payout: i128,
        outcome: Seq<char>,
        now: u64,
    ) -> Result<(), ContractError> {
        if !st.is_backend(caller) {
            Err(ContractError::Unauthorized)
        } else if st.ops_state().has_live_record(Scope::Settlement, operation_hash, now) {
            Err(ContractError::DuplicateOperation)
        } else if st.wager_settled(wager_id) {
            Err(ContractError::BetAlreadySettled)
        } else if outcome == "WIN"@ {
            if winner is None {
                Err(ContractError::InvalidBet)
            } else if !lg.is_backend(caller) {
                Err(ContractError::Unauthorized)
            } else {
                match spec_delta_outcome(lg.balance_of(bettor), 0, -(bet_amount as int)) {
                    Err(e) => Err(spec_contract_error_of(e)),
                    Ok(b1) => {
                        let wbal = if winner->Some_0 == bettor {
                            b1
                        } else {
                            lg.balance_of(winner->Some_0)
                        };
                        match spec_delta_outcome(wbal, payout as int, 0) {
                            Err(e) => Err(spec_contract_error_of(e)),
                            Ok(b2) => Ok(()),
                        }
                    },
                }
            }
        } else if outcome == "LOSS"@ {
            if !lg.is_backend(caller) {
                Err(ContractError::Unauthorized)
            } else {
                match spec_delta_outcome(lg.balance_of(bettor), 0, -(bet_amount as int)) {
                    Err(e) => Err(spec_contract_error_of(e)),
                    Ok(b1) => Ok(()),
                }
            }
        } else if outcome == "DRAW"@ {
            if !lg.is_backend(caller) {
                Err(ContractError::Unauthorized)
            } else {
                match spec_delta_outcome(
                    lg.balance_of(bettor),
                    bet_amount as int,
                    -(bet_amount as int),
                ) {
                    Err(e) => Err(spec_contract_error_of(e)),
                    Ok(b1) => Ok(()),
                }
            }
        } else {
            Err(ContractError::InvalidStatus)
        }
    }

    /// A settlement that went through: the operation hash is now guarded,
    /// the wager carries its immutable record and counts as settled, no
    /// other wager moved, and the settlement was logged.
    pub open spec fn settle_accepted(
        pre: Self,
        post: Self,
        operation_hash: OperationHash,
        wager_id: WagerId,
        bettor: u64,
        winner: Option<u64>,
        payout: i128,
        outcome: Seq<char>,
        ttl_seconds: Option<u64>,
        now: u64,
    ) -> bool {
        &&& post.spec_backend() == pre.spec_backend()
        &&& IdempotencyStore::guard_accepted(
            pre.ops_state(),
            post.ops_state(),
            Scope::Settlement,
            operation_hash,
            ttl_seconds,
            now,
        )
        &&& !pre.wager_settled(wager_id)
        &&& post.wager_settled(wager_id)
        &&& {
            let rec = post.settlement_of(wager_id)->Some_0;
            rec.bet_id == wager_id && rec.outcome@ == outcome && rec.bettor == bettor
                && rec.winner == winner && rec.payout == payout && rec.timestamp == now
        }
        &&& forall|w2: WagerId|
            w2 != wager_id ==> post.settlement_of(w2) == pre.settlement_of(w2)
        &&& post.events_log() == pre.events_log().push(
            SettlementExecutedEvent {
                operation_hash,
                bet_id: wager_id,
                bettor,
                winner,
                payout,
                timestamp: now,
            },
        )
    }

    /// A rejected replay: no record and no settlement moved; the rejection
    /// was logged in the engine's audit log.
    pub open spec fn replay_rejected(pre: Self, post: Self, hash: OperationHash, now: u64) -> bool {
        &&& post.spec_backend() == pre.spec_backend()
        &&& forall|s2: Scope, h2: OperationHash|
            post.ops_state().record_of(s2, h2) == pre.ops_state().record_of(s2, h2)
        &&& post.ops_state().events_log() == pre.ops_state().events_log().push(
            ReplayRejectedEvent {
                operation_hash: hash,
                scope: Scope::Settlement,
                timestamp: now,
            },
        )
        &&& forall|w2: WagerId| post.settlement_of(w2) == pre.settlement_of(w2)
        &&& post.events_log() == pre.events_log()
    }

    /// The partial-failure window of a `WIN` settlement: every check has
    /// passed and the bettor's escrow release succeeds, but crediting the
    /// winner fails — the first ledger call's effect persists while the
    /// wager stays unsettled and the operation hash stays unguarded.
    pub open spec fn win_first_leg_applies(
        st: Self,
        lg: BalanceLedgerContract,
        caller: u64,
        operation_hash: OperationHash,
        wager_id: WagerId,
        bettor: u64,
        winner: Option<u64>,
        bet_amount: i128,
        payout: i128,
        outcome: Seq<char>,
        now: u64,
    ) -> bool {
        &&& st.is_backend(caller)
        &&& !st.ops_state().has_live_record(Scope::Settlement, operation_hash, now)
        &&& !st.wager_settled(wager_id)
        &&& outcome == "WIN"@
        &&& winner is Some
        &&& lg.is_backend(caller)
        &&& spec_delta_outcome(lg.balance_of(bettor), 0, -(bet_amount as int)) is Ok
        &&& {
            let b1 = spec_delta_outcome(lg.balance_of(bettor), 0, -(bet_amount as int))->Ok_0;
            let wbal = if winner->Some_0 == bettor {
                b1
            } else {
                lg.balance_of(winner->Some_0)
            };
            spec_delta_outcome(wbal, payout as int, 0) is Err
        }
    }

    /// A fresh, uninitialized orchestrator with no records and no events.
    pub fn new() -> (s: Self)
        ensures
            s.wf(),
            s.spec_backend() == None::<u64>,
            forall|sc: Scope, h: OperationHash|
                s.ops_state().record_of(sc, h) == None::<ExecutionRecord>,
            forall|w: WagerId| s.settlement_of(w) == None::<SettlementRecord>,
            s.events_log() == Seq::<SettlementExecutedEvent>::empty(),
            s.ops_state().events_log() == Seq::<ReplayRejectedEvent>::empty(),
    {
        let s = SettlementContract {
            backend: None,
            ops: IdempotencyStore::new(),
            settled: Vec::new(),
            events: Vec::new(),
        };
        s
    }

    /// Stores the backend identity this orchestrator will demand.
    pub fn initialize(&mut self, backend_signer: u64)
        requires
            old(self).wf(),
        ensures
            final(self).wf(),
            final(self).spec_backend() == Some(backend_signer),
            forall|s2: Scope, h2: OperationHash|
                final(self).ops_state().record_of(s2, h2) == old(self).ops_state().record_of(
                    s2,
                    h2,
                ),
            final(self).ops_state().events_log() == old(self).ops_state().events_log(),
            forall|w2: WagerId| final(self).settlement_of(w2) == old(self).settlement_of(w2),
            final(self).events_log() == old(self).events_log(),
    {
        self.backend = Some(backend_signer);
    }

    /// Whether `caller` is the configured backend identity.
    fn check_backend(&self, caller: u64) -> (r: bool)
        ensures
            r == self.is_backend(caller),
    {
        match self.backend {
            Some(b) => b == caller,
            None => false,
        }
    }

    /// Whether the wager has been settled.
    pub fn is_settled(&self, wager_id: WagerId) -> (r: bool)
        requires
            self.wf(),
        ensures
            r == self.wager_settled(wager_id),
    {
        match kv_find_wager(&self.settled, wager_id) {
            Some(i) => {
                proof {
                    lemma_kv_lookup_at(self.settled@, wager_id, i as int);
                }
                true
            },
            None => {
                proof {
                    lemma_kv_lookup_absent(self.settled@, wager_id);
                }
                false
            },
        }
    }

    /// The immutable record of a settled wager, if any.
    pub fn get_settlement_record(&self, wager_id: WagerId) -> (r: Option<SettlementRecord>)
        requires
            self.wf(),
        ensures
            r == self.settlement_of(wager_id),
    {
        match kv_find_wager(&self.settled, wager_id) {
            Some(i) => {
                proof {
                    lemma_kv_lookup_at(self.settled@, wager_id, i as int);
                }
                let rec = &self.settled[i].1;
                Some(
                    SettlementRecord {
                        bet_id: rec.bet_id,
                        outcome: rec.outcome.clone(),
                        bettor: rec.bettor,
                        winner: rec.winner,
                        payout: rec.payout,
                        timestamp: rec.timestamp,
                    },
                )
            },
            None => {
                proof {
                    lemma_kv_lookup_absent(self.settled@, wager_id);
                }
                None
            },
        }
    }

    /// Whether a live record guards `operation_hash` under the settlement
    /// scope at `now`.
    pub fn is_operation_executed(&self, operation_hash: OperationHash, now: u64) -> (r: bool)
        requires
            self.wf(),
        ensures
            r == self.ops_state().has_live_record(Scope::Settlement, operation_hash, now),
    {
        self.ops.is_operation_executed(Scope::Settlement, operation_hash, now)
    }

    /// Reclaims the settlement-scope record for `operation_hash` if it has
    /// expired; an idempotent no-op otherwise.
    pub fn cleanup_operation(&mut self, operation_hash: OperationHash, now: u64) -> (r: bool)
        requires
            old(self).wf(),
        ensures
            final(self).wf(),
            r == (old(self).ops_state().record_of(Scope::Settlement, operation_hash) is Some
                && record_expired(
                old(self).ops_state().record_of(Scope::Settlement, operation_hash)->Some_0,
                now,
            )),
            r ==> final(self).ops_state().record_of(Scope::Settlement, operation_hash)
                == None::<ExecutionRecord> && (forall|
                s2: Scope,
                h2: OperationHash,
            |
                (s2, h2) != (Scope::Settlement, operation_hash)
                    ==> final(self).ops_state().record_of(s2, h2) == old(
                    self,
                ).ops_state().record_of(s2, h2)),
            !r ==> *final(self) == *old(self),
            final(self).spec_backend() == old(self).spec_backend(),
            forall|w2: WagerId| final(self).settlement_of(w2) == old(self).settlement_of(w2),
            final(self).events_log() == old(self).events_log(),
            final(self).ops_state().events_log() == old(self).ops_state().events_log(),
    {
        self.ops.cleanup_operation(Scope::Settlement, operation_hash, now)
    }

    /// The effect a successful settlement has on the ledger: `WIN` releases
    /// the bettor's escrow and then credits the winner's spendable balance
    /// (two separate calls), `LOSS` releases the escrow and retains it,
    /// `DRAW` returns the escrow to the bettor's spendable balance verbatim.
    pub open spec fn ledger_effect_ok(
        pre: BalanceLedgerContract,
        post: BalanceLedgerContract,
        bettor: u64,
        winner: Option<u64>,
        bet_amount: i128,
        payout: i128,
        outcome: Seq<char>,
    ) -> bool {
        if outcome == "WIN"@ {
            let d1 = spec_delta_outcome(pre.balance_of(bettor), 0, -(bet_amount as int));
            &&& d1 is Ok
            &&& exists|mid: BalanceLedgerContract|
                {
                    &&& #[trigger] BalanceLedgerContract::balance_transition(
                        pre,
                        mid,
                        bettor,
                        d1->Ok_0,
                    )
                    &&& {
                        let d2 = spec_delta_outcome(
                            mid.balance_of(winner->Some_0),
                            payout as int,
                            0,
                        );
                        d2 is Ok && BalanceLedgerContract::balance_transition(
                            mid,
                            post,
                            winner->Some_0,
                            d2->Ok_0,
                        )
                    }
                }
        } else if outcome == "LOSS"@ {
            let d1 = spec_delta_outcome(pre.balance_of(bettor), 0, -(bet_amount as int));
            d1 is Ok && BalanceLedgerContract::balance_transition(pre, post, bettor, d1->Ok_0)
        } else if outcome == "DRAW"@ {
            let d1 = spec_delta_outcome(
                pre.balance_of(bettor),
                bet_amount as int,
                -(bet_amount as int),
            );
            d1 is Ok && BalanceLedgerContract::balance_transition(pre, post, bettor, d1->Ok_0)
        } else {
            false
        }
    }

    /// Inserts the immutable record of a freshly settled wager.
    fn record_settlement(&mut self, wager_id: WagerId, record: SettlementRecord)
        requires
            old(self).wf(),
            !old(self).wager_settled(wager_id),
        ensures
            final(self).wf(),
            final(self).spec_backend() == old(self).spec_backend(),
            final(self).ops_state() == old(self).ops_state(),
            final(self).settlement_of(wager_id) == Some(record),
            forall|w2: WagerId|
                w2 != wager_id ==> final(self).settlement_of(w2) == old(self).settlement_of(w2),
            final(self).events_log() == old(self).events_log(),
    {
        let ghost pre = self.settled@;
        proof {
            crate::store::lemma_kv_lookup_none_absent(pre, wager_id);
        }
        self.settled.push((wager_id, record));
        proof {
            let post = self.settled@;
            assert(kv_unique(post));
            lemma_kv_lookup_at(post, wager_id, post.len() - 1);
            assert forall|w2: WagerId| w2 != wager_id implies self.settlement_of(w2) == old(
                self,
            ).settlement_of(w2) by {
                lemma_kv_push_other(pre, wager_id, post[post.len() - 1].1, w2);
            }
        }
    }

    /// Settles a wager exactly once. Demands the backend identity, guards
    /// the operation hash against a retried submission, refuses a wager
    /// that is already settled, moves the escrowed stake through the ledger
    /// according to the outcome tag, and only then records the operation
    /// hash and the settlement.
    pub fn settle_bet(
        &mut self,
        ledger: &mut BalanceLedgerContract,
        caller: u64,
        operation_hash: OperationHash,
        wager_id: WagerId,
        bettor: u64,
        winner: Option<u64>,
        bet_amount: i128,
        payout: i128,
        settlement_type: &str,
        ttl_seconds: Option<u64>,
        now: u64,
    ) -> (r: Result<(), ContractError>)
        requires
            old(self).wf(),
            old(ledger).wf(),
        ensures
            final(self).wf(),
            final(ledger).wf(),
            r == Self::spec_settle_outcome(
                *old(self),
                *old(ledger),
                caller,
                operation_hash,
                wager_id,
                bettor,
                winner,
                bet_amount,
                payout,
                settlement_type@,
                now,
            ),
            r is Ok ==> Self::settle_accepted(
                *old(self),
                *final(self),
                operation_hash,
                wager_id,
                bettor,
                winner,
                payout,
                settlement_type@,
                ttl_seconds,
                now,
            ),
            r is Ok ==> Self::ledger_effect_ok(
                *old(ledger),
                *final(ledger),
                bettor,
                winner,
                bet_amount,
                payout,
                settlement_type@,
            ),
            r is Err && r->Err_0 == ContractError::DuplicateOperation ==> Self::replay_rejected(
                *old(self),
                *final(self),
                operation_hash,
                now,
            ),
            r is Err && r->Err_0 != ContractError::DuplicateOperation ==> *final(self) == *old(
                self,
            ),
            r is Err ==> (Self::win_first_leg_applies(
                *old(self),
                *old(ledger),
                caller,
                operation_hash,
                wager_id,
                bettor,
                winner,
                bet_amount,
                payout,
                settlement_type@,
                now,
            ) ==> BalanceLedgerContract::balance_transition(
                *old(ledger),
                *final(ledger),
                bettor,
                spec_delta_outcome(old(ledger).balance_of(bettor), 0, -(bet_amount as int))->Ok_0,
            )),
            r is Err ==> (!Self::win_first_leg_applies(
                *old(self),
                *old(ledger),
                caller,
                operation_hash,
                wager_id,
                bettor,
                winner,
                bet_amount,
                payout,
                settlement_type@,
                now,
            ) ==> *final(ledger) == *old(ledger)),
    {
        if !self.check_backend(caller) {
            return Err(ContractError::Unauthorized);
        }
        if self.ops.is_operation_executed(Scope::Settlement, operation_hash, now) {
            self.ops.log_replay_rejected(Scope::Settlement, operation_hash, now);
            return Err(ContractError::DuplicateOperation);
        }
        if self.is_settled(wager_id) {
            return Err(ContractError::BetAlreadySettled);
        }

        let tag: String = settlement_type.to_owned();
        let is_win = tag == "WIN".to_owned();
        let is_loss = tag == "LOSS".to_owned();
        let is_draw = tag == "DRAW".to_owned();

        if is_win {
            let winner_id = match winner {
                Some(w) => w,
                None => {
                    return Err(ContractError::InvalidBet);
                },
            };
            if !ledger.check_backend(caller) {
                return Err(ContractError::Unauthorized);
            }
            if bet_amount == i128::MIN {
                proof {
                    crate::ledger::lemma_balances_nonnegative(*ledger, bettor);
                }
                return Err(ContractError::Overflow);
            }
            let b1 = match ledger.apply_delta(caller, bettor, 0, -bet_amount) {
                Ok(b) => b,
                Err(e) => {
                    return Err(contract_error_of(e));
                },
            };
            let ghost mid = *ledger;
            match ledger.apply_delta(caller, winner_id, payout, 0) {
                Ok(_) => (),
                Err(e) => {
                    proof {
                        if winner_id != bettor {
                            assert(mid.balance_of(winner_id) == old(ledger).balance_of(
                                winner_id,
                            ));
                        }
                    }
                    return Err(contract_error_of(e));
                },
            };
            proof {
                assert(BalanceLedgerContract::balance_transition(
                    *old(ledger),
                    mid,
                    bettor,
                    spec_delta_outcome(
                        old(ledger).balance_of(bettor),
                        0,
                        -(bet_amount as int),
                    )->Ok_0,
                ));
            }
        } else if is_loss {
            if !ledger.check_backend(caller) {
                return Err(ContractError::Unauthorized);
            }
            if bet_amount == i128::MIN {
                proof {
                    crate::ledger::lemma_balances_nonnegative(*ledger, bettor);
                }
                return Err(ContractError::Overflow);
            }
            match ledger.apply_delta(caller, bettor, 0, -bet_amount) {
                Ok(_) => (),
                Err(e) => {
                    return Err(contract_error_of(e));
                },
            };
        } else if is_draw {
            if !ledger.check_backend(caller) {
                return Err(ContractError::Unauthorized);
            }
            if bet_amount == i128::MIN {
                proof {
                    crate::ledger::lemma_balances_nonnegative(*ledger, bettor);
                }
                return Err(ContractError::Overflow);
            }
            match ledger.apply_delta(caller, bettor, bet_amount, -bet_amount) {
                Ok(_) => (),
                Err(e) => {
                    return Err(contract_error_of(e));
                },
            };
        } else {
            return Err(ContractError::InvalidStatus);
        }

        self.ops.mark_executed(Scope::Settlement, operation_hash, ttl_seconds, now);
        let ghost s_marked = *self;
        let record = SettlementRecord {
            bet_id: wager_id,
            outcome: tag,
            bettor,
            winner,
            payout,
            timestamp: now,
        };
        self.record_settlement(wager_id, record);
        let ghost s_recorded = *self;
        self.events.push(
            SettlementExecutedEvent {
                operation_hash,
                bet_id: wager_id,
                bettor,
                winner,
                payout,
                timestamp: now,
            },
        );
        proof {
            assert forall|w2: WagerId| w2 != wager_id implies self.settlement_of(w2) == old(
                self,
            ).settlement_of(w2) by {
                assert(s_recorded.settlement_of(w2) == s_marked.settlement_of(w2));
                assert(s_marked.settlement_of(w2) == old(self).settlement_of(w2));
                assert(self.settlement_of(w2) == s_recorded.settlement_of(w2));
            }
        }
        Ok(())
    }

    /// The audit log of executed settlements so far, oldest first.
    pub fn event_log(&self) -> (r: &Vec<SettlementExecutedEvent>)
        ensures
            r@ == self.events_log(),
    {
        &self.events
    }
}

/// Settlement exactly-once: once a settlement of `wager_id` has gone
/// through, any further `settle_bet` on the same wager — under any caller
/// the orchestrator accepts, any operation hash that passes the replay
/// guard, and any bettor, amounts or outcome tag — is refused with
/// `BetAlreadySettled`.
pub proof fn lemma_settle_exactly_once(
    pre: SettlementContract,
    post: SettlementContract,
    lg: BalanceLedgerContract,
    operation_hash: OperationHash,
    wager_id: WagerId,
    bettor: u64,
    winner: Option<u64>,
    payout: i128,
    outcome: Seq<char>,
    ttl_seconds: Option<u64>,
    now: u64,
    caller2: u64,
    operation_hash2: OperationHash,
    bettor2: u64,
    winner2: Option<u64>,
    bet_amount2: i128,
    payout2: i128,
    outcome2: Seq<char>,
    now2: u64,
)
    requires
        SettlementContract::settle_accepted(
            pre,
            post,
            operation_hash,
            wager_id,
            bettor,
            winner,
            payout,
            outcome,
            ttl_seconds,
            now,
        ),
        post.is_backend(caller2),
        !post.ops_state().has_live_record(Scope::Settlement, operation_hash2, now2),
    ensures
        SettlementContract::spec_settle_outcome(
            post,
            lg,
            caller2,
            operation_hash2,
            wager_id,
            bettor2,
            winner2,
            bet_amount2,
            payout2,
            outcome2,
            now2,
        ) == Err::<(), ContractError>(ContractError::BetAlreadySettled),
{
}

/// Conservation: a successful `WIN` settlement with distinct bettor and
/// winner lowers the bettor's locked bucket by exactly the staked amount,
/// raises the winner's withdrawable bucket by exactly the payout, touches
/// neither's other bucket and no other user — independent of how the stake
/// compares to the payout.
pub proof fn lemma_win_settlement_moves_funds(
    pre: BalanceLedgerContract,
    post: BalanceLedgerContract,
    bettor: u64,
    winner: u64,
    bet_amount: i128,
    payout: i128,
)
    requires
        SettlementContract::ledger_effect_ok(
            pre,
            post,
            bettor,
            Some(winner),
            bet_amount,
            payout,
            "WIN"@,
        ),
        winner != bettor,
    ensures
        post.balance_of(bettor).locked == pre.balance_of(bettor).locked - bet_amount,
        post.balance_of(bettor).withdrawable == pre.balance_of(bettor).withdrawable,
        post.balance_of(winner).withdrawable == pre.balance_of(winner).withdrawable + payout,
        post.balance_of(winner).locked == pre.balance_of(winner).locked,
        forall|u: u64| u != bettor && u != winner ==> post.balance_of(u) == pre.balance_of(u),
{
    let d1 = spec_delta_outcome(pre.balance_of(bettor), 0, -(bet_amount as int));
    let mid = choose|mid: BalanceLedgerContract|
        {
            &&& #[trigger] BalanceLedgerContract::balance_transition(pre, mid, bettor, d1->Ok_0)
            &&& {
                let d2 = spec_delta_outcome(mid.balance_of(winner), payout as int, 0);
                d2 is Ok && BalanceLedgerContract::balance_transition(mid, post, winner, d2->Ok_0)
            }
        };
    assert(mid.balance_of(winner) == pre.balance_of(winner));
    assert(post.balance_of(bettor) == mid.balance_of(bettor));
}

} // verus!
