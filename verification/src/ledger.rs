//! The balance ledger: per-user `(withdrawable, locked)` buckets and
//! cumulative `(staked, won, lost)` metrics.
//!
//! All mutating entry points demand the caller's identity to match the one
//! backend identity configured at initialization. Every mutation is
//! overflow-checked, keeps both buckets non-negative, persists atomically,
//! and appends a before/after audit event. Unknown users read as zeroed
//! state; read accessors need no authorization.

use vstd::prelude::*;

use crate::errors::BalanceLedgerError;
use crate::store::kv_find_u64;
use crate::store::kv_lookup;
use crate::store::kv_unique;
use crate::store::lemma_kv_lookup_absent;
use crate::store::lemma_kv_lookup_at;
use crate::store::lemma_kv_lookup_some_index;
use crate::store::lemma_kv_push_other;
use crate::store::lemma_kv_update_other;

verus! {

/// A user's two buckets: spendable and escrowed funds.
#[derive(Clone, Copy, Debug, PartialEq, Eq, Structural)]
pub struct UserBalance {
    pub withdrawable: i128,
    pub locked: i128,
}

/// A user's cumulative counters, only ever increased.
#[derive(Clone, Copy, Debug, PartialEq, Eq, Structural)]
pub struct UserMetrics {
    pub total_staked: i128,
    pub total_won: i128,
    pub total_lost: i128,
}

/// Audit record of one balance mutation, carrying before and after values.
#[derive(Clone, Copy, Debug, PartialEq, Eq, Structural)]
pub struct BalanceUpdatedEvent {
    pub user: u64,
    pub previous: UserBalance,
    pub updated: UserBalance,
}

/// Audit record of one metrics mutation, carrying the deltas and the new
/// totals.
#[derive(Clone, Copy, Debug, PartialEq, Eq, Structural)]
pub struct MetricsUpdatedEvent {
    pub user: u64,
    pub staked_delta: i128,
    pub won_delta: i128,
    pub lost_delta: i128,
    pub totals: UserMetrics,
}

/// One entry of the ledger's audit log.
#[derive(Clone, Copy, Debug, PartialEq, Eq, Structural)]
pub enum LedgerEvent {
    BalanceUpdated(BalanceUpdatedEvent),
    MetricsUpdated(MetricsUpdatedEvent),
}

/// `a + b` as an `i128`, or `Overflow` where the sum leaves the type's range.
pub open spec fn spec_checked_add_i128(a: int, b: int) -> Result<i128, BalanceLedgerError> {
    if a + b > i128::MAX || a + b < i128::MIN {
        Err(BalanceLedgerError::Overflow)
    } else {
        Ok((a + b) as i128)
    }
}

/// Adds two amounts, failing with `Overflow` rather than wrapping.
pub fn checked_add(a: i128, b: i128) -> (r: Result<i128, BalanceLedgerError>)
    ensures
        r == spec_checked_add_i128(a as int, b as int),
{
    match a.checked_add(b) {
        Some(v) => Ok(v),
        None => Err(BalanceLedgerError::Overflow),
    }
}

/// Accepts any amount that is zero or more.
pub fn validate_non_negative(amount: i128) -> (r: Result<(), BalanceLedgerError>)
    ensures
        r is Err <==> amount < 0,
        r is Err ==> r->Err_0 == BalanceLedgerError::InvalidAmount,
{
    if amount < 0 {
        return Err(BalanceLedgerError::InvalidAmount);
    }
    Ok(())
}

/// Accepts only strictly positive amounts.
pub fn validate_positive(amount: i128) -> (r: Result<(), BalanceLedgerError>)
    ensures
        r is Err <==> amount <= 0,
        r is Err ==> r->Err_0 == BalanceLedgerError::InvalidAmount,
{
    if amount <= 0 {
        return Err(BalanceLedgerError::InvalidAmount);
    }
    Ok(())
}

/// The outcome of adding `(wd, ld)` to a balance: the new balance, or the
/// first failure among overflow on either bucket and a bucket going negative.
pub open spec fn spec_delta_outcome(b: UserBalance, wd: int, ld: int) -> Result<
    UserBalance,
    BalanceLedgerError,
> {
    let nw = b.withdrawable + wd;
    let nl = b.locked + ld;
    if nw > i128::MAX || nw < i128::MIN {
        Err(BalanceLedgerError::Overflow)
    } else if nl > i128::MAX || nl < i128::MIN {
        Err(BalanceLedgerError::Overflow)
    } else if nw < 0 {
        Err(BalanceLedgerError::InsufficientWithdrawable)
    } else if nl < 0 {
        Err(BalanceLedgerError::InsufficientLocked)
    } else {
        Ok(UserBalance { withdrawable: nw as i128, locked: nl as i128 })
    }
}

/// Applies both deltas to a balance in one step, so the two buckets change
/// together or not at all.
fn apply_balance_delta(current: &UserBalance, withdrawable_delta: i128, locked_delta: i128) -> (r:
    Result<UserBalance, BalanceLedgerError>)
    ensures
        r == spec_delta_outcome(*current, withdrawable_delta as int, locked_delta as int),
{
    let next_withdrawable = match checked_add(current.withdrawable, withdrawable_delta) {
        Ok(v) => v,
        Err(e) => {
            return Err(e);
        },
    };
    let next_locked = match checked_add(current.locked, locked_delta) {
        Ok(v) => v,
        Err(e) => {
            return Err(e);
        },
    };
    if next_withdrawable < 0 {
        return Err(BalanceLedgerError::InsufficientWithdrawable);
    }
    if next_locked < 0 {
        return Err(BalanceLedgerError::InsufficientLocked);
    }
    Ok(UserBalance { withdrawable: next_withdrawable, locked: next_locked })
}

/// The ledger contract's owned state: the configured backend identity, the
/// balance and metrics records, and the audit log.
pub struct BalanceLedgerContract {
    backend: Option<u64>,
    balances: Vec<(u64, UserBalance)>,
    metrics: Vec<(u64, UserMetrics)>,
    events: Vec<LedgerEvent>,
}

impl BalanceLedgerContract {
    /// The configured backend identity, if any.
    pub closed spec fn spec_backend(self) -> Option<u64> {
        self.backend
    }

    /// Whether `initialize` has run.
    pub open spec fn is_initialized(self) -> bool {
        self.spec_backend() is Some
    }

    /// Whether `caller` is the configured backend identity.
    pub open spec fn is_backend(self, caller: u64) -> bool {
        self.spec_backend() == Some(caller)
    }

    /// The user's balance; unknown users read as zeroed.
    pub closed spec fn balance_of(self, user: u64) -> UserBalance {
        match kv_lookup(self.balances@, user) {
            Some(b) => b,
            None => UserBalance { withdrawable: 0, locked: 0 },
        }
    }

    /// The user's metrics; unknown users read as zeroed.
    pub closed spec fn metrics_of(self, user: u64) -> UserMetrics {
        match kv_lookup(self.metrics@, user) {
            Some(m) => m,
            None => UserMetrics { total_staked: 0, total_won: 0, total_lost: 0 },
        }
    }

    /// The audit log, oldest event first.
    pub closed spec fn events_log(self) -> Seq<LedgerEvent> {
        self.events@
    }

    /// Well-formedness: records are keyed uniquely and every stored amount
    /// is non-negative.
    pub closed spec fn wf(self) -> bool {
        &&& kv_unique(self.balances@)
        &&& kv_unique(self.metrics@)
        &&& forall|i: int|
            0 <= i < self.balances@.len() ==> (#[trigger] self.balances@[i]).1.withdrawable >= 0
                && self.balances@[i].1.locked >= 0
        &&& forall|i: int|
            0 <= i < self.metrics@.len() ==> (#[trigger] self.metrics@[i]).1.total_staked >= 0
                && self.metrics@[i].1.total_won >= 0 && self.metrics@[i].1.total_lost >= 0
    }

    /// Both ledgers read the same balance for every user.
    pub open spec fn balances_eq(a: Self, b: Self) -> bool {
        forall|u: u64| a.balance_of(u) == b.balance_of(u)
    }

    /// Both ledgers read the same metrics for every user.
    pub open spec fn metrics_eq(a: Self, b: Self) -> bool {
        forall|u: u64| a.metrics_of(u) == b.metrics_of(u)
    }

    /// A successful balance mutation: `user` now reads `b`, every other
    /// user's balance, all metrics and the backend are untouched, and a
    /// before/after event was appended.
    pub open spec fn balance_transition(pre: Self, post: Self, user: u64, b: UserBalance) -> bool {
        &&& post.spec_backend() == pre.spec_backend()
        &&& post.balance_of(user) == b
        &&& forall|u: u64| u != user ==> post.balance_of(u) == pre.balance_of(u)
        &&& Self::metrics_eq(pre, post)
        &&& post.events_log() == pre.events_log().push(
            LedgerEvent::BalanceUpdated(
                BalanceUpdatedEvent { user, previous: pre.balance_of(user), updated: b },
            ),
        )
    }

    /// A successful metrics mutation, analogous to `balance_transition`.
    pub open spec fn metrics_transition(
        pre: Self,
        post: Self,
        user: u64,
        staked_delta: i128,
        won_delta: i128,
        lost_delta: i128,
        m: UserMetrics,
    ) -> bool {
        &&& post.spec_backend() == pre.spec_backend()
        &&& post.metrics_of(user) == m
        &&& forall|u: u64| u != user ==> post.metrics_of(u) == pre.metrics_of(u)
        &&& Self::balances_eq(pre, post)
        &&& post.events_log() == pre.events_log().push(
            LedgerEvent::MetricsUpdated(
                MetricsUpdatedEvent { user, staked_delta, won_delta, lost_delta, totals: m },
            ),
        )
    }

    /// A fresh, uninitialized ledger with no records and no events.
    pub fn new() -> (l: Self)
        ensures
            l.wf(),
            !l.is_initialized(),
            forall|u: u64| l.balance_of(u) == (UserBalance { withdrawable: 0, locked: 0 }),
            forall|u: u64|
                l.metrics_of(u) == (UserMetrics { total_staked: 0, total_won: 0, total_lost: 0 }),
            l.events_log() == Seq::<LedgerEvent>::empty(),
    {
        let l = BalanceLedgerContract {
            backend: None,
            balances: Vec::new(),
            metrics: Vec::new(),
            events: Vec::new(),
        };
        l
    }

    /// Configures the backend identity, exactly once; a second attempt
    /// fails with `AlreadyInitialized` and changes nothing.
    pub fn initialize(&mut self, backend_signer: u64) -> (r: Result<(), BalanceLedgerError>)
        requires
            old(self).wf(),
        ensures
            final(self).wf(),
            r is Ok <==> !old(self).is_initialized(),
            r is Err ==> r->Err_0 == BalanceLedgerError::AlreadyInitialized && *final(self)
                == *old(self),
            r is Ok ==> final(self).spec_backend() == Some(backend_signer) && Self::balances_eq(
                *old(self),
                *final(self),
            ) && Self::metrics_eq(*old(self), *final(self)) && final(self).events_log() == old(
                self,
            ).events_log(),
    {
        if self.backend.is_some() {
            return Err(BalanceLedgerError::AlreadyInitialized);
        }
        self.backend = Some(backend_signer);
        Ok(())
    }

    /// Whether `caller` is the configured backend identity.
    pub(crate) fn check_backend(&self, caller: u64) -> (r: bool)
        ensures
            r == self.is_backend(caller),
    {
        match self.backend {
            Some(b) => b == caller,
            None => false,
        }
    }

    /// Reads a user's stored balance, zeroed for unknown users.
    fn read_balance(&self, user: u64) -> (b: UserBalance)
        requires
            self.wf(),
        ensures
            b == self.balance_of(user),
    {
        match kv_find_u64(&self.balances, user) {
            Some(i) => {
                proof {
                    lemma_kv_lookup_at(self.balances@, user, i as int);
                }
                self.balances[i].1
            },
            None => {
                proof {
                    lemma_kv_lookup_absent(self.balances@, user);
                }
                UserBalance { withdrawable: 0, locked: 0 }
            },
        }
    }

    /// Stores a user's balance, leaving every other record untouched.
    fn write_balance(&mut self, user: u64, b: UserBalance)
        requires
            old(self).wf(),
            b.withdrawable >= 0,
            b.locked >= 0,
        ensures
            final(self).wf(),
            final(self).spec_backend() == old(self).spec_backend(),
            final(self).balance_of(user) == b,
            forall|u: u64| u != user ==> final(self).balance_of(u) == old(self).balance_of(u),
            Self::metrics_eq(*old(self), *final(self)),
            final(self).events_log() == old(self).events_log(),
    {
        let ghost pre = self.balances@;
        match kv_find_u64(&self.balances, user) {
            Some(i) => {
                self.balances.set(i, (user, b));
                proof {
                    let post = self.balances@;
                    assert(forall|j: int| 0 <= j < post.len() ==> post[j].0 == pre[j].0);
                    assert(kv_unique(post));
                    lemma_kv_lookup_at(post, user, i as int);
                    assert forall|u: u64| u != user implies self.balance_of(u) == old(
                        self,
                    ).balance_of(u) by {
                        lemma_kv_update_other(pre, user, b, i as int, u);
                    }
                }
            },
            None => {
                self.balances.push((user, b));
                proof {
                    let post = self.balances@;
                    assert(kv_unique(post));
                    lemma_kv_lookup_at(post, user, post.len() - 1);
                    assert forall|u: u64| u != user implies self.balance_of(u) == old(
                        self,
                    ).balance_of(u) by {
                        lemma_kv_push_other(pre, user, b, u);
                    }
                }
            },
        }
    }

    /// Reads a user's stored metrics, zeroed for unknown users.
    fn read_metrics(&self, user: u64) -> (m: UserMetrics)
        requires
            self.wf(),
        ensures
            m == self.metrics_of(user),
    {
        match kv_find_u64(&self.metrics, user) {
            Some(i) => {
                proof {
                    lemma_kv_lookup_at(self.metrics@, user, i as int);
                }
                self.metrics[i].1
            },
            None => {
                proof {
                    lemma_kv_lookup_absent(self.metrics@, user);
                }
                UserMetrics { total_staked: 0, total_won: 0, total_lost: 0 }
            },
        }
    }

    /// Stores a user's metrics, leaving every other record untouched.
    fn write_metrics(&mut self, user: u64, m: UserMetrics)
        requires
            old(self).wf(),
            m.total_staked >= 0,
            m.total_won >= 0,
            m.total_lost >= 0,
        ensures
            final(self).wf(),
            final(self).spec_backend() == old(self).spec_backend(),
            final(self).metrics_of(user) == m,
            forall|u: u64| u != user ==> final(self).metrics_of(u) == old(self).metrics_of(u),
            Self::balances_eq(*old(self), *final(self)),
            final(self).events_log() == old(self).events_log(),
    {
        let ghost pre = self.metrics@;
        match kv_find_u64(&self.metrics, user) {
            Some(i) => {
                self.metrics.set(i, (user, m));
                proof {
                    let post = self.metrics@;
                    assert(forall|j: int| 0 <= j < post.len() ==> post[j].0 == pre[j].0);
                    assert(kv_unique(post));
                    lemma_kv_lookup_at(post, user, i as int);
                    assert forall|u: u64| u != user implies self.metrics_of(u) == old(
                        self,
                    ).metrics_of(u) by {
                        lemma_kv_update_other(pre, user, m, i as int, u);
                    }
                }
            },
            None => {
                self.metrics.push((user, m));
                proof {
                    let post = self.metrics@;
                    assert(kv_unique(post));
                    lemma_kv_lookup_at(post, user, post.len() - 1);
                    assert forall|u: u64| u != user implies self.metrics_of(u) == old(
                        self,
                    ).metrics_of(u) by {
                        lemma_kv_push_other(pre, user, m, u);
                    }
                }
            },
        }
    }
}

impl BalanceLedgerContract {
    /// The outcome of `set_balance`: the overwritten balance, or the first
    /// failure among a missing authorization and a negative argument.
    pub open spec fn spec_set_balance(
        pre: Self,
        caller: u64,
        user: u64,
        withdrawable: i128,
        locked: i128,
    ) -> Result<UserBalance, BalanceLedgerError> {
        if !pre.is_backend(caller) {
            Err(BalanceLedgerError::Unauthorized)
        } else if withdrawable < 0 || locked < 0 {
            Err(BalanceLedgerError::InvalidAmount)
        } else {
            Ok(UserBalance { withdrawable, locked })
        }
    }

    /// The outcome of `apply_delta`.
    pub open spec fn spec_apply_delta(
        pre: Self,
        caller: u64,
        user: u64,
        withdrawable_delta: i128,
        locked_delta: i128,
    ) -> Result<UserBalance, BalanceLedgerError> {
        if !pre.is_backend(caller) {
            Err(BalanceLedgerError::Unauthorized)
        } else {
            spec_delta_outcome(
                pre.balance_of(user),
                withdrawable_delta as int,
                locked_delta as int,
            )
        }
    }

    /// The outcome of `lock_funds`: moves `amount` from withdrawable to
    /// locked, demanding a strictly positive amount covered by the
    /// withdrawable bucket.
    pub open spec fn spec_lock_funds(pre: Self, caller: u64, user: u64, amount: i128) -> Result<
        UserBalance,
        BalanceLedgerError,
    > {
        if !pre.is_backend(caller) {
            Err(BalanceLedgerError::Unauthorized)
        } else if amount <= 0 {
            Err(BalanceLedgerError::InvalidAmount)
        } else if pre.balance_of(user).withdrawable < amount {
            Err(BalanceLedgerError::InsufficientWithdrawable)
        } else {
            spec_delta_outcome(pre.balance_of(user), -(amount as int), amount as int)
        }
    }

    /// The outcome of `unlock_funds`: moves `amount` from locked back to
    /// withdrawable, demanding a strictly positive amount covered by the
    /// locked bucket.
    pub open spec fn spec_unlock_funds(pre: Self, caller: u64, user: u64, amount: i128) -> Result<
        UserBalance,
        BalanceLedgerError,
    > {
        if !pre.is_backend(caller) {
            Err(BalanceLedgerError::Unauthorized)
        } else if amount <= 0 {
            Err(BalanceLedgerError::InvalidAmount)
        } else if pre.balance_of(user).locked < amount {
            Err(BalanceLedgerError::InsufficientLocked)
        } else {
            spec_delta_outcome(pre.balance_of(user), amount as int, -(amount as int))
        }
    }

    /// The outcome of `record_metrics`: all three deltas must be
    /// non-negative, and each counter is extended with its own overflow
    /// check, so one oversized delta corrupts nothing.
    pub open spec fn spec_record_metrics(
        pre: Self,
        caller: u64,
        user: u64,
        staked_delta: i128,
        won_delta: i128,
        lost_delta: i128,
    ) -> Result<UserMetrics, BalanceLedgerError> {
        let m = pre.metrics_of(user);
        if !pre.is_backend(caller) {
            Err(BalanceLedgerError::Unauthorized)
        } else if staked_delta < 0 || won_delta < 0 || lost_delta < 0 {
            Err(BalanceLedgerError::InvalidAmount)
        } else if spec_checked_add_i128(m.total_staked as int, staked_delta as int) is Err
            || spec_checked_add_i128(m.total_won as int, won_delta as int) is Err
            || spec_checked_add_i128(m.total_lost as int, lost_delta as int) is Err {
            Err(BalanceLedgerError::Overflow)
        } else {
            Ok(
                UserMetrics {
                    total_staked: (m.total_staked + staked_delta) as i128,
                    total_won: (m.total_won + won_delta) as i128,
                    total_lost: (m.total_lost + lost_delta) as i128,
                },
            )
        }
    }

    /// The outcome of `get_total`: the sum of both buckets, or `Overflow`
    /// rather than a silent wrap.
    pub open spec fn spec_get_total(pre: Self, user: u64) -> Result<i128, BalanceLedgerError> {
        spec_checked_add_i128(
            pre.balance_of(user).withdrawable as int,
            pre.balance_of(user).locked as int,
        )
    }

    /// Overwrites both buckets of `user` with the given non-negative values.
    pub fn set_balance(&mut self, caller: u64, user: u64, withdrawable: i128, locked: i128) -> (r:
        Result<UserBalance, BalanceLedgerError>)
        requires
            old(self).wf(),
        ensures
            final(self).wf(),
            r == Self::spec_set_balance(*old(self), caller, user, withdrawable, locked),
            r is Err ==> *final(self) == *old(self),
            r is Ok ==> Self::balance_transition(*old(self), *final(self), user, r->Ok_0),
    {
        if !self.check_backend(caller) {
            return Err(BalanceLedgerError::Unauthorized);
        }
        match validate_non_negative(withdrawable) {
            Ok(()) => (),
            Err(e) => {
                return Err(e);
            },
        }
        match validate_non_negative(locked) {
            Ok(()) => (),
            Err(e) => {
                return Err(e);
            },
        }
        let previous = self.read_balance(user);
        let updated = UserBalance { withdrawable, locked };
        self.write_balance(user, updated);
        self.events.push(
            LedgerEvent::BalanceUpdated(BalanceUpdatedEvent { user, previous, updated }),
        );
        Ok(updated)
    }

    /// Adds both deltas, which may be negative, to `user`'s buckets in one
    /// atomic step.
    pub fn apply_delta(
        &mut self,
        caller: u64,
        user: u64,
        withdrawable_delta: i128,
        locked_delta: i128,
    ) -> (r: Result<UserBalance, BalanceLedgerError>)
        requires
            old(self).wf(),
        ensures
            final(self).wf(),
            r == Self::spec_apply_delta(
                *old(self),
                caller,
                user,
                withdrawable_delta,
                locked_delta,
            ),
            r is Err ==> *final(self) == *old(self),
            r is Ok ==> Self::balance_transition(*old(self), *final(self), user, r->Ok_0),
    {
        if !self.check_backend(caller) {
            return Err(BalanceLedgerError::Unauthorized);
        }
        let previous = self.read_balance(user);
        let updated = match apply_balance_delta(&previous, withdrawable_delta, locked_delta) {
            Ok(b) => b,
            Err(e) => {
                return Err(e);
            },
        };
        self.write_balance(user, updated);
        self.events.push(
            LedgerEvent::BalanceUpdated(BalanceUpdatedEvent { user, previous, updated }),
        );
        Ok(updated)
    }

    /// Moves `amount` from the withdrawable to the locked bucket, as a
    /// single delta, so no intermediate state holds the funds in neither or
    /// both buckets.
    pub fn lock_funds(&mut self, caller: u64, user: u64, amount: i128) -> (r: Result<
        UserBalance,
        BalanceLedgerError,
    >)
        requires
            old(self).wf(),
        ensures
            final(self).wf(),
            r == Self::spec_lock_funds(*old(self), caller, user, amount),
            r is Err ==> *final(self) == *old(self),
            r is Ok ==> Self::balance_transition(*old(self), *final(self), user, r->Ok_0),
    {
        if !self.check_backend(caller) {
            return Err(BalanceLedgerError::Unauthorized);
        }
        match validate_positive(amount) {
            Ok(()) => (),
            Err(e) => {
                return Err(e);
            },
        }
        let previous = self.read_balance(user);
        if previous.withdrawable < amount {
            return Err(BalanceLedgerError::InsufficientWithdrawable);
        }
        let updated = match apply_balance_delta(&previous, -amount, amount) {
            Ok(b) => b,
            Err(e) => {
                return Err(e);
            },
        };
        self.write_balance(user, updated);
        self.events.push(
            LedgerEvent::BalanceUpdated(BalanceUpdatedEvent { user, previous, updated }),
        );
        Ok(updated)
    }

    /// Moves `amount` from the locked bucket back to the withdrawable one,
    /// as a single delta.
    pub fn unlock_funds(&mut self, caller: u64, user: u64, amount: i128) -> (r: Result<
        UserBalance,
        BalanceLedgerError,
    >)
        requires
            old(self).wf(),
        ensures
            final(self).wf(),
            r == Self::spec_unlock_funds(*old(self), caller, user, amount),
            r is Err ==> *final(self) == *old(self),
            r is Ok ==> Self::balance_transition(*old(self), *final(self), user, r->Ok_0),
    {
        if !self.check_backend(caller) {
            return Err(BalanceLedgerError::Unauthorized);
        }
        match validate_positive(amount) {
            Ok(()) => (),
            Err(e) => {
                return Err(e);
            },
        }
        let previous = self.read_balance(user);
        if previous.locked < amount {
            return Err(BalanceLedgerError::InsufficientLocked);
        }
        let updated = match apply_balance_delta(&previous, amount, -amount) {
            Ok(b) => b,
            Err(e) => {
                return Err(e);
            },
        };
        self.write_balance(user, updated);
        self.events.push(
            LedgerEvent::BalanceUpdated(BalanceUpdatedEvent { user, previous, updated }),
        );
        Ok(updated)
    }

    /// Reads both buckets; unknown users read as zeroed. No authorization.
    pub fn get_balance(&self, user: u64) -> (b: UserBalance)
        requires
            self.wf(),
        ensures
            b == self.balance_of(user),
    {
        self.read_balance(user)
    }

    /// Reads the withdrawable bucket. No authorization.
    pub fn get_withdrawable(&self, user: u64) -> (w: i128)
        requires
            self.wf(),
        ensures
            w == self.balance_of(user).withdrawable,
    {
        self.read_balance(user).withdrawable
    }

    /// Reads the locked bucket. No authorization.
    pub fn get_locked(&self, user: u64) -> (l: i128)
        requires
            self.wf(),
        ensures
            l == self.balance_of(user).locked,
    {
        self.read_balance(user).locked
    }

    /// The sum of both buckets, or `Overflow` rather than a silent wrap.
    /// No authorization.
    pub fn get_total(&self, user: u64) -> (r: Result<i128, BalanceLedgerError>)
        requires
            self.wf(),
        ensures
            r == Self::spec_get_total(*self, user),
    {
        let balance = self.read_balance(user);
        checked_add(balance.withdrawable, balance.locked)
    }

    /// Adds the three non-negative deltas to `user`'s counters, each with
    /// its own overflow check; a failure leaves all three untouched.
    pub fn record_metrics(
        &mut self,
        caller: u64,
        user: u64,
        staked_delta: i128,
        won_delta: i128,
        lost_delta: i128,
    ) -> (r: Result<UserMetrics, BalanceLedgerError>)
        requires
            old(self).wf(),
        ensures
            final(self).wf(),
            r == Self::spec_record_metrics(
                *old(self),
                caller,
                user,
                staked_delta,
                won_delta,
                lost_delta,
            ),
            r is Err ==> *final(self) == *old(self),
            r is Ok ==> Self::metrics_transition(
                *old(self),
                *final(self),
                user,
                staked_delta,
                won_delta,
                lost_delta,
                r->Ok_0,
            ),
    {
        if !self.check_backend(caller) {
            return Err(BalanceLedgerError::Unauthorized);
        }
        match validate_non_negative(staked_delta) {
            Ok(()) => (),
            Err(e) => {
                return Err(e);
            },
        }
        match validate_non_negative(won_delta) {
            Ok(()) => (),
            Err(e) => {
                return Err(e);
            },
        }
        match validate_non_negative(lost_delta) {
            Ok(()) => (),
            Err(e) => {
                return Err(e);
            },
        }
        let previous = self.read_metrics(user);
        let total_staked = match checked_add(previous.total_staked, staked_delta) {
            Ok(v) => v,
            Err(e) => {
                return Err(e);
            },
        };
        let total_won = match checked_add(previous.total_won, won_delta) {
            Ok(v) => v,
            Err(e) => {
                return Err(e);
            },
        };
        let total_lost = match checked_add(previous.total_lost, lost_delta) {
            Ok(v) => v,
            Err(e) => {
                return Err(e);
            },
        };
        let updated = UserMetrics { total_staked, total_won, total_lost };
        proof {
            lemma_metrics_nonnegative(*self, user);
        }
        self.write_metrics(user, updated);
        self.events.push(
            LedgerEvent::MetricsUpdated(
                MetricsUpdatedEvent {
                    user,
                    staked_delta,
                    won_delta,
                    lost_delta,
                    totals: updated,
                },
            ),
        );
        Ok(updated)
    }

    /// Reads the cumulative counters; unknown users read as zeroed.
    /// No authorization.
    pub fn get_metrics(&self, user: u64) -> (m: UserMetrics)
        requires
            self.wf(),
        ensures
            m == self.metrics_of(user),
    {
        self.read_metrics(user)
    }

    /// The audit log so far, oldest event first.
    pub fn event_log(&self) -> (r: &Vec<LedgerEvent>)
        ensures
            r@ == self.events_log(),
    {
        &self.events
    }
}

/// Invariant: in a well-formed ledger, every user's buckets are
/// non-negative — reachable states never hold a negative balance.
pub proof fn lemma_balances_nonnegative(l: BalanceLedgerContract, user: u64)
    requires
        l.wf(),
    ensures
        l.balance_of(user).withdrawable >= 0,
        l.balance_of(user).locked >= 0,
{
    if kv_lookup(l.balances@, user) is Some {
        lemma_kv_lookup_some_index(l.balances@, user);
    }
}

/// Conservation: a successful `lock_funds` followed by a successful
/// `unlock_funds` of the same amount leaves every user's
/// `(withdrawable, locked)` pair exactly as it was.
pub proof fn lemma_lock_unlock_conservation(
    l0: BalanceLedgerContract,
    l1: BalanceLedgerContract,
    l2: BalanceLedgerContract,
    caller1: u64,
    caller2: u64,
    user: u64,
    amount: i128,
    b1: UserBalance,
    b2: UserBalance,
)
    requires
        BalanceLedgerContract::spec_lock_funds(l0, caller1, user, amount) == Ok::<
            UserBalance,
            BalanceLedgerError,
        >(b1),
        BalanceLedgerContract::balance_transition(l0, l1, user, b1),
        BalanceLedgerContract::spec_unlock_funds(l1, caller2, user, amount) == Ok::<
            UserBalance,
            BalanceLedgerError,
        >(b2),
        BalanceLedgerContract::balance_transition(l1, l2, user, b2),
    ensures
        forall|u: u64| l2.balance_of(u) == l0.balance_of(u),
{
    let b0 = l0.balance_of(user);
    assert(b1.withdrawable == b0.withdrawable - amount && b1.locked == b0.locked + amount);
    assert(b2.withdrawable == b0.withdrawable && b2.locked == b0.locked);
    assert(b2 == b0);
    assert forall|u: u64| l2.balance_of(u) == l0.balance_of(u) by {
        if u != user {
            assert(l2.balance_of(u) == l1.balance_of(u));
            assert(l1.balance_of(u) == l0.balance_of(u));
        }
    }
}

/// Invariant: in a well-formed ledger, every user's cumulative counters are
/// non-negative.
pub proof fn lemma_metrics_nonnegative(l: BalanceLedgerContract, user: u64)
    requires
        l.wf(),
    ensures
        l.metrics_of(user).total_staked >= 0,
        l.metrics_of(user).total_won >= 0,
        l.metrics_of(user).total_lost >= 0,
{
    if kv_lookup(l.metrics@, user) is Some {
        lemma_kv_lookup_some_index(l.metrics@, user);
    }
}

} // verus!
