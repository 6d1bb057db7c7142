use wager_core::errors::BalanceLedgerError;
use wager_core::ledger::BalanceLedgerContract;
use wager_core::ledger::UserBalance;
use wager_core::ledger::UserMetrics;

const BACKEND: u64 = 1;
const USER: u64 = 2;

fn initialized_ledger() -> BalanceLedgerContract {
    let mut ledger = BalanceLedgerContract::new();
    ledger.initialize(BACKEND).unwrap();
    ledger
}

#[test]
fn initialize_only_once() {
    let mut ledger = BalanceLedgerContract::new();
    ledger.initialize(BACKEND).unwrap();
    assert_eq!(
        ledger.initialize(BACKEND),
        Err(BalanceLedgerError::AlreadyInitialized)
    );
}

#[test]
fn set_and_query_split_balances() {
    let mut ledger = initialized_ledger();
    let updated = ledger.set_balance(BACKEND, USER, 1_000, 250).unwrap();

    assert_eq!(
        updated,
        UserBalance {
            withdrawable: 1_000,
            locked: 250,
        }
    );
    assert_eq!(ledger.get_withdrawable(USER), 1_000);
    assert_eq!(ledger.get_locked(USER), 250);
    assert_eq!(ledger.get_total(USER).unwrap(), 1_250);
    assert_eq!(ledger.get_balance(USER), updated);
}

#[test]
fn lock_and_unlock_funds_atomically() {
    let mut ledger = initialized_ledger();
    ledger.set_balance(BACKEND, USER, 500, 100).unwrap();

    let locked = ledger.lock_funds(BACKEND, USER, 200).unwrap();
    assert_eq!(locked.withdrawable, 300);
    assert_eq!(locked.locked, 300);

    let unlocked = ledger.unlock_funds(BACKEND, USER, 50).unwrap();
    assert_eq!(unlocked.withdrawable, 350);
    assert_eq!(unlocked.locked, 250);
}

#[test]
fn apply_delta_updates_both_buckets_atomically() {
    let mut ledger = initialized_ledger();
    ledger.set_balance(BACKEND, USER, 200, 75).unwrap();

    let updated = ledger.apply_delta(BACKEND, USER, -25, 125).unwrap();
    assert_eq!(updated.withdrawable, 175);
    assert_eq!(updated.locked, 200);
}

#[test]
fn rejects_invalid_or_insufficient_updates() {
    let mut ledger = initialized_ledger();
    ledger.set_balance(BACKEND, USER, 100, 10).unwrap();

    assert_eq!(
        ledger.set_balance(BACKEND, USER, -1, 10),
        Err(BalanceLedgerError::InvalidAmount)
    );
    assert_eq!(
        ledger.lock_funds(BACKEND, USER, 101),
        Err(BalanceLedgerError::InsufficientWithdrawable)
    );
    assert_eq!(
        ledger.unlock_funds(BACKEND, USER, 11),
        Err(BalanceLedgerError::InsufficientLocked)
    );
    assert_eq!(
        ledger.apply_delta(BACKEND, USER, -101, 0),
        Err(BalanceLedgerError::InsufficientWithdrawable)
    );
}

#[test]
fn records_cumulative_user_metrics() {
    let mut ledger = initialized_ledger();

    let first = ledger.record_metrics(BACKEND, USER, 100, 0, 100).unwrap();
    assert_eq!(
        first,
        UserMetrics {
            total_staked: 100,
            total_won: 0,
            total_lost: 100,
        }
    );

    let second = ledger.record_metrics(BACKEND, USER, 250, 400, 0).unwrap();
    assert_eq!(
        second,
        UserMetrics {
            total_staked: 350,
            total_won: 400,
            total_lost: 100,
        }
    );

    assert_eq!(ledger.get_metrics(USER), second);
}

#[test]
fn rejects_negative_metric_deltas() {
    let mut ledger = initialized_ledger();

    assert_eq!(
        ledger.record_metrics(BACKEND, USER, -1, 0, 0),
        Err(BalanceLedgerError::InvalidAmount)
    );
    assert_eq!(
        ledger.record_metrics(BACKEND, USER, 0, -1, 0),
        Err(BalanceLedgerError::InvalidAmount)
    );
    assert_eq!(
        ledger.record_metrics(BACKEND, USER, 0, 0, -1),
        Err(BalanceLedgerError::InvalidAmount)
    );
}

#[test]
fn get_total_prevents_overflow() {
    let mut ledger = initialized_ledger();

    let max = i128::MAX;
    let half_max = max / 2;
    ledger.set_balance(BACKEND, USER, half_max, half_max).unwrap();

    ledger.set_balance(BACKEND, USER, max, 1).unwrap();

    let result = ledger.get_total(USER);
    assert_eq!(result, Err(BalanceLedgerError::Overflow));
}

#[test]
fn record_metrics_prevents_overflow() {
    let mut ledger = initialized_ledger();

    let large_value = i128::MAX - 100;
    ledger.record_metrics(BACKEND, USER, large_value, 0, 0).unwrap();

    let result = ledger.record_metrics(BACKEND, USER, 101, 0, 0);
    assert_eq!(result, Err(BalanceLedgerError::Overflow));
}

#[test]
fn record_metrics_prevents_overflow_on_won() {
    let mut ledger = initialized_ledger();

    let large_value = i128::MAX - 50;
    ledger.record_metrics(BACKEND, USER, 0, large_value, 0).unwrap();

    let result = ledger.record_metrics(BACKEND, USER, 0, 51, 0);
    assert_eq!(result, Err(BalanceLedgerError::Overflow));
}

#[test]
fn record_metrics_prevents_overflow_on_lost() {
    let mut ledger = initialized_ledger();

    let large_value = i128::MAX - 200;
    ledger.record_metrics(BACKEND, USER, 0, 0, large_value).unwrap();

    let result = ledger.record_metrics(BACKEND, USER, 0, 0, 201);
    assert_eq!(result, Err(BalanceLedgerError::Overflow));
}

#[test]
fn record_metrics_overflow_leaves_all_counters_unchanged() {
    let mut ledger = initialized_ledger();

    let large_value = i128::MAX - 100;
    ledger.record_metrics(BACKEND, USER, large_value, 10, 20).unwrap();

    let result = ledger.record_metrics(BACKEND, USER, 101, 1, 1);
    assert_eq!(result, Err(BalanceLedgerError::Overflow));

    let metrics = ledger.get_metrics(USER);
    assert_eq!(metrics.total_staked, large_value);
    assert_eq!(metrics.total_won, 10);
    assert_eq!(metrics.total_lost, 20);
}

#[test]
fn apply_delta_prevents_overflow_on_withdrawable() {
    let mut ledger = initialized_ledger();

    let large_value = i128::MAX - 100;
    ledger.set_balance(BACKEND, USER, large_value, 0).unwrap();

    let result = ledger.apply_delta(BACKEND, USER, 101, 0);
    assert_eq!(result, Err(BalanceLedgerError::Overflow));
}

#[test]
fn apply_delta_prevents_overflow_on_locked() {
    let mut ledger = initialized_ledger();

    let large_value = i128::MAX - 50;
    ledger.set_balance(BACKEND, USER, 0, large_value).unwrap();

    let result = ledger.apply_delta(BACKEND, USER, 0, 51);
    assert_eq!(result, Err(BalanceLedgerError::Overflow));
}

#[test]
fn set_balance_without_backend_auth_is_rejected() {
    let mut ledger = initialized_ledger();
    let intruder = 99;
    assert_eq!(
        ledger.set_balance(intruder, USER, 1000, 500),
        Err(BalanceLedgerError::Unauthorized)
    );
}

#[test]
fn apply_delta_without_backend_auth_is_rejected() {
    let mut ledger = initialized_ledger();
    let intruder = 99;
    assert_eq!(
        ledger.apply_delta(intruder, USER, 100, -50),
        Err(BalanceLedgerError::Unauthorized)
    );
}

#[test]
fn lock_funds_without_backend_auth_is_rejected() {
    let mut ledger = initialized_ledger();
    let intruder = 99;
    assert_eq!(
        ledger.lock_funds(intruder, USER, 100),
        Err(BalanceLedgerError::Unauthorized)
    );
}

#[test]
fn unlock_funds_without_backend_auth_is_rejected() {
    let mut ledger = initialized_ledger();
    let intruder = 99;
    assert_eq!(
        ledger.unlock_funds(intruder, USER, 100),
        Err(BalanceLedgerError::Unauthorized)
    );
}

#[test]
fn record_metrics_without_backend_auth_is_rejected() {
    let mut ledger = initialized_ledger();
    let intruder = 99;
    assert_eq!(
        ledger.record_metrics(intruder, USER, 100, 50, 25),
        Err(BalanceLedgerError::Unauthorized)
    );
}

#[test]
fn uninitialized_ledger_rejects_mutations() {
    let mut ledger = BalanceLedgerContract::new();
    assert_eq!(
        ledger.set_balance(BACKEND, USER, 10, 0),
        Err(BalanceLedgerError::Unauthorized)
    );
}

#[test]
fn lock_funds_with_zero_amount_fails() {
    let mut ledger = initialized_ledger();
    ledger.set_balance(BACKEND, USER, 1000, 0).unwrap();

    let result = ledger.lock_funds(BACKEND, USER, 0);
    assert_eq!(result, Err(BalanceLedgerError::InvalidAmount));
}

#[test]
fn unlock_funds_with_zero_amount_fails() {
    let mut ledger = initialized_ledger();
    ledger.set_balance(BACKEND, USER, 0, 1000).unwrap();

    let result = ledger.unlock_funds(BACKEND, USER, 0);
    assert_eq!(result, Err(BalanceLedgerError::InvalidAmount));
}

#[test]
fn lock_funds_with_negative_amount_fails() {
    let mut ledger = initialized_ledger();
    ledger.set_balance(BACKEND, USER, 1000, 0).unwrap();

    let result = ledger.lock_funds(BACKEND, USER, -100);
    assert_eq!(result, Err(BalanceLedgerError::InvalidAmount));
}

#[test]
fn unlock_funds_with_negative_amount_fails() {
    let mut ledger = initialized_ledger();
    ledger.set_balance(BACKEND, USER, 0, 1000).unwrap();

    let result = ledger.unlock_funds(BACKEND, USER, -100);
    assert_eq!(result, Err(BalanceLedgerError::InvalidAmount));
}

#[test]
fn set_balance_with_negative_locked_fails() {
    let mut ledger = initialized_ledger();

    let result = ledger.set_balance(BACKEND, USER, 100, -50);
    assert_eq!(result, Err(BalanceLedgerError::InvalidAmount));
}

#[test]
fn get_balance_returns_zero_for_new_user() {
    let ledger = initialized_ledger();

    let balance = ledger.get_balance(USER);
    assert_eq!(balance.withdrawable, 0);
    assert_eq!(balance.locked, 0);
}

#[test]
fn get_metrics_returns_zero_for_new_user() {
    let ledger = initialized_ledger();

    let metrics = ledger.get_metrics(USER);
    assert_eq!(metrics.total_staked, 0);
    assert_eq!(metrics.total_won, 0);
    assert_eq!(metrics.total_lost, 0);
}

#[test]
fn get_withdrawable_returns_zero_for_new_user() {
    let ledger = initialized_ledger();
    assert_eq!(ledger.get_withdrawable(USER), 0);
}

#[test]
fn get_locked_returns_zero_for_new_user() {
    let ledger = initialized_ledger();
    assert_eq!(ledger.get_locked(USER), 0);
}

#[test]
fn get_total_returns_zero_for_new_user() {
    let ledger = initialized_ledger();
    assert_eq!(ledger.get_total(USER).unwrap(), 0);
}

#[test]
fn apply_delta_with_zero_values_succeeds() {
    let mut ledger = initialized_ledger();
    ledger.set_balance(BACKEND, USER, 500, 200).unwrap();

    let updated = ledger.apply_delta(BACKEND, USER, 0, 0).unwrap();
    assert_eq!(updated.withdrawable, 500);
    assert_eq!(updated.locked, 200);
}

#[test]
fn multiple_users_balances_isolated() {
    let mut ledger = initialized_ledger();
    let user1 = 2;
    let user2 = 3;
    let user3 = 4;

    ledger.set_balance(BACKEND, user1, 1000, 500).unwrap();
    ledger.set_balance(BACKEND, user2, 2000, 1000).unwrap();
    ledger.set_balance(BACKEND, user3, 0, 0).unwrap();

    let balance1 = ledger.get_balance(user1);
    let balance2 = ledger.get_balance(user2);
    let balance3 = ledger.get_balance(user3);

    assert_eq!(balance1.withdrawable, 1000);
    assert_eq!(balance1.locked, 500);

    assert_eq!(balance2.withdrawable, 2000);
    assert_eq!(balance2.locked, 1000);

    assert_eq!(balance3.withdrawable, 0);
    assert_eq!(balance3.locked, 0);

    ledger.lock_funds(BACKEND, user1, 200).unwrap();

    let balance1_after = ledger.get_balance(user1);
    let balance2_after = ledger.get_balance(user2);

    assert_eq!(balance1_after.withdrawable, 800);
    assert_eq!(balance1_after.locked, 700);

    assert_eq!(balance2_after.withdrawable, 2000);
    assert_eq!(balance2_after.locked, 1000);
}

#[test]
fn record_metrics_with_zero_deltas_succeeds() {
    let mut ledger = initialized_ledger();

    ledger.record_metrics(BACKEND, USER, 100, 50, 25).unwrap();

    let metrics = ledger.record_metrics(BACKEND, USER, 0, 0, 0).unwrap();

    assert_eq!(metrics.total_staked, 100);
    assert_eq!(metrics.total_won, 50);
    assert_eq!(metrics.total_lost, 25);
}

#[test]
fn lock_exact_withdrawable_amount_succeeds() {
    let mut ledger = initialized_ledger();
    ledger.set_balance(BACKEND, USER, 500, 0).unwrap();

    let result = ledger.lock_funds(BACKEND, USER, 500).unwrap();
    assert_eq!(result.withdrawable, 0);
    assert_eq!(result.locked, 500);
}

#[test]
fn unlock_exact_locked_amount_succeeds() {
    let mut ledger = initialized_ledger();
    ledger.set_balance(BACKEND, USER, 0, 500).unwrap();

    let result = ledger.unlock_funds(BACKEND, USER, 500).unwrap();
    assert_eq!(result.withdrawable, 500);
    assert_eq!(result.locked, 0);
}

#[test]
fn lock_then_unlock_same_amount_restores_both_buckets() {
    let mut ledger = initialized_ledger();
    ledger.set_balance(BACKEND, USER, 500, 0).unwrap();

    let locked = ledger.lock_funds(BACKEND, USER, 500).unwrap();
    assert_eq!(locked.withdrawable, 0);
    assert_eq!(locked.locked, 500);

    let unlocked = ledger.unlock_funds(BACKEND, USER, 500).unwrap();
    assert_eq!(unlocked.withdrawable, 500);
    assert_eq!(unlocked.locked, 0);
}

#[test]
fn lock_overflow_on_locked_bucket_is_rejected() {
    let mut ledger = initialized_ledger();
    ledger.set_balance(BACKEND, USER, 10, i128::MAX).unwrap();

    let result = ledger.lock_funds(BACKEND, USER, 1);
    assert_eq!(result, Err(BalanceLedgerError::Overflow));
}

#[test]
fn balance_events_carry_before_and_after_values() {
    let mut ledger = initialized_ledger();
    ledger.set_balance(BACKEND, USER, 200, 75).unwrap();
    ledger.apply_delta(BACKEND, USER, -25, 125).unwrap();

    let events = ledger.event_log();
    assert_eq!(events.len(), 2);
    match &events[1] {
        wager_core::ledger::LedgerEvent::BalanceUpdated(ev) => {
            assert_eq!(ev.user, USER);
            assert_eq!(ev.previous.withdrawable, 200);
            assert_eq!(ev.previous.locked, 75);
            assert_eq!(ev.updated.withdrawable, 175);
            assert_eq!(ev.updated.locked, 200);
        }
        other => panic!("unexpected event {:?}", other),
    }
}

#[test]
fn checked_add_reports_overflow_at_both_ends() {
    assert_eq!(wager_core::ledger::checked_add(1, 2), Ok(3));
    assert_eq!(
        wager_core::ledger::checked_add(i128::MAX, 1),
        Err(BalanceLedgerError::Overflow)
    );
    assert_eq!(
        wager_core::ledger::checked_add(i128::MIN, -1),
        Err(BalanceLedgerError::Overflow)
    );
}

#[test]
fn validators_accept_and_reject_by_sign() {
    assert!(wager_core::ledger::validate_non_negative(0).is_ok());
    assert!(wager_core::ledger::validate_non_negative(7).is_ok());
    assert_eq!(
        wager_core::ledger::validate_non_negative(-7),
        Err(BalanceLedgerError::InvalidAmount)
    );
    assert!(wager_core::ledger::validate_positive(1).is_ok());
    assert_eq!(
        wager_core::ledger::validate_positive(0),
        Err(BalanceLedgerError::InvalidAmount)
    );
    assert_eq!(
        wager_core::ledger::validate_positive(-1),
        Err(BalanceLedgerError::InvalidAmount)
    );
}
