use quest_engine::error::QuestError;
use quest_engine::pool::{Pool, PoolLedger};
use quest_engine::yield_manager::{Position, YieldContract, YieldPoolStats, YieldStrategy};
use soroban_sdk::testutils::EnvTestConfig;
use soroban_sdk::Env;

const DAY: u64 = 86400;
const T0: u64 = 1_700_000_000;

fn host() -> Env {
    Env::new_with_config(EnvTestConfig { capture_snapshot_at_drop: false })
}

#[test]
fn a_new_manager_starts_at_five_percent() {
    let manager = YieldContract::initialize(&host());
    assert_eq!(
        manager.get_pool_stats(),
        YieldPoolStats {
            total_deposited: 0,
            total_invested: 0,
            total_yield_earned: 0,
            current_apy: 500,
            active_positions: 0,
        }
    );
    assert!(manager.get_active_positions().is_empty());
    assert_eq!(manager.determine_optimal_strategy(), YieldStrategy::LiquidityPool);
}

#[test]
fn deposit_opens_an_active_position() {
    let mut manager = YieldContract::initialize(&host());
    assert_eq!(manager.deposit(10_000_000, T0), 1);
    assert_eq!(manager.deposit(20_000_000, T0 + 5), 2);
    let stats = manager.get_pool_stats();
    assert_eq!(stats.total_deposited, 30_000_000);
    assert_eq!(stats.total_invested, 30_000_000);
    assert_eq!(stats.total_yield_earned, 0);
    assert_eq!(stats.active_positions, 2);
    assert_eq!(manager.get_active_positions(), vec![1, 2]);
    let position = manager.get_position(2, T0 + 5).unwrap();
    assert_eq!(
        position,
        Position {
            id: 2,
            strategy: YieldStrategy::LiquidityPool,
            amount_invested: 20_000_000,
            current_value: 20_000_000,
            yield_earned: 0,
            created_at: T0 + 5,
            last_updated: T0 + 5,
        }
    );
}

#[test]
fn value_accrues_one_basis_point_a_day() {
    let mut manager = YieldContract::initialize(&host());
    let id = manager.deposit(10_000_000, T0);
    let position = manager.update_position(id, T0 + 30 * DAY + 17).unwrap();
    assert_eq!(position.current_value, 10_030_000);
    assert_eq!(position.yield_earned, 30_000);
    assert_eq!(position.last_updated, T0 + 30 * DAY + 17);
    assert_eq!(position.amount_invested, 10_000_000);
    let same_day = manager.update_position(id, T0 + 31 * DAY - 1).unwrap();
    assert_eq!(same_day.current_value, 10_030_000);
    assert_eq!(Position::clone(&same_day).yield_earned, 30_000);
    assert_eq!(YieldContract::query_position_value(&position, T0 + DAY), 10_001_000);
    assert_eq!(YieldContract::query_position_value(&position, T0 + DAY - 1), 10_000_000);
}

#[test]
fn small_amounts_lose_the_fraction() {
    let mut manager = YieldContract::initialize(&host());
    let id = manager.deposit(9_999, T0);
    assert_eq!(manager.update_position(id, T0 + DAY).unwrap().yield_earned, 0);
    assert_eq!(manager.update_position(id, T0 + 2 * DAY).unwrap().yield_earned, 1);
    assert_eq!(manager.update_position(id, T0 + 3 * DAY).unwrap().current_value, 10_001);
}

#[test]
fn withdraw_returns_principal_and_yield() {
    let env = host();
    let mut manager = YieldContract::initialize(&env);
    let a = manager.deposit(50_000_000, T0);
    let b = manager.deposit(10_000_000, T0);
    let c = manager.deposit(1_000_000, T0);
    assert_eq!(manager.withdraw(&env, b, T0 + 7 * DAY), Ok((10_000_000, 7_000)));
    let stats = manager.get_pool_stats();
    assert_eq!(stats.total_deposited, 61_000_000);
    assert_eq!(stats.total_invested, 51_000_000);
    assert_eq!(stats.total_yield_earned, 7_000);
    assert_eq!(stats.active_positions, 2);
    assert_eq!(manager.get_active_positions(), vec![a, c]);
    let kept = manager.get_position(b, T0).unwrap();
    assert_eq!(kept.id, b);
    assert_eq!(kept.amount_invested, 10_000_000);
}

#[test]
fn unknown_positions_are_not_found() {
    let env = host();
    let mut manager = YieldContract::initialize(&env);
    manager.deposit(1, T0);
    assert_eq!(manager.withdraw(&env, 0, T0), Err(QuestError::PositionNotFound));
    assert_eq!(manager.withdraw(&env, 2, T0), Err(QuestError::PositionNotFound));
    assert_eq!(manager.update_position(7, T0), Err(QuestError::PositionNotFound));
    assert_eq!(manager.get_position(7, T0), None);
    assert_eq!(manager.get_pool_stats().active_positions, 1);
    assert_eq!(manager.get_active_positions(), vec![1]);
}

#[test]
fn estimate_is_exact_and_changes_nothing() {
    let mut manager = YieldContract::initialize(&host());
    manager.deposit(10_000_000, T0);
    let stats = manager.get_pool_stats();
    let first = manager.estimate_yield(10_000_000, 30);
    let second = manager.estimate_yield(10_000_000, 30);
    assert_eq!(first, 30_000);
    assert_eq!(first, second);
    assert_eq!(manager.get_pool_stats(), stats);
    assert_eq!(manager.estimate_yield(123_456_789, 90), 1_111_111);
    assert_eq!(manager.estimate_yield(0, 90), 0);
    assert_eq!(manager.estimate_yield(5, 0), 0);
    assert_eq!(manager.estimate_yield(-15_000, 1), -1);
    assert_eq!(manager.estimate_yield(-9_999, 1), 0);
}

#[test]
fn every_strategy_accrues_alike() {
    for strategy in [
        YieldStrategy::LiquidityPool,
        YieldStrategy::LendingProtocol,
        YieldStrategy::StableSwap,
        YieldStrategy::PathPayment,
    ] {
        let position = Position {
            id: 1,
            strategy,
            amount_invested: 2_000_000,
            current_value: 2_000_000,
            yield_earned: 0,
            created_at: T0,
            last_updated: T0,
        };
        assert_eq!(YieldContract::query_position_value(&position, T0 + 10 * DAY), 2_002_000);
        assert_eq!(YieldContract::withdraw_position(&position, T0 + 10 * DAY), (2_000_000, 2_000));
    }
}

#[test]
fn ledger_credit_and_debit_touch_one_pool() {
    let mut ledger = PoolLedger::new();
    ledger.credit(Pool::Yield, 500);
    ledger.credit(Pool::Community, 20);
    ledger.debit(Pool::Yield, 700);
    assert_eq!(ledger.balance(Pool::Yield), -200);
    assert_eq!(ledger.balance(Pool::Community), 20);
    ledger.debit(Pool::Community, 5);
    assert_eq!(ledger, PoolLedger { community_pool: 15, yield_pool: -200 });
}

#[test]
fn withdrawing_strikes_every_mention_and_keeps_the_order() {
    let env = host();
    let mut manager = YieldContract::initialize(&env);
    for n in 1..=5u64 {
        assert_eq!(manager.deposit(1_000 * n as i128, T0), n);
    }
    assert_eq!(manager.get_active_positions(), vec![1, 2, 3, 4, 5]);
    assert!(manager.can_withdraw(3, T0 + DAY));
    assert_eq!(manager.withdraw(&env, 3, T0 + DAY), Ok((3_000, 0)));
    assert_eq!(manager.get_active_positions(), vec![1, 2, 4, 5]);
    assert_eq!(manager.withdraw(&env, 1, T0 + 20 * DAY), Ok((1_000, 2)));
    assert_eq!(manager.withdraw(&env, 5, T0 + 20 * DAY), Ok((5_000, 10)));
    assert_eq!(manager.get_active_positions(), vec![2, 4]);
    let stats = manager.get_pool_stats();
    assert_eq!(stats.total_deposited, 15_000);
    assert_eq!(stats.total_invested, 6_000);
    assert_eq!(stats.total_yield_earned, 12);
    assert_eq!(stats.active_positions, 2);
}

#[test]
fn range_checks_tell_when_a_call_fits() {
    let env = host();
    let mut manager = YieldContract::initialize(&env);
    assert!(manager.can_deposit(i128::MAX));
    manager.deposit(i128::MAX, T0);
    assert!(!manager.can_deposit(1));
    assert!(manager.can_deposit(-1));
    assert!(manager.can_update(1, T0 + DAY - 1));
    assert!(!manager.can_update(1, T0 + DAY));
    assert!(!manager.can_update(1, T0 - 1));
    assert!(manager.can_update(2, 0));
    assert!(!manager.can_withdraw(1, T0 + DAY));
    assert!(manager.can_withdraw(1, T0));
    assert!(manager.can_estimate(i128::MAX, 1));
    assert!(!manager.can_estimate(i128::MAX, 2));
    assert!(manager.can_estimate(i128::MIN, 1));
    assert!(YieldContract::accrual_in_range(1_000_000, 500, u64::MAX));
    assert!(!YieldContract::accrual_in_range(i128::MAX / 2, 36_500 * 3, 0));
    let position = manager.get_position(1, T0).unwrap();
    assert!(YieldContract::can_value(&position, T0));
    assert!(!YieldContract::can_value(&position, T0 - 1));
}
