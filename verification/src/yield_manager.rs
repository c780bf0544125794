//! Strategy-tagged positions: deposits, valuation over time, withdrawals
//! and the aggregate figures kept beside them.

use vstd::prelude::*;
use crate::accrual::{accrued_yield, daily_rate_bp, whole_days};
use crate::error::QuestError;
use crate::host_vec::{
    host_ids, host_ids_readable, host_vec_get, host_vec_len, host_vec_new, host_vec_push_back,
};

verus! {

/// Annual rate, in basis points, that a new pool starts with and that
/// positions are valued at.
pub const BASE_APY_BP: u32 = 500;

/// Where the funds of a position are put to work.
#[derive(Clone, Copy, Debug, PartialEq, Eq, Structural)]
pub enum YieldStrategy {
    LiquidityPool,
    LendingProtocol,
    StableSwap,
    PathPayment,
}

/// One deposit and what it has grown to.
#[derive(Clone, Copy, Debug, PartialEq, Eq, Structural)]
pub struct Position {
    pub id: u64,
    pub strategy: YieldStrategy,
    pub amount_invested: i128,
    pub current_value: i128,
    pub yield_earned: i128,
    pub created_at: u64,
    pub last_updated: u64,
}

/// Aggregate figures of the pool.
#[derive(Clone, Copy, Debug, PartialEq, Eq, Structural)]
pub struct YieldPoolStats {
    pub total_deposited: i128,
    pub total_invested: i128,
    pub total_yield_earned: i128,
    pub current_apy: u32,
    pub active_positions: u32,
}

/// What `amount` is worth after `days` days under a strategy. Every
/// strategy has a rule of its own; for now they all accrue alike.
pub open spec fn strategy_value(strategy: YieldStrategy, amount: int, days: int) -> int {
    match strategy {
        YieldStrategy::LiquidityPool => amount + accrued_yield(amount, BASE_APY_BP as int, days),
        YieldStrategy::LendingProtocol => amount + accrued_yield(amount, BASE_APY_BP as int, days),
        YieldStrategy::StableSwap => amount + accrued_yield(amount, BASE_APY_BP as int, days),
        YieldStrategy::PathPayment => amount + accrued_yield(amount, BASE_APY_BP as int, days),
    }
}

/// Whether the yield of `amount` over `days` days can be computed in 128
/// bits, one multiplication after the other.
pub open spec fn accrual_fits(amount: int, apy_bp: int, days: int) -> bool {
    &&& i128::MIN <= amount * daily_rate_bp(apy_bp) <= i128::MAX
    &&& i128::MIN <= amount * daily_rate_bp(apy_bp) * days <= i128::MAX
}

/// Whether the position can be valued at `now` in 128 bits.
pub open spec fn valuation_fits(p: Position, now: u64) -> bool {
    &&& p.created_at <= now
    &&& accrual_fits(
        p.amount_invested as int,
        BASE_APY_BP as int,
        whole_days(p.created_at as int, now as int),
    )
    &&& i128::MIN <= value_at(p, now) <= i128::MAX
    &&& i128::MIN <= value_at(p, now) - p.amount_invested <= i128::MAX
}

/// The value of the position at `now`.
pub open spec fn value_at(p: Position, now: u64) -> int {
    strategy_value(p.strategy, p.amount_invested as int, whole_days(p.created_at as int, now as int))
}

/// The position with its value brought up to `now`.
pub open spec fn revalued(p: Position, now: u64) -> Position {
    Position {
        current_value: value_at(p, now) as i128,
        yield_earned: (value_at(p, now) - p.amount_invested) as i128,
        last_updated: now,
        ..p
    }
}

/// The position that a deposit opens.
pub open spec fn opened_position(id: u64, strategy: YieldStrategy, amount: i128, now: u64) -> Position {
    Position {
        id,
        strategy,
        amount_invested: amount,
        current_value: amount,
        yield_earned: 0,
        created_at: now,
        last_updated: now,
    }
}

/// `ids` without every occurrence of `id`, in the same order.
pub open spec fn without(ids: Seq<u64>, id: u64) -> Seq<u64>
    decreases ids.len(),
{
    if ids.len() == 0 {
        Seq::empty()
    } else if ids.last() == id {
        without(ids.drop_last(), id)
    } else {
        without(ids.drop_last(), id).push(ids.last())
    }
}

/// The figures after a deposit of `amount`.
pub open spec fn stats_after_deposit(stats: YieldPoolStats, amount: i128) -> YieldPoolStats {
    YieldPoolStats {
        total_deposited: (stats.total_deposited + amount) as i128,
        total_invested: (stats.total_invested + amount) as i128,
        active_positions: (stats.active_positions + 1) as u32,
        ..stats
    }
}

/// The figures after a withdrawal of `principal` with `yield_earned` on top.
pub open spec fn stats_after_withdrawal(stats: YieldPoolStats, principal: int, yield_earned: int) -> YieldPoolStats {
    YieldPoolStats {
        total_invested: (stats.total_invested - principal) as i128,
        total_yield_earned: (stats.total_yield_earned + yield_earned) as i128,
        active_positions: (stats.active_positions - 1) as u32,
        ..stats
    }
}

/// The manager's records as mathematical values.
pub struct YieldState {
    pub positions: Seq<Position>,
    pub active: Seq<u64>,
    pub stats: YieldPoolStats,
}

impl YieldState {
    /// Whether a position has this id.
    pub open spec fn has_position(self, id: u64) -> bool {
        1 <= id <= self.positions.len()
    }

    /// The position with this id.
    pub open spec fn position(self, id: u64) -> Position
        recommends
            self.has_position(id),
    {
        self.positions[id - 1]
    }

    /// The invariant of the manager: ids count up from one, every position
    /// has earned the difference between its value and what was invested,
    /// and the active set names recorded positions only.
    pub open spec fn wf(self) -> bool {
        &&& self.positions.len() <= u64::MAX
        &&& forall|i: int|
            0 <= i < self.positions.len() ==> {
                let p = #[trigger] self.positions[i];
                &&& p.id == i + 1
                &&& p.yield_earned == p.current_value - p.amount_invested
                &&& p.created_at <= p.last_updated
            }
        &&& forall|k: int| 0 <= k < self.active.len() ==> self.has_position(#[trigger] self.active[k])
        &&& self.active.len() <= u32::MAX
    }

    /// Whether the figures leave room for a deposit of `amount`.
    pub open spec fn deposit_fits(self, amount: i128) -> bool {
        &&& self.positions.len() < u64::MAX
        &&& self.active.len() < u32::MAX
        &&& i128::MIN <= self.stats.total_deposited + amount <= i128::MAX
        &&& i128::MIN <= self.stats.total_invested + amount <= i128::MAX
        &&& self.stats.active_positions < u32::MAX
    }

    /// Whether the position can be valued at `now` and the figures leave
    /// room for its withdrawal.
    pub open spec fn withdrawal_fits(self, id: u64, now: u64) -> bool {
        let p = self.position(id);
        &&& valuation_fits(p, now)
        &&& i128::MIN <= self.stats.total_invested - p.amount_invested <= i128::MAX
        &&& i128::MIN <= self.stats.total_yield_earned + (value_at(p, now) - p.amount_invested) <= i128::MAX
        &&& self.stats.active_positions >= 1
    }
}

/// The yield strategy manager: every position ever opened, the ids of the
/// active ones, and the aggregate figures.
pub struct YieldContract {
    positions: Vec<Position>,
    active_positions: soroban_sdk::Vec<u64>,
    stats: YieldPoolStats,
}

impl View for YieldContract {
    type V = YieldState;

    closed spec fn view(&self) -> YieldState {
        YieldState { positions: self.positions@, active: host_ids(self.active_positions), stats: self.stats }
    }
}

impl YieldContract {
    /// The invariant of the manager: its records are well-formed, and its
    /// active set can be read from the host.
    pub closed spec fn wf(&self) -> bool {
        self@.wf() && host_ids_readable(self.active_positions)
    }

    /// A manager without positions, at the base annual rate. Its active
    /// set is kept in the given host environment.
    pub fn initialize(env: &soroban_sdk::Env) -> (manager: YieldContract)
        ensures
            manager.wf(),
            manager@.positions.len() == 0,
            manager@.active.len() == 0,
            manager@.stats == (YieldPoolStats {
                total_deposited: 0,
                total_invested: 0,
                total_yield_earned: 0,
                current_apy: BASE_APY_BP,
                active_positions: 0,
            }),
    {
        YieldContract {
            positions: Vec::new(),
            active_positions: host_vec_new(env),
            stats: YieldPoolStats {
                total_deposited: 0,
                total_invested: 0,
                total_yield_earned: 0,
                current_apy: BASE_APY_BP,
                active_positions: 0,
            },
        }
    }

    /// Whether the yield of `amount` over `days` days at the annual rate
    /// `apy_bp` can be computed in 128 bits.
    pub fn accrual_in_range(amount: i128, apy_bp: u32, days: u64) -> (fits: bool)
        ensures
            fits == accrual_fits(amount as int, apy_bp as int, days as int),
    {
        let daily_rate: i128 = (apy_bp as i128) * 100 / 36500;
        match amount.checked_mul(daily_rate) {
            Some(scaled) => scaled.checked_mul(days as i128).is_some(),
            None => false,
        }
    }

    /// Whether the position can be valued at `now`.
    pub fn can_value(position: &Position, now: u64) -> (fits: bool)
        ensures
            fits == valuation_fits(*position, now),
    {
        if now < position.created_at {
            return false;
        }
        let days_elapsed: u64 = (now - position.created_at) / 86400;
        if !Self::accrual_in_range(position.amount_invested, BASE_APY_BP, days_elapsed) {
            return false;
        }
        let daily_rate: i128 = (BASE_APY_BP as i128) * 100 / 36500;
        let yield_earned: i128 = (position.amount_invested * daily_rate * (days_elapsed as i128)) / 10000;
        position.amount_invested.checked_add(yield_earned).is_some()
    }

    /// Whether the figures leave room for a deposit of `amount`.
    pub fn can_deposit(&self, amount: i128) -> (fits: bool)
        ensures
            fits == self@.deposit_fits(amount),
    {
        self.positions.len() as u64 != u64::MAX && host_vec_len(&self.active_positions) != u32::MAX
            && self.stats.total_deposited.checked_add(amount).is_some()
            && self.stats.total_invested.checked_add(amount).is_some() && self.stats.active_positions
            != u32::MAX
    }

    /// Whether `update_position` and `get_position` can be called for this
    /// id at `now`: there is no such position, or it can be valued.
    pub fn can_update(&self, position_id: u64, now: u64) -> (fits: bool)
        ensures
            fits == (self@.has_position(position_id) ==> valuation_fits(self@.position(position_id), now)),
    {
        if position_id == 0 || position_id > self.positions.len() as u64 {
            return true;
        }
        Self::can_value(&self.positions[(position_id - 1) as usize], now)
    }

    /// Whether `withdraw` can be called for this id at `now`: there is no
    /// such position, or it can be valued and the figures leave room.
    pub fn can_withdraw(&self, position_id: u64, now: u64) -> (fits: bool)
        ensures
            fits == (self@.has_position(position_id) ==> self@.withdrawal_fits(position_id, now)),
    {
        if position_id == 0 || position_id > self.positions.len() as u64 {
            return true;
        }
        let position = &self.positions[(position_id - 1) as usize];
        if !Self::can_value(position, now) {
            return false;
        }
        let (principal, yield_earned) = Self::withdraw_position(position, now);
        self.stats.total_invested.checked_sub(principal).is_some()
            && self.stats.total_yield_earned.checked_add(yield_earned).is_some()
            && self.stats.active_positions >= 1
    }

    /// Whether `estimate_yield` can be called with these arguments.
    pub fn can_estimate(&self, amount: i128, days: u32) -> (fits: bool)
        ensures
            fits == accrual_fits(amount as int, self@.stats.current_apy as int, days as int),
    {
        Self::accrual_in_range(amount, self.stats.current_apy, days as u64)
    }

    /// The strategy that new deposits go to.
    pub fn determine_optimal_strategy(&self) -> (strategy: YieldStrategy)
        ensures
            strategy == YieldStrategy::LiquidityPool,
    {
        YieldStrategy::LiquidityPool
    }

    /// Opens a position of `amount` under `strategy` and marks it active.
    fn invest(&mut self, strategy: YieldStrategy, amount: i128, now: u64) -> (id: u64)
        requires
            old(self).wf(),
            old(self)@.positions.len() < u64::MAX,
            old(self)@.active.len() < u32::MAX,
        ensures
            final(self).wf(),
            id == old(self)@.positions.len() + 1,
            final(self)@.positions == old(self)@.positions.push(opened_position(id, strategy, amount, now)),
            final(self)@.active == old(self)@.active.push(id),
            final(self)@.stats == old(self)@.stats,
    {
        let new_position_id: u64 = self.positions.len() as u64 + 1;
        let position = Position {
            id: new_position_id,
            strategy,
            amount_invested: amount,
            current_value: amount,
            yield_earned: 0,
            created_at: now,
            last_updated: now,
        };
        self.positions.push(position);
        host_vec_push_back(&mut self.active_positions, new_position_id);
        proof {
            let s = old(self)@;
            let t = self@;
            assert forall|i: int| 0 <= i < t.positions.len() implies {
                let p = #[trigger] t.positions[i];
                &&& p.id == i + 1
                &&& p.yield_earned == p.current_value - p.amount_invested
                &&& p.created_at <= p.last_updated
            } by {
                if i < s.positions.len() {
                    assert(t.positions[i] == s.positions[i]);
                }
            }
            assert forall|k: int| 0 <= k < t.active.len() implies t.has_position(#[trigger] t.active[k]) by {
                if k < s.active.len() {
                    assert(t.active[k] == s.active[k]);
                }
            }
        }
        new_position_id
    }

    /// Takes in `amount` at `now`: opens a position under the strategy of
    /// the day, makes it active and counts it in the figures.
    pub fn deposit(&mut self, amount: i128, now: u64) -> (id: u64)
        requires
            old(self).wf(),
            old(self)@.deposit_fits(amount),
        ensures
            final(self).wf(),
            id == old(self)@.positions.len() + 1,
            final(self)@.positions == old(self)@.positions.push(
                opened_position(id, YieldStrategy::LiquidityPool, amount, now),
            ),
            final(self)@.active == old(self)@.active.push(id),
            final(self)@.stats == stats_after_deposit(old(self)@.stats, amount),
    {
        let strategy = self.determine_optimal_strategy();
        let position_id = self.invest(strategy, amount, now);
        self.stats.total_deposited = self.stats.total_deposited + amount;
        self.stats.total_invested = self.stats.total_invested + amount;
        self.stats.active_positions = self.stats.active_positions + 1;
        position_id
    }

    /// The value of a position at `now`, by the rule of its strategy.
    pub fn query_position_value(position: &Position, now: u64) -> (value: i128)
        requires
            valuation_fits(*position, now),
        ensures
            value == value_at(*position, now),
    {
        let days_elapsed: u64 = (now - position.created_at) / 86400;
        let daily_rate: i128 = (BASE_APY_BP as i128) * 100 / 36500;
        assert(daily_rate == daily_rate_bp(BASE_APY_BP as int));
        let days: i128 = days_elapsed as i128;
        let yield_earned: i128 = match position.strategy {
            YieldStrategy::LiquidityPool => (position.amount_invested * daily_rate * days) / 10000,
            YieldStrategy::LendingProtocol => (position.amount_invested * daily_rate * days) / 10000,
            YieldStrategy::StableSwap => (position.amount_invested * daily_rate * days) / 10000,
            YieldStrategy::PathPayment => (position.amount_invested * daily_rate * days) / 10000,
        };
        position.amount_invested + yield_earned
    }

    /// What closing a position at `now` gives back: the principal, and the
    /// yield on top.
    pub fn withdraw_position(position: &Position, now: u64) -> (amounts: (i128, i128))
        requires
            valuation_fits(*position, now),
        ensures
            amounts.0 == position.amount_invested,
            amounts.1 == value_at(*position, now) - position.amount_invested,
    {
        let principal: i128 = position.amount_invested;
        let final_value: i128 = Self::query_position_value(position, now);
        (principal, final_value - principal)
    }

    /// Strikes `position_id` from the active set.
    fn remove_position(&mut self, env: &soroban_sdk::Env, position_id: u64)
        requires
            old(self).wf(),
        ensures
            final(self).wf(),
            final(self)@.active == without(old(self)@.active, position_id),
            final(self)@.positions == old(self)@.positions,
            final(self)@.stats == old(self)@.stats,
    {
        let mut new_active: soroban_sdk::Vec<u64> = host_vec_new(env);
        let count: u32 = host_vec_len(&self.active_positions);
        let mut i: u32 = 0;
        while i < count
            invariant
                count == self@.active.len(),
                i <= count,
                self@ == old(self)@,
                self.wf(),
                host_ids(new_active) == without(self@.active.take(i as int), position_id),
                host_ids(new_active).len() <= i,
                host_ids_readable(new_active),
                forall|k: int|
                    0 <= k < host_ids(new_active).len() ==> self@.has_position(#[trigger] host_ids(new_active)[k]),
            decreases count - i,
        {
            proof {
                assert(self@.active.take(i + 1).drop_last() =~= self@.active.take(i as int));
                assert(self@.active.take(i + 1).last() == self@.active[i as int]);
                assert(self@.has_position(self@.active[i as int]));
            }
            match host_vec_get(&self.active_positions, i) {
                Some(id) => {
                    if id != position_id {
                        host_vec_push_back(&mut new_active, id);
                    }
                },
                None => {},
            }
            i = i + 1;
        }
        proof {
            assert(self@.active.take(i as int) =~= self@.active);
        }
        self.active_positions = new_active;
    }

    /// Closes a position at `now`: answers principal and yield, takes both
    /// into the figures and strikes the position from the active set. The
    /// record itself stays.
    pub fn withdraw(&mut self, env: &soroban_sdk::Env, position_id: u64, now: u64) -> (result: Result<
        (i128, i128),
        QuestError,
    >)
        requires
            old(self).wf(),
            old(self)@.has_position(position_id) ==> old(self)@.withdrawal_fits(position_id, now),
        ensures
            final(self).wf(),
            final(self)@.positions == old(self)@.positions,
            !old(self)@.has_position(position_id) ==> result == Err::<(i128, i128), QuestError>(
                QuestError::PositionNotFound,
            ) && final(self)@ == old(self)@,
            old(self)@.has_position(position_id) ==> {
                let p = old(self)@.position(position_id);
                let earned = value_at(p, now) - p.amount_invested;
                &&& result is Ok
                &&& result->Ok_0.0 == p.amount_invested
                &&& result->Ok_0.1 == earned
                &&& final(self)@.active == without(old(self)@.active, position_id)
                &&& final(self)@.stats == stats_after_withdrawal(
                    old(self)@.stats,
                    p.amount_invested as int,
                    earned,
                )
            },
    {
        if position_id == 0 || position_id > self.positions.len() as u64 {
            return Err(QuestError::PositionNotFound);
        }
        let idx: usize = (position_id - 1) as usize;
        let (principal, yield_earned) = Self::withdraw_position(&self.positions[idx], now);
        self.stats.total_invested = self.stats.total_invested - principal;
        self.stats.total_yield_earned = self.stats.total_yield_earned + yield_earned;
        self.stats.active_positions = self.stats.active_positions - 1;
        proof {
            let s = old(self)@;
            let t = self@;
            assert(t.positions == s.positions && t.active == s.active);
            assert forall|k: int| 0 <= k < t.active.len() implies t.has_position(#[trigger] t.active[k]) by {
                assert(s.has_position(s.active[k]));
            }
        }
        self.remove_position(env, position_id);
        Ok((principal, yield_earned))
    }

    /// Brings the value of a position up to `now` and answers the position.
    pub fn update_position(&mut self, position_id: u64, now: u64) -> (result: Result<Position, QuestError>)
        requires
            old(self).wf(),
            old(self)@.has_position(position_id) ==> valuation_fits(old(self)@.position(position_id), now),
        ensures
            final(self).wf(),
            final(self)@.active == old(self)@.active,
            final(self)@.stats == old(self)@.stats,
            !old(self)@.has_position(position_id) ==> result == Err::<Position, QuestError>(
                QuestError::PositionNotFound,
            ) && final(self)@ == old(self)@,
            old(self)@.has_position(position_id) ==> {
                let p = revalued(old(self)@.position(position_id), now);
                &&& result == Ok::<Position, QuestError>(p)
                &&& final(self)@.positions == old(self)@.positions.update(position_id - 1, p)
            },
    {
        if position_id == 0 || position_id > self.positions.len() as u64 {
            return Err(QuestError::PositionNotFound);
        }
        let idx: usize = (position_id - 1) as usize;
        let mut position: Position = self.positions[idx];
        let current_value: i128 = Self::query_position_value(&position, now);
        let yield_earned: i128 = current_value - position.amount_invested;
        position.current_value = current_value;
        position.yield_earned = yield_earned;
        position.last_updated = now;
        self.positions.set(idx, position);
        proof {
            let s = old(self)@;
            let t = self@;
            assert forall|i: int| 0 <= i < t.positions.len() implies {
                let p = #[trigger] t.positions[i];
                &&& p.id == i + 1
                &&& p.yield_earned == p.current_value - p.amount_invested
                &&& p.created_at <= p.last_updated
            } by {
                if i != idx {
                    assert(t.positions[i] == s.positions[i]);
                } else {
                    assert(s.positions[i].id == i + 1);
                }
            }
            assert forall|k: int| 0 <= k < t.active.len() implies t.has_position(#[trigger] t.active[k]) by {
                assert(s.has_position(s.active[k]));
            }
        }
        Ok(position)
    }

    /// The position with the given id, valued at `now`, if there is one.
    pub fn get_position(&mut self, position_id: u64, now: u64) -> (result: Option<Position>)
        requires
            old(self).wf(),
            old(self)@.has_position(position_id) ==> valuation_fits(old(self)@.position(position_id), now),
        ensures
            final(self).wf(),
            final(self)@.active == old(self)@.active,
            final(self)@.stats == old(self)@.stats,
            !old(self)@.has_position(position_id) ==> result.is_none() && final(self)@ == old(self)@,
            old(self)@.has_position(position_id) ==> {
                let p = revalued(old(self)@.position(position_id), now);
                &&& result == Some(p)
                &&& final(self)@.positions == old(self)@.positions.update(position_id - 1, p)
            },
    {
        match self.update_position(position_id, now) {
            Ok(position) => Some(position),
            Err(_) => None,
        }
    }

    /// The ids of the active positions, in the order in which they were opened.
    pub fn get_active_positions(&self) -> (ids: Vec<u64>)
        requires
            self.wf(),
        ensures
            ids@ == self@.active,
    {
        let mut ids: Vec<u64> = Vec::new();
        let count: u32 = host_vec_len(&self.active_positions);
        let mut i: u32 = 0;
        while i < count
            invariant
                self.wf(),
                count == self@.active.len(),
                i <= count,
                ids@ == self@.active.take(i as int),
            decreases count - i,
        {
            proof {
                assert(self@.active.take(i + 1) =~= self@.active.take(i as int).push(self@.active[i as int]));
            }
            match host_vec_get(&self.active_positions, i) {
                Some(id) => {
                    ids.push(id);
                },
                None => {},
            }
            i = i + 1;
        }
        proof {
            assert(self@.active.take(i as int) =~= self@.active);
        }
        ids
    }

    /// The aggregate figures.
    pub fn get_pool_stats(&self) -> (stats: YieldPoolStats)
        ensures
            stats == self@.stats,
    {
        self.stats
    }

    /// What `amount` would earn in `days` days at the pool's current annual
    /// rate. Nothing is changed.
    pub fn estimate_yield(&self, amount: i128, days: u32) -> (estimate: i128)
        requires
            accrual_fits(amount as int, self@.stats.current_apy as int, days as int),
        ensures
            estimate == accrued_yield(amount as int, self@.stats.current_apy as int, days as int),
    {
        let apy: i128 = self.stats.current_apy as i128;
        let daily_rate: i128 = apy * 100 / 36500;
        (amount * daily_rate * (days as i128)) / 10000
    }
}

} // verus!
