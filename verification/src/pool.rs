//! The two shared balances behind every payout.

use vstd::prelude::*;

verus! {

/// One of the two accounts of the ledger.
#[derive(Clone, Copy, Debug, PartialEq, Eq, Structural)]
pub enum Pool {
    /// Forfeited stakes, from which bonuses are drawn.
    Community,
    /// Stakes that are at work.
    Yield,
}

/// Two signed balances that change only through `credit` and `debit`.
#[derive(Clone, Copy, Debug, PartialEq, Eq, Structural)]
pub struct PoolLedger {
    pub community_pool: i128,
    pub yield_pool: i128,
}

impl PoolLedger {
    /// The balance of one account.
    pub open spec fn balance_of(self, pool: Pool) -> int {
        match pool {
            Pool::Community => self.community_pool as int,
            Pool::Yield => self.yield_pool as int,
        }
    }

    /// Both balances together.
    pub open spec fn total(self) -> int {
        self.community_pool + self.yield_pool
    }

    /// A ledger with both balances at zero.
    pub fn new() -> (ledger: PoolLedger)
        ensures
            ledger.community_pool == 0,
            ledger.yield_pool == 0,
    {
        PoolLedger { community_pool: 0, yield_pool: 0 }
    }

    /// Reads the balance of one account.
    pub fn balance(&self, pool: Pool) -> (amount: i128)
        ensures
            amount == self.balance_of(pool),
    {
        match pool {
            Pool::Community => self.community_pool,
            Pool::Yield => self.yield_pool,
        }
    }

    /// Adds `amount` to one account and leaves the other as it is.
    pub fn credit(&mut self, pool: Pool, amount: i128)
        requires
            i128::MIN <= old(self).balance_of(pool) + amount <= i128::MAX,
        ensures
            final(self).balance_of(pool) == old(self).balance_of(pool) + amount,
            pool != Pool::Community ==> final(self).community_pool == old(self).community_pool,
            pool != Pool::Yield ==> final(self).yield_pool == old(self).yield_pool,
    {
        match pool {
            Pool::Community => {
                self.community_pool = self.community_pool + amount;
            },
            Pool::Yield => {
                self.yield_pool = self.yield_pool + amount;
            },
        }
    }

    /// Takes `amount` from one account and leaves the other as it is.
    pub fn debit(&mut self, pool: Pool, amount: i128)
        requires
            i128::MIN <= old(self).balance_of(pool) - amount <= i128::MAX,
        ensures
            final(self).balance_of(pool) == old(self).balance_of(pool) - amount,
            pool != Pool::Community ==> final(self).community_pool == old(self).community_pool,
            pool != Pool::Yield ==> final(self).yield_pool == old(self).yield_pool,
    {
        match pool {
            Pool::Community => {
                self.community_pool = self.community_pool - amount;
            },
            Pool::Yield => {
                self.yield_pool = self.yield_pool - amount;
            },
        }
    }
}

} // verus!
