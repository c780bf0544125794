//! Staking-and-reward engine for time-boxed accountability quests.
//!
//! A user locks a stake, commits to a daily activity target for a fixed
//! number of days, and at the end either gets the stake back with a yield
//! share and a bonus, or forfeits it to a community pool. The crate holds
//! the quest state machine, the pool ledger behind every payout, and the
//! yield-strategy bookkeeping; beside them the registries of activity
//! proofs, of badges and of the players' score cards. Every function
//! carries a contract that is checked by Verus; only what `host_vec` says
//! of the host's vector is taken on trust.

pub mod accrual;
pub mod badge;
pub mod error;
pub mod host_vec;
pub mod laws;
pub mod player;
pub mod pool;
pub mod quest;
pub mod quest_proofs;
pub mod verification;
pub mod yield_manager;
