//! The quest state machine: creation, daily logging and settlement.

use vstd::prelude::*;
use crate::error::QuestError;
use crate::pool::{Pool, PoolLedger};
use crate::quest_proofs::{
    lemma_created_keeps_wf, lemma_logged_keeps_wf, lemma_settled_keeps_wf, lemma_yield_share_table,
};

verus! {

/// What a quest is about.
#[derive(Clone, Copy, Debug, PartialEq, Eq, Structural)]
pub enum QuestType {
    JobApplications,
    InterviewPrep,
    Networking,
    SkillBuilding,
}

/// Where a quest stands. Everything but `Active` is final.
#[derive(Clone, Copy, Debug, PartialEq, Eq, Structural)]
pub enum QuestStatus {
    Active,
    Completed,
    Failed,
    Cancelled,
}

/// One commitment of one user.
#[derive(Debug)]
pub struct Quest {
    pub id: u64,
    pub user: String,
    pub quest_type: QuestType,
    pub daily_target: u32,
    pub duration_days: u32,
    pub stake_amount: i128,
    pub grace_days: u32,
    pub start_time: u64,
    pub end_time: u64,
    pub status: QuestStatus,
    pub days_completed: u32,
    pub grace_days_used: u32,
    pub yield_accrued: i128,
}

/// What was logged for one day of one quest.
#[derive(Debug)]
pub struct DailyLog {
    pub quest_id: u64,
    pub day: u32,
    pub activities_logged: u32,
    pub timestamp: u64,
    pub verification_hash: String,
}

/// The durations a quest may run for, in days.
pub open spec fn valid_duration(duration_days: u32) -> bool {
    duration_days == 7 || duration_days == 14 || duration_days == 30 || duration_days == 90
}

/// What a quest may be created with.
pub open spec fn valid_parameters(daily_target: u32, duration_days: u32, grace_days: u32) -> bool {
    1 <= daily_target <= 10 && valid_duration(duration_days) && grace_days <= 3
}

/// The stake that a duration asks for, in the token's smallest unit.
pub open spec fn stake_for(duration_days: u32) -> int {
    if duration_days == 7 {
        10_000_000
    } else if duration_days == 14 {
        20_000_000
    } else if duration_days == 30 {
        50_000_000
    } else if duration_days == 90 {
        100_000_000
    } else {
        0
    }
}

/// Daily rate of the settlement formula, in basis points: five percent a
/// year, truncated to whole basis points before anything is multiplied.
pub open spec fn settlement_daily_rate_bp() -> int {
    5int * 100 / 365
}

/// The yield share of a successful quest.
pub open spec fn yield_share_of(stake_amount: int, duration_days: int) -> int {
    crate::accrual::div_toward_zero(stake_amount * settlement_daily_rate_bp() * duration_days, 10000)
}

/// The bonus that a successful settlement draws from the community pool.
pub open spec fn bonus_of(community_pool: int) -> int {
    if community_pool > 0 {
        community_pool / 100
    } else {
        0
    }
}

/// The quest as it stands right after creation.
pub open spec fn opened_quest(
    id: u64,
    user: String,
    quest_type: QuestType,
    daily_target: u32,
    duration_days: u32,
    grace_days: u32,
    now: u64,
) -> Quest {
    Quest {
        id,
        user,
        quest_type,
        daily_target,
        duration_days,
        stake_amount: stake_for(duration_days) as i128,
        grace_days,
        start_time: now,
        end_time: (now + duration_days * 86400) as u64,
        status: QuestStatus::Active,
        days_completed: 0,
        grace_days_used: 0,
        yield_accrued: 0,
    }
}

/// `q` with one more completed day if `met`, and otherwise unchanged.
pub open spec fn progressed(q: Quest, met: bool) -> Quest {
    if met {
        Quest { days_completed: (q.days_completed + 1) as u32, ..q }
    } else {
        q
    }
}

/// `q` after settlement.
pub open spec fn settled(q: Quest) -> Quest {
    if q.duration_days - q.days_completed <= q.grace_days {
        Quest {
            status: QuestStatus::Completed,
            yield_accrued: yield_share_of(q.stake_amount as int, q.duration_days as int) as i128,
            ..q
        }
    } else {
        Quest { status: QuestStatus::Failed, ..q }
    }
}

/// Whether `log` is an entry of quest `id` for day `day`.
pub open spec fn log_is_for(log: DailyLog, id: u64, day: int) -> bool {
    log.quest_id == id && log.day == day
}

/// The days of quest `id` on which at least `target` activities were logged.
pub open spec fn met_days(logs: Seq<DailyLog>, id: u64, target: u32) -> Set<int> {
    Set::new(
        |day: int|
            exists|i: int|
                0 <= i < logs.len() && log_is_for(#[trigger] logs[i], id, day)
                    && logs[i].activities_logged >= target,
    )
}

/// What a quest adds to the yield pool: its stake while it is active, and
/// the yield that was paid on top once it has been completed.
pub open spec fn yield_weight(q: Quest) -> int {
    match q.status {
        QuestStatus::Active => q.stake_amount as int,
        QuestStatus::Completed => -(q.yield_accrued as int),
        _ => 0,
    }
}

/// What a quest has handed to the community pool: its stake once it failed.
pub open spec fn forfeit_weight(q: Quest) -> int {
    match q.status {
        QuestStatus::Failed => q.stake_amount as int,
        _ => 0,
    }
}

/// The sum of `yield_weight` over all quests.
pub open spec fn yield_backing(quests: Seq<Quest>) -> int
    decreases quests.len(),
{
    if quests.len() == 0 {
        0
    } else {
        yield_backing(quests.drop_last()) + yield_weight(quests.last())
    }
}

/// The sum of `forfeit_weight` over all quests.
pub open spec fn forfeited(quests: Seq<Quest>) -> int
    decreases quests.len(),
{
    if quests.len() == 0 {
        0
    } else {
        forfeited(quests.drop_last()) + forfeit_weight(quests.last())
    }
}

/// What the yield pool has to cover: stake and accrued yield of every
/// quest that is still active.
pub open spec fn active_obligations(quests: Seq<Quest>) -> int
    decreases quests.len(),
{
    if quests.len() == 0 {
        0
    } else {
        active_obligations(quests.drop_last()) + (if quests.last().status == QuestStatus::Active {
            quests.last().stake_amount + quests.last().yield_accrued
        } else {
            0
        })
    }
}

/// The ids of the quests of `user`, oldest first.
pub open spec fn owned_ids(quests: Seq<Quest>, user: Seq<char>) -> Seq<u64>
    decreases quests.len(),
{
    if quests.len() == 0 {
        Seq::empty()
    } else if quests.last().user@ == user {
        owned_ids(quests.drop_last(), user).push(quests.last().id)
    } else {
        owned_ids(quests.drop_last(), user)
    }
}

/// The engine's records as mathematical values.
pub struct QuestState {
    pub quests: Seq<Quest>,
    pub logs: Seq<DailyLog>,
    pub community_pool: int,
    pub yield_pool: int,
}

impl QuestState {
    /// Whether a quest has this id.
    pub open spec fn has_quest(self, id: u64) -> bool {
        1 <= id <= self.quests.len()
    }

    /// The quest with this id.
    pub open spec fn quest(self, id: u64) -> Quest
        recommends
            self.has_quest(id),
    {
        self.quests[id - 1]
    }

    /// Whether the given day of the given quest has a log.
    pub open spec fn has_log(self, id: u64, day: int) -> bool {
        exists|i: int| 0 <= i < self.logs.len() && log_is_for(#[trigger] self.logs[i], id, day)
    }

    /// What holds of the quest at position `i`, whatever happened so far.
    pub open spec fn quest_ok(self, i: int) -> bool {
        let q = self.quests[i];
        &&& q.id == i + 1
        &&& valid_parameters(q.daily_target, q.duration_days, q.grace_days)
        &&& q.stake_amount == stake_for(q.duration_days)
        &&& q.end_time == q.start_time + q.duration_days * 86400
        &&& q.days_completed == met_days(self.logs, q.id, q.daily_target).len()
        &&& q.days_completed <= q.duration_days
        &&& q.grace_days_used == 0
        &&& q.status == QuestStatus::Active ==> q.yield_accrued == 0
        &&& q.status == QuestStatus::Completed ==> q.yield_accrued == yield_share_of(
            q.stake_amount as int,
            q.duration_days as int,
        )
    }

    /// What holds of the log at position `i`.
    pub open spec fn log_ok(self, i: int) -> bool {
        let log = self.logs[i];
        &&& self.has_quest(log.quest_id)
        &&& log.day < self.quest(log.quest_id).duration_days
        &&& log.timestamp >= self.quest(log.quest_id).start_time
        &&& log.day == crate::accrual::whole_days(
            self.quest(log.quest_id).start_time as int,
            log.timestamp as int,
        )
    }

    /// The invariant of the engine: ids count up from one, every quest keeps
    /// its creation parameters and its table stake, progress is what the
    /// logs show, no day is logged twice, and the pools hold exactly what the
    /// quests account for.
    pub open spec fn wf(self) -> bool {
        &&& self.quests.len() <= u64::MAX
        &&& forall|i: int| 0 <= i < self.quests.len() ==> self.quest_ok(i)
        &&& forall|i: int| 0 <= i < self.logs.len() ==> self.log_ok(i)
        &&& forall|i: int, j: int|
            0 <= i < j < self.logs.len() ==> !log_is_for(
                #[trigger] self.logs[i],
                (#[trigger] self.logs[j]).quest_id,
                self.logs[j].day as int,
            )
        &&& self.yield_pool == yield_backing(self.quests)
        &&& 0 <= self.community_pool <= forfeited(self.quests)
    }

    /// The id that the next quest gets.
    pub open spec fn next_id(self) -> u64 {
        (self.quests.len() + 1) as u64
    }

    /// The records after a quest was created: one more quest, and its stake
    /// in the yield pool.
    pub open spec fn created(
        self,
        user: String,
        quest_type: QuestType,
        daily_target: u32,
        duration_days: u32,
        grace_days: u32,
        now: u64,
    ) -> QuestState {
        QuestState {
            quests: self.quests.push(
                opened_quest(self.next_id(), user, quest_type, daily_target, duration_days, grace_days, now),
            ),
            yield_pool: self.yield_pool + stake_for(duration_days),
            ..self
        }
    }

    /// The day of quest `id` that the instant `now` falls on, counted from
    /// zero at the quest's start.
    pub open spec fn day_index(self, id: u64, now: u64) -> int {
        crate::accrual::whole_days(self.quest(id).start_time as int, now as int)
    }

    /// What logging `activities_count` activities at `now` comes to: the
    /// first failing precondition, or whether the day's target was met.
    pub open spec fn log_outcome(self, caller: Seq<char>, id: u64, activities_count: u32, now: u64) -> Result<
        bool,
        QuestError,
    > {
        if !self.has_quest(id) {
            Err(QuestError::QuestNotFound)
        } else if self.quest(id).user@ != caller {
            Err(QuestError::Unauthorized)
        } else if self.quest(id).status != QuestStatus::Active {
            Err(QuestError::QuestNotActive)
        } else if self.day_index(id, now) >= self.quest(id).duration_days {
            Err(QuestError::QuestExpired)
        } else if self.has_log(id, self.day_index(id, now)) {
            Err(QuestError::AlreadyLogged)
        } else {
            Ok(activities_count >= self.quest(id).daily_target)
        }
    }

    /// The records after a log was accepted: one more log, and one more
    /// completed day if the target was met.
    pub open spec fn logged(self, id: u64, activities_count: u32, verification_hash: String, now: u64) -> QuestState {
        QuestState {
            quests: self.quests.update(
                id - 1,
                progressed(self.quest(id), activities_count >= self.quest(id).daily_target),
            ),
            logs: self.logs.push(
                DailyLog {
                    quest_id: id,
                    day: self.day_index(id, now) as u32,
                    activities_logged: activities_count,
                    timestamp: now,
                    verification_hash,
                },
            ),
            ..self
        }
    }

    /// Whether the quest made it: its missed days are within its grace days.
    pub open spec fn succeeded(self, id: u64) -> bool {
        self.quest(id).duration_days - self.quest(id).days_completed <= self.quest(id).grace_days
    }

    /// What is owed to the owner when the quest is settled now: stake, yield
    /// share and bonus for a quest that made it, and nothing otherwise.
    pub open spec fn payout(self, id: u64) -> int {
        if self.succeeded(id) {
            self.quest(id).stake_amount + yield_share_of(
                self.quest(id).stake_amount as int,
                self.quest(id).duration_days as int,
            ) + bonus_of(self.community_pool)
        } else {
            0
        }
    }

    /// What settling at `now` comes to: the first failing precondition, or
    /// the payout owed.
    pub open spec fn settle_outcome(self, id: u64, now: u64) -> Result<int, QuestError> {
        if !self.has_quest(id) {
            Err(QuestError::QuestNotFound)
        } else if self.quest(id).status != QuestStatus::Active {
            Err(QuestError::QuestNotActive)
        } else if now < self.quest(id).end_time {
            Err(QuestError::QuestNotFinished)
        } else {
            Ok(self.payout(id))
        }
    }

    /// The records after settlement. A quest that made it takes stake and
    /// yield share out of the yield pool and its bonus out of the community
    /// pool; one that did not moves its stake from the yield pool to the
    /// community pool.
    pub open spec fn settled_state(self, id: u64) -> QuestState {
        let q = self.quest(id);
        if self.succeeded(id) {
            QuestState {
                quests: self.quests.update(id - 1, settled(q)),
                yield_pool: self.yield_pool - (q.stake_amount + yield_share_of(
                    q.stake_amount as int,
                    q.duration_days as int,
                )),
                community_pool: self.community_pool - bonus_of(self.community_pool),
                ..self
            }
        } else {
            QuestState {
                quests: self.quests.update(id - 1, settled(q)),
                yield_pool: self.yield_pool - q.stake_amount,
                community_pool: self.community_pool + q.stake_amount,
                ..self
            }
        }
    }

    /// History only grows: quests are never removed, their creation
    /// parameters never change, completed days never go down, a settled
    /// quest stays as it was settled, and logs are only appended.
    pub open spec fn precedes(self, later: QuestState) -> bool {
        &&& self.quests.len() <= later.quests.len()
        &&& forall|i: int|
            0 <= i < self.quests.len() ==> {
                let a = #[trigger] self.quests[i];
                let b = later.quests[i];
                &&& b.id == a.id
                &&& b.user == a.user
                &&& b.quest_type == a.quest_type
                &&& b.daily_target == a.daily_target
                &&& b.duration_days == a.duration_days
                &&& b.stake_amount == a.stake_amount
                &&& b.grace_days == a.grace_days
                &&& b.start_time == a.start_time
                &&& b.end_time == a.end_time
                &&& b.days_completed >= a.days_completed
                &&& a.status != QuestStatus::Active ==> b == a
            }
        &&& self.logs.len() <= later.logs.len()
        &&& forall|i: int| 0 <= i < self.logs.len() ==> later.logs[i] == #[trigger] self.logs[i]
    }
}

/// The quest engine: the quest table, the daily log store and the pool
/// ledger, changed together by every operation.
pub struct QuestContract {
    quests: Vec<Quest>,
    logs: Vec<DailyLog>,
    pools: PoolLedger,
}

impl View for QuestContract {
    type V = QuestState;

    closed spec fn view(&self) -> QuestState {
        QuestState {
            quests: self.quests@,
            logs: self.logs@,
            community_pool: self.pools.community_pool as int,
            yield_pool: self.pools.yield_pool as int,
        }
    }
}

impl QuestContract {
    /// An engine without quests or logs, and with empty pools.
    pub fn initialize() -> (engine: QuestContract)
        ensures
            engine@.wf(),
            engine@.quests.len() == 0,
            engine@.logs.len() == 0,
            engine@.community_pool == 0,
            engine@.yield_pool == 0,
    {
        QuestContract { quests: Vec::new(), logs: Vec::new(), pools: PoolLedger::new() }
    }

    /// The stake for a duration.
    pub fn calculate_stake(duration_days: u32) -> (stake: i128)
        requires
            valid_duration(duration_days),
        ensures
            stake == stake_for(duration_days),
    {
        if duration_days == 7 {
            10_000_000
        } else if duration_days == 14 {
            20_000_000
        } else if duration_days == 30 {
            50_000_000
        } else {
            100_000_000
        }
    }

    /// The yield share that a quest earns when it is completed.
    pub fn calculate_yield_share(quest: &Quest) -> (share: i128)
        requires
            i128::MIN <= quest.stake_amount * quest.duration_days <= i128::MAX,
        ensures
            share == yield_share_of(quest.stake_amount as int, quest.duration_days as int),
    {
        let annual_rate: i128 = 5;
        let daily_rate: i128 = annual_rate * 100 / 365;
        let days: i128 = quest.duration_days as i128;
        assert(daily_rate == 1 && settlement_daily_rate_bp() == 1);
        (quest.stake_amount * daily_rate * days) / 10000
    }

    /// Opens a quest for `user`, who the caller has authenticated, at the
    /// time `now`. The id is the next in line, the stake comes from the
    /// table and goes into the yield pool.
    pub fn create_quest(
        &mut self,
        user: String,
        quest_type: QuestType,
        daily_target: u32,
        duration_days: u32,
        grace_days: u32,
        now: u64,
    ) -> (result: Result<u64, QuestError>)
        requires
            old(self)@.wf(),
            old(self)@.quests.len() < u64::MAX,
            valid_duration(duration_days) ==> now + duration_days * 86400 <= u64::MAX,
        ensures
            final(self)@.wf(),
            old(self)@.precedes(final(self)@),
            !valid_parameters(daily_target, duration_days, grace_days) ==> result == Err::<u64, QuestError>(
                QuestError::InvalidParameter,
            ) && final(self)@ == old(self)@,
            valid_parameters(daily_target, duration_days, grace_days) ==> {
                &&& result == Ok::<u64, QuestError>(old(self)@.next_id())
                &&& final(self)@ == old(self)@.created(
                    user,
                    quest_type,
                    daily_target,
                    duration_days,
                    grace_days,
                    now,
                )
                &&& owned_ids(final(self)@.quests, user@) == owned_ids(old(self)@.quests, user@).push(
                    old(self)@.next_id(),
                )
                &&& forall|other: Seq<char>|
                    other != user@ ==> #[trigger] owned_ids(final(self)@.quests, other) == owned_ids(
                        old(self)@.quests,
                        other,
                    )
            },
    {
        if !(daily_target >= 1 && daily_target <= 10) {
            return Err(QuestError::InvalidParameter);
        }
        if !(duration_days == 7 || duration_days == 14 || duration_days == 30 || duration_days == 90) {
            return Err(QuestError::InvalidParameter);
        }
        if grace_days > 3 {
            return Err(QuestError::InvalidParameter);
        }
        let ghost owner = user;
        let stake_amount = Self::calculate_stake(duration_days);
        let new_quest_id: u64 = self.quests.len() as u64 + 1;
        let end_time: u64 = now + (duration_days as u64) * 86400;
        let quest = Quest {
            id: new_quest_id,
            user,
            quest_type,
            daily_target,
            duration_days,
            stake_amount,
            grace_days,
            start_time: now,
            end_time,
            status: QuestStatus::Active,
            days_completed: 0,
            grace_days_used: 0,
            yield_accrued: 0,
        };
        proof {
            lemma_created_keeps_wf(self@, owner, quest_type, daily_target, duration_days, grace_days, now);
        }
        self.quests.push(quest);
        self.pools.credit(Pool::Yield, stake_amount);
        proof {
            let goal = old(self)@.created(owner, quest_type, daily_target, duration_days, grace_days, now);
            assert(self@.quests =~= goal.quests);
        }
        Ok(new_quest_id)
    }

    /// Where the log of the given day of the given quest stands, if there is one.
    fn find_log(&self, quest_id: u64, day: u32) -> (found: Option<usize>)
        ensures
            match found {
                Some(i) => i < self.logs@.len() && log_is_for(self.logs@[i as int], quest_id, day as int),
                None => !self@.has_log(quest_id, day as int),
            },
    {
        let mut i: usize = 0;
        while i < self.logs.len()
            invariant
                i <= self.logs@.len(),
                forall|j: int| 0 <= j < i ==> !log_is_for(#[trigger] self.logs@[j], quest_id, day as int),
            decreases self.logs@.len() - i,
        {
            if self.logs[i].quest_id == quest_id && self.logs[i].day == day {
                return Some(i);
            }
            i = i + 1;
        }
        None
    }

    /// Records the activities of the day that `now` falls on, for the quest's
    /// owner `caller`. Answers whether the day's target was met; a met target
    /// counts one more completed day.
    pub fn log_activity(
        &mut self,
        caller: &String,
        quest_id: u64,
        activities_count: u32,
        verification_hash: String,
        now: u64,
    ) -> (result: Result<bool, QuestError>)
        requires
            old(self)@.wf(),
            old(self)@.has_quest(quest_id) ==> old(self)@.quest(quest_id).start_time <= now,
        ensures
            final(self)@.wf(),
            old(self)@.precedes(final(self)@),
            result == old(self)@.log_outcome(caller@, quest_id, activities_count, now),
            result is Err ==> final(self)@ == old(self)@,
            result is Ok ==> final(self)@ == old(self)@.logged(quest_id, activities_count, verification_hash, now),
    {
        if quest_id == 0 || quest_id > self.quests.len() as u64 {
            return Err(QuestError::QuestNotFound);
        }
        let idx: usize = (quest_id - 1) as usize;
        proof {
            assert(self@.quest_ok(idx as int));
        }
        if !(self.quests[idx].user == *caller) {
            return Err(QuestError::Unauthorized);
        }
        if self.quests[idx].status != QuestStatus::Active {
            return Err(QuestError::QuestNotActive);
        }
        let days_elapsed: u64 = (now - self.quests[idx].start_time) / 86400;
        if days_elapsed >= self.quests[idx].duration_days as u64 {
            return Err(QuestError::QuestExpired);
        }
        let day: u32 = days_elapsed as u32;
        if self.find_log(quest_id, day).is_some() {
            return Err(QuestError::AlreadyLogged);
        }
        let met: bool = activities_count >= self.quests[idx].daily_target;
        proof {
            lemma_logged_keeps_wf(self@, quest_id, activities_count, verification_hash, now);
        }
        let log = DailyLog {
            quest_id,
            day,
            activities_logged: activities_count,
            timestamp: now,
            verification_hash,
        };
        self.logs.push(log);
        if met {
            self.quests[idx].days_completed = self.quests[idx].days_completed + 1;
        }
        proof {
            assert(self@.quests =~= old(self)@.quests.update(
                quest_id - 1,
                progressed(old(self)@.quest(quest_id), met),
            ));
        }
        Ok(met)
    }

    /// Settles a quest whose time is up, exactly once, and answers what is
    /// owed to its owner.
    pub fn complete_quest(&mut self, quest_id: u64, now: u64) -> (result: Result<i128, QuestError>)
        requires
            old(self)@.wf(),
        ensures
            final(self)@.wf(),
            old(self)@.precedes(final(self)@),
            match result {
                Ok(owed) => old(self)@.settle_outcome(quest_id, now) == Ok::<int, QuestError>(owed as int)
                    && final(self)@ == old(self)@.settled_state(quest_id),
                Err(e) => old(self)@.settle_outcome(quest_id, now) == Err::<int, QuestError>(e) && final(self)@
                    == old(self)@,
            },
    {
        if quest_id == 0 || quest_id > self.quests.len() as u64 {
            return Err(QuestError::QuestNotFound);
        }
        let idx: usize = (quest_id - 1) as usize;
        if self.quests[idx].status != QuestStatus::Active {
            return Err(QuestError::QuestNotActive);
        }
        if now < self.quests[idx].end_time {
            return Err(QuestError::QuestNotFinished);
        }
        proof {
            assert(self@.quest_ok(idx as int));
            lemma_settled_keeps_wf(self@, quest_id);
            lemma_yield_share_table(self.quests[idx as int].duration_days);
        }
        let missed_days: u32 = self.quests[idx].duration_days - self.quests[idx].days_completed;
        let stake_amount: i128 = self.quests[idx].stake_amount;
        let owed: i128;
        if missed_days <= self.quests[idx].grace_days {
            let yield_share: i128 = Self::calculate_yield_share(&self.quests[idx]);
            let community_pool: i128 = self.pools.balance(Pool::Community);
            let bonus: i128 = if community_pool > 0 {
                community_pool / 100
            } else {
                0
            };
            self.quests[idx].status = QuestStatus::Completed;
            self.quests[idx].yield_accrued = yield_share;
            self.pools.debit(Pool::Yield, stake_amount + yield_share);
            if bonus > 0 {
                self.pools.debit(Pool::Community, bonus);
            }
            owed = stake_amount + yield_share + bonus;
        } else {
            self.quests[idx].status = QuestStatus::Failed;
            self.pools.debit(Pool::Yield, stake_amount);
            self.pools.credit(Pool::Community, stake_amount);
            owed = 0;
        }
        proof {
            let goal = old(self)@.settled_state(quest_id);
            assert(self@.quests =~= goal.quests);
        }
        Ok(owed)
    }

    /// A copy of the quest with the given id.
    pub fn get_quest(&self, quest_id: u64) -> (result: Result<Quest, QuestError>)
        ensures
            self@.has_quest(quest_id) ==> result == Ok::<Quest, QuestError>(self@.quest(quest_id)),
            !self@.has_quest(quest_id) ==> result == Err::<Quest, QuestError>(QuestError::QuestNotFound),
    {
        if quest_id == 0 || quest_id > self.quests.len() as u64 {
            return Err(QuestError::QuestNotFound);
        }
        let q = &self.quests[(quest_id - 1) as usize];
        Ok(
            Quest {
                id: q.id,
                user: q.user.clone(),
                quest_type: q.quest_type,
                daily_target: q.daily_target,
                duration_days: q.duration_days,
                stake_amount: q.stake_amount,
                grace_days: q.grace_days,
                start_time: q.start_time,
                end_time: q.end_time,
                status: q.status,
                days_completed: q.days_completed,
                grace_days_used: q.grace_days_used,
                yield_accrued: q.yield_accrued,
            },
        )
    }

    /// The ids of the quests of `user`, oldest first.
    pub fn get_user_quests(&self, user: &String) -> (ids: Vec<u64>)
        ensures
            ids@ == owned_ids(self@.quests, user@),
    {
        let mut ids: Vec<u64> = Vec::new();
        let mut i: usize = 0;
        while i < self.quests.len()
            invariant
                i <= self.quests@.len(),
                ids@ == owned_ids(self.quests@.take(i as int), user@),
            decreases self.quests@.len() - i,
        {
            proof {
                assert(self.quests@.take(i + 1).drop_last() =~= self.quests@.take(i as int));
                assert(self.quests@.take(i + 1).last() == self.quests@[i as int]);
            }
            if self.quests[i].user == *user {
                ids.push(self.quests[i].id);
            }
            i = i + 1;
        }
        proof {
            assert(self.quests@.take(i as int) =~= self.quests@);
        }
        ids
    }

    /// A copy of the log of the given day of the given quest, if that day
    /// was logged.
    pub fn get_daily_log(&self, quest_id: u64, day: u32) -> (result: Option<DailyLog>)
        ensures
            match result {
                Some(log) => self@.logs.contains(log) && log_is_for(log, quest_id, day as int),
                None => !self@.has_log(quest_id, day as int),
            },
    {
        match self.find_log(quest_id, day) {
            Some(i) => {
                let log = &self.logs[i];
                let copy = DailyLog {
                    quest_id: log.quest_id,
                    day: log.day,
                    activities_logged: log.activities_logged,
                    timestamp: log.timestamp,
                    verification_hash: log.verification_hash.clone(),
                };
                proof {
                    assert(self@.logs[i as int] == copy);
                }
                Some(copy)
            },
            None => None,
        }
    }

    /// How many quests were created so far, which is also the latest id.
    pub fn quest_count(&self) -> (count: u64)
        ensures
            count == self@.quests.len(),
    {
        self.quests.len() as u64
    }

    /// Whether the yield pool holds at least the stakes, and the yield
    /// accrued on them, of all quests that are still active.
    pub fn covers_active_quests(&self) -> (covered: bool)
        requires
            self@.wf(),
        ensures
            covered == (self@.yield_pool >= active_obligations(self@.quests)),
    {
        let mut owed: i128 = 0;
        let mut i: usize = 0;
        while i < self.quests.len()
            invariant
                self@.wf(),
                i <= self.quests@.len(),
                owed == active_obligations(self.quests@.take(i as int)),
                0 <= owed <= 100_000_000 * i,
            decreases self.quests@.len() - i,
        {
            proof {
                assert(self.quests@.take(i + 1).drop_last() =~= self.quests@.take(i as int));
                assert(self.quests@.take(i + 1).last() == self.quests@[i as int]);
                assert(self@.quest_ok(i as int));
            }
            if self.quests[i].status == QuestStatus::Active {
                owed = owed + (self.quests[i].stake_amount + self.quests[i].yield_accrued);
            }
            i = i + 1;
        }
        proof {
            assert(self.quests@.take(i as int) =~= self.quests@);
        }
        self.pools.balance(Pool::Yield) >= owed
    }

    /// The community pool and the yield pool, in this order.
    pub fn get_pool_stats(&self) -> (balances: (i128, i128))
        ensures
            balances.0 == self@.community_pool,
            balances.1 == self@.yield_pool,
    {
        (self.pools.balance(Pool::Community), self.pools.balance(Pool::Yield))
    }
}

} // verus!
