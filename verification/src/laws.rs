//! What holds across several operations of the engine, stated over the
//! same spec functions that the operations' contracts use.

use vstd::prelude::*;
use crate::accrual::accrued_yield;
use crate::error::QuestError;
use crate::quest::{
    bonus_of, log_is_for, owned_ids, stake_for, valid_duration, valid_parameters, yield_share_of, Quest, QuestState,
    QuestStatus, QuestType,
};
use crate::quest_proofs::{lemma_created_keeps_wf, lemma_logged_keeps_wf, lemma_settled_keeps_wf};
use crate::yield_manager::{strategy_value, without, YieldState, YieldStrategy, BASE_APY_BP};

verus! {

/// Every allowed duration has its table stake, which is positive and
/// grows with the duration up to the largest stake.
pub proof fn lemma_stake_table(duration_days: u32)
    requires
        valid_duration(duration_days),
    ensures
        0 < stake_for(duration_days) <= 100_000_000,
        duration_days == 7 ==> stake_for(duration_days) == 10_000_000,
        duration_days == 14 ==> stake_for(duration_days) == 20_000_000,
        duration_days == 30 ==> stake_for(duration_days) == 50_000_000,
        duration_days == 90 ==> stake_for(duration_days) == 100_000_000,
{
}

/// Records precede themselves.
pub proof fn lemma_precedes_reflexive(s: QuestState)
    ensures
        s.precedes(s),
{
}

/// If `a` precedes `b` and `b` precedes `c`, then `a` precedes `c`.
pub proof fn lemma_precedes_transitive(a: QuestState, b: QuestState, c: QuestState)
    requires
        a.precedes(b),
        b.precedes(c),
    ensures
        a.precedes(c),
{
    assert forall|i: int| 0 <= i < a.quests.len() implies {
        let x = #[trigger] a.quests[i];
        let z = c.quests[i];
        &&& z.id == x.id
        &&& z.user == x.user
        &&& z.quest_type == x.quest_type
        &&& z.daily_target == x.daily_target
        &&& z.duration_days == x.duration_days
        &&& z.stake_amount == x.stake_amount
        &&& z.grace_days == x.grace_days
        &&& z.start_time == x.start_time
        &&& z.end_time == x.end_time
        &&& z.days_completed >= x.days_completed
        &&& x.status != QuestStatus::Active ==> z == x
    } by {
        let y = b.quests[i];
        assert(y.id == a.quests[i].id);
    }
    assert forall|i: int| 0 <= i < a.logs.len() implies c.logs[i] == #[trigger] a.logs[i] by {
        assert(b.logs[i] == a.logs[i]);
    }
}

/// Once a day of a quest has a log, logging for an instant of that same
/// day is refused as already logged, whatever the count of activities.
pub proof fn lemma_no_double_logging(
    s: QuestState,
    caller: Seq<char>,
    id: u64,
    first_count: u32,
    first_hash: String,
    first_now: u64,
    second_count: u32,
    second_now: u64,
)
    requires
        s.wf(),
        s.has_quest(id) ==> s.quest(id).start_time <= first_now,
        s.log_outcome(caller, id, first_count, first_now) is Ok,
        s.day_index(id, second_now) == s.day_index(id, first_now),
    ensures
        s.logged(id, first_count, first_hash, first_now).log_outcome(caller, id, second_count, second_now)
            == Err::<bool, QuestError>(QuestError::AlreadyLogged),
{
    let t = s.logged(id, first_count, first_hash, first_now);
    let day = s.day_index(id, first_now);
    assert(s.quest_ok(id - 1));
    let entry = t.logs[s.logs.len() as int];
    assert(log_is_for(entry, id, day));
    assert(t.has_log(id, day));
}

/// A log is there to stay: whatever happens later, the day keeps its log.
pub proof fn lemma_log_stays(s: QuestState, later: QuestState, id: u64, day: int)
    requires
        s.precedes(later),
        s.has_log(id, day),
    ensures
        later.has_log(id, day),
{
    let i = choose|i: int| 0 <= i < s.logs.len() && log_is_for(#[trigger] s.logs[i], id, day);
    assert(later.logs[i] == s.logs[i]);
    assert(log_is_for(later.logs[i], id, day));
}

/// Logging for a day that has a log is always refused, whoever calls and
/// whatever the count; the owner of a quest that is still active is told
/// that the day was already logged.
pub proof fn lemma_logged_day_is_refused(s: QuestState, caller: Seq<char>, id: u64, count: u32, now: u64)
    requires
        s.wf(),
        s.has_log(id, s.day_index(id, now)),
    ensures
        s.has_quest(id),
        s.log_outcome(caller, id, count, now) is Err,
        s.quest(id).user@ == caller && s.quest(id).status == QuestStatus::Active ==> s.log_outcome(
            caller,
            id,
            count,
            now,
        ) == Err::<bool, QuestError>(QuestError::AlreadyLogged),
{
    let day = s.day_index(id, now);
    let i = choose|i: int| 0 <= i < s.logs.len() && log_is_for(#[trigger] s.logs[i], id, day);
    assert(s.log_ok(i));
}

/// A quest is settled once: after a settlement went through, another one
/// of the same quest is refused as not active, at whatever time.
pub proof fn lemma_settlement_exactly_once(s: QuestState, id: u64, now: u64, again: u64)
    requires
        s.wf(),
        s.settle_outcome(id, now) is Ok,
    ensures
        s.settled_state(id).settle_outcome(id, again) == Err::<int, QuestError>(QuestError::QuestNotActive),
{
}

/// A settled quest stays as it was settled: whatever happens later, it is
/// the same record, and settling it is refused as not active.
pub proof fn lemma_settled_stays(s: QuestState, later: QuestState, id: u64, now: u64)
    requires
        s.precedes(later),
        s.has_quest(id),
        s.quest(id).status != QuestStatus::Active,
    ensures
        later.has_quest(id),
        later.quest(id) == s.quest(id),
        later.settle_outcome(id, now) == Err::<int, QuestError>(QuestError::QuestNotActive),
{
    let q = s.quests[id - 1];
    assert(later.quests[id - 1] == q);
}

/// One movement of value into, out of or between the two pools.
pub enum Movement {
    /// A stake was taken in at creation.
    Staked { stake: int },
    /// A quest that made it was paid: principal and yield from the yield
    /// pool, the bonus from the community pool.
    PaidOut { principal: int, yield_share: int, bonus: int },
    /// The stake of a quest that did not make it went to the community pool.
    Forfeited { stake: int },
}

/// The pools, community first, after one movement.
pub open spec fn moved(pools: (int, int), m: Movement) -> (int, int) {
    match m {
        Movement::Staked { stake } => (pools.0, pools.1 + stake),
        Movement::PaidOut { principal, yield_share, bonus } => (pools.0 - bonus, pools.1 - (principal + yield_share)),
        Movement::Forfeited { stake } => (pools.0 + stake, pools.1 - stake),
    }
}

/// What one movement adds to both pools together.
pub open spec fn net(m: Movement) -> int {
    match m {
        Movement::Staked { stake } => stake,
        Movement::PaidOut { principal, yield_share, bonus } => -(principal + yield_share) - bonus,
        Movement::Forfeited { stake } => 0,
    }
}

/// The movement that settling quest `id` makes.
pub open spec fn settlement_movement(s: QuestState, id: u64) -> Movement {
    let q = s.quest(id);
    if s.succeeded(id) {
        Movement::PaidOut {
            principal: q.stake_amount as int,
            yield_share: yield_share_of(q.stake_amount as int, q.duration_days as int),
            bonus: bonus_of(s.community_pool),
        }
    } else {
        Movement::Forfeited { stake: q.stake_amount as int }
    }
}

/// Creating a quest changes the pools by one movement: its stake comes in.
pub proof fn lemma_creation_moves_pools(
    s: QuestState,
    user: String,
    quest_type: QuestType,
    daily_target: u32,
    duration_days: u32,
    grace_days: u32,
    now: u64,
)
    ensures
        ({
            let t = s.created(user, quest_type, daily_target, duration_days, grace_days, now);
            (t.community_pool, t.yield_pool) == moved(
                (s.community_pool, s.yield_pool),
                Movement::Staked { stake: stake_for(duration_days) },
            )
        }),
{
}

/// Settling a quest changes the pools by its one movement, and pays out
/// exactly what leaves the pools.
pub proof fn lemma_settlement_moves_pools(s: QuestState, id: u64)
    requires
        s.wf(),
        s.has_quest(id),
    ensures
        (s.settled_state(id).community_pool, s.settled_state(id).yield_pool) == moved(
            (s.community_pool, s.yield_pool),
            settlement_movement(s, id),
        ),
        s.payout(id) == -net(settlement_movement(s, id)),
{
}

/// One call of the engine, with its arguments.
pub enum Operation {
    Create { user: String, quest_type: QuestType, daily_target: u32, duration_days: u32, grace_days: u32, now: u64 },
    Log { caller: String, id: u64, activities_count: u32, verification_hash: String, now: u64 },
    Settle { id: u64, now: u64 },
}

/// Whether the engine can be called so on these records: the counters and
/// the clock stay within the machine's range.
pub open spec fn admissible(s: QuestState, op: Operation) -> bool {
    match op {
        Operation::Create { duration_days, now, .. } => s.quests.len() < u64::MAX && (valid_duration(
            duration_days,
        ) ==> now + duration_days * 86400 <= u64::MAX),
        Operation::Log { id, now, .. } => s.has_quest(id) ==> s.quest(id).start_time <= now,
        Operation::Settle { .. } => true,
    }
}

/// The records after one call: changed as the call's contract says if the
/// call goes through, and untouched if it is refused.
pub open spec fn applied(s: QuestState, op: Operation) -> QuestState {
    match op {
        Operation::Create { user, quest_type, daily_target, duration_days, grace_days, now } => {
            if valid_parameters(daily_target, duration_days, grace_days) {
                s.created(user, quest_type, daily_target, duration_days, grace_days, now)
            } else {
                s
            }
        },
        Operation::Log { caller, id, activities_count, verification_hash, now } => {
            if s.log_outcome(caller@, id, activities_count, now) is Ok {
                s.logged(id, activities_count, verification_hash, now)
            } else {
                s
            }
        },
        Operation::Settle { id, now } => {
            if s.settle_outcome(id, now) is Ok {
                s.settled_state(id)
            } else {
                s
            }
        },
    }
}

/// What one call adds to both pools together: the stake of a quest that
/// was created, less what a settlement paid out, and nothing otherwise.
pub open spec fn net_of(s: QuestState, op: Operation) -> int {
    match op {
        Operation::Create { daily_target, duration_days, grace_days, .. } => {
            if valid_parameters(daily_target, duration_days, grace_days) {
                net(Movement::Staked { stake: stake_for(duration_days) })
            } else {
                0
            }
        },
        Operation::Log { .. } => 0,
        Operation::Settle { id, now } => {
            if s.settle_outcome(id, now) is Ok {
                net(settlement_movement(s, id))
            } else {
                0
            }
        },
    }
}

/// The records after a run of calls.
pub open spec fn ran(s: QuestState, ops: Seq<Operation>) -> QuestState
    decreases ops.len(),
{
    if ops.len() == 0 {
        s
    } else {
        applied(ran(s, ops.drop_last()), ops.last())
    }
}

/// Whether every call of the run is admissible when its turn comes.
pub open spec fn runnable(s: QuestState, ops: Seq<Operation>) -> bool
    decreases ops.len(),
{
    ops.len() == 0 || (runnable(s, ops.drop_last()) && admissible(ran(s, ops.drop_last()), ops.last()))
}

/// What a run of calls adds to both pools together.
pub open spec fn net_of_run(s: QuestState, ops: Seq<Operation>) -> int
    decreases ops.len(),
{
    if ops.len() == 0 {
        0
    } else {
        net_of_run(s, ops.drop_last()) + net_of(ran(s, ops.drop_last()), ops.last())
    }
}

/// One call, accepted or refused, leaves well-formed records that the
/// earlier ones precede, and changes the pools together by its net.
pub proof fn lemma_one_call(s: QuestState, op: Operation)
    requires
        s.wf(),
        admissible(s, op),
    ensures
        applied(s, op).wf(),
        s.precedes(applied(s, op)),
        applied(s, op).community_pool + applied(s, op).yield_pool == s.community_pool + s.yield_pool + net_of(
            s,
            op,
        ),
{
    match op {
        Operation::Create { user, quest_type, daily_target, duration_days, grace_days, now } => {
            if valid_parameters(daily_target, duration_days, grace_days) {
                lemma_created_keeps_wf(s, user, quest_type, daily_target, duration_days, grace_days, now);
            }
        },
        Operation::Log { caller, id, activities_count, verification_hash, now } => {
            if s.log_outcome(caller@, id, activities_count, now) is Ok {
                lemma_logged_keeps_wf(s, id, activities_count, verification_hash, now);
            }
        },
        Operation::Settle { id, now } => {
            if s.settle_outcome(id, now) is Ok {
                lemma_settled_keeps_wf(s, id);
            }
        },
    }
}

/// Over any run of creations, logs and settlements: the records stay
/// well-formed; history only grows, so completed days never go down and
/// a settled quest stays settled; and the two pools together change by
/// exactly the stakes taken in less principal, yield and bonus paid out.
pub proof fn lemma_any_run(s: QuestState, ops: Seq<Operation>)
    requires
        s.wf(),
        runnable(s, ops),
    ensures
        ran(s, ops).wf(),
        s.precedes(ran(s, ops)),
        ran(s, ops).community_pool + ran(s, ops).yield_pool == s.community_pool + s.yield_pool + net_of_run(
            s,
            ops,
        ),
        forall|id: u64|
            s.has_quest(id) ==> {
                &&& ran(s, ops).has_quest(id)
                &&& s.quest(id).days_completed <= (#[trigger] ran(s, ops).quest(id)).days_completed
                &&& ran(s, ops).quest(id).days_completed <= s.quest(id).duration_days
            },
    decreases ops.len(),
{
    if ops.len() > 0 {
        let before = ran(s, ops.drop_last());
        lemma_any_run(s, ops.drop_last());
        lemma_one_call(before, ops.last());
        lemma_precedes_transitive(s, before, ran(s, ops));
    }
    assert forall|id: u64| s.has_quest(id) implies {
        &&& ran(s, ops).has_quest(id)
        &&& s.quest(id).days_completed <= (#[trigger] ran(s, ops).quest(id)).days_completed
        &&& ran(s, ops).quest(id).days_completed <= s.quest(id).duration_days
    } by {
        assert(ran(s, ops).quest_ok(id - 1));
    }
}

/// Under every strategy a position of a non-negative amount is worth at
/// least what was invested, and never less as more days go by.
pub proof fn lemma_value_never_falls(strategy: YieldStrategy, amount: int, earlier: int, later: int)
    requires
        0 <= amount,
        0 <= earlier <= later,
    ensures
        amount <= strategy_value(strategy, amount, earlier) <= strategy_value(strategy, amount, later),
{
    assert(crate::accrual::daily_rate_bp(BASE_APY_BP as int) == 1);
    assert(0 <= amount * 1 * earlier <= amount * 1 * later) by (nonlinear_arith)
        requires
            0 <= amount,
            0 <= earlier <= later,
    ;
}

/// A withdrawn position is no longer active, and every other position is
/// active exactly if it was before.
pub proof fn lemma_without_strikes_one_id(ids: Seq<u64>, id: u64)
    ensures
        !without(ids, id).contains(id),
        forall|other: u64| other != id ==> without(ids, id).contains(other) == ids.contains(other),
        without(ids, id).len() <= ids.len(),
    decreases ids.len(),
{
    if ids.len() > 0 {
        let rest = ids.drop_last();
        lemma_without_strikes_one_id(rest, id);
        assert(ids =~= rest.push(ids.last()));
        assert forall|other: u64| other != id implies without(ids, id).contains(other) == ids.contains(
            other,
        ) by {
            lemma_push_contains(rest, ids.last(), other);
            if ids.last() != id {
                lemma_push_contains(without(rest, id), ids.last(), other);
            }
        }
        if ids.last() != id {
            lemma_push_contains(without(rest, id), ids.last(), id);
        }
    }
}

/// What a sequence holds after one more item was put at its end.
proof fn lemma_push_contains(s: Seq<u64>, last: u64, x: u64)
    ensures
        s.push(last).contains(x) == (s.contains(x) || x == last),
{
    if s.contains(x) {
        let i = choose|i: int| 0 <= i < s.len() && s[i] == x;
        assert(s.push(last)[i] == x);
    }
    if x == last {
        assert(s.push(last)[s.len() as int] == x);
    }
}

/// A user's list holds exactly the ids of the quests that the user owns.
pub proof fn lemma_owned_ids_are_the_owners(quests: Seq<Quest>, user: Seq<char>, id: u64)
    ensures
        owned_ids(quests, user).contains(id) == (exists|i: int|
            0 <= i < quests.len() && (#[trigger] quests[i]).user@ == user && quests[i].id == id),
    decreases quests.len(),
{
    if quests.len() > 0 {
        let rest = quests.drop_last();
        let last = quests.last();
        lemma_owned_ids_are_the_owners(rest, user, id);
        if last.user@ == user {
            lemma_push_contains(owned_ids(rest, user), last.id, id);
        }
        if exists|i: int| 0 <= i < quests.len() && (#[trigger] quests[i]).user@ == user && quests[i].id == id {
            let i = choose|i: int| 0 <= i < quests.len() && (#[trigger] quests[i]).user@ == user && quests[i].id == id;
            if i < rest.len() {
                assert(rest[i] == quests[i]);
            }
        }
        if exists|i: int| 0 <= i < rest.len() && (#[trigger] rest[i]).user@ == user && rest[i].id == id {
            let i = choose|i: int| 0 <= i < rest.len() && (#[trigger] rest[i]).user@ == user && rest[i].id == id;
            assert(quests[i] == rest[i]);
        }
    }
}

/// An estimate depends on the amount, the days and the pool's annual rate
/// alone: managers with the same figures give the same estimate.
pub proof fn lemma_estimate_is_a_function(a: YieldState, b: YieldState, amount: i128, days: u32)
    requires
        a.stats == b.stats,
    ensures
        accrued_yield(amount as int, a.stats.current_apy as int, days as int) == accrued_yield(
            amount as int,
            b.stats.current_apy as int,
            days as int,
        ),
{
}

} // verus!
