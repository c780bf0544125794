//! Why the engine's operations keep its records well-formed.

use vstd::prelude::*;
use crate::quest::{
    forfeit_weight, forfeited, log_is_for, met_days, owned_ids, progressed, settled, stake_for, valid_duration,
    valid_parameters, yield_backing, yield_share_of, yield_weight, settlement_daily_rate_bp, DailyLog, Quest,
    QuestState, QuestStatus, QuestType,
};

verus! {

/// The yield share of each duration, with its table stake.
pub proof fn lemma_yield_share_table(duration_days: u32)
    requires
        valid_duration(duration_days),
    ensures
        settlement_daily_rate_bp() == 1,
        yield_share_of(stake_for(duration_days), duration_days as int) == (if duration_days == 7 {
            7_000int
        } else if duration_days == 14 {
            28_000int
        } else if duration_days == 30 {
            150_000int
        } else {
            900_000int
        }),
{
    assert(settlement_daily_rate_bp() == 1);
    assert(10_000_000int * 1 * 7 == 70_000_000);
    assert(20_000_000int * 1 * 14 == 280_000_000);
    assert(50_000_000int * 1 * 30 == 1_500_000_000);
    assert(100_000_000int * 1 * 90 == 9_000_000_000);
}

/// Adding a quest adds its weight to the sums.
pub proof fn lemma_sums_push(quests: Seq<Quest>, q: Quest)
    ensures
        yield_backing(quests.push(q)) == yield_backing(quests) + yield_weight(q),
        forfeited(quests.push(q)) == forfeited(quests) + forfeit_weight(q),
        forall|user: Seq<char>|
            #[trigger] owned_ids(quests.push(q), user) == if q.user@ == user {
                owned_ids(quests, user).push(q.id)
            } else {
                owned_ids(quests, user)
            },
{
    assert(quests.push(q).drop_last() =~= quests);
    assert(quests.push(q).last() == q);
}

/// Replacing a quest replaces its weight in the sums.
pub proof fn lemma_sums_update(quests: Seq<Quest>, i: int, q: Quest)
    requires
        0 <= i < quests.len(),
    ensures
        yield_backing(quests.update(i, q)) == yield_backing(quests) - yield_weight(quests[i])
            + yield_weight(q),
        forfeited(quests.update(i, q)) == forfeited(quests) - forfeit_weight(quests[i])
            + forfeit_weight(q),
    decreases quests.len(),
{
    let updated = quests.update(i, q);
    if i == quests.len() - 1 {
        assert(updated.drop_last() =~= quests.drop_last());
    } else {
        assert(updated.drop_last() =~= quests.drop_last().update(i, q));
        lemma_sums_update(quests.drop_last(), i, q);
    }
}

/// The sums stay within what the number of quests allows.
pub proof fn lemma_sums_bounded(s: QuestState, n: int)
    requires
        0 <= n <= s.quests.len(),
        forall|i: int| 0 <= i < s.quests.len() ==> s.quest_ok(i),
    ensures
        -900_000 * n <= yield_backing(s.quests.take(n)) <= 100_000_000 * n,
        0 <= forfeited(s.quests.take(n)) <= 100_000_000 * n,
    decreases n,
{
    if n > 0 {
        lemma_sums_bounded(s, n - 1);
        assert(s.quests.take(n).drop_last() =~= s.quests.take(n - 1));
        assert(s.quests.take(n).last() == s.quests[n - 1]);
        assert(s.quest_ok(n - 1));
        let q = s.quests[n - 1];
        lemma_yield_share_table(q.duration_days);
    }
}

/// Settling an active quest leaves the records well-formed, with history
/// grown, and keeps every balance within the machine's range.
pub proof fn lemma_settled_keeps_wf(s: QuestState, id: u64)
    requires
        s.wf(),
        s.has_quest(id),
        s.quest(id).status == QuestStatus::Active,
    ensures
        s.settled_state(id).wf(),
        s.precedes(s.settled_state(id)),
        s.quest(id).days_completed <= s.quest(id).duration_days,
        -900_000 * s.quests.len() <= s.yield_pool <= 100_000_000 * s.quests.len(),
        0 <= s.community_pool <= 100_000_000 * s.quests.len(),
{
    let t = s.settled_state(id);
    let q = s.quest(id);
    assert(s.quest_ok(id - 1));
    lemma_yield_share_table(q.duration_days);
    lemma_sums_update(s.quests, id - 1, settled(q));
    lemma_sums_bounded(s, s.quests.len() as int);
    assert(s.quests.take(s.quests.len() as int) =~= s.quests);
    assert forall|i: int| 0 <= i < t.quests.len() implies t.quest_ok(i) by {
        assert(s.quest_ok(i));
    }
    assert forall|i: int| 0 <= i < t.logs.len() implies t.log_ok(i) by {
        assert(s.log_ok(i));
    }
}

/// Appending a log adds its day to the met days of its quest if it meets
/// the target, and changes the met days of no other quest.
pub proof fn lemma_met_days_push(logs: Seq<DailyLog>, log: DailyLog, id: u64, target: u32)
    ensures
        met_days(logs.push(log), id, target) == (if log.quest_id == id && log.activities_logged >= target {
            met_days(logs, id, target).insert(log.day as int)
        } else {
            met_days(logs, id, target)
        }),
{
    let before = met_days(logs, id, target);
    let after = met_days(logs.push(log), id, target);
    let counts = log.quest_id == id && log.activities_logged >= target;
    assert forall|day: int| after.contains(day) implies before.contains(day) || (counts && day == log.day) by {
        let i = choose|i: int|
            0 <= i < logs.push(log).len() && log_is_for(#[trigger] logs.push(log)[i], id, day) && logs.push(
                log,
            )[i].activities_logged >= target;
        if i < logs.len() {
            assert(logs.push(log)[i] == logs[i]);
            assert(log_is_for(logs[i], id, day));
        }
    }
    assert forall|day: int| before.contains(day) implies after.contains(day) by {
        let i = choose|i: int|
            0 <= i < logs.len() && log_is_for(#[trigger] logs[i], id, day) && logs[i].activities_logged
                >= target;
        assert(logs.push(log)[i] == logs[i]);
        assert(log_is_for(logs.push(log)[i], id, day));
    }
    if counts {
        assert(logs.push(log)[logs.len() as int] == log);
        assert(log_is_for(logs.push(log)[logs.len() as int], id, log.day as int));
        assert(after.contains(log.day as int));
        assert(after =~= before.insert(log.day as int));
    } else {
        assert(after =~= before);
    }
}

/// The met days of a quest lie within its duration, and so do not
/// outnumber its days.
pub proof fn lemma_met_days_bounded(s: QuestState, id: u64, target: u32)
    requires
        forall|i: int| 0 <= i < s.logs.len() ==> s.log_ok(i),
        s.has_quest(id),
    ensures
        met_days(s.logs, id, target).finite(),
        met_days(s.logs, id, target).subset_of(
            vstd::set_lib::set_int_range(0, s.quest(id).duration_days as int),
        ),
        met_days(s.logs, id, target).len() <= s.quest(id).duration_days,
{
    let days = met_days(s.logs, id, target);
    let window = vstd::set_lib::set_int_range(0, s.quest(id).duration_days as int);
    assert forall|day: int| days.contains(day) implies window.contains(day) by {
        let i = choose|i: int|
            0 <= i < s.logs.len() && log_is_for(#[trigger] s.logs[i], id, day) && s.logs[i].activities_logged
                >= target;
        assert(s.log_ok(i));
    }
    vstd::set_lib::lemma_int_range(0, s.quest(id).duration_days as int);
    vstd::set_lib::lemma_len_subset(days, window);
}

/// An accepted log leaves the records well-formed, with history grown.
pub proof fn lemma_logged_keeps_wf(
    s: QuestState,
    id: u64,
    activities_count: u32,
    verification_hash: String,
    now: u64,
)
    requires
        s.wf(),
        s.has_quest(id),
        s.quest(id).start_time <= now,
        s.quest(id).status == QuestStatus::Active,
        s.day_index(id, now) < s.quest(id).duration_days,
        !s.has_log(id, s.day_index(id, now)),
    ensures
        s.logged(id, activities_count, verification_hash, now).wf(),
        s.precedes(s.logged(id, activities_count, verification_hash, now)),
        s.quest(id).days_completed < s.quest(id).duration_days,
{
    let t = s.logged(id, activities_count, verification_hash, now);
    let q = s.quest(id);
    let day = s.day_index(id, now);
    let log = t.logs.last();
    let met = activities_count >= q.daily_target;
    assert(s.quest_ok(id - 1));
    lemma_met_days_bounded(s, id, q.daily_target);
    lemma_met_days_push(s.logs, log, id, q.daily_target);
    let before = met_days(s.logs, id, q.daily_target);
    assert(!before.contains(day)) by {
        if before.contains(day) {
            let i = choose|i: int|
                0 <= i < s.logs.len() && log_is_for(#[trigger] s.logs[i], id, day)
                    && s.logs[i].activities_logged >= q.daily_target;
            assert(s.has_log(id, day));
        }
    }
    let window = vstd::set_lib::set_int_range(0, q.duration_days as int);
    vstd::set_lib::lemma_int_range(0, q.duration_days as int);
    assert(before.insert(day).subset_of(window));
    vstd::set_lib::lemma_len_subset(before.insert(day), window);
    assert(q.days_completed < q.duration_days);
    lemma_sums_update(s.quests, id - 1, progressed(q, met));
    assert forall|i: int| 0 <= i < t.quests.len() implies t.quest_ok(i) by {
        assert(s.quest_ok(i));
        lemma_met_days_push(s.logs, log, t.quests[i].id, t.quests[i].daily_target);
    }
    assert forall|i: int| 0 <= i < t.logs.len() implies t.log_ok(i) by {
        if i < s.logs.len() {
            assert(s.log_ok(i));
            assert(t.logs[i] == s.logs[i]);
        }
    }
    assert forall|i: int, j: int| 0 <= i < j < t.logs.len() implies !log_is_for(
        #[trigger] t.logs[i],
        (#[trigger] t.logs[j]).quest_id,
        t.logs[j].day as int,
    ) by {
        assert(t.logs[i] == s.logs[i]);
        if j < s.logs.len() {
            assert(t.logs[j] == s.logs[j]);
        }
    }
}

/// Creating a quest leaves the records well-formed, with history grown
/// and the new id in its owner's list alone, and keeps the yield pool
/// within the machine's range.
pub proof fn lemma_created_keeps_wf(
    s: QuestState,
    user: String,
    quest_type: QuestType,
    daily_target: u32,
    duration_days: u32,
    grace_days: u32,
    now: u64,
)
    requires
        s.wf(),
        s.quests.len() < u64::MAX,
        valid_parameters(daily_target, duration_days, grace_days),
        now + duration_days * 86400 <= u64::MAX,
    ensures
        s.created(user, quest_type, daily_target, duration_days, grace_days, now).wf(),
        s.precedes(s.created(user, quest_type, daily_target, duration_days, grace_days, now)),
        -900_000 * s.quests.len() <= s.yield_pool <= 100_000_000 * s.quests.len(),
        forall|other: Seq<char>|
            #[trigger] owned_ids(
                s.created(user, quest_type, daily_target, duration_days, grace_days, now).quests,
                other,
            ) == if other == user@ {
                owned_ids(s.quests, other).push(s.next_id())
            } else {
                owned_ids(s.quests, other)
            },
{
    let t = s.created(user, quest_type, daily_target, duration_days, grace_days, now);
    let q = t.quests.last();
    lemma_sums_push(s.quests, q);
    lemma_sums_bounded(s, s.quests.len() as int);
    assert(s.quests.take(s.quests.len() as int) =~= s.quests);
    lemma_no_log_no_met_day(s, s.next_id(), daily_target);
    assert forall|i: int| 0 <= i < t.quests.len() implies t.quest_ok(i) by {
        if i < s.quests.len() {
            assert(s.quest_ok(i));
        }
    }
    assert forall|i: int| 0 <= i < t.logs.len() implies t.log_ok(i) by {
        assert(s.log_ok(i));
    }
}

/// A quest without logs has no completed day.
pub proof fn lemma_no_log_no_met_day(s: QuestState, id: u64, target: u32)
    requires
        forall|i: int| 0 <= i < s.logs.len() ==> s.log_ok(i),
        !s.has_quest(id),
    ensures
        met_days(s.logs, id, target) =~= Set::<int>::empty(),
        met_days(s.logs, id, target).len() == 0,
{
    assert forall|day: int| !met_days(s.logs, id, target).contains(day) by {
        if met_days(s.logs, id, target).contains(day) {
            let i = choose|i: int|
                0 <= i < s.logs.len() && log_is_for(#[trigger] s.logs[i], id, day)
                    && s.logs[i].activities_logged >= target;
            assert(s.log_ok(i));
        }
    }
    assert(met_days(s.logs, id, target) =~= Set::<int>::empty());
}

} // verus!
