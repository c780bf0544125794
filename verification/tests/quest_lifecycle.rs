use quest_engine::error::QuestError;
use quest_engine::quest::{QuestContract, QuestStatus, QuestType};

const DAY: u64 = 86400;
const START: u64 = 1_700_000_000;

fn owner() -> String {
    String::from("GOWNER")
}

fn engine_with_week_quest() -> QuestContract {
    let mut engine = QuestContract::initialize();
    let id = engine
        .create_quest(owner(), QuestType::JobApplications, 3, 7, 1, START)
        .unwrap();
    assert_eq!(id, 1);
    engine
}

fn log_days(engine: &mut QuestContract, days: u64, count: u32) {
    for d in 0..days {
        let met = engine
            .log_activity(&owner(), 1, count, String::from("proof"), START + d * DAY + 5)
            .unwrap();
        assert_eq!(met, count >= 3);
    }
}

#[test]
fn stake_follows_the_duration_table() {
    let table: [(u32, i128); 4] =
        [(7, 10_000_000), (14, 20_000_000), (30, 50_000_000), (90, 100_000_000)];
    for (duration, stake) in table {
        let mut engine = QuestContract::initialize();
        let id = engine
            .create_quest(owner(), QuestType::Networking, 1, duration, 0, START)
            .unwrap();
        let quest = engine.get_quest(id).unwrap();
        assert_eq!(quest.stake_amount, stake);
        assert_eq!(QuestContract::calculate_stake(duration), stake);
        assert_eq!(engine.get_pool_stats(), (0, stake));
    }
}

#[test]
fn other_durations_are_invalid() {
    for duration in [0u32, 1, 6, 8, 15, 29, 31, 60, 89, 91, 365, u32::MAX] {
        let mut engine = QuestContract::initialize();
        let r = engine.create_quest(owner(), QuestType::Networking, 1, duration, 0, START);
        assert_eq!(r, Err(QuestError::InvalidParameter));
        assert_eq!(engine.get_pool_stats(), (0, 0));
        assert_eq!(engine.get_quest(1).unwrap_err(), QuestError::QuestNotFound);
    }
}

#[test]
fn daily_target_and_grace_days_are_checked() {
    let mut engine = QuestContract::initialize();
    assert_eq!(
        engine.create_quest(owner(), QuestType::SkillBuilding, 0, 7, 0, START),
        Err(QuestError::InvalidParameter)
    );
    assert_eq!(
        engine.create_quest(owner(), QuestType::SkillBuilding, 11, 7, 0, START),
        Err(QuestError::InvalidParameter)
    );
    assert_eq!(
        engine.create_quest(owner(), QuestType::SkillBuilding, 5, 7, 4, START),
        Err(QuestError::InvalidParameter)
    );
    assert_eq!(engine.create_quest(owner(), QuestType::SkillBuilding, 1, 7, 3, START), Ok(1));
    assert_eq!(engine.create_quest(owner(), QuestType::SkillBuilding, 10, 90, 0, START), Ok(2));
}

#[test]
fn a_new_quest_is_active_with_no_progress() {
    let engine = engine_with_week_quest();
    let quest = engine.get_quest(1).unwrap();
    assert_eq!(quest.id, 1);
    assert_eq!(quest.user, owner());
    assert_eq!(quest.quest_type, QuestType::JobApplications);
    assert_eq!(quest.daily_target, 3);
    assert_eq!(quest.duration_days, 7);
    assert_eq!(quest.grace_days, 1);
    assert_eq!(quest.start_time, START);
    assert_eq!(quest.end_time, START + 7 * DAY);
    assert_eq!(quest.status, QuestStatus::Active);
    assert_eq!(quest.days_completed, 0);
    assert_eq!(quest.grace_days_used, 0);
    assert_eq!(quest.yield_accrued, 0);
}

#[test]
fn ids_count_up_and_are_indexed_by_user() {
    let mut engine = QuestContract::initialize();
    let a = String::from("GALICE");
    let b = String::from("GBOB");
    assert_eq!(engine.create_quest(a.clone(), QuestType::Networking, 1, 7, 0, START), Ok(1));
    assert_eq!(engine.create_quest(b.clone(), QuestType::Networking, 1, 14, 0, START), Ok(2));
    assert_eq!(engine.create_quest(a.clone(), QuestType::InterviewPrep, 2, 30, 0, START), Ok(3));
    assert_eq!(engine.get_user_quests(&a), vec![1, 3]);
    assert_eq!(engine.get_user_quests(&b), vec![2]);
    assert_eq!(engine.get_user_quests(&String::from("GNOBODY")), Vec::<u64>::new());
    assert_eq!(engine.get_pool_stats(), (0, 80_000_000));
}

#[test]
fn success_within_grace_days() {
    let mut engine = engine_with_week_quest();
    log_days(&mut engine, 6, 3);
    assert_eq!(engine.get_quest(1).unwrap().days_completed, 6);
    let owed = engine.complete_quest(1, START + 7 * DAY).unwrap();
    let quest = engine.get_quest(1).unwrap();
    assert_eq!(quest.status, QuestStatus::Completed);
    assert_eq!(quest.yield_accrued, 7000);
    assert_eq!(owed, 10_000_000 + 7000);
    assert_eq!(engine.get_pool_stats(), (0, -7000));
}

#[test]
fn failure_beyond_grace_days() {
    let mut engine = engine_with_week_quest();
    log_days(&mut engine, 4, 3);
    let before = engine.get_pool_stats();
    let owed = engine.complete_quest(1, START + 7 * DAY).unwrap();
    let after = engine.get_pool_stats();
    let quest = engine.get_quest(1).unwrap();
    assert_eq!(quest.status, QuestStatus::Failed);
    assert_eq!(quest.yield_accrued, 0);
    assert_eq!(owed, 0);
    assert_eq!(before.1 - after.1, 10_000_000);
    assert_eq!(after.0 - before.0, 10_000_000);
}

#[test]
fn logging_after_the_window_is_expired() {
    let mut engine = engine_with_week_quest();
    let r = engine.log_activity(&owner(), 1, 3, String::from("p"), START + 7 * DAY);
    assert_eq!(r, Err(QuestError::QuestExpired));
    let r = engine.log_activity(&owner(), 1, 3, String::from("p"), START + 100 * DAY);
    assert_eq!(r, Err(QuestError::QuestExpired));
    let r = engine.log_activity(&owner(), 1, 3, String::from("p"), START + 7 * DAY - 1);
    assert_eq!(r, Ok(true));
    assert_eq!(engine.get_daily_log(1, 6).unwrap().day, 6);
}

#[test]
fn a_day_is_logged_once() {
    let mut engine = engine_with_week_quest();
    assert_eq!(engine.log_activity(&owner(), 1, 1, String::from("a"), START + 10), Ok(false));
    for count in [0u32, 1, 3, 10, u32::MAX] {
        let r = engine.log_activity(&owner(), 1, count, String::from("b"), START + DAY - 1);
        assert_eq!(r, Err(QuestError::AlreadyLogged));
    }
    let quest = engine.get_quest(1).unwrap();
    assert_eq!(quest.days_completed, 0);
    let log = engine.get_daily_log(1, 0).unwrap();
    assert_eq!(log.activities_logged, 1);
    assert_eq!(log.verification_hash, "a");
    assert_eq!(log.timestamp, START + 10);
    assert_eq!(engine.log_activity(&owner(), 1, 3, String::from("c"), START + DAY), Ok(true));
}

#[test]
fn a_missed_target_is_logged_but_not_counted() {
    let mut engine = engine_with_week_quest();
    assert_eq!(engine.log_activity(&owner(), 1, 2, String::from("x"), START), Ok(false));
    assert_eq!(engine.log_activity(&owner(), 1, 3, String::from("y"), START + DAY), Ok(true));
    assert_eq!(engine.log_activity(&owner(), 1, 9, String::from("z"), START + 3 * DAY), Ok(true));
    assert_eq!(engine.get_quest(1).unwrap().days_completed, 2);
    assert!(engine.get_daily_log(1, 2).is_none());
    let log = engine.get_daily_log(1, 3).unwrap();
    assert_eq!((log.quest_id, log.day, log.activities_logged), (1, 3, 9));
    assert!(engine.get_daily_log(2, 0).is_none());
}

#[test]
fn progress_never_goes_down_nor_past_the_duration() {
    let mut engine = engine_with_week_quest();
    let mut last = 0;
    for step in 0..40u64 {
        let now = START + step * (DAY / 4);
        let _ = engine.log_activity(&owner(), 1, 5, String::from("p"), now);
        let quest = engine.get_quest(1).unwrap();
        assert!(quest.days_completed >= last);
        assert!(quest.days_completed <= quest.duration_days);
        last = quest.days_completed;
    }
    assert_eq!(last, 7);
}

#[test]
fn only_the_owner_logs() {
    let mut engine = engine_with_week_quest();
    let r = engine.log_activity(&String::from("GOTHER"), 1, 3, String::from("p"), START);
    assert_eq!(r, Err(QuestError::Unauthorized));
    assert!(engine.get_daily_log(1, 0).is_none());
}

#[test]
fn unknown_quests_are_not_found() {
    let mut engine = engine_with_week_quest();
    assert_eq!(
        engine.log_activity(&owner(), 0, 3, String::from("p"), START),
        Err(QuestError::QuestNotFound)
    );
    assert_eq!(
        engine.log_activity(&owner(), 2, 3, String::from("p"), START),
        Err(QuestError::QuestNotFound)
    );
    assert_eq!(engine.complete_quest(2, START + 8 * DAY), Err(QuestError::QuestNotFound));
    assert_eq!(engine.get_quest(0).unwrap_err(), QuestError::QuestNotFound);
}

#[test]
fn settlement_waits_for_the_end() {
    let mut engine = engine_with_week_quest();
    assert_eq!(engine.complete_quest(1, START + 7 * DAY - 1), Err(QuestError::QuestNotFinished));
    assert_eq!(engine.get_quest(1).unwrap().status, QuestStatus::Active);
    assert_eq!(engine.get_pool_stats(), (0, 10_000_000));
    assert_eq!(engine.complete_quest(1, START + 7 * DAY), Ok(0));
}

#[test]
fn settlement_happens_once() {
    let mut engine = engine_with_week_quest();
    log_days(&mut engine, 7, 3);
    assert_eq!(engine.complete_quest(1, START + 8 * DAY), Ok(10_007_000));
    let pools = engine.get_pool_stats();
    assert_eq!(engine.complete_quest(1, START + 8 * DAY), Err(QuestError::QuestNotActive));
    assert_eq!(engine.complete_quest(1, START + 9 * DAY), Err(QuestError::QuestNotActive));
    assert_eq!(engine.get_pool_stats(), pools);
    assert_eq!(
        engine.log_activity(&owner(), 1, 3, String::from("p"), START + DAY),
        Err(QuestError::QuestNotActive)
    );
}

#[test]
fn bonus_is_one_percent_of_the_community_pool() {
    let mut engine = QuestContract::initialize();
    let loser = String::from("GLOSER");
    engine.create_quest(loser, QuestType::Networking, 1, 14, 0, START).unwrap();
    engine.create_quest(owner(), QuestType::Networking, 1, 30, 3, START).unwrap();
    assert_eq!(engine.complete_quest(1, START + 14 * DAY), Ok(0));
    assert_eq!(engine.get_pool_stats(), (20_000_000, 50_000_000));
    for d in 0..27u64 {
        engine.log_activity(&owner(), 2, 1, String::from("p"), START + d * DAY).unwrap();
    }
    let owed = engine.complete_quest(2, START + 30 * DAY).unwrap();
    assert_eq!(owed, 50_000_000 + 150_000 + 200_000);
    assert_eq!(engine.get_quest(2).unwrap().yield_accrued, 150_000);
    assert_eq!(engine.get_pool_stats(), (19_800_000, -150_000));
}

#[test]
fn pools_change_only_by_stakes_and_payouts() {
    let mut engine = QuestContract::initialize();
    let mut staked: i128 = 0;
    let mut paid: i128 = 0;
    for (i, duration) in [7u32, 14, 30, 90, 7, 14].into_iter().enumerate() {
        let grace = (i % 4) as u32;
        let id = engine
            .create_quest(owner(), QuestType::InterviewPrep, 2, duration, grace, START)
            .unwrap();
        staked += engine.get_quest(id).unwrap().stake_amount;
        let (community, yields) = engine.get_pool_stats();
        assert_eq!(community + yields, staked - paid);
    }
    for id in 1..=6u64 {
        let duration = engine.get_quest(id).unwrap().duration_days as u64;
        let logged = if id % 2 == 0 { duration } else { duration / 2 };
        for d in 0..logged {
            engine.log_activity(&owner(), id, 2, String::from("p"), START + d * DAY).unwrap();
        }
        paid += engine.complete_quest(id, START + 90 * DAY).unwrap();
        let (community, yields) = engine.get_pool_stats();
        assert_eq!(community + yields, staked - paid);
        assert!(community >= 0);
    }
}

#[test]
fn yield_share_is_truncated_in_order() {
    let mut engine = QuestContract::initialize();
    let table: [(u32, i128); 4] = [(7, 7_000), (14, 28_000), (30, 150_000), (90, 900_000)];
    for (duration, share) in table {
        let id = engine
            .create_quest(owner(), QuestType::Networking, 1, duration, 0, START)
            .unwrap();
        let quest = engine.get_quest(id).unwrap();
        assert_eq!(QuestContract::calculate_yield_share(&quest), share);
    }
}

#[test]
fn error_messages_name_the_failure() {
    assert_eq!(QuestError::InvalidParameter.message(), "invalid parameter");
    assert_eq!(QuestError::Unauthorized.message(), "unauthorized");
    assert_eq!(QuestError::QuestNotFound.message(), "quest not found");
    assert_eq!(QuestError::QuestNotActive.message(), "quest not active");
    assert_eq!(QuestError::QuestExpired.message(), "quest expired");
    assert_eq!(QuestError::AlreadyLogged.message(), "already logged");
    assert_eq!(QuestError::QuestNotFinished.message(), "quest not finished");
    assert_eq!(QuestError::PositionNotFound.message(), "position not found");
}

#[test]
fn coverage_check_compares_the_yield_pool_with_active_stakes() {
    let mut engine = QuestContract::initialize();
    assert!(engine.covers_active_quests());
    engine.create_quest(owner(), QuestType::Networking, 1, 7, 3, START).unwrap();
    engine.create_quest(owner(), QuestType::Networking, 1, 14, 0, START).unwrap();
    assert_eq!(engine.quest_count(), 2);
    assert!(engine.covers_active_quests());
    assert_eq!(engine.complete_quest(2, START + 14 * DAY), Ok(0));
    assert!(engine.covers_active_quests());
    for d in 0..4u64 {
        engine.log_activity(&owner(), 1, 1, String::from("p"), START + d * DAY).unwrap();
    }
    engine.create_quest(owner(), QuestType::Networking, 1, 30, 0, START).unwrap();
    assert_eq!(engine.complete_quest(1, START + 7 * DAY), Ok(10_000_000 + 7_000 + 200_000));
    assert_eq!(engine.get_pool_stats(), (19_800_000, 49_993_000));
    assert!(!engine.covers_active_quests());
}
