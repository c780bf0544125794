use quest_engine::badge::{AchievementType, BadgeContract, BadgeError, BadgeTier};

fn s(text: &str) -> String {
    String::from(text)
}

#[test]
fn a_completed_quest_earns_its_tier() {
    let mut registry = BadgeContract::initialize();
    assert_eq!(registry.mint_quest_badge(s("GA"), 11, 7, false, false, 500), Ok(vec![1]));
    let badge = registry.get_badge(1).unwrap();
    assert_eq!(badge.id, 1);
    assert_eq!(badge.owner, "GA");
    assert_eq!(badge.achievement_type, AchievementType::QuestCompletion(BadgeTier::Bronze));
    assert_eq!(badge.quest_id, Some(11));
    assert_eq!(badge.minted_at, 500);
    assert_eq!(badge.metadata_uri, "ipfs://badges/");
    assert_eq!(badge.rarity_score, 7);
    assert!(registry.get_badge(0).is_none());
    assert!(registry.get_badge(2).is_none());
    assert_eq!(registry.get_user_badges(&s("GA")), vec![1]);
    assert!(registry.has_achievement(&s("GA"), AchievementType::QuestCompletion(BadgeTier::Bronze)));
    assert!(!registry.has_achievement(&s("GA"), AchievementType::QuestCompletion(BadgeTier::Gold)));
    assert!(!registry.has_achievement(&s("GB"), AchievementType::QuestCompletion(BadgeTier::Bronze)));
}

#[test]
fn quests_of_other_lengths_earn_nothing() {
    let mut registry = BadgeContract::initialize();
    assert_eq!(registry.mint_quest_badge(s("GA"), 1, 8, true, true, 0), Err(BadgeError::InvalidDuration));
    assert!(registry.get_badge(1).is_none());
    assert!(registry.get_user_badges(&s("GA")).is_empty());
}

#[test]
fn extras_and_the_milestone_come_in_order() {
    let mut registry = BadgeContract::initialize();
    assert_eq!(registry.mint_quest_badge(s("GA"), 1, 30, true, true, 1), Ok(vec![1, 2, 3]));
    assert_eq!(registry.get_badge(1).unwrap().rarity_score, 30);
    assert_eq!(registry.get_badge(2).unwrap().achievement_type, AchievementType::PerfectAttendance);
    assert_eq!(registry.get_badge(2).unwrap().rarity_score, 50);
    assert_eq!(registry.get_badge(3).unwrap().achievement_type, AchievementType::Overachiever);
    assert_eq!(registry.get_badge(3).unwrap().rarity_score, 40);
    assert_eq!(registry.mint_quest_badge(s("GA"), 2, 90, false, true, 2), Ok(vec![4, 5, 6]));
    let milestone = registry.get_badge(6).unwrap();
    assert_eq!(milestone.achievement_type, AchievementType::MultiQuest5);
    assert_eq!(milestone.quest_id, None);
    assert_eq!(milestone.rarity_score, 75);
    assert_eq!(registry.mint_quest_badge(s("GA"), 3, 14, false, false, 3), Ok(vec![7]));
    assert_eq!(registry.get_user_badges(&s("GA")), vec![1, 2, 3, 4, 5, 6, 7]);
    let collection = registry.get_badge_collection(s("GA"));
    assert_eq!(collection.owner, "GA");
    assert_eq!(collection.badges, vec![1, 2, 3, 4, 5, 6, 7]);
    assert_eq!(collection.total_score, 30 + 50 + 40 + 90 + 40 + 75 + 14);
    assert_eq!(registry.get_badge_collection(s("GB")).total_score, 0);
    assert_eq!(registry.badge_count(), 7);
}

#[test]
fn a_streak_badge_is_earned_once() {
    let mut registry = BadgeContract::initialize();
    assert_eq!(registry.mint_streak_badge(s("GA"), 12, 9), Ok(1));
    assert_eq!(registry.get_badge(1).unwrap().achievement_type, AchievementType::Streak10);
    assert_eq!(registry.get_badge(1).unwrap().rarity_score, 12);
    assert_eq!(registry.mint_streak_badge(s("GA"), 29, 9), Err(BadgeError::AlreadyAwarded));
    assert_eq!(registry.mint_streak_badge(s("GA"), 30, 9), Ok(2));
    assert_eq!(registry.get_badge(2).unwrap().achievement_type, AchievementType::Streak30);
    assert_eq!(registry.mint_streak_badge(s("GA"), 99, 9), Err(BadgeError::AlreadyAwarded));
    assert_eq!(registry.mint_streak_badge(s("GB"), 5, 9), Ok(3));
    assert_eq!(registry.get_user_badges(&s("GA")), vec![1, 2]);
}

#[test]
fn a_badge_changes_hands() {
    let mut registry = BadgeContract::initialize();
    registry.mint_quest_badge(s("GA"), 1, 7, true, false, 1).unwrap();
    registry.mint_quest_badge(s("GB"), 2, 14, false, false, 2).unwrap();
    registry.mint_quest_badge(s("GA"), 3, 7, false, false, 3).unwrap();
    assert_eq!(registry.transfer(9, &s("GA"), s("GB")), Err(BadgeError::BadgeNotFound));
    assert_eq!(registry.transfer(3, &s("GA"), s("GC")), Err(BadgeError::NotOwner));
    assert_eq!(registry.get_user_badges(&s("GA")), vec![1, 2, 4]);
    assert_eq!(registry.transfer(2, &s("GA"), s("GB")), Ok(()));
    assert_eq!(registry.get_badge(2).unwrap().owner, "GB");
    assert_eq!(registry.get_user_badges(&s("GA")), vec![1, 4]);
    assert_eq!(registry.get_user_badges(&s("GB")), vec![3, 2]);
    assert!(registry.has_achievement(&s("GA"), AchievementType::PerfectAttendance));
    assert!(!registry.has_achievement(&s("GB"), AchievementType::PerfectAttendance));
    assert_eq!(registry.transfer(1, &s("GA"), s("GA")), Ok(()));
    assert_eq!(registry.get_user_badges(&s("GA")), vec![4, 1]);
    assert_eq!(registry.transfer(2, &s("GA"), s("GC")), Err(BadgeError::NotOwner));
    assert_eq!(registry.get_badge_collection(s("GB")).total_score, 14 + 50);
}
