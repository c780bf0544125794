use quest_engine::badge::{AchievementType, BadgeContract, BadgeTier};
use quest_engine::player::{Deed, GameError, JobQuestGame, Player};

#[test]
fn rarity_adds_up() {
    assert_eq!(BadgeContract::calculate_rarity(7, false, false), 7);
    assert_eq!(BadgeContract::calculate_rarity(30, true, false), 50);
    assert_eq!(BadgeContract::calculate_rarity(30, false, true), 45);
    assert_eq!(BadgeContract::calculate_rarity(90, true, true), 125);
}

#[test]
fn tier_goes_by_duration() {
    assert_eq!(BadgeContract::completion_tier(7), Some(BadgeTier::Bronze));
    assert_eq!(BadgeContract::completion_tier(14), Some(BadgeTier::Silver));
    assert_eq!(BadgeContract::completion_tier(30), Some(BadgeTier::Gold));
    assert_eq!(BadgeContract::completion_tier(90), Some(BadgeTier::Platinum));
    assert_eq!(BadgeContract::completion_tier(10), None);
}

#[test]
fn streaks_of_thirty_days_earn_the_higher_badge() {
    assert_eq!(BadgeContract::streak_achievement(29), AchievementType::Streak10);
    assert_eq!(BadgeContract::streak_achievement(30), AchievementType::Streak30);
    assert_ne!(
        AchievementType::QuestCompletion(BadgeTier::Gold),
        AchievementType::QuestCompletion(BadgeTier::Bronze)
    );
    assert_eq!(BadgeContract::get_metadata_uri(&AchievementType::SpeedDemon), "ipfs://badges/");
}

#[test]
fn level_rises_every_hundred_points() {
    let mut game = JobQuestGame::initialize();
    let me = String::from("GME");
    assert_eq!(game.stats(&me), Err(GameError::NotRegistered));
    assert_eq!(game.rejection(&me), Err(GameError::NotRegistered));
    let card = game.register(me.clone()).unwrap();
    assert_eq!(card, Player { points: 0, rejections: 0, connections: 0, events: 0 });
    assert_eq!(card.level(), 1);
    assert_eq!(game.register(me.clone()), Err(GameError::AlreadyRegistered));
    assert_eq!(
        game.rejection(&me),
        Ok(Player { points: 10, rejections: 1, connections: 0, events: 0 })
    );
    assert_eq!(
        game.connections(&me, 8),
        Ok(Player { points: 50, rejections: 1, connections: 8, events: 0 })
    );
    let card = game.event(&me).unwrap();
    assert_eq!(card, Player { points: 100, rejections: 1, connections: 8, events: 1 });
    assert_eq!(card.level(), 2);
    assert_eq!(game.stats(&me), Ok(card));
    assert_eq!(Player { points: 99, rejections: 0, connections: 0, events: 0 }.level(), 1);
    assert_eq!(Player { points: u32::MAX, rejections: 0, connections: 0, events: 0 }.level(), 42_949_673);
}

#[test]
fn players_are_scored_apart() {
    let mut game = JobQuestGame::initialize();
    let a = String::from("GA");
    let b = String::from("GB");
    game.register(a.clone()).unwrap();
    game.register(b.clone()).unwrap();
    game.event(&a).unwrap();
    game.connections(&b, 3).unwrap();
    game.rejection(&a).unwrap();
    assert_eq!(game.stats(&a), Ok(Player { points: 60, rejections: 1, connections: 0, events: 1 }));
    assert_eq!(game.stats(&b), Ok(Player { points: 15, rejections: 0, connections: 3, events: 0 }));
}

#[test]
fn deeds_that_overflow_do_not_fit() {
    let brim = Player { points: u32::MAX - 10, rejections: 0, connections: u32::MAX - 1, events: 0 };
    assert!(brim.fits(Deed::Rejection));
    assert!(!brim.fits(Deed::Event));
    assert!(brim.fits(Deed::Connections(1)));
    assert!(!brim.fits(Deed::Connections(2)));
    assert!(!brim.fits(Deed::Connections(3)));
    assert_eq!(brim.score(Deed::Rejection).points, u32::MAX);
    assert_eq!(brim.score(Deed::Connections(1)).connections, u32::MAX);
}
