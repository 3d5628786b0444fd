use discord_bot::leveling::{Difficulty, LevelingError, MessageContentStats, UserProfile, XpSource};
use discord_bot::leveling_daily::{DailyClaim, BASE_DAILY_REWARD, GOAL_BONUS_XP};
use discord_bot::leveling_ops::{LevelingConfig, LevelingService};

use discord_bot::level_curve::{level_from_xp, xp_threshold_for_level};

const DAY_MS: i64 = 86_400_000;
const T0: i64 = 1_700_000_000_000;

fn claim(service: &LevelingService, stored: Option<UserProfile>, now: i64) -> (u64, Option<UserProfile>) {
    match service.claim_daily_at(1, 1, stored, false, now).unwrap() {
        DailyClaim::AlreadyClaimed => (0, None),
        DailyClaim::Claimed { profile, award_xp, .. } => (award_xp, Some(profile)),
    }
}

#[test]
fn test_level_calculation() {
    let service = LevelingService::new();
    assert_eq!(service.calculate_level(0), 1);
    assert_eq!(service.calculate_level(50), 1);
    assert_eq!(service.calculate_level(100), 2);
    assert_eq!(service.calculate_level(200), 2);
    assert_eq!(service.calculate_level(450), 3);
}

#[test]
fn test_xp_for_next_level() {
    let service = LevelingService::new();
    assert_eq!(service.xp_for_next_level(1), 100);
    assert_eq!(service.xp_for_next_level(2), 282);
    assert_eq!(service.xp_for_next_level(3), 519);
}

#[test]
fn level_curve_values() {
    assert_eq!(xp_threshold_for_level(1), 0);
    assert_eq!(xp_threshold_for_level(2), 100);
    assert_eq!(xp_threshold_for_level(3), 282);
    assert_eq!(xp_threshold_for_level(4), 519);
    // Exactly the threshold reaches the level; one XP less does not.
    assert_eq!(level_from_xp(282), 3);
    assert_eq!(level_from_xp(281), 2);
    assert!(level_from_xp(u64::MAX) >= level_from_xp(1_000_000));
}

#[test]
fn difficulty_rewards_are_progressive() {
    assert!(Difficulty::Easy.xp_reward() < Difficulty::Medium.xp_reward());
    assert!(Difficulty::Medium.xp_reward() < Difficulty::Hard.xp_reward());
    assert!(Difficulty::Hard.xp_reward() < Difficulty::Expert.xp_reward());
}

#[test]
fn leveling_error_messages_are_descriptive() {
    let storage_error = LevelingError::StorageError("db down".into());
    assert!(storage_error.message().contains("db down"));
    let invalid_id = LevelingError::InvalidId;
    assert_eq!(invalid_id.message(), "Invalid user or guild ID");
}

#[test]
fn cooldown_error_shows_remaining_time() {
    assert_eq!(LevelingError::OnCooldown(1500).message(), "User is on cooldown. Time remaining: 1.5s");
    assert_eq!(LevelingError::OnCooldown(250).message(), "User is on cooldown. Time remaining: 250ms");
}

#[test]
fn test_claim_daily_awards_xp_and_streaks() {
    let service = LevelingService::new();
    let (xp, profile) = claim(&service, None, T0);
    assert!(xp >= BASE_DAILY_REWARD);
    let (xp2, none) = claim(&service, profile, T0 + 1000);
    assert_eq!(xp2, 0);
    assert!(none.is_none());
}

#[test]
fn daily_streak_grows_on_consecutive_days() {
    let service = LevelingService::new();
    let (xp1, p1) = claim(&service, None, T0);
    assert_eq!(xp1, 25);
    let p1 = p1.unwrap();
    assert_eq!(p1.daily_streak, 1);
    let (xp2, p2) = claim(&service, Some(p1), T0 + DAY_MS);
    let p2 = p2.unwrap();
    assert_eq!(p2.daily_streak, 2);
    assert_eq!(xp2, 30);
    // Skipping a day starts over.
    let (xp3, p3) = claim(&service, Some(p2), T0 + 3 * DAY_MS);
    assert_eq!(p3.unwrap().daily_streak, 1);
    assert_eq!(xp3, 25);
}

#[test]
fn daily_streak_bonus_is_capped() {
    let service = LevelingService::new();
    let mut p = UserProfile::default_with_ids(1, 1);
    p.last_daily = Some(T0 - DAY_MS);
    p.daily_streak = 20;
    let (xp, q) = claim(&service, Some(p), T0);
    assert_eq!(xp, 50);
    assert_eq!(q.unwrap().daily_streak, 21);
}

#[test]
fn boosted_daily_gives_half_again() {
    let service = LevelingService::new();
    match service.claim_daily_at(1, 1, None, true, T0).unwrap() {
        DailyClaim::Claimed { award_xp, .. } => assert_eq!(award_xp, 38),
        DailyClaim::AlreadyClaimed => panic!("first claim"),
    }
}

#[test]
fn invalid_ids_are_rejected() {
    let service = LevelingService::new();
    assert!(matches!(service.claim_daily_at(0, 1, None, false, T0), Err(LevelingError::InvalidId)));
    let r = service.process_message_at(1, 0, None, false, None, T0, 20);
    assert!(matches!(r.result, Err(LevelingError::InvalidId)));
    assert!(r.save.is_none());
}

#[test]
fn test_process_message_cooldown() {
    let service = LevelingService::new();
    let first = service.process_message_at(100, 11, None, false, None, T0, 20);
    assert!(first.result.is_ok());
    let second = service.process_message_at(100, 11, first.save, false, None, T0 + 10_000, 20);
    assert!(matches!(second.result, Err(LevelingError::OnCooldown(50_000))));
    // After the cooldown, XP is earned again.
    let third = service.process_message_at(100, 11, second.save, false, None, T0 + 60_000, 20);
    assert!(third.result.is_ok());
    assert_eq!(third.save.unwrap().total_xp, 40);
}

#[test]
fn test_process_message_boost_multiplier() {
    let config = LevelingConfig::new(10, 10, 0);
    let service = LevelingService::with_config(config);
    let first = service.process_message_at(999, 9, None, false, None, T0, 10);
    assert!(first.result.unwrap().is_none());
    let second = service.process_message_at(999, 9, first.save, true, None, T0 + 1, 10);
    assert!(second.result.unwrap().is_none());
    assert!(second.save.unwrap().total_xp >= 25);
}

#[test]
fn message_xp_levels_up() {
    let service = LevelingService::new();
    let mut p = UserProfile::default_with_ids(5, 6);
    p.total_xp = 90;
    let r = service.process_message_at(5, 6, Some(p), false, None, T0, 20);
    let ev = r.result.unwrap().unwrap();
    assert_eq!(ev.old_level, 1);
    assert_eq!(ev.new_level, 2);
    assert_eq!(ev.total_xp, 110);
}

#[test]
fn level_never_goes_down_after_a_message() {
    let service = LevelingService::new();
    let mut p = UserProfile::default_with_ids(5, 6);
    p.level = 10;
    p.total_xp = 0;
    let r = service.process_message_at(5, 6, Some(p), false, None, T0, 15);
    assert_eq!(r.result.unwrap(), None);
    let saved = r.save.unwrap();
    assert_eq!(saved.level, 10);
    // 15 for the message, then the rewards of the two level achievements it qualifies for.
    assert_eq!(saved.total_xp, 15 + 50 + 100);
}

#[test]
fn test_award_xp_records_event_and_achievements() {
    let service = LevelingService::new();
    let r = service.award_xp_at(33, 12, None, 1000, XpSource::Message, T0);
    let profile = r.save.unwrap();
    assert!(profile.total_xp >= 1000);
    assert!(!profile.xp_history.is_empty());
    assert!(profile.achievements.iter().any(|id| id == "xp_collector"));
}

#[test]
fn test_increment_command_count_achievements() {
    let service = LevelingService::new();
    let mut stored: Option<UserProfile> = None;
    for i in 0..25 {
        let r = service.increment_command_count_at(55, 22, stored, T0 + i);
        stored = r.save;
    }
    let profile = stored.unwrap();
    assert!(profile.total_commands_used >= 25);
    assert!(profile.achievements.iter().any(|id| id == "command_novice"));
}

#[test]
fn achievements_are_not_awarded_twice() {
    let service = LevelingService::new();
    let first = service.award_xp_at(1, 1, None, 1000, XpSource::Message, T0).save;
    let second = service.award_xp_at(1, 1, first, 1000, XpSource::Message, T0 + 1).save.unwrap();
    let n = second.achievements.iter().filter(|id| *id == "xp_collector").count();
    assert_eq!(n, 1);
}

#[test]
fn test_message_content_stats_counters() {
    let service = LevelingService::new();
    let stats = MessageContentStats { has_image: true, is_long: true, has_link: true };
    let r = service.process_message_at(66, 33, None, false, Some(stats), T0, 20);
    let profile = r.save.unwrap();
    assert_eq!(profile.images_shared, 1);
    assert_eq!(profile.long_messages, 1);
    assert_eq!(profile.links_shared, 1);
}

#[test]
fn messages_on_cooldown_are_still_counted() {
    let service = LevelingService::new();
    let first = service.process_message_at(1, 2, None, false, None, T0, 20);
    let second = service.process_message_at(1, 2, first.save, false, None, T0 + 1, 20);
    let p = second.save.unwrap();
    assert_eq!(p.total_messages, 2);
    assert_eq!(p.total_xp, 20);
}

#[test]
fn test_claim_daily_awards_goal_bonus() {
    let service = LevelingService::new();
    let today = "2023-11-14".to_string();
    let (xp, profile) = claim(&service, None, T0);
    // One member: the goal target is one claim, so this claim completes it.
    let (goal, fresh) = service.daily_goal_for(None, &today, 1);
    assert!(fresh);
    assert_eq!(goal.target, 1);
    let (goal, bonus_to) = service.register_goal_claim(goal, 1);
    assert!(goal.completed);
    assert_eq!(bonus_to, vec![1]);
    let profile = service.apply_goal_bonus_at(1, 1, profile, &today, T0);
    let (total, _) = LevelingService::daily_claim_report(xp, None, true);
    assert!(total >= BASE_DAILY_REWARD + GOAL_BONUS_XP);
    assert!(profile.total_xp >= BASE_DAILY_REWARD + GOAL_BONUS_XP);
    assert_eq!(profile.goals_completed, 1);
}

#[test]
fn goal_bonus_is_awarded_once_per_claimer() {
    let service = LevelingService::new();
    let today = "2023-11-14".to_string();
    let (goal, _) = service.daily_goal_for(None, &today, 30);
    let (goal, none) = service.register_goal_claim(goal, 7);
    assert!(none.is_empty());
    assert!(!goal.completed);
    let (goal, again) = service.register_goal_claim(goal, 7);
    assert!(again.is_empty());
    assert_eq!(goal.progress, 1);
    // A stored goal of the same day is kept.
    let (kept, fresh) = service.daily_goal_for(Some(goal), &today, 30);
    assert!(!fresh);
    assert_eq!(kept.claimers, vec![7]);
}

#[test]
fn validate_ids() {
    assert!(LevelingService::validate_ids(1, 2).is_ok());
    assert!(matches!(LevelingService::validate_ids(0, 2), Err(LevelingError::InvalidId)));
    assert!(matches!(LevelingService::validate_guild_id(0), Err(LevelingError::InvalidId)));
}

#[test]
fn a_full_streak_only_blocks_the_next_day_claim() {
    let service = LevelingService::new();
    let (_, p) = claim(&service, None, T0);
    let mut p = p.unwrap();
    p.daily_streak = u32::MAX;
    assert!(LevelingService::streak_would_overflow(&Some(p.clone()), T0 + DAY_MS));
    assert!(!LevelingService::streak_would_overflow(&Some(p.clone()), T0 + 2 * DAY_MS));
    let (xp, again) = claim(&service, Some(p), T0 + 2 * DAY_MS);
    assert_eq!(again.unwrap().daily_streak, 1);
    assert_eq!(xp, 25);
}

#[test]
fn claim_report_adds_the_goal_bonus_only_when_earned() {
    assert_eq!(LevelingService::daily_claim_report(u64::MAX, None, false), (u64::MAX, None));
    assert_eq!(LevelingService::daily_claim_report(25, None, true), (40, None));
}
