use std::collections::VecDeque;

use discord_bot::achievements::get_all_achievements;
use discord_bot::leveling::{Difficulty, UserProfile, XpEvent, XpSource};
use discord_bot::leveling_ops::LevelingService;
use discord_bot::leveling_text::{
    achievement_footer, achievement_list, give_xp_reply, xp_source_for, AwardReason, ChallengeDifficultyChoice,
};
use discord_bot::xp_stats::{best_day, best_day_line, feed_entry, profile_numbers, recent_feed, top_sources, xp_analytics};

const DAY: i64 = 86_400_000;
const NOW: i64 = 1_700_000_000_000;

fn event(amount: u64, source: &str, at: i64) -> XpEvent {
    XpEvent { amount, source: source.to_string(), note: None, timestamp: at }
}

#[test]
fn analytics_cover_the_last_week() {
    let history: VecDeque<XpEvent> = vec![
        event(100, "message", NOW - 10 * DAY),
        event(20, "message", NOW - 2 * DAY),
        event(30, "daily", NOW - 2 * DAY),
        event(15, "message", NOW - 1000),
    ]
    .into_iter()
    .collect();
    let a = xp_analytics(&history, NOW);
    assert_eq!(a.recent_total, 65);
    assert_eq!(a.days.len(), 2);
    let day_sum: u128 = a.days.iter().map(|d| d.1).sum();
    assert_eq!(day_sum, a.recent_total);
    assert_eq!(a.sources, vec![("message".to_string(), 35), ("daily".to_string(), 30)]);
    assert_eq!(best_day(&a.days).unwrap().1, 50);
    assert!(best_day(&vec![]).is_none());
    assert_eq!(top_sources(&a.sources), "message: 35 XP\ndaily: 30 XP");
    assert_eq!(top_sources(&vec![]), "No XP sources logged this week.");
}

#[test]
fn best_day_names_the_date() {
    assert_eq!(best_day_line(Some((19_675, 50))), "50 XP on 2023-11-14");
    assert_eq!(best_day_line(None), "No activity");
}

#[test]
fn feed_lines_say_how_long_ago() {
    let mut e = event(25, "daily", NOW - 2 * 3_600_000);
    e.note = Some("streak 3d".to_string());
    assert_eq!(feed_entry(&e, NOW), "+25 XP — daily (streak 3d) • 2h ago");
    assert_eq!(feed_entry(&event(5, "message", NOW - 120_000), NOW), "+5 XP — message • 2m ago");
    assert_eq!(feed_entry(&event(5, "message", NOW - 3 * DAY), NOW), "+5 XP — message • 3d ago");
    let h: VecDeque<XpEvent> = VecDeque::new();
    assert_eq!(recent_feed(&h, NOW), "No XP events recorded yet.");
    let many: VecDeque<XpEvent> = (0..7).map(|i| event(i, "message", NOW - 60_000)).collect();
    let feed = recent_feed(&many, NOW);
    assert_eq!(feed.lines().count(), 5);
    assert!(feed.starts_with("+6 XP"));
}

#[test]
fn profile_card_numbers() {
    // Level 2 spans 100..282 XP.
    assert_eq!(profile_numbers(2, 150), (50, 182, 132));
    assert_eq!(profile_numbers(1, 0), (0, 100, 100));
}

#[test]
fn achievement_list_groups_by_category() {
    let earned = vec!["first_steps".to_string()];
    let fields = achievement_list(&earned);
    let titles: Vec<&str> = fields.iter().map(|f| f.0.as_str()).collect();
    let mut sorted = titles.clone();
    sorted.sort();
    assert_eq!(titles, sorted);
    assert!(titles.iter().all(|t| t.starts_with("📁 ")));
    let all: String = fields.iter().map(|f| f.1.clone()).collect::<Vec<_>>().join("\n");
    assert_eq!(all.matches("✅").count(), 1);
    assert_eq!(all.matches("🔒").count(), get_all_achievements().len() - 1);
    let first = get_all_achievements().into_iter().find(|a| a.id == "first_steps").unwrap();
    assert_eq!(achievement_footer(&earned), format!("Total achievement XP earned: {}", first.reward_xp));
    assert_eq!(achievement_footer(&vec![]), "Total achievement XP earned: 0");
}

#[test]
fn next_achievement_is_one_not_yet_earned() {
    let service = LevelingService::new();
    let mut p = UserProfile::default_with_ids(1, 1);
    p.total_messages = 5;
    let next = service.get_next_achievement(&p).unwrap();
    assert!(!p.achievements.iter().any(|id| id == next.achievement.id));
    assert!(next.progress.current <= next.progress.target);
}

#[test]
fn award_reasons() {
    assert!(matches!(xp_source_for(None, None, None, None), XpSource::Message));
    assert!(matches!(xp_source_for(Some(AwardReason::VoiceMinute), None, None, None), XpSource::VoiceMinute));
    match xp_source_for(Some(AwardReason::CodeChallenge), Some(ChallengeDifficultyChoice::Hard), None, Some(12)) {
        XpSource::CodeChallenge { difficulty, language, execution_time_ms } => {
            assert_eq!(difficulty, Difficulty::Hard);
            assert_eq!(language, "rust");
            assert_eq!(execution_time_ms, 12);
        },
        other => panic!("unexpected {:?}", other),
    }
    assert_eq!(
        give_xp_reply(50, "Ann", AwardReason::Message, Some((3, 300))),
        "✅ Gave 50 XP to Ann via Message!\n🎉 They leveled up to level 3 (300 XP total)!"
    );
    assert_eq!(give_xp_reply(5, "Bob", AwardReason::VoiceMinute, None), "✅ Gave 5 XP to Bob via VoiceMinute!");
}

#[test]
fn ranks_follow_xp() {
    let service = LevelingService::new();
    let mut a = UserProfile::default_with_ids(1, 9);
    a.total_xp = 10;
    let mut b = UserProfile::default_with_ids(2, 9);
    b.total_xp = 500;
    let mut c = UserProfile::default_with_ids(3, 9);
    c.total_xp = 200;
    let ranked = service.recalculate_and_update_ranks(9, vec![a, b, c]).unwrap();
    let order: Vec<(u64, u32)> = ranked.iter().map(|p| (p.user_id, p.best_rank)).collect();
    assert_eq!(order.iter().map(|o| o.0).collect::<Vec<_>>(), vec![2, 3, 1]);
    assert_eq!(order.iter().map(|o| o.1).collect::<Vec<_>>(), vec![1, 2, 3]);
}
