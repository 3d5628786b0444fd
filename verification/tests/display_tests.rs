use discord_bot::daily_text::{earliest_claim, goal_text, streak_text, time_left, xp_gain_text};
use discord_bot::leaderboard::{
    buttons_disabled, initial_page, page_bounds, page_description, page_footer, press, rank_of, total_pages, LeaderRow,
    PageStep,
};

#[test]
fn pages_hold_five_members() {
    assert_eq!(total_pages(0), 0);
    assert_eq!(total_pages(5), 1);
    assert_eq!(total_pages(6), 2);
    assert_eq!(page_bounds(1, 12), (0, 5));
    assert_eq!(page_bounds(3, 12), (10, 12));
}

#[test]
fn requested_page_is_kept_in_range() {
    assert_eq!(initial_page(None, 3), 1);
    assert_eq!(initial_page(Some(0), 3), 1);
    assert_eq!(initial_page(Some(9), 3), 3);
    assert_eq!(initial_page(Some(2), 3), 2);
}

#[test]
fn buttons_move_between_pages() {
    assert_eq!(press("prev", 1, 3, None), PageStep::Show(1));
    assert_eq!(press("prev", 2, 3, None), PageStep::Show(1));
    assert_eq!(press("next", 3, 3, None), PageStep::Show(3));
    assert_eq!(press("next", 1, 3, None), PageStep::Show(2));
    assert_eq!(press("find_me", 1, 3, Some(12)), PageStep::Show(3));
    assert_eq!(press("find_me", 1, 3, Some(5)), PageStep::Show(1));
    assert_eq!(press("find_me", 1, 3, None), PageStep::NotRanked);
    assert_eq!(press("other", 2, 3, None), PageStep::Show(2));
    assert_eq!(buttons_disabled(1, 3), (true, false));
    assert_eq!(buttons_disabled(3, 3), (false, true));
}

#[test]
fn rank_is_the_place_in_the_list() {
    let ids = vec![10, 20, 30];
    assert_eq!(rank_of(&ids, 20), Some(2));
    assert_eq!(rank_of(&ids, 99), None);
}

#[test]
fn page_text() {
    let rows = vec![
        LeaderRow { rank: 1, name: "ann".to_string(), is_me: false, level: 4, xp: 600, bar: "▰▱".to_string() },
        LeaderRow { rank: 4, name: "bob".to_string(), is_me: true, level: 2, xp: 150, bar: "▱▱".to_string() },
    ];
    let text = page_description(Some(4), &rows);
    assert_eq!(
        text,
        "Your rank: **#4**\n\n🥇 **#1** ann\nLevel 4 | 600 XP\n▰▱\n\n   **#4** **bob** (You)\nLevel 2 | 150 XP\n▱▱\n\n"
    );
    assert!(page_description(None, &vec![]).starts_with("You are not ranked yet."));
    assert_eq!(page_footer(2, 5), "Page 2/5");
}

#[test]
fn daily_texts() {
    assert_eq!(time_left(500), "Ready soon");
    assert_eq!(time_left(65_000), "1m 5s");
    assert_eq!(time_left(3 * 3_600_000 + 120_000), "3h 2m");
    assert_eq!(time_left(2 * 86_400_000 + 3_600_000), "2d 1h");
    assert_eq!(goal_text(3, 10, "▰"), "3/10 claims\n▰");
    assert_eq!(streak_text(7, true), "7 days 🔥");
    assert_eq!(streak_text(1, false), "1 days");
    assert_eq!(xp_gain_text(30, None), "You gained 30 XP!");
    assert_eq!(xp_gain_text(30, Some(3)), "You gained 30 XP and leveled up to 3!");
    assert_eq!(earliest_claim(Some(5), Some(3)), Some(3));
    assert_eq!(earliest_claim(None, Some(3)), Some(3));
    assert_eq!(earliest_claim(None, None), None);
}
