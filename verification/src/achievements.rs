//! The achievement catalog and the rule each achievement is earned by.
use crate::leveling::ProfileView;
use vstd::prelude::*;

verus! {

/// The group an achievement is shown under.
#[derive(Debug, Clone, Copy, PartialEq, Eq, Structural)]
pub enum AchievementCategory {
    Levels,
    Messages,
    Commands,
    Streaks,
    Xp,
    Special,
    Leaderboard,
    Content,
    Participation,
    Meta,
}

pub open spec fn category_title(c: AchievementCategory) -> Seq<char> {
    match c {
        AchievementCategory::Levels => "Level Milestones"@,
        AchievementCategory::Messages => "Messaging"@,
        AchievementCategory::Commands => "Command Usage"@,
        AchievementCategory::Streaks => "Daily Streaks"@,
        AchievementCategory::Xp => "XP Milestones"@,
        AchievementCategory::Special => "Special"@,
        AchievementCategory::Leaderboard => "Leaderboard & Competition"@,
        AchievementCategory::Content => "Content Creator"@,
        AchievementCategory::Participation => "Server Participation"@,
        AchievementCategory::Meta => "Meta"@,
    }
}

impl AchievementCategory {
    /// The heading the category is displayed under.
    pub fn title(&self) -> (s: &'static str)
        ensures
            s@ == category_title(*self),
    {
        match self {
            AchievementCategory::Levels => "Level Milestones",
            AchievementCategory::Messages => "Messaging",
            AchievementCategory::Commands => "Command Usage",
            AchievementCategory::Streaks => "Daily Streaks",
            AchievementCategory::Xp => "XP Milestones",
            AchievementCategory::Special => "Special",
            AchievementCategory::Leaderboard => "Leaderboard & Competition",
            AchievementCategory::Content => "Content Creator",
            AchievementCategory::Participation => "Server Participation",
            AchievementCategory::Meta => "Meta",
        }
    }
}

/// The rule by which an achievement is earned.
#[derive(Debug, Clone, Copy, PartialEq, Eq, Structural)]
pub enum Criterion {
    LevelAtLeast(u32),
    MessagesAtLeast(u64),
    CommandsAtLeast(u64),
    StreakAtLeast(u32),
    XpAtLeast(u64),
    /// At least one daily reward was claimed.
    ClaimedDaily,
    BoostDaysAtLeast(u64),
    /// Level 10, 500 messages and 50 commands.
    WellRounded,
    BestRankAtMost(u32),
    RankImprovementAtLeast(u32),
    ImagesAtLeast(u64),
    LongMessagesAtLeast(u64),
    LinksAtLeast(u64),
    GoalsAtLeast(u64),
    AchievementsAtLeast(u64),
}

/// Whether a profile satisfies a rule.
pub open spec fn meets(c: Criterion, p: ProfileView) -> bool {
    match c {
        Criterion::LevelAtLeast(n) => p.level >= n,
        Criterion::MessagesAtLeast(n) => p.total_messages >= n,
        Criterion::CommandsAtLeast(n) => p.total_commands_used >= n,
        Criterion::StreakAtLeast(n) => p.daily_streak >= n,
        Criterion::XpAtLeast(n) => p.total_xp >= n,
        Criterion::ClaimedDaily => p.last_daily is Some,
        Criterion::BoostDaysAtLeast(n) => p.boost_days >= n,
        Criterion::WellRounded => p.level >= 10 && p.total_messages >= 500 && p.total_commands_used >= 50,
        Criterion::BestRankAtMost(n) => p.best_rank <= n,
        Criterion::RankImprovementAtLeast(n) => p.rank_improvement >= n,
        Criterion::ImagesAtLeast(n) => p.images_shared >= n,
        Criterion::LongMessagesAtLeast(n) => p.long_messages >= n,
        Criterion::LinksAtLeast(n) => p.links_shared >= n,
        Criterion::GoalsAtLeast(n) => p.goals_completed >= n,
        Criterion::AchievementsAtLeast(n) => p.achievements.len() >= n,
    }
}

/// Each counting rule reads the counter it names: a message milestone is met exactly when
/// the message count reaches it, and likewise for commands, streak days, XP, level, boost
/// days, images, long messages, links and completed goals.
pub proof fn lemma_rules_read_their_counters(p: ProfileView, n: u64, m: u32)
    ensures
        meets(Criterion::MessagesAtLeast(n), p) <==> p.total_messages >= n,
        meets(Criterion::CommandsAtLeast(n), p) <==> p.total_commands_used >= n,
        meets(Criterion::StreakAtLeast(m), p) <==> p.daily_streak >= m,
        meets(Criterion::XpAtLeast(n), p) <==> p.total_xp >= n,
        meets(Criterion::LevelAtLeast(m), p) <==> p.level >= m,
        meets(Criterion::BoostDaysAtLeast(n), p) <==> p.boost_days >= n,
        meets(Criterion::ImagesAtLeast(n), p) <==> p.images_shared >= n,
        meets(Criterion::LongMessagesAtLeast(n), p) <==> p.long_messages >= n,
        meets(Criterion::LinksAtLeast(n), p) <==> p.links_shared >= n,
        meets(Criterion::GoalsAtLeast(n), p) <==> p.goals_completed >= n,
{
}

/// An achievement a user can unlock.
#[derive(Debug, Clone, Copy)]
pub struct Achievement {
    pub id: &'static str,
    pub name: &'static str,
    pub description: &'static str,
    pub emoji: &'static str,
    pub reward_xp: u64,
    pub category: AchievementCategory,
    pub criterion: Criterion,
}

/// Every achievement, in the order they are checked.
pub open spec fn achievement_catalog() -> Seq<Achievement> {
    seq![
        Achievement {
            id: "first_steps",
            name: "First Steps",
            description: "Reach level 5",
            emoji: "🌱",
            reward_xp: 50,
            category: AchievementCategory::Levels,
            criterion: Criterion::LevelAtLeast(5),
        },
        Achievement {
            id: "rising_star",
            name: "Rising Star",
            description: "Reach level 10",
            emoji: "⭐",
            reward_xp: 100,
            category: AchievementCategory::Levels,
            criterion: Criterion::LevelAtLeast(10),
        },
        Achievement {
            id: "veteran",
            name: "Veteran",
            description: "Reach level 25",
            emoji: "🎖️",
            reward_xp: 250,
            category: AchievementCategory::Levels,
            criterion: Criterion::LevelAtLeast(25),
        },
        Achievement {
            id: "legend",
            name: "Legend",
            description: "Reach level 50",
            emoji: "🏆",
            reward_xp: 500,
            category: AchievementCategory::Levels,
            criterion: Criterion::LevelAtLeast(50),
        },
        Achievement {
            id: "centurion",
            name: "Centurion",
            description: "Reach level 100",
            emoji: "💯",
            reward_xp: 1000,
            category: AchievementCategory::Levels,
            criterion: Criterion::LevelAtLeast(100),
        },
        Achievement {
            id: "halfway_there",
            name: "Halfway There",
            description: "Reach level 15",
            emoji: "🧭",
            reward_xp: 150,
            category: AchievementCategory::Levels,
            criterion: Criterion::LevelAtLeast(15),
        },
        Achievement {
            id: "chatterbox",
            name: "Chatterbox",
            description: "Send 100 messages",
            emoji: "💬",
            reward_xp: 50,
            category: AchievementCategory::Messages,
            criterion: Criterion::MessagesAtLeast(100),
        },
        Achievement {
            id: "conversationalist",
            name: "Conversationalist",
            description: "Send 500 messages",
            emoji: "🗣️",
            reward_xp: 150,
            category: AchievementCategory::Messages,
            criterion: Criterion::MessagesAtLeast(500),
        },
        Achievement {
            id: "voice_of_the_server",
            name: "Voice of the Server",
            description: "Send 1,000 messages",
            emoji: "📢",
            reward_xp: 300,
            category: AchievementCategory::Messages,
            criterion: Criterion::MessagesAtLeast(1000),
        },
        Achievement {
            id: "veteran_speaker",
            name: "Veteran Speaker",
            description: "Send 5,000 messages",
            emoji: "🎙️",
            reward_xp: 1000,
            category: AchievementCategory::Messages,
            criterion: Criterion::MessagesAtLeast(5000),
        },
        Achievement {
            id: "command_novice",
            name: "Command Novice",
            description: "Use 25 commands",
            emoji: "⌨️",
            reward_xp: 50,
            category: AchievementCategory::Commands,
            criterion: Criterion::CommandsAtLeast(25),
        },
        Achievement {
            id: "command_expert",
            name: "Command Expert",
            description: "Use 100 commands",
            emoji: "🛠️",
            reward_xp: 150,
            category: AchievementCategory::Commands,
            criterion: Criterion::CommandsAtLeast(100),
        },
        Achievement {
            id: "command_master",
            name: "Command Master",
            description: "Use 500 commands",
            emoji: "🧙",
            reward_xp: 500,
            category: AchievementCategory::Commands,
            criterion: Criterion::CommandsAtLeast(500),
        },
        Achievement {
            id: "streak_starter",
            name: "Streak Starter",
            description: "Keep a 3-day daily streak",
            emoji: "🔥",
            reward_xp: 50,
            category: AchievementCategory::Streaks,
            criterion: Criterion::StreakAtLeast(3),
        },
        Achievement {
            id: "week_warrior",
            name: "Week Warrior",
            description: "Keep a 7-day daily streak",
            emoji: "📅",
            reward_xp: 100,
            category: AchievementCategory::Streaks,
            criterion: Criterion::StreakAtLeast(7),
        },
        Achievement {
            id: "biweekly_dedication",
            name: "Biweekly Dedication",
            description: "Keep a 14-day daily streak",
            emoji: "🗓️",
            reward_xp: 200,
            category: AchievementCategory::Streaks,
            criterion: Criterion::StreakAtLeast(14),
        },
        Achievement {
            id: "month_master",
            name: "Month Master",
            description: "Keep a 30-day daily streak",
            emoji: "🌙",
            reward_xp: 500,
            category: AchievementCategory::Streaks,
            criterion: Criterion::StreakAtLeast(30),
        },
        Achievement {
            id: "dedication_deity",
            name: "Dedication Deity",
            description: "Keep a 100-day daily streak",
            emoji: "👑",
            reward_xp: 1500,
            category: AchievementCategory::Streaks,
            criterion: Criterion::StreakAtLeast(100),
        },
        Achievement {
            id: "half_year_hero",
            name: "Half-Year Hero",
            description: "Keep a 180-day daily streak",
            emoji: "🦸",
            reward_xp: 2500,
            category: AchievementCategory::Streaks,
            criterion: Criterion::StreakAtLeast(180),
        },
        Achievement {
            id: "yearly_champion",
            name: "Yearly Champion",
            description: "Keep a 365-day daily streak",
            emoji: "🏅",
            reward_xp: 5000,
            category: AchievementCategory::Streaks,
            criterion: Criterion::StreakAtLeast(365),
        },
        Achievement {
            id: "xp_collector",
            name: "XP Collector",
            description: "Earn 1,000 XP",
            emoji: "💎",
            reward_xp: 100,
            category: AchievementCategory::Xp,
            criterion: Criterion::XpAtLeast(1000),
        },
        Achievement {
            id: "xp_hoarder",
            name: "XP Hoarder",
            description: "Earn 5,000 XP",
            emoji: "💰",
            reward_xp: 250,
            category: AchievementCategory::Xp,
            criterion: Criterion::XpAtLeast(5000),
        },
        Achievement {
            id: "xp_tycoon",
            name: "XP Tycoon",
            description: "Earn 10,000 XP",
            emoji: "🏦",
            reward_xp: 500,
            category: AchievementCategory::Xp,
            criterion: Criterion::XpAtLeast(10000),
        },
        Achievement {
            id: "xp_millionaire",
            name: "XP Millionaire",
            description: "Earn 25,000 XP",
            emoji: "🤑",
            reward_xp: 1000,
            category: AchievementCategory::Xp,
            criterion: Criterion::XpAtLeast(25000),
        },
        Achievement {
            id: "early_bird",
            name: "Early Bird",
            description: "Claim your first daily reward",
            emoji: "🐦",
            reward_xp: 25,
            category: AchievementCategory::Special,
            criterion: Criterion::ClaimedDaily,
        },
        Achievement {
            id: "booster_badge",
            name: "Booster Badge",
            description: "Boost the server",
            emoji: "🚀",
            reward_xp: 100,
            category: AchievementCategory::Special,
            criterion: Criterion::BoostDaysAtLeast(1),
        },
        Achievement {
            id: "server_supporter",
            name: "Server Supporter",
            description: "Boost the server for 30 days",
            emoji: "💜",
            reward_xp: 500,
            category: AchievementCategory::Special,
            criterion: Criterion::BoostDaysAtLeast(30),
        },
        Achievement {
            id: "well_rounded",
            name: "Well Rounded",
            description: "Reach level 10, send 500 messages and use 50 commands",
            emoji: "🎯",
            reward_xp: 300,
            category: AchievementCategory::Special,
            criterion: Criterion::WellRounded,
        },
        Achievement {
            id: "podium_finish",
            name: "Podium Finish",
            description: "Reach the top 3 of the leaderboard",
            emoji: "🥇",
            reward_xp: 500,
            category: AchievementCategory::Leaderboard,
            criterion: Criterion::BestRankAtMost(3),
        },
        Achievement {
            id: "top_ten",
            name: "Top Ten",
            description: "Reach the top 10 of the leaderboard",
            emoji: "🔟",
            reward_xp: 200,
            category: AchievementCategory::Leaderboard,
            criterion: Criterion::BestRankAtMost(10),
        },
        Achievement {
            id: "leaderboard_climber",
            name: "Leaderboard Climber",
            description: "Climb 10 ranks on the leaderboard",
            emoji: "📈",
            reward_xp: 150,
            category: AchievementCategory::Leaderboard,
            criterion: Criterion::RankImprovementAtLeast(10),
        },
        Achievement {
            id: "photographer",
            name: "Photographer",
            description: "Share 50 images",
            emoji: "📸",
            reward_xp: 150,
            category: AchievementCategory::Content,
            criterion: Criterion::ImagesAtLeast(50),
        },
        Achievement {
            id: "lengthy_talker",
            name: "Lengthy Talker",
            description: "Send 50 long messages",
            emoji: "📜",
            reward_xp: 150,
            category: AchievementCategory::Content,
            criterion: Criterion::LongMessagesAtLeast(50),
        },
        Achievement {
            id: "link_sharer",
            name: "Link Sharer",
            description: "Share 50 links",
            emoji: "🔗",
            reward_xp: 150,
            category: AchievementCategory::Content,
            criterion: Criterion::LinksAtLeast(50),
        },
        Achievement {
            id: "goal_contributor",
            name: "Goal Contributor",
            description: "Help complete 10 daily server goals",
            emoji: "🤝",
            reward_xp: 100,
            category: AchievementCategory::Participation,
            criterion: Criterion::GoalsAtLeast(10),
        },
        Achievement {
            id: "goal_enthusiast",
            name: "Goal Enthusiast",
            description: "Help complete 50 daily server goals",
            emoji: "🎉",
            reward_xp: 500,
            category: AchievementCategory::Participation,
            criterion: Criterion::GoalsAtLeast(50),
        },
        Achievement {
            id: "achievement_hunter",
            name: "Achievement Hunter",
            description: "Unlock 10 achievements",
            emoji: "🗝️",
            reward_xp: 200,
            category: AchievementCategory::Meta,
            criterion: Criterion::AchievementsAtLeast(10),
        },
        Achievement {
            id: "completionist",
            name: "Completionist",
            description: "Unlock 30 achievements",
            emoji: "🌟",
            reward_xp: 1000,
            category: AchievementCategory::Meta,
            criterion: Criterion::AchievementsAtLeast(30),
        }
    ]
}

/// Every achievement, in the order they are checked.
pub fn get_all_achievements() -> (r: Vec<Achievement>)
    ensures
        r@ == achievement_catalog(),
{
    vec![
        Achievement {
            id: "first_steps",
            name: "First Steps",
            description: "Reach level 5",
            emoji: "🌱",
            reward_xp: 50,
            category: AchievementCategory::Levels,
            criterion: Criterion::LevelAtLeast(5),
        },
        Achievement {
            id: "rising_star",
            name: "Rising Star",
            description: "Reach level 10",
            emoji: "⭐",
            reward_xp: 100,
            category: AchievementCategory::Levels,
            criterion: Criterion::LevelAtLeast(10),
        },
        Achievement {
            id: "veteran",
            name: "Veteran",
            description: "Reach level 25",
            emoji: "🎖️",
            reward_xp: 250,
            category: AchievementCategory::Levels,
            criterion: Criterion::LevelAtLeast(25),
        },
        Achievement {
            id: "legend",
            name: "Legend",
            description: "Reach level 50",
            emoji: "🏆",
            reward_xp: 500,
            category: AchievementCategory::Levels,
            criterion: Criterion::LevelAtLeast(50),
        },
        Achievement {
            id: "centurion",
            name: "Centurion",
            description: "Reach level 100",
            emoji: "💯",
            reward_xp: 1000,
            category: AchievementCategory::Levels,
            criterion: Criterion::LevelAtLeast(100),
        },
        Achievement {
            id: "halfway_there",
            name: "Halfway There",
            description: "Reach level 15",
            emoji: "🧭",
            reward_xp: 150,
            category: AchievementCategory::Levels,
            criterion: Criterion::LevelAtLeast(15),
        },
        Achievement {
            id: "chatterbox",
            name: "Chatterbox",
            description: "Send 100 messages",
            emoji: "💬",
            reward_xp: 50,
            category: AchievementCategory::Messages,
            criterion: Criterion::MessagesAtLeast(100),
        },
        Achievement {
            id: "conversationalist",
            name: "Conversationalist",
            description: "Send 500 messages",
            emoji: "🗣️",
            reward_xp: 150,
            category: AchievementCategory::Messages,
            criterion: Criterion::MessagesAtLeast(500),
        },
        Achievement {
            id: "voice_of_the_server",
            name: "Voice of the Server",
            description: "Send 1,000 messages",
            emoji: "📢",
            reward_xp: 300,
            category: AchievementCategory::Messages,
            criterion: Criterion::MessagesAtLeast(1000),
        },
        Achievement {
            id: "veteran_speaker",
            name: "Veteran Speaker",
            description: "Send 5,000 messages",
            emoji: "🎙️",
            reward_xp: 1000,
            category: AchievementCategory::Messages,
            criterion: Criterion::MessagesAtLeast(5000),
        },
        Achievement {
            id: "command_novice",
            name: "Command Novice",
            description: "Use 25 commands",
            emoji: "⌨️",
            reward_xp: 50,
            category: AchievementCategory::Commands,
            criterion: Criterion::CommandsAtLeast(25),
        },
        Achievement {
            id: "command_expert",
            name: "Command Expert",
            description: "Use 100 commands",
            emoji: "🛠️",
            reward_xp: 150,
            category: AchievementCategory::Commands,
            criterion: Criterion::CommandsAtLeast(100),
        },
        Achievement {
            id: "command_master",
            name: "Command Master",
            description: "Use 500 commands",
            emoji: "🧙",
            reward_xp: 500,
            category: AchievementCategory::Commands,
            criterion: Criterion::CommandsAtLeast(500),
        },
        Achievement {
            id: "streak_starter",
            name: "Streak Starter",
            description: "Keep a 3-day daily streak",
            emoji: "🔥",
            reward_xp: 50,
            category: AchievementCategory::Streaks,
            criterion: Criterion::StreakAtLeast(3),
        },
        Achievement {
            id: "week_warrior",
            name: "Week Warrior",
            description: "Keep a 7-day daily streak",
            emoji: "📅",
            reward_xp: 100,
            category: AchievementCategory::Streaks,
            criterion: Criterion::StreakAtLeast(7),
        },
        Achievement {
            id: "biweekly_dedication",
            name: "Biweekly Dedication",
            description: "Keep a 14-day daily streak",
            emoji: "🗓️",
            reward_xp: 200,
            category: AchievementCategory::Streaks,
            criterion: Criterion::StreakAtLeast(14),
        },
        Achievement {
            id: "month_master",
            name: "Month Master",
            description: "Keep a 30-day daily streak",
            emoji: "🌙",
            reward_xp: 500,
            category: AchievementCategory::Streaks,
            criterion: Criterion::StreakAtLeast(30),
        },
        Achievement {
            id: "dedication_deity",
            name: "Dedication Deity",
            description: "Keep a 100-day daily streak",
            emoji: "👑",
            reward_xp: 1500,
            category: AchievementCategory::Streaks,
            criterion: Criterion::StreakAtLeast(100),
        },
        Achievement {
            id: "half_year_hero",
            name: "Half-Year Hero",
            description: "Keep a 180-day daily streak",
            emoji: "🦸",
            reward_xp: 2500,
            category: AchievementCategory::Streaks,
            criterion: Criterion::StreakAtLeast(180),
        },
        Achievement {
            id: "yearly_champion",
            name: "Yearly Champion",
            description: "Keep a 365-day daily streak",
            emoji: "🏅",
            reward_xp: 5000,
            category: AchievementCategory::Streaks,
            criterion: Criterion::StreakAtLeast(365),
        },
        Achievement {
            id: "xp_collector",
            name: "XP Collector",
            description: "Earn 1,000 XP",
            emoji: "💎",
            reward_xp: 100,
            category: AchievementCategory::Xp,
            criterion: Criterion::XpAtLeast(1000),
        },
        Achievement {
            id: "xp_hoarder",
            name: "XP Hoarder",
            description: "Earn 5,000 XP",
            emoji: "💰",
            reward_xp: 250,
            category: AchievementCategory::Xp,
            criterion: Criterion::XpAtLeast(5000),
        },
        Achievement {
            id: "xp_tycoon",
            name: "XP Tycoon",
            description: "Earn 10,000 XP",
            emoji: "🏦",
            reward_xp: 500,
            category: AchievementCategory::Xp,
            criterion: Criterion::XpAtLeast(10000),
        },
        Achievement {
            id: "xp_millionaire",
            name: "XP Millionaire",
            description: "Earn 25,000 XP",
            emoji: "🤑",
            reward_xp: 1000,
            category: AchievementCategory::Xp,
            criterion: Criterion::XpAtLeast(25000),
        },
        Achievement {
            id: "early_bird",
            name: "Early Bird",
            description: "Claim your first daily reward",
            emoji: "🐦",
            reward_xp: 25,
            category: AchievementCategory::Special,
            criterion: Criterion::ClaimedDaily,
        },
        Achievement {
            id: "booster_badge",
            name: "Booster Badge",
            description: "Boost the server",
            emoji: "🚀",
            reward_xp: 100,
            category: AchievementCategory::Special,
            criterion: Criterion::BoostDaysAtLeast(1),
        },
        Achievement {
            id: "server_supporter",
            name: "Server Supporter",
            description: "Boost the server for 30 days",
            emoji: "💜",
            reward_xp: 500,
            category: AchievementCategory::Special,
            criterion: Criterion::BoostDaysAtLeast(30),
        },
        Achievement {
            id: "well_rounded",
            name: "Well Rounded",
            description: "Reach level 10, send 500 messages and use 50 commands",
            emoji: "🎯",
            reward_xp: 300,
            category: AchievementCategory::Special,
            criterion: Criterion::WellRounded,
        },
        Achievement {
            id: "podium_finish",
            name: "Podium Finish",
            description: "Reach the top 3 of the leaderboard",
            emoji: "🥇",
            reward_xp: 500,
            category: AchievementCategory::Leaderboard,
            criterion: Criterion::BestRankAtMost(3),
        },
        Achievement {
            id: "top_ten",
            name: "Top Ten",
            description: "Reach the top 10 of the leaderboard",
            emoji: "🔟",
            reward_xp: 200,
            category: AchievementCategory::Leaderboard,
            criterion: Criterion::BestRankAtMost(10),
        },
        Achievement {
            id: "leaderboard_climber",
            name: "Leaderboard Climber",
            description: "Climb 10 ranks on the leaderboard",
            emoji: "📈",
            reward_xp: 150,
            category: AchievementCategory::Leaderboard,
            criterion: Criterion::RankImprovementAtLeast(10),
        },
        Achievement {
            id: "photographer",
            name: "Photographer",
            description: "Share 50 images",
            emoji: "📸",
            reward_xp: 150,
            category: AchievementCategory::Content,
            criterion: Criterion::ImagesAtLeast(50),
        },
        Achievement {
            id: "lengthy_talker",
            name: "Lengthy Talker",
            description: "Send 50 long messages",
            emoji: "📜",
            reward_xp: 150,
            category: AchievementCategory::Content,
            criterion: Criterion::LongMessagesAtLeast(50),
        },
        Achievement {
            id: "link_sharer",
            name: "Link Sharer",
            description: "Share 50 links",
            emoji: "🔗",
            reward_xp: 150,
            category: AchievementCategory::Content,
            criterion: Criterion::LinksAtLeast(50),
        },
        Achievement {
            id: "goal_contributor",
            name: "Goal Contributor",
            description: "Help complete 10 daily server goals",
            emoji: "🤝",
            reward_xp: 100,
            category: AchievementCategory::Participation,
            criterion: Criterion::GoalsAtLeast(10),
        },
        Achievement {
            id: "goal_enthusiast",
            name: "Goal Enthusiast",
            description: "Help complete 50 daily server goals",
            emoji: "🎉",
            reward_xp: 500,
            category: AchievementCategory::Participation,
            criterion: Criterion::GoalsAtLeast(50),
        },
        Achievement {
            id: "achievement_hunter",
            name: "Achievement Hunter",
            description: "Unlock 10 achievements",
            emoji: "🗝️",
            reward_xp: 200,
            category: AchievementCategory::Meta,
            criterion: Criterion::AchievementsAtLeast(10),
        },
        Achievement {
            id: "completionist",
            name: "Completionist",
            description: "Unlock 30 achievements",
            emoji: "🌟",
            reward_xp: 1000,
            category: AchievementCategory::Meta,
            criterion: Criterion::AchievementsAtLeast(30),
        }
    ]
}

} // verus!
