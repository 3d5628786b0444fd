pub mod chance;
pub mod clock;
pub mod level_curve;
pub mod leveling;
pub mod text;
pub mod achievements;
pub mod leveling_service;
pub mod leveling_ops;
pub mod leveling_daily;
pub mod next_achievement;
pub mod ranks;
pub mod moderation;
pub mod github;
pub mod github_poll;
pub mod github_config;
pub mod github_updates;
pub mod ai;
pub mod ai_context;
pub mod economy;
pub mod embed;
pub mod logging;
pub mod voice;
pub mod help;
pub mod leaderboard;
pub mod daily_text;
pub mod remind;
pub mod timezones;
pub mod server_stats;
pub mod github_embeds;
pub mod xp_stats;
pub mod leveling_text;
pub mod info;
