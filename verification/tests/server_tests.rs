use discord_bot::server_stats::{
    channel_names, check_delete, check_save, stat_counts, status_fields, ServerStatsConfig, ServerStatsError,
};
use discord_bot::timezones::{display_at, zone_display, zone_field, TimezoneService};

fn config() -> ServerStatsConfig {
    ServerStatsConfig {
        guild_id: 1,
        category_id: 2,
        total_members_channel_id: 3,
        members_channel_id: 4,
        bots_channel_id: 5,
        boost_channel_id: 6,
        enabled: true,
    }
}

#[test]
fn stats_settings_exist_once() {
    assert!(check_save(&None).is_ok());
    assert!(matches!(check_save(&Some(config())), Err(ServerStatsError::AlreadyConfigured)));
    assert!(check_delete(&Some(config())).is_ok());
    assert!(matches!(check_delete(&None), Err(ServerStatsError::NotConfigured)));
    assert_eq!(ServerStatsError::NotConfigured.message(), "Not configured");
    assert_eq!(ServerStatsError::Store("x".to_string()).message(), "Store error: x");
}

#[test]
fn stats_counts_and_names() {
    let c = stat_counts(120, 20, 90, 4);
    assert_eq!(c.members, 100);
    // A partial member cache cannot make humans negative.
    assert_eq!(stat_counts(10, 20, 7, 0).members, 7);
    let (all, members, bots, boosts) = channel_names(&c);
    assert_eq!(all, "🧑‍🤝‍🧑 All Members: 120");
    assert_eq!(members, "👤 Members: 100");
    assert_eq!(bots, "🤖 Bots: 20");
    assert_eq!(boosts, "🚀 Boosts: 4");
}

#[test]
fn stats_status_fields() {
    let f = status_fields(&config());
    assert_eq!(f.len(), 6);
    assert_eq!(f[0], ("Status".to_string(), "Enabled".to_string()));
    assert_eq!(f[5], ("Boosts Channel".to_string(), "<#6>".to_string()));
}

#[test]
fn team_zones_in_order() {
    let service = TimezoneService::new();
    let zones = service.team_timezones_at(1_700_000_000_000);
    assert_eq!(zones.len(), 8);
    assert_eq!(zones[0].0.tz_name, "America/Los_Angeles");
    assert_eq!(zones[7].0.label, "🕗 Australia");
    // 2023-11-14 22:13:20 UTC is 14:13 in Los Angeles and 09:13 the next day in Sydney.
    assert_eq!(zones[0].1.twenty_four_hour, "14:13");
    assert_eq!(zones[0].1.twelve_hour, "2:13 PM");
    assert_eq!(zones[7].1.twenty_four_hour, "09:13");
    assert_eq!(zones[7].1.date_fragment, "Wed 15 Nov");
    assert_eq!(zones[0].1.relative_timestamp, 1_700_000_000);
}

#[test]
fn unknown_zone_falls_back_to_utc() {
    let d = display_at("Mars/Olympus", 1_700_000_000_000);
    assert_eq!(d.twenty_four_hour, "22:13");
}

#[test]
fn zone_texts() {
    let d = zone_display("09:05 AM".to_string(), "09:05".to_string(), "Mon 01 Jan".to_string(), 60_000);
    assert_eq!(d.twelve_hour, "9:05 AM");
    assert_eq!(zone_field(&d, "Somewhere"), "**9:05 AM** (09:05)\nMon 01 Jan\n<t:60:R>\n_Somewhere_");
}
