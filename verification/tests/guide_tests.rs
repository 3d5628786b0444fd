use discord_bot::help::{build_help, chunk_entries, get_category_emoji, get_command_metadata, CommandInfo};
use discord_bot::info::{build_info_embed, find_info_channels};

fn cmd(name: &str, hidden: bool, description: Option<&str>) -> CommandInfo {
    CommandInfo {
        name: name.to_string(),
        hide_in_help: hidden,
        description: description.map(|d| d.to_string()),
        help_text: None,
    }
}

#[test]
fn category_emojis() {
    assert_eq!(get_category_emoji("Quick Start"), "🚀");
    assert_eq!(get_category_emoji("Utilities"), "🧰");
    assert_eq!(get_category_emoji("Elsewhere"), "•");
}

#[test]
fn command_metadata_defaults_to_utilities() {
    let m = get_command_metadata("daily");
    assert_eq!(m.category, "Progress & Rewards");
    assert_eq!(m.priority, 70);
    let other = get_command_metadata("unknown_command");
    assert_eq!(other.category, "Utilities");
    assert_eq!(other.priority, 0);
    assert!(other.description.is_none());
}

#[test]
fn chunks_keep_every_entry_in_order() {
    let entries: Vec<String> = (0..30).map(|i| format!("{:02}{}", i, "x".repeat(60))).collect();
    let chunks = chunk_entries(&entries);
    assert!(chunks.len() > 1);
    let flat: Vec<String> = chunks.iter().flatten().cloned().collect();
    assert_eq!(flat, entries);
    for c in &chunks {
        let size: usize = c.iter().map(|e| e.len() + 1).sum();
        assert!(size <= 1000);
    }
    assert!(chunk_entries(&vec![]).is_empty());
}

#[test]
fn guide_orders_sections_and_commands() {
    let cmds = vec![
        cmd("timezones", false, None),
        cmd("level", false, None),
        cmd("daily", false, None),
        cmd("info", false, None),
        cmd("secret", true, Some("hidden")),
        cmd("help", false, Some("this help")),
        cmd("zzz", false, Some("Custom thing")),
    ];
    let e = build_help(&cmds, None);
    assert_eq!(e.title.as_deref(), Some("Greybeard Command Guide"));
    let names: Vec<&str> = e.fields.iter().map(|f| f.name.as_str()).collect();
    assert_eq!(names, vec!["🚀 Quick Start", "📈 Progress & Rewards", "🧰 Utilities"]);
    // Within a section, higher priority first.
    let progress = &e.fields[1].value;
    assert!(progress.find("/level").unwrap() < progress.find("/daily").unwrap());
    let utilities = &e.fields[2].value;
    assert!(utilities.contains("• **/zzz** — Custom thing"));
    assert!(!utilities.contains("secret"));
    assert!(!utilities.contains("/help"));
    assert!(utilities.find("/timezones").unwrap() < utilities.find("/zzz").unwrap());
}

#[test]
fn info_card_links_channels() {
    let channels = vec![("general".to_string(), 1), ("apply-here".to_string(), 2), ("role-overview".to_string(), 3)];
    let (apply, roles) = find_info_channels(&channels);
    assert_eq!(apply, "<#2>");
    assert_eq!(roles, "<#3>");
    let (a, r) = find_info_channels(&vec![]);
    assert_eq!(a, "#apply-here");
    assert_eq!(r, "#role-overview");
    let e = build_info_embed(&apply, &roles, Some("https://cdn/bot.png".to_string()));
    assert_eq!(e.fields.len(), 4);
    assert!(e.fields[2].value.starts_with("1. Visit <#2> after reading the guidelines in <#3>."));
    assert_eq!(e.thumbnail.as_deref(), Some("https://cdn/bot.png"));
}
