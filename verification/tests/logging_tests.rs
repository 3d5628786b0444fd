use discord_bot::logging::{
    channel_config, channel_members, deletion_event, edit_event, format_log_event, log_target, logging_status_embed,
    member_mention, toggled_config, LogConfig, LogEvent, TrackedMessage, VoiceSeat,
};
use discord_bot::voice::{MessageCache, VoiceTracker, VoiceUpdateParams, MEETING_STAGE_CHANNEL_ID};

fn snapshot(id: u64, content: &str) -> TrackedMessage {
    TrackedMessage {
        message_id: id,
        guild_id: 1,
        channel_id: 10,
        author_id: 42,
        author_name: "ann".to_string(),
        content: content.to_string(),
        attachments: vec![],
        avatar_url: None,
    }
}

fn enabled() -> Option<LogConfig> {
    Some(channel_config(1, 99))
}

fn update(member: u64, old: Option<u64>, new: Option<u64>, old_members: Vec<u64>, new_members: Vec<u64>) -> VoiceUpdateParams {
    VoiceUpdateParams {
        guild_id: 1,
        member_id: member,
        old_channel_id: old,
        new_channel_id: new,
        old_channel_members: old_members,
        new_channel_members: new_members,
    }
}

#[test]
fn log_channel_only_when_enabled() {
    assert_eq!(log_target(enabled()), Some(99));
    assert_eq!(log_target(None), None);
    let off = toggled_config(enabled(), false);
    assert_eq!(log_target(off), None);
    assert_eq!(off.unwrap().channel_id, Some(99));
    // Enabling needs a channel.
    assert!(toggled_config(Some(LogConfig { guild_id: 1, enabled: false, channel_id: None }), true).is_none());
    assert!(toggled_config(None, true).is_none());
}

#[test]
fn status_embed_shows_channel() {
    let e = logging_status_embed(enabled(), 1);
    assert_eq!(e.title.as_deref(), Some("Activity Logging Configuration"));
    assert_eq!(e.fields[0].value, "Enabled");
    assert_eq!(e.fields[1].value, "<#99>");
    assert_eq!(e.footer.as_deref(), Some("Guild ID: 1"));
    let none = logging_status_embed(None, 1);
    assert_eq!(none.fields[0].value, "Disabled");
    assert_eq!(none.fields[1].value, "Not set");
}

#[test]
fn deleted_message_embed() {
    let ev = deletion_event(snapshot(5, "gone"), 1).unwrap();
    let e = format_log_event(&ev);
    assert_eq!(e.title.as_deref(), Some("Message Deleted"));
    assert_eq!(e.description.as_deref(), Some("gone"));
    assert_eq!(e.fields[0].value, "ann (`42`)");
    assert_eq!(e.fields[1].value, "<#10>");
    assert!(deletion_event(snapshot(5, "gone"), 2).is_none());
    let empty = format_log_event(&deletion_event(snapshot(6, ""), 1).unwrap());
    assert_eq!(empty.description.as_deref(), Some("*No content*"));
}

#[test]
fn edits_are_logged_only_when_content_changes() {
    let s = snapshot(5, "before");
    assert!(edit_event(&s, 1, "before".to_string()).is_none());
    let (ev, kept) = edit_event(&s, 1, "after".to_string()).unwrap();
    assert_eq!(kept.content, "after");
    let e = format_log_event(&ev);
    assert_eq!(e.description.as_deref(), Some("Message edited in <#10>"));
    assert_eq!(e.fields[2].value, "before");
    assert_eq!(e.fields[3].value, "after");
}

#[test]
fn member_join_embed() {
    let ev = LogEvent::MemberJoined {
        guild_id: 1,
        user_id: 42,
        user_mention: member_mention(42),
        avatar_url: Some("https://cdn/a.png".to_string()),
        created_at: 1_600_000_000_000,
    };
    let e = format_log_event(&ev);
    assert_eq!(e.description.as_deref(), Some("<@42> has joined the server."));
    assert_eq!(e.fields[0].value, "<t:1600000000:R>");
    assert_eq!(e.thumbnail.as_deref(), Some("https://cdn/a.png"));
    assert!(e.timestamp_now);
}

#[test]
fn voice_members_leave_out_bots() {
    let seats = vec![
        VoiceSeat { user_id: 1, channel_id: Some(5), is_bot: Some(false) },
        VoiceSeat { user_id: 2, channel_id: Some(5), is_bot: Some(true) },
        VoiceSeat { user_id: 3, channel_id: Some(5), is_bot: None },
        VoiceSeat { user_id: 4, channel_id: Some(6), is_bot: Some(false) },
    ];
    assert_eq!(channel_members(&seats, 5), vec![1, 3]);
}

#[test]
fn conversations_start_and_end_once() {
    let mut t = VoiceTracker::new();
    let events = t.process_voice_update(update(2, None, Some(5), vec![], vec![1, 2]), enabled(), member_mention);
    assert_eq!(events.len(), 1);
    assert!(matches!(&events[0], LogEvent::VoiceChannelActive { channel_id: 5, member_count: 2, .. }));
    // A third member joining does not start it again.
    let again = t.process_voice_update(update(3, None, Some(5), vec![], vec![1, 2, 3]), enabled(), member_mention);
    assert!(again.is_empty());
    // Down to one member: the conversation ends.
    let ended = t.process_voice_update(update(2, Some(5), None, vec![1], vec![]), enabled(), member_mention);
    assert_eq!(ended.len(), 1);
    assert!(matches!(&ended[0], LogEvent::VoiceChannelInactive { channel_id: 5, member_count: 1, .. }));
}

#[test]
fn nothing_is_tracked_when_logging_is_off() {
    let mut t = VoiceTracker::new();
    let events = t.process_voice_update(update(2, None, Some(5), vec![], vec![1, 2]), None, member_mention);
    assert!(events.is_empty());
    // Turning logging on later still sees the channel as new.
    let events = t.process_voice_update(update(3, None, Some(5), vec![], vec![1, 2, 3]), enabled(), member_mention);
    assert_eq!(events.len(), 1);
}

#[test]
fn meeting_attendance_is_summarised() {
    let stage = MEETING_STAGE_CHANNEL_ID;
    let mut t = VoiceTracker::new();
    assert!(t.process_voice_update(update(7, None, Some(stage), vec![], vec![7]), enabled(), member_mention).is_empty());
    assert!(t.process_voice_update(update(8, None, Some(stage), vec![], vec![7, 8]), enabled(), member_mention).is_empty());
    let ended = t.process_voice_update(update(7, Some(stage), None, vec![], vec![]), enabled(), member_mention);
    assert_eq!(ended.len(), 1);
    match &ended[0] {
        LogEvent::MeetingEnded { total_attendees, attendees, .. } => {
            assert_eq!(*total_attendees, 2);
            let mut a = attendees.clone();
            a.sort();
            assert_eq!(a, vec!["<@7>".to_string(), "<@8>".to_string()]);
        },
        other => panic!("unexpected {:?}", other),
    }
    let e = format_log_event(&ended[0]);
    assert_eq!(e.title.as_deref(), Some("📊 Meeting Ended - Attendance Summary"));
}

#[test]
fn message_cache_keeps_and_gives_back_snapshots() {
    let mut c = MessageCache::new();
    c.remember_message(snapshot(1, "a"));
    c.remember_message(snapshot(2, "b"));
    assert_eq!(c.get_tracked_message(1).unwrap().content, "a");
    assert_eq!(c.take_tracked_message(2).unwrap().content, "b");
    assert!(c.take_tracked_message(2).is_none());
    assert!(c.get_tracked_message(3).is_none());
}

#[test]
fn message_cache_is_capped() {
    let mut c = MessageCache::new();
    for i in 0..5_001u64 {
        c.remember_message(snapshot(i, "x"));
    }
    let kept = (0..5_001u64).filter(|i| c.get_tracked_message(*i).is_some()).count();
    assert_eq!(kept, 5_000);
}

#[test]
fn deleted_content_is_cut_by_characters() {
    let content = "é".repeat(3000);
    let e = format_log_event(&LogEvent::MessageDeleted {
        guild_id: 1,
        channel_id: 2,
        author_id: 4,
        author_name: "alice".to_string(),
        content: content.clone(),
        attachments: vec![],
        avatar_url: None,
    });
    assert_eq!(e.description.as_deref(), Some(content.as_str()));
}
