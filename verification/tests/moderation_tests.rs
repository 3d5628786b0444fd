use discord_bot::moderation::{
    blocked_result, check_verdict, config_updated_message, escalate, hash_content, mention_count, plan_spam_action,
    rate_block_until, rate_window_start, spam_status, updated_config, MessageRecord, SpamAction, SpamCheckResult,
    SpamConfig, SpamConfigUpdate, SpamError, SpamType, SpamVerdict,
};

/// One user's state in one guild, as a store keeps it, driven the way the anti-spam
/// service drives the library.
struct Session {
    config: SpamConfig,
    records: Vec<MessageRecord>,
    warnings: u32,
    blocked_until: Option<i64>,
}

impl Session {
    fn new(config: SpamConfig) -> Self {
        Session { config, records: Vec::new(), warnings: 0, blocked_until: None }
    }

    fn check(&mut self, content: &str, mentions: u32, now: i64) -> SpamCheckResult {
        let start = rate_window_start(&self.config, now);
        let recent: Vec<MessageRecord> = self.records.iter().filter(|r| r.timestamp >= start).copied().collect();
        let blocked = matches!(self.blocked_until, Some(t) if now < t);
        let hash = hash_content(content);
        match check_verdict(&self.config, blocked, mentions, &recent, hash) {
            SpamVerdict::Disabled => SpamCheckResult::ok(),
            SpamVerdict::Blocked => blocked_result(),
            SpamVerdict::Clean => {
                self.records.push(MessageRecord { content_hash: hash, timestamp: now });
                SpamCheckResult::ok()
            },
            SpamVerdict::Detected { spam_type, block } => {
                if block {
                    self.blocked_until = Some(rate_block_until(&self.config, now));
                }
                self.warnings += 1;
                let (result, clear) = escalate(spam_type, self.warnings, &self.config);
                if clear {
                    self.warnings = 0;
                }
                result
            },
        }
    }
}

const NOW: i64 = 1_700_000_000_000;

#[test]
fn test_normal_message_not_spam() {
    let mut s = Session::new(SpamConfig::default());
    let result = s.check("Hello world!", 0, NOW);
    assert!(!result.is_spam);
    assert_eq!(result.spam_type, SpamType::NotSpam);
}

#[test]
fn test_mention_spam_detection() {
    let mut s = Session::new(SpamConfig::default());
    let result = s.check("Spamming mentions!", 11, NOW);
    assert!(result.is_spam);
    assert_eq!(result.spam_type, SpamType::MentionSpam);
}

#[test]
fn test_rate_limit_detection() {
    let mut s = Session::new(SpamConfig::default());
    for i in 0..5 {
        let result = s.check(&format!("Message {}", i), 0, NOW);
        assert!(!result.is_spam, "Message {} should not be spam", i);
    }
    let result = s.check("One too many!", 0, NOW);
    assert!(result.is_spam);
    assert_eq!(result.spam_type, SpamType::RateLimit);
    // The user is now blocked: the next message is deleted.
    let blocked = s.check("hi", 0, NOW + 1000);
    assert!(matches!(blocked.action, SpamAction::DeleteMessage { .. }));
    // After the block and the window, messages pass again.
    let later = s.check("hi", 0, NOW + 31_000);
    assert!(!later.is_spam);
}

#[test]
fn test_duplicate_message_detection() {
    let mut s = Session::new(SpamConfig::default());
    let duplicate = "Buy my product now!";
    for _ in 0..3 {
        assert!(!s.check(duplicate, 0, NOW).is_spam);
    }
    let result = s.check(duplicate, 0, NOW);
    assert!(result.is_spam);
    assert_eq!(result.spam_type, SpamType::DuplicateContent);
}

#[test]
fn duplicates_ignore_case_and_surrounding_space() {
    assert_eq!(hash_content("  Buy NOW "), hash_content("buy now"));
    assert_ne!(hash_content("buy now"), hash_content("buy later"));
}

#[test]
fn test_warning_escalation() {
    let mut s = Session::new(SpamConfig::default());
    let first = s.check("Spam!", 11, NOW);
    assert!(matches!(first.action, SpamAction::Warn { warning_count: 1, .. }));
    assert_eq!(first.reason, "Warning 1/3: Too many mentions in message");
    let second = s.check("Spam!", 11, NOW);
    assert!(matches!(second.action, SpamAction::Warn { warning_count: 2, .. }));
    let third = s.check("Spam!", 11, NOW);
    match &third.action {
        SpamAction::Timeout { duration_secs, reason } => {
            assert_eq!(*duration_secs, 300);
            assert_eq!(reason, "Too many mentions in message. Received 3 warnings.");
        },
        other => panic!("expected a timeout, got {:?}", other),
    }
    assert_eq!(third.reason, "User timed out after 3 warnings");
    // The tally starts over after a timeout.
    let fourth = s.check("Spam!", 11, NOW);
    assert!(matches!(fourth.action, SpamAction::Warn { warning_count: 1, .. }));
}

#[test]
fn test_disabled_anti_spam() {
    let config = SpamConfig { enabled: false, ..SpamConfig::default() };
    let mut s = Session::new(config);
    let result = s.check("Spam!", 100, NOW);
    assert!(!result.is_spam);
}

#[test]
fn verdict_order() {
    let config = SpamConfig::default();
    let many: Vec<MessageRecord> = (0..5).map(|i| MessageRecord { content_hash: 1, timestamp: i }).collect();
    // Blocked wins over everything else.
    assert_eq!(check_verdict(&config, true, 50, &many, 1), SpamVerdict::Blocked);
    // Mentions are checked before the message rate.
    assert_eq!(
        check_verdict(&config, false, 11, &many, 1),
        SpamVerdict::Detected { spam_type: SpamType::MentionSpam, block: false }
    );
    assert_eq!(
        check_verdict(&config, false, 10, &many, 1),
        SpamVerdict::Detected { spam_type: SpamType::RateLimit, block: true }
    );
}

#[test]
fn rate_window_and_block_times() {
    let config = SpamConfig::default();
    assert_eq!(rate_window_start(&config, NOW), NOW - 5_000);
    assert_eq!(rate_block_until(&config, NOW), NOW + 30_000);
    assert_eq!(rate_window_start(&config, i64::MIN), i64::MIN);
    assert_eq!(rate_block_until(&config, i64::MAX), i64::MAX);
}

#[test]
fn mentions_count_users_and_roles() {
    assert_eq!(mention_count(3, 2), 5);
    assert_eq!(mention_count(0, 0), 0);
}

#[test]
fn channel_messages_for_verdicts() {
    let warn = SpamAction::Warn { reason: "Sending duplicate messages".to_string(), warning_count: 2 };
    let plan = plan_spam_action(&warn, 42, 1000);
    assert!(plan.delete_message);
    assert_eq!(
        plan.warning.as_deref(),
        Some("⚠️ <@42> **Spam Warning** (2/3): Sending duplicate messages\nYou have 1 warning remaining before timeout.")
    );
    let timeout = SpamAction::Timeout { duration_secs: 300, reason: "Too many".to_string() };
    let plan = plan_spam_action(&timeout, 42, 1000);
    let (until, notice) = plan.timeout.unwrap();
    assert_eq!(until, 1300);
    assert_eq!(notice, "🔇 <@42> has been timed out for 5 minutes: Too many");
    let none = plan_spam_action(&SpamAction::NoAction, 42, 1000);
    assert!(!none.delete_message && none.warning.is_none() && none.timeout.is_none());
}

#[test]
fn config_updates_apply_given_values_only() {
    let base = SpamConfig::default();
    let u = SpamConfigUpdate {
        max_messages: Some(8),
        window_secs: None,
        block_secs: None,
        max_duplicates: None,
        max_mentions: Some(4),
        max_warnings: None,
        timeout_secs: Some(600),
    };
    let c = updated_config(base, u);
    assert_eq!(c.max_messages_per_window, 8);
    assert_eq!(c.max_mentions_per_message, 4);
    assert_eq!(c.timeout_duration_secs, 600);
    assert_eq!(c.rate_limit_window_secs, 5);
    assert_eq!(updated_config(c, u), c);
    assert_eq!(
        config_updated_message(&c),
        "✅ Anti-spam configuration updated!\n• Rate limit: 8 msgs / 5 sec (block: 30 sec)\n• Duplicates: 3 max\n• Mentions: 4 max\n• Warnings before timeout: 3 → 10 min timeout"
    );
}

#[test]
fn status_embed_fields() {
    let (fields, colour) = spam_status(&SpamConfig::default());
    assert_eq!(colour, 0x00FF00);
    assert_eq!(fields.len(), 5);
    assert_eq!(fields[0].1, "✅ Enabled");
    assert_eq!(fields[1].1, "5 messages / 5 seconds\nBlock duration: 30 seconds");
    assert_eq!(fields[4].1, "3 warnings → 5 minute timeout");
    let (off, red) = spam_status(&SpamConfig { enabled: false, ..SpamConfig::default() });
    assert_eq!(red, 0xFF0000);
    assert_eq!(off[0].1, "❌ Disabled");
}

#[test]
fn spam_error_messages() {
    assert_eq!(SpamError::StorageError("db".to_string()).message(), "Storage error: db");
    assert_eq!(SpamError::ConfigError("bad".to_string()).message(), "Configuration error: bad");
}
