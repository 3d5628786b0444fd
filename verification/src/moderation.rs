//! Anti-spam rules: rate limits, duplicate messages, mention spam and warning escalation.
//!
//! The spam store (recent messages, warnings, blocks, per-guild configuration) is the
//! caller's part; these functions decide from what it holds.
use crate::text::{decimal, owned, push_decimal, push_str, to_lowercase, trim, lowercase, trimmed};
use std::hash::{Hash, Hasher};
use vstd::prelude::*;

verus! {

/// What type of spam was detected.
#[derive(Debug, Clone, Copy, PartialEq, Eq, Structural)]
pub enum SpamType {
    /// Too many messages too quickly.
    RateLimit,
    /// The same message several times.
    DuplicateContent,
    /// Too many mentions in one message.
    MentionSpam,
    /// Not spam.
    NotSpam,
}

pub open spec fn spam_type_text(t: SpamType) -> Seq<char> {
    match t {
        SpamType::RateLimit => "Rate Limit"@,
        SpamType::DuplicateContent => "Duplicate Content"@,
        SpamType::MentionSpam => "Mention Spam"@,
        SpamType::NotSpam => "None"@,
    }
}

/// Why a spam type is reported to the user.
pub open spec fn spam_reason(t: SpamType) -> Seq<char> {
    match t {
        SpamType::RateLimit => "Sending messages too quickly"@,
        SpamType::DuplicateContent => "Sending duplicate messages"@,
        SpamType::MentionSpam => "Too many mentions in message"@,
        SpamType::NotSpam => "Unknown"@,
    }
}

impl SpamType {
    /// The display name of the spam type.
    pub fn label(&self) -> (s: &'static str)
        ensures
            s@ == spam_type_text(*self),
    {
        match self {
            SpamType::RateLimit => "Rate Limit",
            SpamType::DuplicateContent => "Duplicate Content",
            SpamType::MentionSpam => "Mention Spam",
            SpamType::NotSpam => "None",
        }
    }

    /// Why this spam type is reported to the user.
    pub fn reason(&self) -> (s: &'static str)
        ensures
            s@ == spam_reason(*self),
    {
        match self {
            SpamType::RateLimit => "Sending messages too quickly",
            SpamType::DuplicateContent => "Sending duplicate messages",
            SpamType::MentionSpam => "Too many mentions in message",
            SpamType::NotSpam => "Unknown",
        }
    }
}

/// What should be done about a message.
#[derive(Debug)]
pub enum SpamAction {
    /// Not spam.
    NoAction,
    /// Warn the user.
    Warn { reason: String, warning_count: u32 },
    /// Delete the message without further action.
    DeleteMessage { reason: String },
    /// Time the user out for `duration_secs` seconds.
    Timeout { duration_secs: u64, reason: String },
}

/// The verdict on one message.
#[derive(Debug)]
pub struct SpamCheckResult {
    pub is_spam: bool,
    pub action: SpamAction,
    pub reason: String,
    pub spam_type: SpamType,
}

impl SpamCheckResult {
    /// A "not spam" verdict.
    pub fn ok() -> (r: Self)
        ensures
            !r.is_spam,
            r.action is NoAction,
            r.reason@ == Seq::<char>::empty(),
            r.spam_type == SpamType::NotSpam,
    {
        SpamCheckResult { is_spam: false, action: SpamAction::NoAction, reason: String::new(), spam_type: SpamType::NotSpam }
    }

    /// A spam verdict.
    pub fn spam(spam_type: SpamType, action: SpamAction, reason: String) -> (r: Self)
        ensures
            r.is_spam,
            r.action == action,
            r.reason == reason,
            r.spam_type == spam_type,
    {
        SpamCheckResult { is_spam: true, action, reason, spam_type }
    }
}

/// A message kept for rate limiting and duplicate detection.
#[derive(Debug, Clone, Copy, PartialEq, Eq, Structural)]
pub struct MessageRecord {
    /// Hash of the normalized content.
    pub content_hash: u64,
    /// When the message was sent (milliseconds since the epoch).
    pub timestamp: i64,
}

/// Per-guild anti-spam settings.
#[derive(Debug, Clone, Copy, PartialEq, Eq, Structural)]
pub struct SpamConfig {
    pub enabled: bool,
    pub max_messages_per_window: u32,
    pub rate_limit_window_secs: u64,
    pub rate_limit_block_secs: u64,
    pub max_duplicate_messages: u32,
    pub max_mentions_per_message: u32,
    pub warnings_before_timeout: u32,
    pub timeout_duration_secs: u64,
}

impl Default for SpamConfig {
    /// 5 messages per 5 seconds (then a 30 second block), 3 duplicates, 10 mentions,
    /// 3 warnings before a 5 minute timeout.
    fn default() -> (c: Self)
        ensures
            c == (SpamConfig {
                enabled: true,
                max_messages_per_window: 5,
                rate_limit_window_secs: 5,
                rate_limit_block_secs: 30,
                max_duplicate_messages: 3,
                max_mentions_per_message: 10,
                warnings_before_timeout: 3,
                timeout_duration_secs: 300,
            }),
    {
        SpamConfig {
            enabled: true,
            max_messages_per_window: 5,
            rate_limit_window_secs: 5,
            rate_limit_block_secs: 30,
            max_duplicate_messages: 3,
            max_mentions_per_message: 10,
            warnings_before_timeout: 3,
            timeout_duration_secs: 300,
        }
    }
}

/// A stored warning tally.
#[derive(Debug, Clone, Copy, PartialEq, Eq, Structural)]
pub struct UserWarning {
    pub user_id: u64,
    pub guild_id: u64,
    pub warning_count: u32,
    pub last_warning: i64,
    pub spam_type: SpamType,
}

/// Errors of the anti-spam system.
#[derive(Debug)]
pub enum SpamError {
    StorageError(String),
    ConfigError(String),
}

pub open spec fn spam_error_text(e: SpamError) -> Seq<char> {
    match e {
        SpamError::StorageError(m) => "Storage error: "@ + m@,
        SpamError::ConfigError(m) => "Configuration error: "@ + m@,
    }
}

impl SpamError {
    /// The human-readable message of the error.
    pub fn message(&self) -> (s: String)
        ensures
            s@ == spam_error_text(*self),
    {
        proof {
            reveal_strlit("Storage error: ");
            reveal_strlit("Configuration error: ");
        }
        match self {
            SpamError::StorageError(m) => {
                let mut s = owned("Storage error: ");
                push_str(&mut s, m.as_str());
                s
            },
            SpamError::ConfigError(m) => {
                let mut s = owned("Configuration error: ");
                push_str(&mut s, m.as_str());
                s
            },
        }
    }
}

/// The hash `std::collections::hash_map::DefaultHasher` gives a string.
pub uninterp spec fn default_hash(s: Seq<char>) -> u64;

/// Hashes a string with `DefaultHasher::new()` (`str::hash`, then `finish`).
#[verifier::external_body]
fn hash_str(s: &str) -> (h: u64)
    ensures
        h == default_hash(s@),
{
    let mut hasher = std::collections::hash_map::DefaultHasher::new();
    s.hash(&mut hasher);
    hasher.finish()
}

/// The duplicate-detection key of a message: its trimmed, lower-cased text, hashed.
pub open spec fn content_key(content: Seq<char>) -> u64 {
    default_hash(lowercase(trimmed(content)))
}

/// The duplicate-detection key of a message.
pub fn hash_content(content: &str) -> (h: u64)
    ensures
        h == content_key(content@),
{
    let t = trim(content);
    let l = to_lowercase(t.as_str());
    hash_str(l.as_str())
}

/// How many recent messages carry `hash`.
pub open spec fn count_hash(recent: Seq<MessageRecord>, hash: u64) -> nat
    decreases recent.len(),
{
    if recent.len() == 0 {
        0
    } else {
        count_hash(recent.drop_last(), hash) + if recent.last().content_hash == hash { 1nat } else { 0nat }
    }
}

/// What the checks decide about a message, before warnings are counted.
#[derive(Debug, Clone, Copy, PartialEq, Eq, Structural)]
pub enum SpamVerdict {
    /// Not spam: record the message.
    Clean,
    /// Anti-spam is disabled for the guild.
    Disabled,
    /// The user is blocked: delete the message.
    Blocked,
    /// Spam was detected; `block` asks for the user to be rate-limit blocked.
    Detected { spam_type: SpamType, block: bool },
}

/// The checks in order: disabled, blocked, mentions, message rate, duplicates.
pub open spec fn spam_verdict(
    config: SpamConfig,
    rate_limited: bool,
    mention_count: u32,
    recent: Seq<MessageRecord>,
    hash: u64,
) -> SpamVerdict {
    if !config.enabled {
        SpamVerdict::Disabled
    } else if rate_limited {
        SpamVerdict::Blocked
    } else if mention_count > config.max_mentions_per_message {
        SpamVerdict::Detected { spam_type: SpamType::MentionSpam, block: false }
    } else if recent.len() >= config.max_messages_per_window {
        SpamVerdict::Detected { spam_type: SpamType::RateLimit, block: true }
    } else if count_hash(recent, hash) >= config.max_duplicate_messages {
        SpamVerdict::Detected { spam_type: SpamType::DuplicateContent, block: false }
    } else {
        SpamVerdict::Clean
    }
}

/// The order of the anti-spam rules: a guild with anti-spam off never flags a message; a
/// blocked user's messages are deleted whatever they hold; otherwise too many mentions,
/// then too many messages in the window, then too many repeats of the same text make a
/// message spam, and a message that breaks none of the limits is clean.
pub proof fn lemma_spam_rules(
    config: SpamConfig,
    rate_limited: bool,
    mentions: u32,
    recent: Seq<MessageRecord>,
    hash: u64,
)
    ensures
        !config.enabled ==> spam_verdict(config, rate_limited, mentions, recent, hash) == SpamVerdict::Disabled,
        config.enabled && rate_limited ==> spam_verdict(config, rate_limited, mentions, recent, hash)
            == SpamVerdict::Blocked,
        config.enabled && !rate_limited && mentions > config.max_mentions_per_message ==> spam_verdict(
            config,
            rate_limited,
            mentions,
            recent,
            hash,
        ) == (SpamVerdict::Detected { spam_type: SpamType::MentionSpam, block: false }),
        (spam_verdict(config, rate_limited, mentions, recent, hash) == SpamVerdict::Clean) <==> (config.enabled
            && !rate_limited && mentions <= config.max_mentions_per_message && recent.len()
            < config.max_messages_per_window && count_hash(recent, hash) < config.max_duplicate_messages),
        count_hash(recent, hash) <= recent.len(),
    decreases recent.len(),
{
    if recent.len() > 0 {
        lemma_spam_rules(config, rate_limited, mentions, recent.drop_last(), hash);
    }
}

fn count_duplicates(recent: &Vec<MessageRecord>, hash: u64) -> (n: u64)
    ensures
        n == count_hash(recent@, hash),
{
    let mut n: u64 = 0;
    let mut i: usize = 0;
    while i < recent.len()
        invariant
            i <= recent.len(),
            n == count_hash(recent@.take(i as int), hash),
            n <= i,
        decreases recent.len() - i,
    {
        assert(recent@.take(i + 1).drop_last() =~= recent@.take(i as int));
        if recent[i].content_hash == hash {
            n = n + 1;
        }
        i = i + 1;
    }
    assert(recent@.take(recent@.len() as int) =~= recent@);
    n
}

/// Decides what a message is, given the guild's configuration, whether the user is
/// blocked, the mentions it holds, the user's messages within the rate window and the
/// message's duplicate key.
pub fn check_verdict(
    config: &SpamConfig,
    rate_limited: bool,
    mention_count: u32,
    recent: &Vec<MessageRecord>,
    hash: u64,
) -> (v: SpamVerdict)
    ensures
        v == spam_verdict(*config, rate_limited, mention_count, recent@, hash),
{
    if !config.enabled {
        SpamVerdict::Disabled
    } else if rate_limited {
        SpamVerdict::Blocked
    } else if mention_count > config.max_mentions_per_message {
        SpamVerdict::Detected { spam_type: SpamType::MentionSpam, block: false }
    } else if recent.len() >= config.max_messages_per_window as usize {
        SpamVerdict::Detected { spam_type: SpamType::RateLimit, block: true }
    } else if count_duplicates(recent, hash) >= config.max_duplicate_messages as u64 {
        SpamVerdict::Detected { spam_type: SpamType::DuplicateContent, block: false }
    } else {
        SpamVerdict::Clean
    }
}

/// Start of the rate-limit window at `now` (milliseconds).
pub open spec fn window_start(config: SpamConfig, now: i64) -> int {
    now - config.rate_limit_window_secs * 1000
}

/// End of a rate-limit block starting at `now` (milliseconds).
pub open spec fn block_until(config: SpamConfig, now: i64) -> int {
    now + config.rate_limit_block_secs * 1000
}

/// Start of the rate-limit window at `now`, in milliseconds (saturating at the `i64` range).
pub fn rate_window_start(config: &SpamConfig, now: i64) -> (t: i64)
    ensures
        t == (if window_start(*config, now) < i64::MIN { i64::MIN as int } else { window_start(*config, now) }),
{
    let w: i128 = now as i128 - (config.rate_limit_window_secs as i128) * 1000;
    if w < i64::MIN as i128 { i64::MIN } else { w as i64 }
}

/// End of a rate-limit block starting at `now`, in milliseconds (saturating at the `i64` range).
pub fn rate_block_until(config: &SpamConfig, now: i64) -> (t: i64)
    ensures
        t == (if block_until(*config, now) > i64::MAX { i64::MAX as int } else { block_until(*config, now) }),
{
    let w: i128 = now as i128 + (config.rate_limit_block_secs as i128) * 1000;
    if w > i64::MAX as i128 { i64::MAX } else { w as i64 }
}

/// Text of a timeout action's reason.
pub open spec fn timeout_reason(t: SpamType, warnings_before_timeout: u32) -> Seq<char> {
    spam_reason(t) + ". Received "@ + decimal(warnings_before_timeout as nat) + " warnings."@
}

/// Text of a timeout verdict's reason.
pub open spec fn timeout_summary(warning_count: u32) -> Seq<char> {
    "User timed out after "@ + decimal(warning_count as nat) + " warnings"@
}

/// Text of a warning verdict's reason.
pub open spec fn warning_summary(t: SpamType, warning_count: u32, warnings_before_timeout: u32) -> Seq<char> {
    "Warning "@ + decimal(warning_count as nat) + "/"@ + decimal(warnings_before_timeout as nat) + ": "@
        + spam_reason(t)
}

/// Escalation once spam is detected and the user's warning tally is `warning_count`
/// (this one included): a timeout when the tally reaches the configured threshold, else a
/// warning. The second component asks for the tally to be cleared.
pub fn escalate(spam_type: SpamType, warning_count: u32, config: &SpamConfig) -> (r: (SpamCheckResult, bool))
    ensures
        r.0.is_spam,
        r.0.spam_type == spam_type,
        r.1 == (warning_count >= config.warnings_before_timeout),
        warning_count >= config.warnings_before_timeout ==> (r.0.action matches SpamAction::Timeout {
            duration_secs,
            reason,
        } && duration_secs == config.timeout_duration_secs && reason@ == timeout_reason(
            spam_type,
            config.warnings_before_timeout,
        ) && r.0.reason@ == timeout_summary(warning_count)),
        warning_count < config.warnings_before_timeout ==> (r.0.action matches SpamAction::Warn {
            reason,
            warning_count: n,
        } && n == warning_count && reason@ == spam_reason(spam_type) && r.0.reason@ == warning_summary(
            spam_type,
            warning_count,
            config.warnings_before_timeout,
        )),
{
    proof {
        reveal_strlit(". Received ");
        reveal_strlit(" warnings.");
        reveal_strlit("User timed out after ");
        reveal_strlit(" warnings");
        reveal_strlit("Warning ");
        reveal_strlit("/");
        reveal_strlit(": ");
    }
    let reason = spam_type.reason();
    if warning_count >= config.warnings_before_timeout {
        let mut action_reason = owned(reason);
        push_str(&mut action_reason, ". Received ");
        push_decimal(&mut action_reason, config.warnings_before_timeout as u64);
        push_str(&mut action_reason, " warnings.");
        let mut summary = owned("User timed out after ");
        push_decimal(&mut summary, warning_count as u64);
        push_str(&mut summary, " warnings");
        assert(action_reason@ =~= timeout_reason(spam_type, config.warnings_before_timeout));
        assert(summary@ =~= timeout_summary(warning_count));
        (
            SpamCheckResult::spam(
                spam_type,
                SpamAction::Timeout { duration_secs: config.timeout_duration_secs, reason: action_reason },
                summary,
            ),
            true,
        )
    } else {
        let mut summary = owned("Warning ");
        push_decimal(&mut summary, warning_count as u64);
        push_str(&mut summary, "/");
        push_decimal(&mut summary, config.warnings_before_timeout as u64);
        push_str(&mut summary, ": ");
        push_str(&mut summary, reason);
        assert(summary@ =~= warning_summary(spam_type, warning_count, config.warnings_before_timeout));
        (
            SpamCheckResult::spam(
                spam_type,
                SpamAction::Warn { reason: owned(reason), warning_count },
                summary,
            ),
            false,
        )
    }
}

/// The verdict for a message from a blocked user.
pub fn blocked_result() -> (r: SpamCheckResult)
    ensures
        r.is_spam,
        r.spam_type == SpamType::RateLimit,
        r.action matches SpamAction::DeleteMessage { reason } && reason@ == "You are temporarily rate limited"@,
        r.reason@ == "User is rate limited"@,
{
    SpamCheckResult::spam(
        SpamType::RateLimit,
        SpamAction::DeleteMessage { reason: owned("You are temporarily rate limited") },
        owned("User is rate limited"),
    )
}

/// The configuration with anti-spam switched on or off.
pub fn with_enabled(config: SpamConfig, enabled: bool) -> (c: SpamConfig)
    ensures
        c == (SpamConfig { enabled, ..config }),
{
    SpamConfig { enabled, ..config }
}

// ---------------------------------------------------------------------------
// Acting on a verdict in the channel
// ---------------------------------------------------------------------------

/// The warnings a member gets before a timeout, as the channel message counts them.
pub const SHOWN_WARNINGS_BEFORE_TIMEOUT: u32 = 3;

/// Mentions of a message: users and roles, counted as a `u32`.
pub fn mention_count(users: usize, roles: usize) -> (r: u32)
    ensures
        r == ((users as int + roles as int) % 0x1_0000_0000) as u32,
{
    let total: u128 = users as u128 + roles as u128;
    (total % 0x1_0000_0000) as u32
}

/// The warning posted in the channel.
pub open spec fn warning_text(author_id: u64, warning_count: u32, reason: Seq<char>) -> Seq<char> {
    let remaining: nat = if warning_count < 3 { (3 - warning_count) as nat } else { 0 };
    "⚠️ <@"@ + decimal(author_id as nat) + "> **Spam Warning** ("@ + decimal(warning_count as nat) + "/3): "@ + reason
        + "\nYou have "@ + decimal(remaining) + " warning"@ + (if remaining == 1 { Seq::empty() } else { "s"@ })
        + " remaining before timeout."@
}

/// The notice posted after a timeout.
pub open spec fn timeout_text(author_id: u64, duration_secs: u64, reason: Seq<char>) -> Seq<char> {
    "🔇 <@"@ + decimal(author_id as nat) + "> has been timed out for "@ + decimal((duration_secs / 60) as nat) + " minutes: "@
        + reason
}

/// What to do in Discord about a verdict.
#[derive(Debug)]
pub struct SpamPlan {
    /// Delete the message.
    pub delete_message: bool,
    /// Post this warning.
    pub warning: Option<String>,
    /// Time the member out until this many seconds since the epoch, then post the notice.
    pub timeout: Option<(i64, String)>,
}

/// Plans the Discord side of a verdict at `now_secs` (seconds since the epoch).
pub fn plan_spam_action(action: &SpamAction, author_id: u64, now_secs: i64) -> (p: SpamPlan)
    requires
        action matches SpamAction::Timeout { duration_secs, .. } ==> *duration_secs <= i64::MAX && now_secs + *duration_secs <= i64::MAX,
    ensures
        match action {
            SpamAction::NoAction => !p.delete_message && p.warning is None && p.timeout is None,
            SpamAction::Warn { reason, warning_count } => p.delete_message && p.timeout is None
                && (p.warning matches Some(w) && w@ == warning_text(author_id, *warning_count, reason@)),
            SpamAction::DeleteMessage { .. } => p.delete_message && p.warning is None && p.timeout is None,
            SpamAction::Timeout { duration_secs, reason } => p.delete_message && p.warning is None
                && (p.timeout matches Some((until, notice)) && until == now_secs + *duration_secs
                && notice@ == timeout_text(author_id, *duration_secs, reason@)),
        },
{
    match action {
        SpamAction::NoAction => SpamPlan { delete_message: false, warning: None, timeout: None },
        SpamAction::Warn { reason, warning_count } => {
            let remaining: u32 = if *warning_count < SHOWN_WARNINGS_BEFORE_TIMEOUT {
                SHOWN_WARNINGS_BEFORE_TIMEOUT - *warning_count
            } else {
                0
            };
            let mut w = owned("⚠️ <@");
            push_decimal(&mut w, author_id);
            push_str(&mut w, "> **Spam Warning** (");
            push_decimal(&mut w, *warning_count as u64);
            push_str(&mut w, "/3): ");
            push_str(&mut w, reason.as_str());
            push_str(&mut w, "\nYou have ");
            push_decimal(&mut w, remaining as u64);
            push_str(&mut w, " warning");
            if remaining != 1 {
                push_str(&mut w, "s");
            }
            push_str(&mut w, " remaining before timeout.");
            proof {
                reveal_strlit("s");
            }
            assert(w@ =~= warning_text(author_id, *warning_count, reason@));
            SpamPlan { delete_message: true, warning: Some(w), timeout: None }
        },
        SpamAction::DeleteMessage { .. } => SpamPlan { delete_message: true, warning: None, timeout: None },
        SpamAction::Timeout { duration_secs, reason } => {
            let until = now_secs + *duration_secs as i64;
            let mut n = owned("🔇 <@");
            push_decimal(&mut n, author_id);
            push_str(&mut n, "> has been timed out for ");
            push_decimal(&mut n, *duration_secs / 60);
            push_str(&mut n, " minutes: ");
            push_str(&mut n, reason.as_str());
            SpamPlan { delete_message: true, warning: None, timeout: Some((until, n)) }
        },
    }
}


// ---------------------------------------------------------------------------
// Changing the settings
// ---------------------------------------------------------------------------

/// The settings a moderator asked to change; `None` keeps the current value.
#[derive(Debug, Clone, Copy, PartialEq, Eq, Structural)]
pub struct SpamConfigUpdate {
    pub max_messages: Option<u32>,
    pub window_secs: Option<u64>,
    pub block_secs: Option<u64>,
    pub max_duplicates: Option<u32>,
    pub max_mentions: Option<u32>,
    pub max_warnings: Option<u32>,
    pub timeout_secs: Option<u64>,
}

/// `new` where it is given, else `old`.
pub open spec fn or_keep<T>(new: Option<T>, old: T) -> T {
    match new {
        Some(v) => v,
        None => old,
    }
}

/// The settings after an update: each given value replaces the current one.
pub open spec fn updated_spec(config: SpamConfig, u: SpamConfigUpdate) -> SpamConfig {
    SpamConfig {
        enabled: config.enabled,
        max_messages_per_window: or_keep(u.max_messages, config.max_messages_per_window),
        rate_limit_window_secs: or_keep(u.window_secs, config.rate_limit_window_secs),
        rate_limit_block_secs: or_keep(u.block_secs, config.rate_limit_block_secs),
        max_duplicate_messages: or_keep(u.max_duplicates, config.max_duplicate_messages),
        max_mentions_per_message: or_keep(u.max_mentions, config.max_mentions_per_message),
        warnings_before_timeout: or_keep(u.max_warnings, config.warnings_before_timeout),
        timeout_duration_secs: or_keep(u.timeout_secs, config.timeout_duration_secs),
    }
}

/// Applies an update to the settings.
pub fn updated_config(config: SpamConfig, u: SpamConfigUpdate) -> (c: SpamConfig)
    ensures
        c == updated_spec(config, u),
{
    let mut c = config;
    if let Some(v) = u.max_messages {
        c.max_messages_per_window = v;
    }
    if let Some(v) = u.window_secs {
        c.rate_limit_window_secs = v;
    }
    if let Some(v) = u.block_secs {
        c.rate_limit_block_secs = v;
    }
    if let Some(v) = u.max_duplicates {
        c.max_duplicate_messages = v;
    }
    if let Some(v) = u.max_mentions {
        c.max_mentions_per_message = v;
    }
    if let Some(v) = u.max_warnings {
        c.warnings_before_timeout = v;
    }
    if let Some(v) = u.timeout_secs {
        c.timeout_duration_secs = v;
    }
    c
}

/// An update that gives no value leaves the settings as they were, and applying the
/// same update twice is the same as applying it once.
pub proof fn lemma_update_laws(config: SpamConfig, u: SpamConfigUpdate)
    ensures
        updated_spec(config, SpamConfigUpdate {
            max_messages: None,
            window_secs: None,
            block_secs: None,
            max_duplicates: None,
            max_mentions: None,
            max_warnings: None,
            timeout_secs: None,
        }) == config,
        updated_spec(updated_spec(config, u), u) == updated_spec(config, u),
        updated_spec(config, u).enabled == config.enabled,
{
}

/// The confirmation sent after the settings changed.
pub open spec fn config_updated_text(c: SpamConfig) -> Seq<char> {
    "✅ Anti-spam configuration updated!\n• Rate limit: "@ + decimal(c.max_messages_per_window as nat) + " msgs / "@
        + decimal(c.rate_limit_window_secs as nat) + " sec (block: "@ + decimal(c.rate_limit_block_secs as nat)
        + " sec)\n• Duplicates: "@ + decimal(c.max_duplicate_messages as nat) + " max\n• Mentions: "@
        + decimal(c.max_mentions_per_message as nat) + " max\n• Warnings before timeout: "@
        + decimal(c.warnings_before_timeout as nat) + " → "@ + decimal((c.timeout_duration_secs / 60) as nat)
        + " min timeout"@
}

/// Writes the confirmation sent after the settings changed.
pub fn config_updated_message(c: &SpamConfig) -> (s: String)
    ensures
        s@ == config_updated_text(*c),
{
    let mut s = owned("✅ Anti-spam configuration updated!\n• Rate limit: ");
    push_decimal(&mut s, c.max_messages_per_window as u64);
    push_str(&mut s, " msgs / ");
    push_decimal(&mut s, c.rate_limit_window_secs);
    push_str(&mut s, " sec (block: ");
    push_decimal(&mut s, c.rate_limit_block_secs);
    push_str(&mut s, " sec)\n• Duplicates: ");
    push_decimal(&mut s, c.max_duplicate_messages as u64);
    push_str(&mut s, " max\n• Mentions: ");
    push_decimal(&mut s, c.max_mentions_per_message as u64);
    push_str(&mut s, " max\n• Warnings before timeout: ");
    push_decimal(&mut s, c.warnings_before_timeout as u64);
    push_str(&mut s, " → ");
    push_decimal(&mut s, c.timeout_duration_secs / 60);
    push_str(&mut s, " min timeout");
    s
}

/// The fields of the status embed: name, value and whether it stands inline.
pub open spec fn status_fields_spec(c: SpamConfig) -> Seq<(Seq<char>, Seq<char>, bool)> {
    seq![
        ("Status"@, if c.enabled { "✅ Enabled"@ } else { "❌ Disabled"@ }, false),
        ("Rate Limit"@, decimal(c.max_messages_per_window as nat) + " messages / "@
            + decimal(c.rate_limit_window_secs as nat) + " seconds\nBlock duration: "@
            + decimal(c.rate_limit_block_secs as nat) + " seconds"@, true),
        ("Duplicate Detection"@, decimal(c.max_duplicate_messages as nat) + " identical messages"@, true),
        ("Mention Limit"@, decimal(c.max_mentions_per_message as nat) + " mentions per message"@, true),
        ("Escalation"@, decimal(c.warnings_before_timeout as nat) + " warnings → "@
            + decimal((c.timeout_duration_secs / 60) as nat) + " minute timeout"@, false),
    ]
}

/// The colour of the status embed: green when enabled, red when not.
pub open spec fn status_colour(c: SpamConfig) -> u32 {
    if c.enabled { 0x00FF00 } else { 0xFF0000 }
}

/// Builds the fields and colour of the status embed.
pub fn spam_status(c: &SpamConfig) -> (r: (Vec<(String, String, bool)>, u32))
    ensures
        r.1 == status_colour(*c),
        r.0@.len() == 5,
        forall|i: int| 0 <= i < 5 ==> (#[trigger] r.0@[i]).0@ == status_fields_spec(*c)[i].0
            && r.0@[i].1@ == status_fields_spec(*c)[i].1 && r.0@[i].2 == status_fields_spec(*c)[i].2,
{
    let mut fields: Vec<(String, String, bool)> = Vec::new();
    let status = if c.enabled { owned("✅ Enabled") } else { owned("❌ Disabled") };
    fields.push((owned("Status"), status, false));
    let mut rate = String::new();
    push_decimal(&mut rate, c.max_messages_per_window as u64);
    push_str(&mut rate, " messages / ");
    push_decimal(&mut rate, c.rate_limit_window_secs);
    push_str(&mut rate, " seconds\nBlock duration: ");
    push_decimal(&mut rate, c.rate_limit_block_secs);
    push_str(&mut rate, " seconds");
    fields.push((owned("Rate Limit"), rate, true));
    let mut dup = String::new();
    push_decimal(&mut dup, c.max_duplicate_messages as u64);
    push_str(&mut dup, " identical messages");
    fields.push((owned("Duplicate Detection"), dup, true));
    let mut men = String::new();
    push_decimal(&mut men, c.max_mentions_per_message as u64);
    push_str(&mut men, " mentions per message");
    fields.push((owned("Mention Limit"), men, true));
    let mut esc = String::new();
    push_decimal(&mut esc, c.warnings_before_timeout as u64);
    push_str(&mut esc, " warnings → ");
    push_decimal(&mut esc, c.timeout_duration_secs / 60);
    push_str(&mut esc, " minute timeout");
    fields.push((owned("Escalation"), esc, false));
    proof {
        reveal_strlit("");
    }
    let colour: u32 = if c.enabled { 0x00FF00 } else { 0xFF0000 };
    (fields, colour)
}

} // verus!
