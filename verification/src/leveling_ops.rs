//! The operations of the leveling service: messages, commands, boosts and XP awards.
use crate::chance::random_in_range;
use crate::clock::{now_millis, MS_PER_DAY};
use crate::level_curve::{is_level_for, level_from_xp, level_threshold, xp_threshold_for_level};
use crate::leveling::{
    difficulty_label, difficulty_reward, opt_string_view, LevelUpEvent, LevelingError,
    MessageContentStats, ProfileView, UserProfile, UserStats, XpSource,
};
use crate::leveling_service::{
    lemma_award_from_keeps,
    apply_xp_boost, boosted_xp, check_and_award_achievements, handle_level_up, level_up_report,
    loaded, opt_profile_view, record_event, record_xp_event, sat_add, starting_profile_exec,
    with_achievements, with_level,
};
use crate::text::{decimal, eq_ignore_ascii_case, owned, push_decimal, push_str, str_eq_ignore_ascii_case};
use vstd::prelude::*;

verus! {

/// Configuration knobs for the leveling service.
#[derive(Debug, Clone, Copy)]
pub struct LevelingConfig {
    /// Minimum XP a single message can grant.
    pub xp_per_message_min: u64,
    /// Maximum XP a single message can grant.
    pub xp_per_message_max: u64,
    /// Cooldown between message-based XP grants, in milliseconds.
    pub cooldown_ms: u64,
}

impl LevelingConfig {
    /// A configuration; the minimum must be positive and at most the maximum.
    pub fn new(xp_per_message_min: u64, xp_per_message_max: u64, cooldown_ms: u64) -> (c: Self)
        requires
            xp_per_message_min > 0,
            xp_per_message_max >= xp_per_message_min,
        ensures
            c.xp_per_message_min == xp_per_message_min,
            c.xp_per_message_max == xp_per_message_max,
            c.cooldown_ms == cooldown_ms,
    {
        LevelingConfig { xp_per_message_min, xp_per_message_max, cooldown_ms }
    }
}

impl Default for LevelingConfig {
    /// 15 to 25 XP per message, one minute between grants.
    fn default() -> (c: Self)
        ensures
            c.xp_per_message_min == 15,
            c.xp_per_message_max == 25,
            c.cooldown_ms == 60_000,
    {
        LevelingConfig { xp_per_message_min: 15, xp_per_message_max: 25, cooldown_ms: 60_000 }
    }
}

/// The profile to save and the result to report after an operation.
#[derive(Debug)]
pub struct ProfileChange<T> {
    /// The profile to store, if the operation changed it.
    pub save: Option<UserProfile>,
    pub result: Result<T, LevelingError>,
}

/// The leveling rules, with their configuration.
#[derive(Debug)]
pub struct LevelingService {
    pub config: LevelingConfig,
}

// ---------------------------------------------------------------------------
// Messages
// ---------------------------------------------------------------------------

/// The message counters after one more message.
pub open spec fn counted(p: ProfileView, stats: Option<MessageContentStats>) -> ProfileView {
    match stats {
        Some(s) => ProfileView {
            total_messages: sat_add(p.total_messages, 1),
            images_shared: if s.has_image { sat_add(p.images_shared, 1) } else { p.images_shared },
            long_messages: if s.is_long { sat_add(p.long_messages, 1) } else { p.long_messages },
            links_shared: if s.has_link { sat_add(p.links_shared, 1) } else { p.links_shared },
            ..p
        },
        None => ProfileView { total_messages: sat_add(p.total_messages, 1), ..p },
    }
}

/// Time still to wait before the next message earns XP, if any.
pub open spec fn cooldown_left(p: ProfileView, now: i64, cooldown: u64) -> Option<u64> {
    match p.last_message_timestamp {
        Some(last) => {
            let elapsed = if now - last > 0 { now - last } else { 0 };
            if elapsed < cooldown {
                Some((cooldown - elapsed) as u64)
            } else {
                None
            }
        },
        None => None,
    }
}

/// The profile after a message earns `gain` XP at time `now`.
pub open spec fn message_awarded(p: ProfileView, gain: u64, now: i64) -> ProfileView {
    with_level(
        with_achievements(
            record_event(
                ProfileView {
                    total_xp: sat_add(p.total_xp, gain),
                    last_message_timestamp: Some(now),
                    ..p
                },
                gain,
                "message"@,
                None,
                now,
            ),
            now,
        ),
    )
}

/// What processing a message does, given the time and the XP roll.
pub open spec fn message_outcome(
    cfg: LevelingConfig,
    user_id: u64,
    guild_id: u64,
    stored: Option<ProfileView>,
    boosted: bool,
    stats: Option<MessageContentStats>,
    now: i64,
    roll: u64,
    r: ProfileChange<Option<LevelUpEvent>>,
) -> bool {
    if user_id == 0 || guild_id == 0 {
        r.save is None && r.result matches Err(LevelingError::InvalidId)
    } else {
        let p1 = counted(loaded(stored, user_id, guild_id), stats);
        match cooldown_left(p1, now, cfg.cooldown_ms) {
            Some(rem) => {
                &&& opt_profile_view(r.save) == Some(p1)
                &&& r.result matches Err(LevelingError::OnCooldown(left)) && left == rem
            },
            None => {
                let p2 = message_awarded(p1, boosted_xp(roll, boosted), now);
                &&& opt_profile_view(r.save) == Some(p2)
                &&& r.result matches Ok(ev) && ev == level_up_report(user_id, guild_id, p1, p2)
            },
        }
    }
}

/// The time of the last message that earned XP survives everything that follows the award.
proof fn lemma_awarded_stamp(p: ProfileView, gain: u64, now: i64, stats: Option<MessageContentStats>)
    ensures
        counted(message_awarded(p, gain, now), stats).last_message_timestamp == Some(now),
        message_awarded(p, gain, now).total_xp >= sat_add(p.total_xp, gain),
{
    let q = record_event(ProfileView { total_xp: sat_add(p.total_xp, gain), last_message_timestamp: Some(now), ..p }, gain, "message"@, None, now);
    lemma_award_from_keeps(q, crate::achievements::achievement_catalog(), 0, now);
}

/// A message that earns XP never takes anything away: the XP total grows by the gain (or
/// more, with achievement rewards, short of the cap) and the level does not go down.
pub proof fn lemma_message_award_keeps_progress(p: ProfileView, gain: u64, now: i64)
    ensures
        message_awarded(p, gain, now).total_xp >= sat_add(p.total_xp, gain),
        message_awarded(p, gain, now).level >= p.level,
{
    let q = record_event(ProfileView { total_xp: sat_add(p.total_xp, gain), last_message_timestamp: Some(now), ..p }, gain, "message"@, None, now);
    lemma_award_from_keeps(q, crate::achievements::achievement_catalog(), 0, now);
    crate::leveling_service::lemma_level_never_decreases(with_achievements(q, now));
}

/// The hundredth message earns "chatterbox": when a message from a profile that had sent
/// at least 99 messages earns XP, the saved profile holds "chatterbox".
pub proof fn lemma_hundredth_message_earns_chatterbox(
    cfg: LevelingConfig,
    user_id: u64,
    guild_id: u64,
    stored: Option<ProfileView>,
    boosted: bool,
    stats: Option<MessageContentStats>,
    now: i64,
    roll: u64,
    r: ProfileChange<Option<LevelUpEvent>>,
)
    requires
        message_outcome(cfg, user_id, guild_id, stored, boosted, stats, now, roll, r),
        r.result is Ok,
        loaded(stored, user_id, guild_id).total_messages >= 99,
    ensures
        opt_profile_view(r.save) matches Some(q) && q.achievements.contains("chatterbox"@),
{
    let p1 = counted(loaded(stored, user_id, guild_id), stats);
    assert(p1.total_messages >= 100);
    let gain = boosted_xp(roll, boosted);
    let q = record_event(ProfileView { total_xp: sat_add(p1.total_xp, gain), last_message_timestamp: Some(now), ..p1 }, gain, "message"@, None, now);
    crate::leveling_service::lemma_hundred_messages_earn_chatterbox(q, now);
}

/// Message XP is rate limited: once a message has earned XP at `now`, a message at
/// `later` within the cooldown earns nothing (it is still counted, and the time left is
/// reported), while one sent when the cooldown has run out earns XP again.
pub proof fn lemma_message_cooldown(
    cfg: LevelingConfig,
    user_id: u64,
    guild_id: u64,
    stored: Option<ProfileView>,
    boosted: bool,
    stats: Option<MessageContentStats>,
    now: i64,
    roll: u64,
    first: ProfileChange<Option<LevelUpEvent>>,
    boosted2: bool,
    stats2: Option<MessageContentStats>,
    later: i64,
    roll2: u64,
    second: ProfileChange<Option<LevelUpEvent>>,
)
    requires
        message_outcome(cfg, user_id, guild_id, stored, boosted, stats, now, roll, first),
        first.result is Ok,
        message_outcome(cfg, user_id, guild_id, opt_profile_view(first.save), boosted2, stats2, later, roll2, second),
        now <= later,
    ensures
        later - now < cfg.cooldown_ms ==> (second.result matches Err(LevelingError::OnCooldown(left))
            && left == cfg.cooldown_ms - (later - now)),
        later - now >= cfg.cooldown_ms ==> second.result is Ok,
        second.save is Some,
{
    let p1 = counted(loaded(stored, user_id, guild_id), stats);
    lemma_awarded_stamp(p1, boosted_xp(roll, boosted), now, stats2);
}

/// Whether both ids are usable (Discord ids are never 0).
pub open spec fn valid_ids(user_id: u64, guild_id: u64) -> bool {
    user_id != 0 && guild_id != 0
}

fn count_message(p: &mut UserProfile, stats: Option<MessageContentStats>)
    ensures
        final(p)@ == counted(old(p)@, stats),
{
    p.total_messages = if p.total_messages < u64::MAX { p.total_messages + 1 } else { u64::MAX };
    if let Some(s) = stats {
        if s.has_image {
            p.images_shared = if p.images_shared < u64::MAX { p.images_shared + 1 } else { u64::MAX };
        }
        if s.is_long {
            p.long_messages = if p.long_messages < u64::MAX { p.long_messages + 1 } else { u64::MAX };
        }
        if s.has_link {
            p.links_shared = if p.links_shared < u64::MAX { p.links_shared + 1 } else { u64::MAX };
        }
    }
    assert(p@ =~= counted(old(p)@, stats));
}

fn remaining_cooldown(p: &UserProfile, now: i64, cooldown: u64) -> (r: Option<u64>)
    ensures
        r == cooldown_left(p@, now, cooldown),
{
    match p.last_message_timestamp {
        Some(last) => {
            let diff: i128 = now as i128 - last as i128;
            let elapsed: i128 = if diff > 0 { diff } else { 0 };
            if elapsed < cooldown as i128 {
                Some((cooldown as i128 - elapsed) as u64)
            } else {
                None
            }
        },
        None => None,
    }
}

fn report(user_id: u64, guild_id: u64, old_level: u32, leveled: bool, p: &UserProfile) -> (r: Option<LevelUpEvent>)
    ensures
        r == (if leveled {
            Some(LevelUpEvent { user_id, guild_id, old_level, new_level: p.level, total_xp: p.total_xp })
        } else {
            None
        }),
{
    if leveled {
        Some(LevelUpEvent { user_id, guild_id, old_level, new_level: p.level, total_xp: p.total_xp })
    } else {
        None
    }
}

impl LevelingService {
    /// A service with the default configuration.
    pub fn new() -> (s: Self)
        ensures
            s.config.xp_per_message_min == 15,
            s.config.xp_per_message_max == 25,
            s.config.cooldown_ms == 60_000,
    {
        LevelingService { config: LevelingConfig::default() }
    }

    /// A service with a custom configuration.
    pub fn with_config(config: LevelingConfig) -> (s: Self)
        ensures
            s.config == config,
    {
        LevelingService { config }
    }

    /// Rejects a user or guild id of 0.
    pub fn validate_ids(user_id: u64, guild_id: u64) -> (r: Result<(), LevelingError>)
        ensures
            r is Ok <==> valid_ids(user_id, guild_id),
            r matches Err(e) ==> e is InvalidId,
    {
        if user_id == 0 || guild_id == 0 {
            Err(LevelingError::InvalidId)
        } else {
            Ok(())
        }
    }

    /// Rejects a guild id of 0.
    pub fn validate_guild_id(guild_id: u64) -> (r: Result<(), LevelingError>)
        ensures
            r is Ok <==> guild_id != 0,
            r matches Err(e) ==> e is InvalidId,
    {
        if guild_id == 0 {
            Err(LevelingError::InvalidId)
        } else {
            Ok(())
        }
    }

    /// XP for one message: a random amount between the configured bounds.
    pub fn roll_message_xp(&self) -> (r: u64)
        requires
            self.config.xp_per_message_min <= self.config.xp_per_message_max,
        ensures
            self.config.xp_per_message_min <= r <= self.config.xp_per_message_max,
    {
        if self.config.xp_per_message_min == self.config.xp_per_message_max {
            return self.config.xp_per_message_min;
        }
        random_in_range(self.config.xp_per_message_min, self.config.xp_per_message_max)
    }

    /// Processes a message sent at `now` that rolled `roll` XP.
    ///
    /// Counts the message; if the user is still on cooldown, reports how long is left;
    /// otherwise awards the (boosted) XP, any achievements now earned, and the new level.
    pub fn process_message_at(
        &self,
        user_id: u64,
        guild_id: u64,
        stored: Option<UserProfile>,
        boosted: bool,
        content_stats: Option<MessageContentStats>,
        now: i64,
        roll: u64,
    ) -> (r: ProfileChange<Option<LevelUpEvent>>)
        ensures
            message_outcome(
                self.config,
                user_id,
                guild_id,
                opt_profile_view(stored),
                boosted,
                content_stats,
                now,
                roll,
                r,
            ),
    {
        proof {
            reveal_strlit("message");
        }
        if user_id == 0 || guild_id == 0 {
            return ProfileChange { save: None, result: Err(LevelingError::InvalidId) };
        }
        let mut profile = starting_or(stored, user_id, guild_id);
        count_message(&mut profile, content_stats);
        if let Some(rem) = remaining_cooldown(&profile, now, self.config.cooldown_ms) {
            return ProfileChange { save: Some(profile), result: Err(LevelingError::OnCooldown(rem)) };
        }
        let old_level = profile.level;
        let gain = apply_xp_boost(roll, boosted);
        profile.total_xp = if profile.total_xp > u64::MAX - gain { u64::MAX } else { profile.total_xp + gain };
        profile.last_message_timestamp = Some(now);
        record_xp_event(&mut profile, gain, owned("message"), None, now);
        let ghost before_ach = profile@;
        check_and_award_achievements(&mut profile, now);
        proof {
            lemma_award_from_keeps(before_ach, crate::achievements::achievement_catalog(), 0, now);
        }
        let leveled = handle_level_up(&mut profile);
        let ev = report(user_id, guild_id, old_level, leveled, &profile);
        ProfileChange { save: Some(profile), result: Ok(ev) }
    }

    /// Processes a message now, with a fresh random XP roll.
    pub fn process_message(
        &self,
        user_id: u64,
        guild_id: u64,
        stored: Option<UserProfile>,
        boosted: bool,
        content_stats: Option<MessageContentStats>,
    ) -> (r: ProfileChange<Option<LevelUpEvent>>)
        requires
            self.config.xp_per_message_min <= self.config.xp_per_message_max,
        ensures
            exists|now: i64, roll: u64|
                #![trigger message_outcome(self.config, user_id, guild_id, opt_profile_view(stored), boosted, content_stats, now, roll, r)]
                now >= 0 && self.config.xp_per_message_min <= roll <= self.config.xp_per_message_max
                    && message_outcome(
                    self.config,
                    user_id,
                    guild_id,
                    opt_profile_view(stored),
                    boosted,
                    content_stats,
                    now,
                    roll,
                    r,
                ),
    {
        let now = now_millis();
        let roll = self.roll_message_xp();
        self.process_message_at(user_id, guild_id, stored, boosted, content_stats, now, roll)
    }
}

// ---------------------------------------------------------------------------
// Commands, boosts and XP awards
// ---------------------------------------------------------------------------

/// What counting a command does at time `now`.
pub open spec fn command_outcome(
    user_id: u64,
    guild_id: u64,
    stored: Option<ProfileView>,
    now: i64,
    r: ProfileChange<Option<LevelUpEvent>>,
) -> bool {
    if !valid_ids(user_id, guild_id) {
        r.save is None && r.result matches Err(LevelingError::InvalidId)
    } else {
        let p0 = loaded(stored, user_id, guild_id);
        let p1 = ProfileView { total_commands_used: (p0.total_commands_used + 1) as u64, ..p0 };
        let p2 = with_level(with_achievements(p1, now));
        &&& opt_profile_view(r.save) == Some(p2)
        &&& r.result matches Ok(ev) && ev == level_up_report(user_id, guild_id, p1, p2)
    }
}

/// The boost state after the user's booster status is refreshed at time `now`.
pub open spec fn boost_refreshed(p: ProfileView, is_boosting: bool, now: i64) -> ProfileView {
    if is_boosting {
        let first = match p.first_boost_date {
            Some(f) => f,
            None => now,
        };
        ProfileView {
            first_boost_date: Some(first),
            boost_days: if now >= first { ((now - first) / (MS_PER_DAY as int)) as u64 } else { 0 },
            ..p
        }
    } else if p.first_boost_date is Some {
        ProfileView { first_boost_date: None, boost_days: 0, ..p }
    } else {
        p
    }
}

/// What refreshing the booster status does at time `now`.
pub open spec fn boost_outcome(
    user_id: u64,
    guild_id: u64,
    stored: Option<ProfileView>,
    is_boosting: bool,
    now: i64,
    r: ProfileChange<()>,
) -> bool {
    if !valid_ids(user_id, guild_id) {
        r.save is None && r.result matches Err(LevelingError::InvalidId)
    } else {
        let p = with_achievements(boost_refreshed(loaded(stored, user_id, guild_id), is_boosting, now), now);
        opt_profile_view(r.save) == Some(p) && r.result is Ok
    }
}

/// Bonus XP a source carries on top of the awarded amount.
pub open spec fn source_bonus(source: XpSource) -> u64 {
    match source {
        XpSource::CodeChallenge { difficulty, language, execution_time_ms } => (difficulty_reward(
            difficulty,
        ) + (if eq_ignore_ascii_case(language@, "rust"@) { 25int } else { 0int }) + (if execution_time_ms
            <= 1000 { 10int } else { 0int })) as u64,
        _ => 0,
    }
}

/// The bonus of a code challenge: the difficulty's reward, 25 more when the language is
/// Rust (in any ASCII case), 10 more when it ran within a second; other sources carry none.
pub proof fn lemma_code_challenge_bonus(d: crate::leveling::Difficulty, rust: String, other: String, fast: u64, slow: u64, t: u64)
    requires
        eq_ignore_ascii_case(rust@, "rust"@),
        !eq_ignore_ascii_case(other@, "rust"@),
        fast <= 1000 < slow,
    ensures
        source_bonus(XpSource::CodeChallenge { difficulty: d, language: rust, execution_time_ms: t }) == source_bonus(
            XpSource::CodeChallenge { difficulty: d, language: other, execution_time_ms: t },
        ) + 25,
        source_bonus(XpSource::CodeChallenge { difficulty: d, language: other, execution_time_ms: fast })
            == source_bonus(XpSource::CodeChallenge { difficulty: d, language: other, execution_time_ms: slow }) + 10,
        source_bonus(XpSource::CodeChallenge { difficulty: d, language: other, execution_time_ms: slow })
            == difficulty_reward(d),
        source_bonus(XpSource::Message) == 0,
        source_bonus(XpSource::VoiceMinute) == 0,
{
}

/// How an XP source is labelled in the history.
pub open spec fn source_label(source: XpSource) -> Seq<char> {
    match source {
        XpSource::Message => "message"@,
        XpSource::VoiceMinute => "voice_minute"@,
        XpSource::CodeChallenge { difficulty, language, execution_time_ms } => "code_"@
            + difficulty_label(difficulty) + " ("@ + language@ + ") "@ + decimal(
            execution_time_ms as nat,
        ) + "ms"@,
    }
}

/// What awarding `amount` XP from `source` does at time `now`.
pub open spec fn award_outcome(
    user_id: u64,
    guild_id: u64,
    stored: Option<ProfileView>,
    amount: u64,
    source: XpSource,
    now: i64,
    r: ProfileChange<Option<LevelUpEvent>>,
) -> bool {
    if !valid_ids(user_id, guild_id) {
        r.save is None && r.result matches Err(LevelingError::InvalidId)
    } else {
        let total = sat_add(amount, source_bonus(source));
        let p0 = loaded(stored, user_id, guild_id);
        let p1 = with_level(
            with_achievements(
                record_event(
                    ProfileView { total_xp: sat_add(p0.total_xp, total), ..p0 },
                    total,
                    source_label(source),
                    None,
                    now,
                ),
                now,
            ),
        );
        &&& opt_profile_view(r.save) == Some(p1)
        &&& r.result matches Ok(ev) && ev == level_up_report(user_id, guild_id, p0, p1)
    }
}

impl LevelingService {
    /// Counts one more command at time `now` and awards achievements and levels.
    pub fn increment_command_count_at(
        &self,
        user_id: u64,
        guild_id: u64,
        stored: Option<UserProfile>,
        now: i64,
    ) -> (r: ProfileChange<Option<LevelUpEvent>>)
        requires
            stored matches Some(p) ==> p.total_commands_used < u64::MAX,
        ensures
            command_outcome(user_id, guild_id, opt_profile_view(stored), now, r),
    {
        if user_id == 0 || guild_id == 0 {
            return ProfileChange { save: None, result: Err(LevelingError::InvalidId) };
        }
        let mut profile = starting_or(stored, user_id, guild_id);
        profile.total_commands_used = profile.total_commands_used + 1;
        let ghost p1 = profile@;
        check_and_award_achievements(&mut profile, now);
        proof {
            lemma_award_from_keeps(p1, crate::achievements::achievement_catalog(), 0, now);
        }
        let old_level = profile.level;
        let leveled = handle_level_up(&mut profile);
        let ev = report(user_id, guild_id, old_level, leveled, &profile);
        ProfileChange { save: Some(profile), result: Ok(ev) }
    }

    /// Counts one more command now.
    pub fn increment_command_count(&self, user_id: u64, guild_id: u64, stored: Option<UserProfile>) -> (r:
        ProfileChange<Option<LevelUpEvent>>)
        requires
            stored matches Some(p) ==> p.total_commands_used < u64::MAX,
        ensures
            exists|now: i64|
                #![trigger command_outcome(user_id, guild_id, opt_profile_view(stored), now, r)]
                now >= 0 && command_outcome(user_id, guild_id, opt_profile_view(stored), now, r),
    {
        let now = now_millis();
        self.increment_command_count_at(user_id, guild_id, stored, now)
    }

    /// Refreshes the booster status at time `now` and awards achievements it unlocks.
    pub fn update_boost_status_at(
        &self,
        user_id: u64,
        guild_id: u64,
        stored: Option<UserProfile>,
        is_boosting: bool,
        now: i64,
    ) -> (r: ProfileChange<()>)
        ensures
            boost_outcome(user_id, guild_id, opt_profile_view(stored), is_boosting, now, r),
    {
        if user_id == 0 || guild_id == 0 {
            return ProfileChange { save: None, result: Err(LevelingError::InvalidId) };
        }
        let mut profile = starting_or(stored, user_id, guild_id);
        if is_boosting {
            if profile.first_boost_date.is_none() {
                profile.first_boost_date = Some(now);
            }
            if let Some(first) = profile.first_boost_date {
                if now >= first {
                    let span: i128 = now as i128 - first as i128;
                    profile.boost_days = (span / (MS_PER_DAY as i128)) as u64;
                } else {
                    profile.boost_days = 0;
                }
            }
        } else if profile.first_boost_date.is_some() {
            profile.first_boost_date = None;
            profile.boost_days = 0;
        }
        assert(profile@ =~= boost_refreshed(loaded(opt_profile_view(stored), user_id, guild_id), is_boosting, now));
        check_and_award_achievements(&mut profile, now);
        ProfileChange { save: Some(profile), result: Ok(()) }
    }

    /// Refreshes the booster status now.
    pub fn update_boost_status(
        &self,
        user_id: u64,
        guild_id: u64,
        stored: Option<UserProfile>,
        is_boosting: bool,
    ) -> (r: ProfileChange<()>)
        ensures
            exists|now: i64|
                #![trigger boost_outcome(user_id, guild_id, opt_profile_view(stored), is_boosting, now, r)]
                now >= 0 && boost_outcome(user_id, guild_id, opt_profile_view(stored), is_boosting, now, r),
    {
        let now = now_millis();
        self.update_boost_status_at(user_id, guild_id, stored, is_boosting, now)
    }

    /// Awards XP from a source other than messages at time `now`.
    pub fn award_xp_at(
        &self,
        user_id: u64,
        guild_id: u64,
        stored: Option<UserProfile>,
        amount: u64,
        source: XpSource,
        now: i64,
    ) -> (r: ProfileChange<Option<LevelUpEvent>>)
        ensures
            award_outcome(user_id, guild_id, opt_profile_view(stored), amount, source, now, r),
    {
        if user_id == 0 || guild_id == 0 {
            return ProfileChange { save: None, result: Err(LevelingError::InvalidId) };
        }
        let bonus = bonus_of(&source);
        let total = if amount > u64::MAX - bonus { u64::MAX } else { amount + bonus };
        let mut profile = starting_or(stored, user_id, guild_id);
        let ghost p0 = profile@;
        let old_level = profile.level;
        profile.total_xp = if profile.total_xp > u64::MAX - total { u64::MAX } else { profile.total_xp + total };
        let label = label_of(&source);
        record_xp_event(&mut profile, total, label, None, now);
        let ghost p1 = profile@;
        check_and_award_achievements(&mut profile, now);
        proof {
            lemma_award_from_keeps(p1, crate::achievements::achievement_catalog(), 0, now);
        }
        let leveled = handle_level_up(&mut profile);
        let ev = report(user_id, guild_id, old_level, leveled, &profile);
        ProfileChange { save: Some(profile), result: Ok(ev) }
    }

    /// Awards XP from a source other than messages, now.
    pub fn award_xp(
        &self,
        user_id: u64,
        guild_id: u64,
        stored: Option<UserProfile>,
        amount: u64,
        source: XpSource,
    ) -> (r: ProfileChange<Option<LevelUpEvent>>)
        ensures
            exists|now: i64|
                #![trigger award_outcome(user_id, guild_id, opt_profile_view(stored), amount, source, now, r)]
                now >= 0 && award_outcome(user_id, guild_id, opt_profile_view(stored), amount, source, now, r),
    {
        let now = now_millis();
        self.award_xp_at(user_id, guild_id, stored, amount, source, now)
    }
}

fn bonus_of(source: &XpSource) -> (b: u64)
    ensures
        b == source_bonus(*source),
{
    proof {
        reveal_strlit("rust");
    }
    match source {
        XpSource::CodeChallenge { difficulty, language, execution_time_ms } => {
            let mut bonus = difficulty.xp_reward();
            if str_eq_ignore_ascii_case(language.as_str(), "rust") {
                bonus = bonus + 25;
            }
            if *execution_time_ms <= 1000 {
                bonus = bonus + 10;
            }
            bonus
        },
        _ => 0,
    }
}

fn label_of(source: &XpSource) -> (s: String)
    ensures
        s@ == source_label(*source),
{
    proof {
        reveal_strlit("message");
        reveal_strlit("voice_minute");
        reveal_strlit("code_");
        reveal_strlit(" (");
        reveal_strlit(") ");
        reveal_strlit("ms");
    }
    match source {
        XpSource::Message => owned("message"),
        XpSource::VoiceMinute => owned("voice_minute"),
        XpSource::CodeChallenge { difficulty, language, execution_time_ms } => {
            let mut s = owned("code_");
            push_str(&mut s, difficulty.label());
            push_str(&mut s, " (");
            push_str(&mut s, language.as_str());
            push_str(&mut s, ") ");
            push_decimal(&mut s, *execution_time_ms);
            push_str(&mut s, "ms");
            assert(s@ =~= source_label(*source));
            s
        },
    }
}

fn starting_or(stored: Option<UserProfile>, user_id: u64, guild_id: u64) -> (p: UserProfile)
    ensures
        p@ == loaded(opt_profile_view(stored), user_id, guild_id),
{
    match stored {
        Some(p) => p,
        None => starting_profile_exec(user_id, guild_id),
    }
}

} // verus!
