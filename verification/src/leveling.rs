//! Domain model of the leveling system: profiles, XP events, daily goals and errors.
//!
//! Timestamps are milliseconds since the Unix epoch (UTC); durations are milliseconds.
use crate::text::{push_str, u64_to_string, decimal};
use vstd::prelude::*;

verus! {

/// A user's XP and level in one guild.
#[derive(Debug, Clone)]
pub struct UserStats {
    pub user_id: u64,
    pub guild_id: u64,
    pub xp: u64,
    pub level: u32,
    /// When the user last gained XP (used for cooldowns).
    pub last_xp_gain: Option<i64>,
}

/// Reported when a user reaches a higher level.
#[derive(Debug, Clone, Copy, PartialEq, Eq, Structural)]
pub struct LevelUpEvent {
    pub user_id: u64,
    pub guild_id: u64,
    pub old_level: u32,
    pub new_level: u32,
    pub total_xp: u64,
}

/// One XP gain, kept for analytics.
#[derive(Debug, Clone)]
pub struct XpEvent {
    pub amount: u64,
    pub source: String,
    pub note: Option<String>,
    pub timestamp: i64,
}

/// The mathematical content of an [`XpEvent`].
#[verifier::ext_equal]
pub struct XpEventView {
    pub amount: u64,
    pub source: Seq<char>,
    pub note: Option<Seq<char>>,
    pub timestamp: i64,
}

pub open spec fn opt_string_view(o: Option<String>) -> Option<Seq<char>> {
    match o {
        Some(s) => Some(s@),
        None => None,
    }
}

impl View for XpEvent {
    type V = XpEventView;

    open spec fn view(&self) -> XpEventView {
        XpEventView {
            amount: self.amount,
            source: self.source@,
            note: opt_string_view(self.note),
            timestamp: self.timestamp,
        }
    }
}

/// A user's full leveling profile in one guild.
#[derive(Debug, Clone)]
pub struct UserProfile {
    pub user_id: u64,
    pub guild_id: u64,
    pub level: u32,
    pub total_xp: u64,
    pub xp_to_next_level: u64,
    pub total_commands_used: u64,
    pub total_messages: u64,
    pub last_daily: Option<i64>,
    pub daily_streak: u32,
    pub last_message_timestamp: Option<i64>,
    pub achievements: Vec<String>,
    pub best_rank: u32,
    pub previous_rank: u32,
    pub rank_improvement: u32,
    pub images_shared: u64,
    pub long_messages: u64,
    pub links_shared: u64,
    pub goals_completed: u64,
    pub boost_days: u64,
    pub first_boost_date: Option<i64>,
    pub xp_history: std::collections::VecDeque<XpEvent>,
}

/// The mathematical content of a [`UserProfile`].
#[verifier::ext_equal]
pub struct ProfileView {
    pub user_id: u64,
    pub guild_id: u64,
    pub level: u32,
    pub total_xp: u64,
    pub xp_to_next_level: u64,
    pub total_commands_used: u64,
    pub total_messages: u64,
    pub last_daily: Option<i64>,
    pub daily_streak: u32,
    pub last_message_timestamp: Option<i64>,
    pub achievements: Seq<Seq<char>>,
    pub best_rank: u32,
    pub previous_rank: u32,
    pub rank_improvement: u32,
    pub images_shared: u64,
    pub long_messages: u64,
    pub links_shared: u64,
    pub goals_completed: u64,
    pub boost_days: u64,
    pub first_boost_date: Option<i64>,
    pub xp_history: Seq<XpEventView>,
}

pub open spec fn string_seq_view(v: Seq<String>) -> Seq<Seq<char>> {
    v.map_values(|s: String| s@)
}

pub open spec fn history_view(v: Seq<XpEvent>) -> Seq<XpEventView> {
    v.map_values(|e: XpEvent| e@)
}

impl View for UserProfile {
    type V = ProfileView;

    open spec fn view(&self) -> ProfileView {
        ProfileView {
            user_id: self.user_id,
            guild_id: self.guild_id,
            level: self.level,
            total_xp: self.total_xp,
            xp_to_next_level: self.xp_to_next_level,
            total_commands_used: self.total_commands_used,
            total_messages: self.total_messages,
            last_daily: self.last_daily,
            daily_streak: self.daily_streak,
            last_message_timestamp: self.last_message_timestamp,
            achievements: string_seq_view(self.achievements@),
            best_rank: self.best_rank,
            previous_rank: self.previous_rank,
            rank_improvement: self.rank_improvement,
            images_shared: self.images_shared,
            long_messages: self.long_messages,
            links_shared: self.links_shared,
            goals_completed: self.goals_completed,
            boost_days: self.boost_days,
            first_boost_date: self.first_boost_date,
            xp_history: history_view(self.xp_history@),
        }
    }
}

/// The rank a profile holds before it was ever ranked.
pub open spec fn spec_default_rank() -> u32 {
    999
}

/// The rank a profile holds before it was ever ranked.
pub fn default_rank() -> (r: u32)
    ensures
        r == spec_default_rank(),
{
    999
}

/// A fresh profile with the given ids and no progress, as stored profiles are read.
pub open spec fn blank_profile(user_id: u64, guild_id: u64, xp_to_next_level: u64) -> ProfileView {
    ProfileView {
        user_id,
        guild_id,
        level: 1,
        total_xp: 0,
        xp_to_next_level,
        total_commands_used: 0,
        total_messages: 0,
        last_daily: None,
        daily_streak: 0,
        last_message_timestamp: None,
        achievements: Seq::empty(),
        best_rank: 999,
        previous_rank: 999,
        rank_improvement: 0,
        images_shared: 0,
        long_messages: 0,
        links_shared: 0,
        goals_completed: 0,
        boost_days: 0,
        first_boost_date: None,
        xp_history: Seq::empty(),
    }
}

impl UserProfile {
    /// A profile holding only the given ids.
    pub fn blank(user_id: u64, guild_id: u64, xp_to_next_level: u64) -> (p: UserProfile)
        ensures
            p@ == blank_profile(user_id, guild_id, xp_to_next_level),
    {
        let p = UserProfile {
            user_id,
            guild_id,
            level: 1,
            total_xp: 0,
            xp_to_next_level,
            total_commands_used: 0,
            total_messages: 0,
            last_daily: None,
            daily_streak: 0,
            last_message_timestamp: None,
            achievements: Vec::new(),
            best_rank: 999,
            previous_rank: 999,
            rank_improvement: 0,
            images_shared: 0,
            long_messages: 0,
            links_shared: 0,
            goals_completed: 0,
            boost_days: 0,
            first_boost_date: None,
            xp_history: std::collections::VecDeque::new(),
        };
        assert(p@.achievements =~= Seq::<Seq<char>>::empty());
        assert(p@.xp_history =~= Seq::<XpEventView>::empty());
        p
    }

    /// A default profile with the required ids (no XP yet, level 1).
    pub fn default_with_ids(user_id: u64, guild_id: u64) -> (p: UserProfile)
        ensures
            p@ == blank_profile(user_id, guild_id, 0),
    {
        UserProfile::blank(user_id, guild_id, 0)
    }
}

/// The server-wide daily goal of one guild.
#[derive(Debug, Clone)]
pub struct DailyGoal {
    /// ISO date (`YYYY-MM-DD`) the goal belongs to.
    pub date: String,
    pub target: u64,
    pub progress: u64,
    pub claimers: Vec<u64>,
    pub completed: bool,
    pub bonus_awarded_to: Vec<u64>,
}

/// The mathematical content of a [`DailyGoal`].
#[verifier::ext_equal]
pub struct DailyGoalView {
    pub date: Seq<char>,
    pub target: u64,
    pub progress: u64,
    pub claimers: Seq<u64>,
    pub completed: bool,
    pub bonus_awarded_to: Seq<u64>,
}

impl View for DailyGoal {
    type V = DailyGoalView;

    open spec fn view(&self) -> DailyGoalView {
        DailyGoalView {
            date: self.date@,
            target: self.target,
            progress: self.progress,
            claimers: self.claimers@,
            completed: self.completed,
            bonus_awarded_to: self.bonus_awarded_to@,
        }
    }
}

/// What a message contained, for the content counters.
#[derive(Debug, Clone, Copy, PartialEq, Eq, Structural)]
pub struct MessageContentStats {
    pub has_image: bool,
    pub is_long: bool,
    pub has_link: bool,
}

impl Default for MessageContentStats {
    fn default() -> (r: Self)
        ensures
            r == (MessageContentStats { has_image: false, is_long: false, has_link: false }),
    {
        MessageContentStats { has_image: false, is_long: false, has_link: false }
    }
}

/// Code-challenge difficulty.
#[derive(Debug, Clone, Copy, PartialEq, Eq, Structural)]
pub enum Difficulty {
    Easy,
    Medium,
    Hard,
    Expert,
}

/// XP each difficulty is worth.
pub open spec fn difficulty_reward(d: Difficulty) -> u64 {
    match d {
        Difficulty::Easy => 50,
        Difficulty::Medium => 150,
        Difficulty::Hard => 500,
        Difficulty::Expert => 1000,
    }
}

/// The lower-case name of a difficulty.
pub open spec fn difficulty_label(d: Difficulty) -> Seq<char> {
    match d {
        Difficulty::Easy => "easy"@,
        Difficulty::Medium => "medium"@,
        Difficulty::Hard => "hard"@,
        Difficulty::Expert => "expert"@,
    }
}

impl Difficulty {
    /// How much XP a challenge of this difficulty awards.
    pub fn xp_reward(&self) -> (r: u64)
        ensures
            r == difficulty_reward(*self),
    {
        match self {
            Difficulty::Easy => 50,
            Difficulty::Medium => 150,
            Difficulty::Hard => 500,
            Difficulty::Expert => 1000,
        }
    }

    /// The lower-case name of the difficulty.
    pub fn label(&self) -> (s: &'static str)
        ensures
            s@ == difficulty_label(*self),
    {
        proof {
            reveal_strlit("easy");
            reveal_strlit("medium");
            reveal_strlit("hard");
            reveal_strlit("expert");
        }
        match self {
            Difficulty::Easy => "easy",
            Difficulty::Medium => "medium",
            Difficulty::Hard => "hard",
            Difficulty::Expert => "expert",
        }
    }
}

/// Where XP came from.
#[derive(Debug)]
pub enum XpSource {
    Message,
    VoiceMinute,
    CodeChallenge { difficulty: Difficulty, language: String, execution_time_ms: u64 },
}

/// What can go wrong in the leveling system.
#[derive(Debug)]
pub enum LevelingError {
    /// The user is on cooldown; the payload is the time remaining in milliseconds.
    OnCooldown(u64),
    StorageError(String),
    InvalidId,
}

/// How a duration in milliseconds is shown: `1.5s`, `60s`, `250ms`, `0ns`
/// (the `Debug` text of `std::time::Duration`).
pub open spec fn duration_text(ms: u64) -> Seq<char> {
    if ms >= 1000 {
        let frac = ms % 1000;
        if frac == 0 {
            decimal((ms / 1000) as nat) + "s"@
        } else if frac % 100 == 0 {
            decimal((ms / 1000) as nat) + "."@ + decimal((frac / 100) as nat) + "s"@
        } else if frac % 10 == 0 {
            decimal((ms / 1000) as nat) + "."@ + three_digits(frac).subrange(0, 2) + "s"@
        } else {
            decimal((ms / 1000) as nat) + "."@ + three_digits(frac) + "s"@
        }
    } else if ms > 0 {
        decimal(ms as nat) + "ms"@
    } else {
        "0ns"@
    }
}

/// A number below 1000 written with exactly three digits.
pub open spec fn three_digits(n: u64) -> Seq<char> {
    if n < 10 {
        "00"@ + decimal(n as nat)
    } else if n < 100 {
        "0"@ + decimal(n as nat)
    } else {
        decimal(n as nat)
    }
}

fn push_three_digits(s: &mut String, n: u64)
    requires
        n < 1000,
    ensures
        final(s)@ == old(s)@ + three_digits(n),
{
    proof {
        reveal_strlit("00");
        reveal_strlit("0");
    }
    if n < 10 {
        push_str(s, "00");
    } else if n < 100 {
        push_str(s, "0");
    }
    let d = u64_to_string(n);
    push_str(s, d.as_str());
    if n < 10 {
        assert(s@ =~= old(s)@ + three_digits(n));
    } else if n < 100 {
        assert(s@ =~= old(s)@ + three_digits(n));
    } else {
        assert(s@ =~= old(s)@ + three_digits(n));
    }
}

proof fn lemma_three_digits_len(n: u64)
    requires
        100 <= n < 1000,
    ensures
        decimal(n as nat).len() == 3,
{
    assert(decimal(n as nat) == decimal((n / 10) as nat).push(crate::text::digit_char((n % 10) as nat)));
    assert(decimal((n / 10) as nat) == decimal((n / 100) as nat).push(crate::text::digit_char(((n / 10) % 10) as nat)));
}

/// Writes a duration the way `std::time::Duration`'s `Debug` does.
pub fn duration_string(ms: u64) -> (s: String)
    ensures
        s@ == duration_text(ms),
{
    proof {
        reveal_strlit("s");
        reveal_strlit(".");
        reveal_strlit("ms");
        reveal_strlit("0ns");
    }
    let mut s = String::new();
    if ms >= 1000 {
        let secs = u64_to_string(ms / 1000);
        push_str(&mut s, secs.as_str());
        let frac = ms % 1000;
        if frac == 0 {
        } else if frac % 100 == 0 {
            push_str(&mut s, ".");
            let d = u64_to_string(frac / 100);
            push_str(&mut s, d.as_str());
        } else if frac % 10 == 0 {
            push_str(&mut s, ".");
            let mut t = String::new();
            push_three_digits(&mut t, frac);
            let tc = crate::text::chars_of(t.as_str());
            proof {
                if frac >= 100 {
                    lemma_three_digits_len(frac);
                } else if frac >= 10 {
                    assert(decimal(frac as nat) == decimal((frac / 10) as nat).push(crate::text::digit_char((frac % 10) as nat)));
                }
            }
            crate::text::push_char(&mut s, tc[0]);
            crate::text::push_char(&mut s, tc[1]);
            assert(tc@.subrange(0, 2) =~= seq![tc@[0], tc@[1]]);
        } else {
            push_str(&mut s, ".");
            push_three_digits(&mut s, frac);
        }
        push_str(&mut s, "s");
    } else if ms > 0 {
        let d = u64_to_string(ms);
        push_str(&mut s, d.as_str());
        push_str(&mut s, "ms");
    } else {
        push_str(&mut s, "0ns");
    }
    assert(s@ =~= duration_text(ms));
    s
}

/// The human-readable message of a leveling error.
pub open spec fn leveling_error_text(e: LevelingError) -> Seq<char> {
    match e {
        LevelingError::OnCooldown(ms) => "User is on cooldown. Time remaining: "@ + duration_text(ms),
        LevelingError::StorageError(msg) => "Storage error: "@ + msg@,
        LevelingError::InvalidId => "Invalid user or guild ID"@,
    }
}

impl LevelingError {
    /// The human-readable message of the error.
    pub fn message(&self) -> (s: String)
        ensures
            s@ == leveling_error_text(*self),
    {
        proof {
            reveal_strlit("User is on cooldown. Time remaining: ");
            reveal_strlit("Storage error: ");
            reveal_strlit("Invalid user or guild ID");
        }
        let mut s = String::new();
        match self {
            LevelingError::OnCooldown(ms) => {
                push_str(&mut s, "User is on cooldown. Time remaining: ");
                let d = duration_string(*ms);
                push_str(&mut s, d.as_str());
            },
            LevelingError::StorageError(msg) => {
                push_str(&mut s, "Storage error: ");
                push_str(&mut s, msg.as_str());
            },
            LevelingError::InvalidId => {
                push_str(&mut s, "Invalid user or guild ID");
            },
        }
        s
    }
}

} // verus!
