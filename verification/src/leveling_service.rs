//! The leveling rules: what a message, a command, a daily claim or an XP award does to a profile.
//!
//! Loading and saving profiles is the caller's part: every operation takes the stored
//! profile (if any) and answers with the profile to save and the result to report.
use crate::achievements::{achievement_catalog, get_all_achievements, meets, Achievement, Criterion};
use crate::level_curve::{is_level_for, level_from_xp, level_threshold, xp_threshold_for_level};
use crate::leveling::{blank_profile, history_view, opt_string_view, string_seq_view, LevelUpEvent, ProfileView, UserProfile, XpEvent, XpEventView};
use crate::text::{chars_of, owned, push_str, str_eq};
use vstd::prelude::*;

verus! {

/// Maximum number of XP events kept in a profile's history.
pub const XP_HISTORY_LIMIT: usize = 120;

/// Saturating addition on `u64`.
pub open spec fn sat_add(a: u64, b: u64) -> u64 {
    if a + b > u64::MAX {
        u64::MAX
    } else {
        (a + b) as u64
    }
}

fn saturating_add(a: u64, b: u64) -> (r: u64)
    ensures
        r == sat_add(a, b),
{
    if a > u64::MAX - b {
        u64::MAX
    } else {
        a + b
    }
}

/// XP after the booster multiplier: `round(1.5 * base)` for boosters, saturating.
pub open spec fn boosted_xp(base: u64, boosted: bool) -> u64 {
    if boosted {
        sat_add(base, ((base as int + 1) / 2) as u64)
    } else {
        base
    }
}

/// Applies the booster multiplier (1.5x, rounded half up).
pub fn apply_xp_boost(base: u64, boosted: bool) -> (r: u64)
    ensures
        r == boosted_xp(base, boosted),
{
    if boosted {
        let half: u64 = ((base as u128 + 1) / 2) as u64;
        saturating_add(base, half)
    } else {
        base
    }
}

/// Appends an XP event to a history, keeping only the most recent `XP_HISTORY_LIMIT`.
pub open spec fn history_with(h: Seq<XpEventView>, e: XpEventView) -> Seq<XpEventView> {
    let g = h.push(e);
    if g.len() > XP_HISTORY_LIMIT {
        g.subrange(g.len() - XP_HISTORY_LIMIT, g.len() as int)
    } else {
        g
    }
}

/// Records an XP gain in the profile's history (gains of 0 are not recorded).
pub open spec fn record_event(
    p: ProfileView,
    amount: u64,
    source: Seq<char>,
    note: Option<Seq<char>>,
    now: i64,
) -> ProfileView {
    if amount == 0 {
        p
    } else {
        ProfileView {
            xp_history: history_with(
                p.xp_history,
                XpEventView { amount, source, note, timestamp: now },
            ),
            ..p
        }
    }
}

/// Awards one achievement if it is not held yet and its rule is met.
pub open spec fn award_one(p: ProfileView, a: Achievement, now: i64) -> ProfileView {
    if p.achievements.contains(a.id@) || !meets(a.criterion, p) {
        p
    } else {
        record_event(
            ProfileView {
                achievements: p.achievements.push(a.id@),
                total_xp: sat_add(p.total_xp, a.reward_xp),
                ..p
            },
            a.reward_xp,
            "achievement"@,
            Some(a.name@),
            now,
        )
    }
}

/// Goes through the achievements from position `i` on, awarding each in turn.
pub open spec fn award_from(p: ProfileView, cat: Seq<Achievement>, i: int, now: i64) -> ProfileView
    decreases cat.len() - i,
{
    if i >= cat.len() || i < 0 {
        p
    } else {
        award_from(award_one(p, cat[i], now), cat, i + 1, now)
    }
}

/// The profile once every achievement it now qualifies for has been awarded.
pub open spec fn with_achievements(p: ProfileView, now: i64) -> ProfileView {
    award_from(p, achievement_catalog(), 0, now)
}

/// Awarding achievements changes neither the level nor the ids, counters and dates it reads.
pub proof fn lemma_award_from_keeps(p: ProfileView, cat: Seq<Achievement>, i: int, now: i64)
    ensures
        ({
            let q = award_from(p, cat, i, now);
            &&& q.level == p.level
            &&& q.user_id == p.user_id
            &&& q.guild_id == p.guild_id
            &&& q.total_xp >= p.total_xp
            &&& q.total_messages == p.total_messages
            &&& q.total_commands_used == p.total_commands_used
            &&& q.daily_streak == p.daily_streak
            &&& q.last_daily == p.last_daily
            &&& q.last_message_timestamp == p.last_message_timestamp
            &&& q.boost_days == p.boost_days
            &&& q.first_boost_date == p.first_boost_date
            &&& q.goals_completed == p.goals_completed
            &&& q.images_shared == p.images_shared
            &&& q.long_messages == p.long_messages
            &&& q.links_shared == p.links_shared
            &&& q.best_rank == p.best_rank
            &&& q.previous_rank == p.previous_rank
            &&& q.rank_improvement == p.rank_improvement
            &&& q.xp_to_next_level == p.xp_to_next_level
        }),
    decreases cat.len() - i,
{
    if i >= cat.len() || i < 0 {
    } else {
        lemma_award_from_keeps(award_one(p, cat[i], now), cat, i + 1, now);
    }
}

/// Awarding achievements only ever adds to the list: every achievement held before is
/// still held, in place, and an achievement already held is never added a second time.
pub proof fn lemma_award_from_grows(p: ProfileView, cat: Seq<Achievement>, i: int, now: i64)
    ensures
        p.achievements.is_prefix_of(award_from(p, cat, i, now).achievements),
        p.achievements.no_duplicates() ==> award_from(p, cat, i, now).achievements.no_duplicates(),
    decreases cat.len() - i,
{
    if i >= cat.len() || i < 0 {
        assert(p.achievements.is_prefix_of(p.achievements));
    } else {
        let q = award_one(p, cat[i], now);
        lemma_award_from_grows(q, cat, i + 1, now);
        let r = award_from(q, cat, i + 1, now);
        assert(p.achievements.is_prefix_of(q.achievements));
        assert(p.achievements.is_prefix_of(r.achievements)) by {
            assert forall|k: int| 0 <= k < p.achievements.len() implies r.achievements[k] == p.achievements[k] by {
                assert(q.achievements[k] == p.achievements[k]);
            }
        }
        if p.achievements.no_duplicates() {
            if !(p.achievements.contains(cat[i].id@) || !meets(cat[i].criterion, p)) {
                let s = p.achievements;
                let x = cat[i].id@;
                assert(q.achievements == s.push(x));
                assert forall|a: int, b: int| 0 <= a < s.push(x).len() && 0 <= b < s.push(x).len() && a != b
                    implies s.push(x)[a] != s.push(x)[b] by {
                    if a == s.len() {
                        assert(s[b] == s.push(x)[b]);
                    } else if b == s.len() {
                        assert(s[a] == s.push(x)[a]);
                    }
                }
            }
        }
    }
}

/// Achievements are kept once earned, and each is held at most once.
pub proof fn lemma_achievements_kept(p: ProfileView, now: i64)
    requires
        p.achievements.no_duplicates(),
    ensures
        p.achievements.is_prefix_of(with_achievements(p, now).achievements),
        with_achievements(p, now).achievements.no_duplicates(),
{
    lemma_award_from_grows(p, achievement_catalog(), 0, now);
}

/// The level a total XP amount reaches.
pub open spec fn level_of(xp: int) -> int {
    choose|l: int| is_level_for(xp, l)
}

/// XP needed for the level after `level` (the curve's last value at the top level).
pub open spec fn next_threshold(level: u32) -> int {
    if level < u32::MAX {
        level_threshold(level + 1)
    } else {
        level_threshold(level as int)
    }
}

/// The profile after levels are recomputed from its XP; levels never go down.
pub open spec fn with_level(p: ProfileView) -> ProfileView {
    let l = if level_of(p.total_xp as int) > p.level { level_of(p.total_xp as int) as u32 } else { p.level };
    ProfileView { level: l, xp_to_next_level: next_threshold(l) as u64, ..p }
}

/// A rule once met stays met when an achievement is awarded (counts and XP only grow).
proof fn lemma_meets_kept(c: Criterion, p: ProfileView, a: Achievement, now: i64)
    requires
        meets(c, p),
    ensures
        meets(c, award_one(p, a, now)),
{
}

proof fn lemma_award_from_holds(p: ProfileView, cat: Seq<Achievement>, i: int, k: int, now: i64)
    requires
        0 <= i <= k < cat.len(),
        meets(cat[k].criterion, p),
    ensures
        award_from(p, cat, i, now).achievements.contains(cat[k].id@),
    decreases k - i,
{
    let q = award_one(p, cat[i], now);
    lemma_meets_kept(cat[k].criterion, p, cat[i], now);
    assert(award_from(p, cat, i, now) == award_from(q, cat, i + 1, now));
    if i == k {
        assert(q.achievements.contains(cat[k].id@)) by {
            if !p.achievements.contains(cat[k].id@) {
                assert(meets(cat[k].criterion, p));
                assert(q.achievements == p.achievements.push(cat[k].id@));
                assert(q.achievements[q.achievements.len() - 1] == cat[k].id@);
            }
        }
        lemma_award_from_grows(q, cat, i + 1, now);
        let r = award_from(q, cat, i + 1, now);
        let m = choose|m: int| 0 <= m < q.achievements.len() && q.achievements[m] == cat[k].id@;
        assert(r.achievements[m] == q.achievements[m]);
    } else {
        lemma_award_from_holds(q, cat, i + 1, k, now);
    }
}

/// Every achievement whose rule a profile meets is held once achievements are awarded.
pub proof fn lemma_met_rules_are_awarded(p: ProfileView, k: int, now: i64)
    requires
        0 <= k < achievement_catalog().len(),
        meets(achievement_catalog()[k].criterion, p),
    ensures
        with_achievements(p, now).achievements.contains(achievement_catalog()[k].id@),
{
    lemma_award_from_holds(p, achievement_catalog(), 0, k, now);
}

/// Sending a hundred messages earns "chatterbox": once a profile's message count is at
/// least 100, awarding achievements leaves it holding "chatterbox", whatever else it holds
/// or lacks.
pub proof fn lemma_hundred_messages_earn_chatterbox(p: ProfileView, now: i64)
    requires
        p.total_messages >= 100,
    ensures
        with_achievements(p, now).achievements.contains("chatterbox"@),
{
    let cat = achievement_catalog();
    assert(cat[6].id@ == "chatterbox"@);
    assert(cat[6].criterion == Criterion::MessagesAtLeast(100));
    lemma_award_from_holds(p, cat, 0, 6, now);
}

/// Recomputing the level never lowers it: the new level is the higher of the old one and
/// the level the XP total reaches, and the XP total is left as it was.
pub proof fn lemma_level_never_decreases(p: ProfileView)
    ensures
        with_level(p).total_xp == p.total_xp,
        with_level(p).level >= p.level,
        is_level_for(p.total_xp as int, level_of(p.total_xp as int)),
        with_level(p).level >= level_of(p.total_xp as int),
        with_level(p).level == p.level || with_level(p).level == level_of(p.total_xp as int),
{
    crate::level_curve::lemma_level_exists(p.total_xp as int);
}

/// The profile a user starts with.
pub open spec fn starting_profile(user_id: u64, guild_id: u64) -> ProfileView {
    blank_profile(user_id, guild_id, 100)
}

/// The stored profile, or a starting one when there is none.
pub open spec fn loaded(stored: Option<ProfileView>, user_id: u64, guild_id: u64) -> ProfileView {
    match stored {
        Some(p) => p,
        None => starting_profile(user_id, guild_id),
    }
}

pub open spec fn opt_profile_view(o: Option<UserProfile>) -> Option<ProfileView> {
    match o {
        Some(p) => Some(p@),
        None => None,
    }
}

/// The level-up to report when `before` became `after`.
pub open spec fn level_up_report(user_id: u64, guild_id: u64, before: ProfileView, after: ProfileView) -> Option<
    LevelUpEvent,
> {
    if after.level > before.level {
        Some(
            LevelUpEvent {
                user_id,
                guild_id,
                old_level: before.level,
                new_level: after.level,
                total_xp: after.total_xp,
            },
        )
    } else {
        None
    }
}

/// A starting profile: level 1, no XP, 100 XP to the next level.
pub fn starting_profile_exec(user_id: u64, guild_id: u64) -> (p: UserProfile)
    ensures
        p@ == starting_profile(user_id, guild_id),
{
    UserProfile::blank(user_id, guild_id, 100)
}

/// Records an XP gain in the profile's history.
pub fn record_xp_event(p: &mut UserProfile, amount: u64, source: String, note: Option<String>, now: i64)
    ensures
        final(p)@ == record_event(old(p)@, amount, source@, opt_string_view(note), now),
{
    if amount == 0 {
        return;
    }
    let ghost before = p.xp_history@;
    let ghost ev = XpEventView { amount, source: source@, note: opt_string_view(note), timestamp: now };
    let event = XpEvent { amount, source, note, timestamp: now };
    p.xp_history.push_back(event);
    let ghost g = before.push(event);
    assert(p@ =~= (ProfileView { xp_history: history_view(p.xp_history@), ..old(p)@ }));
    proof {
        assert(history_view(g) =~= history_view(before).push(ev));
    }
    while p.xp_history.len() > XP_HISTORY_LIMIT
        invariant
            g.len() >= p.xp_history@.len(),
            p.xp_history@.len() == g.len() || p.xp_history@.len() >= XP_HISTORY_LIMIT,
            before == old(p).xp_history@,
            p@ == (ProfileView { xp_history: history_view(p.xp_history@), ..old(p)@ }),
            p.xp_history@ == g.subrange(g.len() - p.xp_history@.len(), g.len() as int),
        decreases p.xp_history@.len(),
    {
        let ghost cur = p.xp_history@;
        let _ = p.xp_history.pop_front();
        assert(p@ =~= (ProfileView { xp_history: history_view(p.xp_history@), ..old(p)@ }));
        assert(p.xp_history@ =~= g.subrange(g.len() - p.xp_history@.len(), g.len() as int));
    }
    proof {
        let gv = history_view(g);
        let k = p.xp_history@.len();
        assert(history_view(p.xp_history@) =~= history_with(
            history_view(before),
            ev,
        )) by {
            if g.len() > XP_HISTORY_LIMIT {
                assert(k == XP_HISTORY_LIMIT);
            } else {
                assert(k == g.len());
                assert(p.xp_history@ =~= g);
            }
        }
        assert(before == old(p).xp_history@);
        assert(p@.xp_history == history_with(old(p)@.xp_history, ev));
        assert(p@.achievements == old(p)@.achievements);
        assert(p@ =~= record_event(old(p)@, amount, source@, opt_string_view(note), now));
    }
}

fn holds_achievement(achievements: &Vec<String>, id: &str) -> (r: bool)
    ensures
        r == string_seq_view(achievements@).contains(id@),
{
    let mut i: usize = 0;
    while i < achievements.len()
        invariant
            i <= achievements.len(),
            forall|j: int| 0 <= j < i ==> achievements@[j]@ != id@,
        decreases achievements.len() - i,
    {
        if str_eq(achievements[i].as_str(), id) {
            assert(string_seq_view(achievements@)[i as int] == id@);
            return true;
        }
        i = i + 1;
    }
    assert forall|j: int| 0 <= j < string_seq_view(achievements@).len() implies string_seq_view(
        achievements@,
    )[j] != id@ by {
        assert(achievements@[j]@ != id@);
    }
    false
}

fn meets_exec(c: Criterion, p: &UserProfile) -> (r: bool)
    ensures
        r == meets(c, p@),
{
    match c {
        Criterion::LevelAtLeast(n) => p.level >= n,
        Criterion::MessagesAtLeast(n) => p.total_messages >= n,
        Criterion::CommandsAtLeast(n) => p.total_commands_used >= n,
        Criterion::StreakAtLeast(n) => p.daily_streak >= n,
        Criterion::XpAtLeast(n) => p.total_xp >= n,
        Criterion::ClaimedDaily => p.last_daily.is_some(),
        Criterion::BoostDaysAtLeast(n) => p.boost_days >= n,
        Criterion::WellRounded => p.level >= 10 && p.total_messages >= 500 && p.total_commands_used
            >= 50,
        Criterion::BestRankAtMost(n) => p.best_rank <= n,
        Criterion::RankImprovementAtLeast(n) => p.rank_improvement >= n,
        Criterion::ImagesAtLeast(n) => p.images_shared >= n,
        Criterion::LongMessagesAtLeast(n) => p.long_messages >= n,
        Criterion::LinksAtLeast(n) => p.links_shared >= n,
        Criterion::GoalsAtLeast(n) => p.goals_completed >= n,
        Criterion::AchievementsAtLeast(n) => (p.achievements.len() as u64) >= n,
    }
}

fn award_achievement(p: &mut UserProfile, a: &Achievement, now: i64)
    ensures
        final(p)@ == award_one(old(p)@, *a, now),
{
    proof {
        reveal_strlit("achievement");
    }
    if holds_achievement(&p.achievements, a.id) || !meets_exec(a.criterion, p) {
        return;
    }
    let ghost before = p.achievements@;
    p.achievements.push(owned(a.id));
    proof {
        assert(string_seq_view(p.achievements@) =~= string_seq_view(before).push(a.id@));
    }
    p.total_xp = saturating_add(p.total_xp, a.reward_xp);
    record_xp_event(p, a.reward_xp, owned("achievement"), Some(owned(a.name)), now);
}

/// Awards every achievement the profile now qualifies for, in catalog order.
pub fn check_and_award_achievements(p: &mut UserProfile, now: i64)
    ensures
        final(p)@ == with_achievements(old(p)@, now),
{
    let catalog = get_all_achievements();
    let mut i: usize = 0;
    while i < catalog.len()
        invariant
            catalog@ == achievement_catalog(),
            i <= catalog.len(),
            award_from(p@, catalog@, i as int, now) == award_from(old(p)@, catalog@, 0, now),
        decreases catalog.len() - i,
    {
        award_achievement(p, &catalog[i], now);
        i = i + 1;
    }
}

/// Recomputes the level from the XP total; returns whether the level went up.
pub fn handle_level_up(p: &mut UserProfile) -> (leveled: bool)
    ensures
        final(p)@ == with_level(old(p)@),
        leveled == (final(p)@.level > old(p)@.level),
{
    let l = level_from_xp(p.total_xp);
    proof {
        let c = level_of(p.total_xp as int);
        assert(is_level_for(p.total_xp as int, c));
        crate::level_curve::lemma_level_unique(p.total_xp as int, l as int, c);
    }
    let leveled = l > p.level;
    if leveled {
        p.level = l;
    }
    if p.level < u32::MAX {
        p.xp_to_next_level = xp_threshold_for_level(p.level + 1);
    } else {
        p.xp_to_next_level = xp_threshold_for_level(p.level);
    }
    leveled
}

} // verus!
