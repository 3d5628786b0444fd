//! Daily rewards, the server-wide daily goal, and the read-only queries of the leveling service.
use crate::clock::{date_text, day_index, day_of, now_millis, utc_date_text};
use crate::level_curve::{is_level_for, level_from_xp, level_threshold, xp_threshold_for_level};
use crate::leveling::{
    DailyGoal, DailyGoalView, LevelUpEvent, LevelingError, ProfileView, UserProfile, UserStats,
};
use crate::leveling_ops::{valid_ids, LevelingService, ProfileChange};
use crate::leveling_service::{
    apply_xp_boost, boosted_xp, handle_level_up, level_up_report, loaded, opt_profile_view,
    record_event, record_xp_event, sat_add, starting_profile_exec, with_level,
};
use crate::text::{decimal, owned, push_decimal, push_str, copy_string, str_eq};
use vstd::prelude::*;

verus! {

/// XP of a daily claim before streak bonus.
pub const BASE_DAILY_REWARD: u64 = 25;

/// Extra XP per day of streak.
pub const STREAK_BONUS_STEP: u64 = 5;

/// Most extra XP a streak can add.
pub const STREAK_BONUS_CAP: u64 = 25;

/// XP every claimer earns when the server goal is completed.
pub const GOAL_BONUS_XP: u64 = 15;

/// The streak after a claim on day `today`.
pub open spec fn next_streak(p: ProfileView, today: int) -> u32 {
    match p.last_daily {
        Some(last) => if today - day_index(last as int) == 1 {
            (p.daily_streak + 1) as u32
        } else {
            1
        },
        None => 1,
    }
}

/// XP of a daily claim with the given streak: 25, plus 5 per day of streak beyond the first, at most 25 more.
pub open spec fn daily_base_xp(streak: u32) -> u64 {
    let bonus = if (streak - 1) * 5 > 25 { 25 } else { (streak - 1) * 5 };
    (25 + bonus) as u64
}

/// Whether the profile already claimed on the day of `now`.
pub open spec fn claimed_today(p: ProfileView, now: i64) -> bool {
    p.last_daily matches Some(last) && day_index(last as int) == day_index(now as int)
}

/// The profile after a daily claim at `now` (when not already claimed today).
pub open spec fn daily_claimed(p: ProfileView, boosted: bool, now: i64) -> ProfileView {
    let streak = next_streak(p, day_index(now as int));
    let award = boosted_xp(daily_base_xp(streak), boosted);
    with_level(
        record_event(
            ProfileView {
                daily_streak: streak,
                total_xp: sat_add(p.total_xp, award),
                last_daily: Some(now),
                ..p
            },
            award,
            "daily"@,
            Some("streak "@ + decimal(streak as nat) + "d"@),
            now,
        ),
    )
}

/// Whether a claim at `now` extends a streak that is already at `u32::MAX` (the one claim
/// whose streak cannot be counted).
pub open spec fn streak_overflows(stored: Option<ProfileView>, now: i64) -> bool {
    stored matches Some(p) && p.daily_streak == u32::MAX && (p.last_daily matches Some(last) && day_index(now as int)
        - day_index(last as int) == 1)
}

/// The outcome of the profile part of a daily claim.
#[derive(Debug)]
pub enum DailyClaim {
    /// Already claimed today: nothing changes.
    AlreadyClaimed,
    /// Claimed: the profile to save, the XP awarded and any level-up.
    Claimed { profile: UserProfile, award_xp: u64, level_up: Option<LevelUpEvent> },
}

/// What the profile part of a daily claim at `now` does.
pub open spec fn daily_outcome(
    user_id: u64,
    guild_id: u64,
    stored: Option<ProfileView>,
    boosted: bool,
    now: i64,
    r: Result<DailyClaim, LevelingError>,
) -> bool {
    if !valid_ids(user_id, guild_id) {
        r matches Err(LevelingError::InvalidId)
    } else {
        let p = loaded(stored, user_id, guild_id);
        if claimed_today(p, now) {
            r matches Ok(DailyClaim::AlreadyClaimed)
        } else {
            let q = daily_claimed(p, boosted, now);
            r matches Ok(DailyClaim::Claimed { profile, award_xp, level_up }) && profile@ == q
                && award_xp == boosted_xp(daily_base_xp(next_streak(p, day_index(now as int))), boosted)
                && level_up == level_up_report(user_id, guild_id, p, q)
        }
    }
}

/// The daily reward can be claimed once per UTC day: after a claim at `now`, a claim on
/// the same day is refused, a claim on the next day extends the streak by one, and a
/// claim after a missed day starts the streak again at one. Every claim adds XP.
pub proof fn lemma_daily_once_per_day(
    user_id: u64,
    guild_id: u64,
    stored: Option<ProfileView>,
    boosted: bool,
    now: i64,
    first: Result<DailyClaim, LevelingError>,
    saved: ProfileView,
    boosted2: bool,
    later: i64,
    second: Result<DailyClaim, LevelingError>,
)
    requires
        daily_outcome(user_id, guild_id, stored, boosted, now, first),
        first matches Ok(DailyClaim::Claimed { profile, .. }) && profile@ == saved,
        daily_outcome(user_id, guild_id, Some(saved), boosted2, later, second),
    ensures
        saved.last_daily == Some(now),
        saved.total_xp >= loaded(stored, user_id, guild_id).total_xp,
        day_index(later as int) == day_index(now as int) ==> second matches Ok(DailyClaim::AlreadyClaimed),
        day_index(later as int) == day_index(now as int) + 1 && saved.daily_streak < u32::MAX ==> (second matches Ok(
            DailyClaim::Claimed { profile, .. },
        ) && profile@.daily_streak == saved.daily_streak + 1),
        day_index(later as int) > day_index(now as int) + 1 ==> (second matches Ok(DailyClaim::Claimed { profile, .. })
            && profile@.daily_streak == 1),
{
}

/// The goal a guild starts a day with.
pub open spec fn fresh_goal(date: Seq<char>, target: u64) -> DailyGoalView {
    DailyGoalView {
        date,
        target,
        progress: 0,
        claimers: Seq::empty(),
        completed: false,
        bonus_awarded_to: Seq::empty(),
    }
}

/// The number of claims a guild needs: its member count, between 1 and 15.
pub open spec fn goal_target(member_count: u64) -> u64 {
    if member_count < 1 {
        1
    } else if member_count > 15 {
        15
    } else {
        member_count
    }
}

/// Today's goal: the stored one if it is for `today`, else a fresh one.
pub open spec fn current_goal(stored: Option<DailyGoalView>, today: Seq<char>, member_count: u64) -> DailyGoalView {
    match stored {
        Some(g) => if g.date == today {
            g
        } else {
            fresh_goal(today, goal_target(member_count))
        },
        None => fresh_goal(today, goal_target(member_count)),
    }
}

/// Claimers still owed the goal bonus, in claim order, each once.
pub open spec fn pending_bonus(claimers: Seq<u64>, awarded: Seq<u64>) -> Seq<u64>
    decreases claimers.len(),
{
    if claimers.len() == 0 {
        Seq::empty()
    } else if awarded.contains(claimers[0]) {
        pending_bonus(claimers.drop_first(), awarded)
    } else {
        seq![claimers[0]] + pending_bonus(claimers.drop_first(), awarded.push(claimers[0]))
    }
}

/// The goal after `user_id` claims; `to_award` is who earns the goal bonus now.
pub open spec fn goal_after_claim(g0: DailyGoalView, user_id: u64) -> (DailyGoalView, Seq<u64>) {
    let g1 = if g0.claimers.contains(user_id) {
        g0
    } else {
        DailyGoalView {
            claimers: g0.claimers.push(user_id),
            progress: (g0.claimers.len() + 1) as u64,
            ..g0
        }
    };
    let g2 = if !g1.completed && g1.progress >= g1.target {
        DailyGoalView { completed: true, ..g1 }
    } else {
        g1
    };
    if g2.completed {
        let pending = pending_bonus(g2.claimers, g2.bonus_awarded_to);
        (DailyGoalView { bonus_awarded_to: g2.bonus_awarded_to + pending, ..g2 }, pending)
    } else {
        (g2, Seq::empty())
    }
}

/// The profile of a claimer after the goal bonus for the goal of `date`.
pub open spec fn goal_bonus_applied(p: ProfileView, date: Seq<char>, now: i64) -> ProfileView {
    let q = record_event(
        ProfileView { total_xp: sat_add(p.total_xp, 15), ..p },
        15,
        "goal_bonus"@,
        Some(date),
        now,
    );
    with_level(ProfileView { goals_completed: sat_add(q.goals_completed, 1), ..q })
}

/// How a claim's totals are reported: XP including the user's own goal bonus,
/// and the level-up with that bonus counted in the total.
pub open spec fn claim_report(
    award_xp: u64,
    level_up: Option<LevelUpEvent>,
    own_bonus: bool,
) -> (u64, Option<LevelUpEvent>) {
    let bonus: u64 = if own_bonus { 15 } else { 0 };
    (
        (award_xp + bonus) as u64,
        match level_up {
            Some(ev) => Some(LevelUpEvent { total_xp: (ev.total_xp + bonus) as u64, ..ev }),
            None => None,
        },
    )
}

fn contains_u64(v: &Vec<u64>, x: u64) -> (r: bool)
    ensures
        r == v@.contains(x),
{
    let mut i: usize = 0;
    while i < v.len()
        invariant
            i <= v.len(),
            forall|j: int| 0 <= j < i ==> v@[j] != x,
        decreases v.len() - i,
    {
        if v[i] == x {
            return true;
        }
        i = i + 1;
    }
    false
}

proof fn lemma_pending_step(claimers: Seq<u64>, awarded: Seq<u64>, i: int)
    requires
        0 <= i < claimers.len(),
    ensures
        pending_bonus(claimers.skip(i), awarded) == (if awarded.contains(claimers[i]) {
            pending_bonus(claimers.skip(i + 1), awarded)
        } else {
            seq![claimers[i]] + pending_bonus(claimers.skip(i + 1), awarded.push(claimers[i]))
        }),
{
    assert(claimers.skip(i).drop_first() =~= claimers.skip(i + 1));
    assert(claimers.skip(i)[0] == claimers[i]);
}

fn copy_u64s(v: &Vec<u64>) -> (r: Vec<u64>)
    ensures
        r@ == v@,
{
    let mut r: Vec<u64> = Vec::new();
    let mut i: usize = 0;
    while i < v.len()
        invariant
            i <= v.len(),
            r@ == v@.subrange(0, i as int),
        decreases v.len() - i,
    {
        r.push(v[i]);
        i = i + 1;
        assert(r@ =~= v@.subrange(0, i as int));
    }
    assert(v@.subrange(0, v@.len() as int) =~= v@);
    r
}

impl LevelingService {
    /// The level for a total XP amount.
    pub fn calculate_level(&self, xp: u64) -> (l: u32)
        ensures
            is_level_for(xp as int, l as int),
    {
        level_from_xp(xp)
    }

    /// The level for a total XP amount (usable without a service).
    pub fn level_from_xp(xp: u64) -> (l: u32)
        ensures
            is_level_for(xp as int, l as int),
    {
        level_from_xp(xp)
    }

    /// Total XP required to reach the level after `current_level`.
    pub fn xp_for_next_level(&self, current_level: u32) -> (t: u64)
        requires
            current_level < u32::MAX,
        ensures
            t == level_threshold(current_level + 1),
    {
        xp_threshold_for_level(current_level + 1)
    }

    /// Total XP required to reach `level`.
    pub fn xp_for_level(&self, level: u32) -> (t: u64)
        ensures
            t == level_threshold(level as int),
    {
        xp_threshold_for_level(level)
    }

    /// How many claims make the daily goal: the member count, between 1 and 15.
    pub fn calculate_daily_goal_target(&self, member_count: u64) -> (t: u64)
        ensures
            t == goal_target(member_count),
    {
        let members = if member_count < 1 { 1 } else { member_count };
        if members < 15 { members } else { 15 }
    }

    /// A user's stats from the stored XP total and last gain time.
    pub fn get_user_stats(
        &self,
        user_id: u64,
        guild_id: u64,
        xp: u64,
        last_xp_gain: Option<i64>,
    ) -> (r: Result<UserStats, LevelingError>)
        ensures
            !valid_ids(user_id, guild_id) ==> r matches Err(LevelingError::InvalidId),
            valid_ids(user_id, guild_id) ==> (r matches Ok(s) && s.user_id == user_id && s.guild_id
                == guild_id && s.xp == xp && is_level_for(xp as int, s.level as int) && s.last_xp_gain
                == last_xp_gain),
    {
        if user_id == 0 || guild_id == 0 {
            return Err(LevelingError::InvalidId);
        }
        let level = self.calculate_level(xp);
        Ok(UserStats { user_id, guild_id, xp, level, last_xp_gain })
    }

    /// The user's profile: the stored one, or a starting profile.
    pub fn get_user_profile(&self, user_id: u64, guild_id: u64, stored: Option<UserProfile>) -> (r: Result<
        UserProfile,
        LevelingError,
    >)
        ensures
            !valid_ids(user_id, guild_id) ==> r matches Err(LevelingError::InvalidId),
            valid_ids(user_id, guild_id) ==> (r matches Ok(p) && p@ == loaded(
                opt_profile_view(stored),
                user_id,
                guild_id,
            )),
    {
        if user_id == 0 || guild_id == 0 {
            return Err(LevelingError::InvalidId);
        }
        match stored {
            Some(p) => Ok(p),
            None => Ok(starting_profile_exec(user_id, guild_id)),
        }
    }

    /// Whether a claim at `now` would extend a streak already at its largest value.
    pub fn streak_would_overflow(stored: &Option<UserProfile>, now: i64) -> (r: bool)
        ensures
            r == streak_overflows(opt_profile_view(*stored), now),
    {
        match stored {
            Some(p) => {
                if p.daily_streak != u32::MAX {
                    return false;
                }
                match p.last_daily {
                    Some(last) => day_of(now) as i128 - day_of(last) as i128 == 1,
                    None => false,
                }
            },
            None => false,
        }
    }

    /// The profile part of claiming the daily reward at `now`.
    pub fn claim_daily_at(
        &self,
        user_id: u64,
        guild_id: u64,
        stored: Option<UserProfile>,
        boosted: bool,
        now: i64,
    ) -> (r: Result<DailyClaim, LevelingError>)
        requires
            !streak_overflows(opt_profile_view(stored), now),
        ensures
            daily_outcome(user_id, guild_id, opt_profile_view(stored), boosted, now, r),
    {
        proof {
            reveal_strlit("daily");
            reveal_strlit("streak ");
            reveal_strlit("d");
        }
        if user_id == 0 || guild_id == 0 {
            return Err(LevelingError::InvalidId);
        }
        let mut profile = match stored {
            Some(p) => p,
            None => starting_profile_exec(user_id, guild_id),
        };
        let ghost p0 = profile@;
        let today = day_of(now);
        if let Some(last) = profile.last_daily {
            if day_of(last) == today {
                return Ok(DailyClaim::AlreadyClaimed);
            }
        }
        let streak: u32 = match profile.last_daily {
            Some(last) => {
                if today as i128 - day_of(last) as i128 == 1 {
                    profile.daily_streak + 1
                } else {
                    1
                }
            },
            None => 1,
        };
        profile.daily_streak = streak;
        let step_bonus: u64 = (streak as u64 - 1) * STREAK_BONUS_STEP;
        let streak_bonus = if step_bonus > STREAK_BONUS_CAP { STREAK_BONUS_CAP } else { step_bonus };
        let award = apply_xp_boost(BASE_DAILY_REWARD + streak_bonus, boosted);
        profile.total_xp = if profile.total_xp > u64::MAX - award { u64::MAX } else { profile.total_xp + award };
        profile.last_daily = Some(now);
        let mut note = owned("streak ");
        push_decimal(&mut note, streak as u64);
        push_str(&mut note, "d");
        record_xp_event(&mut profile, award, owned("daily"), Some(note), now);
        let old_level = profile.level;
        let leveled = handle_level_up(&mut profile);
        let level_up = if leveled {
            Some(LevelUpEvent { user_id, guild_id, old_level, new_level: profile.level, total_xp: profile.total_xp })
        } else {
            None
        };
        Ok(DailyClaim::Claimed { profile, award_xp: award, level_up })
    }

    /// The profile part of claiming the daily reward now.
    pub fn claim_daily(&self, user_id: u64, guild_id: u64, stored: Option<UserProfile>, boosted: bool) -> (r:
        Result<DailyClaim, LevelingError>)
        requires
            stored matches Some(p) ==> p.daily_streak < u32::MAX,
        ensures
            exists|now: i64|
                #![trigger daily_outcome(user_id, guild_id, opt_profile_view(stored), boosted, now, r)]
                now >= 0 && daily_outcome(user_id, guild_id, opt_profile_view(stored), boosted, now, r),
    {
        let now = now_millis();
        self.claim_daily_at(user_id, guild_id, stored, boosted, now)
    }

    /// Today's goal for a guild: the stored one if it is for `today`, else a fresh one
    /// (`true` when the fresh goal must be saved).
    pub fn daily_goal_for(&self, stored: Option<DailyGoal>, today: &String, member_count: u64) -> (r: (
        DailyGoal,
        bool,
    ))
        ensures
            r.0@ == current_goal(
                match stored {
                    Some(g) => Some(g@),
                    None => None,
                },
                today@,
                member_count,
            ),
            r.1 == !(stored matches Some(g) && g@.date == today@),
    {
        match stored {
            Some(g) => {
                if str_eq(g.date.as_str(), today.as_str()) {
                    return (g, false);
                }
            },
            None => {},
        }
        let target = self.calculate_daily_goal_target(member_count);
        let g = DailyGoal {
            date: copy_string(today),
            target,
            progress: 0,
            claimers: Vec::new(),
            completed: false,
            bonus_awarded_to: Vec::new(),
        };
        assert(g@ =~= fresh_goal(today@, target));
        (g, true)
    }

    /// Records `user_id`'s claim in today's goal; answers the updated goal and who earns
    /// the goal bonus now (once the goal is completed, every claimer not yet rewarded).
    pub fn register_goal_claim(&self, goal: DailyGoal, user_id: u64) -> (r: (DailyGoal, Vec<u64>))
        ensures
            (r.0@, r.1@) == goal_after_claim(goal@, user_id),
    {
        let mut g = goal;
        let ghost g0 = g@;
        if !contains_u64(&g.claimers, user_id) {
            g.claimers.push(user_id);
            g.progress = g.claimers.len() as u64;
        }
        if !g.completed && g.progress >= g.target {
            g.completed = true;
        }
        let ghost g2 = g@;
        proof {
            let spec_pair = goal_after_claim(g0, user_id);
            if g0.claimers.contains(user_id) {
                assert(g@ =~= g0 || g.completed);
            }
        }
        if !g.completed {
            let empty: Vec<u64> = Vec::new();
            proof {
                if g0.claimers.contains(user_id) {
                    assert(g@ =~= g0);
                } else {
                    assert(g@ =~= DailyGoalView {
                        claimers: g0.claimers.push(user_id),
                        progress: (g0.claimers.len() + 1) as u64,
                        ..g0
                    });
                }
                assert(empty@ =~= Seq::<u64>::empty());
            }
            return (g, empty);
        }
        let claimers = copy_u64s(&g.claimers);
        let ghost awarded0 = g.bonus_awarded_to@;
        let mut pending: Vec<u64> = Vec::new();
        let mut i: usize = 0;
        assert(claimers@.skip(0) =~= claimers@);
        assert(awarded0 + pending@ =~= awarded0);
        assert(pending@ + pending_bonus(claimers@, awarded0) =~= pending_bonus(claimers@, awarded0));
        while i < claimers.len()
            invariant
                claimers@ == g2.claimers,
                i <= claimers.len(),
                g.bonus_awarded_to@ == awarded0 + pending@,
                pending_bonus(g2.claimers, awarded0) == pending@ + pending_bonus(
                    claimers@.skip(i as int),
                    g.bonus_awarded_to@,
                ),
                g@ == (DailyGoalView { bonus_awarded_to: g.bonus_awarded_to@, ..g2 }),
            decreases claimers.len() - i,
        {
            let c = claimers[i];
            proof {
                lemma_pending_step(claimers@, g.bonus_awarded_to@, i as int);
            }
            if !contains_u64(&g.bonus_awarded_to, c) {
                g.bonus_awarded_to.push(c);
                pending.push(c);
                assert(g.bonus_awarded_to@ =~= awarded0 + pending@);
                assert(pending@ + pending_bonus(claimers@.skip(i + 1), g.bonus_awarded_to@) =~= pending@.drop_last() + (seq![c] + pending_bonus(claimers@.skip(i + 1), g.bonus_awarded_to@)));
            }
            assert(g@ =~= (DailyGoalView { bonus_awarded_to: g.bonus_awarded_to@, ..g2 }));
            i = i + 1;
        }
        proof {
            assert(claimers@.skip(claimers@.len() as int) =~= Seq::<u64>::empty());
            assert(pending@ + Seq::<u64>::empty() =~= pending@);
            if g0.claimers.contains(user_id) {
                assert(g2 =~= (if !g0.completed && g0.progress >= g0.target { DailyGoalView { completed: true, ..g0 } } else { g0 }));
            }
        }
        (g, pending)
    }

    /// The claimer's profile after the goal bonus of the goal dated `date`, awarded at `now`.
    pub fn apply_goal_bonus_at(
        &self,
        claimer_id: u64,
        guild_id: u64,
        stored: Option<UserProfile>,
        date: &String,
        now: i64,
    ) -> (p: UserProfile)
        ensures
            p@ == goal_bonus_applied(loaded(opt_profile_view(stored), claimer_id, guild_id), date@, now),
    {
        proof {
            reveal_strlit("goal_bonus");
        }
        let mut p = match stored {
            Some(p) => p,
            None => starting_profile_exec(claimer_id, guild_id),
        };
        p.total_xp = if p.total_xp > u64::MAX - GOAL_BONUS_XP { u64::MAX } else { p.total_xp + GOAL_BONUS_XP };
        record_xp_event(&mut p, GOAL_BONUS_XP, owned("goal_bonus"), Some(copy_string(date)), now);
        p.goals_completed = if p.goals_completed < u64::MAX { p.goals_completed + 1 } else { u64::MAX };
        let _ = handle_level_up(&mut p);
        p
    }

    /// The totals a daily claim reports, counting the user's own goal bonus.
    pub fn daily_claim_report(award_xp: u64, level_up: Option<LevelUpEvent>, own_bonus: bool) -> (r: (
        u64,
        Option<LevelUpEvent>,
    ))
        requires
            own_bonus ==> award_xp + 15 <= u64::MAX,
            own_bonus ==> (level_up matches Some(ev) ==> ev.total_xp + 15 <= u64::MAX),
        ensures
            r == claim_report(award_xp, level_up, own_bonus),
    {
        let bonus: u64 = if own_bonus { GOAL_BONUS_XP } else { 0 };
        let ev = match level_up {
            Some(ev) => Some(LevelUpEvent { total_xp: ev.total_xp + bonus, ..ev }),
            None => None,
        };
        (award_xp + bonus, ev)
    }

    /// Today's date text (`YYYY-MM-DD`, UTC) at `now`.
    pub fn goal_date(now: i64) -> (s: String)
        ensures
            s@ == utc_date_text(now),
    {
        date_text(now)
    }
}

} // verus!
