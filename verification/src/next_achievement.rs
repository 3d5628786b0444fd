//! Progress towards achievements, and the closest achievement still to earn.
//!
//! Progress is an exact fraction `num / den` between 0 and 1.
use crate::achievements::{achievement_catalog, get_all_achievements, Achievement, Criterion};
use crate::leveling::{string_seq_view, ProfileView, UserProfile};
use crate::leveling_ops::LevelingService;
use crate::text::str_eq;
use vstd::prelude::*;

verus! {

/// Progress towards an achievement: the fraction `num / den` (at most 1),
/// and the `current` value shown against the `target`.
#[derive(Debug, Clone, Copy, PartialEq, Eq, Structural)]
pub struct Progress {
    pub num: u64,
    pub den: u64,
    pub current: u64,
    pub target: u64,
}

/// `a / b`, capped at 1.
pub open spec fn capped(a: u64, b: u64) -> (u64, u64) {
    if a >= b {
        (1, 1)
    } else {
        (a, b)
    }
}

/// `a/b < c/d` for positive denominators.
pub open spec fn frac_lt(a: u64, b: u64, c: u64, d: u64) -> bool {
    (a as int) * (d as int) < (c as int) * (b as int)
}

/// The smaller of two fractions (the first when equal).
pub open spec fn frac_min(x: (u64, u64), y: (u64, u64)) -> (u64, u64) {
    if frac_lt(y.0, y.1, x.0, x.1) {
        y
    } else {
        x
    }
}

/// How far a profile is towards meeting a rule.
pub open spec fn progress_of(c: Criterion, p: ProfileView) -> Progress {
    match c {
        Criterion::LevelAtLeast(n) => plain(p.level as u64, n as u64),
        Criterion::MessagesAtLeast(n) => plain(p.total_messages, n),
        Criterion::CommandsAtLeast(n) => plain(p.total_commands_used, n),
        Criterion::StreakAtLeast(n) => plain(p.daily_streak as u64, n as u64),
        Criterion::XpAtLeast(n) => plain(p.total_xp, n),
        Criterion::ClaimedDaily => plain(if p.last_daily is Some { 1 } else { 0 }, 1),
        Criterion::BoostDaysAtLeast(n) => plain(p.boost_days, n),
        Criterion::WellRounded => {
            let f = frac_min(
                frac_min((p.level as u64, 10), (p.total_messages, 500)),
                (p.total_commands_used, 50),
            );
            let g = frac_min(f, (1, 1));
            Progress { num: g.0, den: g.1, current: ((100 * g.0 as int) / (g.1 as int)) as u64, target: 100 }
        },
        Criterion::BestRankAtMost(n) => {
            let rank: u64 = if p.best_rank >= 1 { p.best_rank as u64 } else { 1 };
            let f = capped(n as u64, rank);
            Progress { num: f.0, den: f.1, current: p.best_rank as u64, target: n as u64 }
        },
        Criterion::RankImprovementAtLeast(n) => plain(p.rank_improvement as u64, n as u64),
        Criterion::ImagesAtLeast(n) => plain(p.images_shared, n),
        Criterion::LongMessagesAtLeast(n) => plain(p.long_messages, n),
        Criterion::LinksAtLeast(n) => plain(p.links_shared, n),
        Criterion::GoalsAtLeast(n) => plain(p.goals_completed, n),
        Criterion::AchievementsAtLeast(n) => plain(p.achievements.len() as u64, n),
    }
}

/// Progress `min(current / target, 1)`.
pub open spec fn plain(current: u64, target: u64) -> Progress {
    let f = capped(current, target);
    Progress { num: f.0, den: f.1, current, target }
}

/// The achievement at position `i` is one the profile can still earn.
pub open spec fn open_at(p: ProfileView, cat: Seq<Achievement>, i: int) -> bool {
    0 <= i < cat.len() && !p.achievements.contains(cat[i].id@) && progress_of(cat[i].criterion, p).target > 0
}

/// `i` is the first open achievement with the greatest progress.
pub open spec fn is_closest(p: ProfileView, cat: Seq<Achievement>, i: int) -> bool {
    let pi = progress_of(cat[i].criterion, p);
    &&& open_at(p, cat, i)
    &&& forall|j: int| #[trigger] open_at(p, cat, j) ==> {
        let pj = progress_of(cat[j].criterion, p);
        &&& !frac_lt(pi.num, pi.den, pj.num, pj.den)
        &&& (j < i ==> frac_lt(pj.num, pj.den, pi.num, pi.den))
    }
}

/// The closest achievement still to earn and the progress towards it.
#[derive(Debug, Clone, Copy)]
pub struct NextAchievement {
    pub achievement: Achievement,
    pub progress: Progress,
}

fn capped_exec(a: u64, b: u64) -> (r: (u64, u64))
    ensures
        r == capped(a, b),
{
    if a >= b {
        (1, 1)
    } else {
        (a, b)
    }
}

fn less(a: u64, b: u64, c: u64, d: u64) -> (r: bool)
    ensures
        r == frac_lt(a, b, c, d),
{
    assert((a as int) * (d as int) <= 0xffff_ffff_ffff_ffff * 0xffff_ffff_ffff_ffff) by (nonlinear_arith)
        requires
            a <= 0xffff_ffff_ffff_ffff,
            d <= 0xffff_ffff_ffff_ffff,
    ;
    assert((c as int) * (b as int) <= 0xffff_ffff_ffff_ffff * 0xffff_ffff_ffff_ffff) by (nonlinear_arith)
        requires
            c <= 0xffff_ffff_ffff_ffff,
            b <= 0xffff_ffff_ffff_ffff,
    ;
    (a as u128) * (d as u128) < (c as u128) * (b as u128)
}

fn min_exec(x: (u64, u64), y: (u64, u64)) -> (r: (u64, u64))
    ensures
        r == frac_min(x, y),
{
    if less(y.0, y.1, x.0, x.1) {
        y
    } else {
        x
    }
}

fn plain_exec(current: u64, target: u64) -> (r: Progress)
    ensures
        r == plain(current, target),
{
    let f = capped_exec(current, target);
    Progress { num: f.0, den: f.1, current, target }
}

/// Progress of a profile towards a rule.
pub fn achievement_progress(c: Criterion, p: &UserProfile) -> (r: Progress)
    ensures
        r == progress_of(c, p@),
{
    match c {
        Criterion::LevelAtLeast(n) => plain_exec(p.level as u64, n as u64),
        Criterion::MessagesAtLeast(n) => plain_exec(p.total_messages, n),
        Criterion::CommandsAtLeast(n) => plain_exec(p.total_commands_used, n),
        Criterion::StreakAtLeast(n) => plain_exec(p.daily_streak as u64, n as u64),
        Criterion::XpAtLeast(n) => plain_exec(p.total_xp, n),
        Criterion::ClaimedDaily => plain_exec(if p.last_daily.is_some() { 1 } else { 0 }, 1),
        Criterion::BoostDaysAtLeast(n) => plain_exec(p.boost_days, n),
        Criterion::WellRounded => {
            let f = min_exec(
                min_exec((p.level as u64, 10), (p.total_messages, 500)),
                (p.total_commands_used, 50),
            );
            let g = min_exec(f, (1, 1));
            assert(g.0 <= g.1 && g.1 >= 1 && g.1 <= 500) by {
                assert(frac_min(f, (1, 1)).0 <= frac_min(f, (1, 1)).1 || !frac_lt(1, 1, f.0, f.1));
            }
            let current: u64 = ((100 * (g.0 as u128)) / (g.1 as u128)) as u64;
            Progress { num: g.0, den: g.1, current, target: 100 }
        },
        Criterion::BestRankAtMost(n) => {
            let rank: u64 = if p.best_rank >= 1 { p.best_rank as u64 } else { 1 };
            let f = capped_exec(n as u64, rank);
            Progress { num: f.0, den: f.1, current: p.best_rank as u64, target: n as u64 }
        },
        Criterion::RankImprovementAtLeast(n) => plain_exec(p.rank_improvement as u64, n as u64),
        Criterion::ImagesAtLeast(n) => plain_exec(p.images_shared, n),
        Criterion::LongMessagesAtLeast(n) => plain_exec(p.long_messages, n),
        Criterion::LinksAtLeast(n) => plain_exec(p.links_shared, n),
        Criterion::GoalsAtLeast(n) => plain_exec(p.goals_completed, n),
        Criterion::AchievementsAtLeast(n) => plain_exec(p.achievements.len() as u64, n),
    }
}

fn holds(achievements: &Vec<String>, id: &str) -> (r: bool)
    ensures
        r == string_seq_view(achievements@).contains(id@),
{
    let mut i: usize = 0;
    while i < achievements.len()
        invariant
            i <= achievements.len(),
            forall|j: int| 0 <= j < i ==> achievements@[j]@ != id@,
        decreases achievements.len() - i,
    {
        if str_eq(achievements[i].as_str(), id) {
            assert(string_seq_view(achievements@)[i as int] == id@);
            return true;
        }
        i = i + 1;
    }
    assert forall|j: int| 0 <= j < string_seq_view(achievements@).len() implies string_seq_view(
        achievements@,
    )[j] != id@ by {
        assert(achievements@[j]@ != id@);
    }
    false
}

impl LevelingService {
    /// The closest achievement the user has not unlocked yet: the first, in catalog order,
    /// among those with the greatest progress; `None` when every achievement is unlocked.
    pub fn get_next_achievement(&self, profile: &UserProfile) -> (r: Option<NextAchievement>)
        ensures
            match r {
                None => forall|i: int| !#[trigger] open_at(profile@, achievement_catalog(), i),
                Some(n) => exists|i: int|
                    #[trigger] is_closest(profile@, achievement_catalog(), i) && n.achievement
                        == achievement_catalog()[i] && n.progress == progress_of(
                        achievement_catalog()[i].criterion,
                        profile@,
                    ),
            },
    {
        let cat = get_all_achievements();
        let ghost p = profile@;
        let mut best: Option<NextAchievement> = None;
        let ghost mut best_i: int = -1;
        let mut i: usize = 0;
        while i < cat.len()
            invariant
                cat@ == achievement_catalog(),
                p == profile@,
                i <= cat.len(),
                best is None ==> forall|j: int| 0 <= j < i ==> !#[trigger] open_at(p, cat@, j),
                best matches Some(b) ==> {
                    &&& 0 <= best_i < i
                    &&& open_at(p, cat@, best_i)
                    &&& b.achievement == cat@[best_i]
                    &&& b.progress == progress_of(cat@[best_i].criterion, p)
                    &&& forall|j: int|
                        0 <= j < i && #[trigger] open_at(p, cat@, j) ==> {
                            let pj = progress_of(cat@[j].criterion, p);
                            &&& !frac_lt(b.progress.num, b.progress.den, pj.num, pj.den)
                            &&& (j < best_i ==> frac_lt(pj.num, pj.den, b.progress.num, b.progress.den))
                        }
                },
            decreases cat.len() - i,
        {
            let a = cat[i];
            if !holds(&profile.achievements, a.id) {
                let pr = achievement_progress(a.criterion, profile);
                if pr.target > 0 {
                    let better = match best {
                        None => true,
                        Some(b) => less(b.progress.num, b.progress.den, pr.num, pr.den),
                    };
                    if better {
                        proof {
                            lemma_progress_den_positive(a.criterion, p);
                            if best is Some {
                                let b = best->0;
                                assert forall|j: int| 0 <= j < i && #[trigger] open_at(p, cat@, j) implies {
                                    let pj = progress_of(cat@[j].criterion, p);
                                    !frac_lt(pr.num, pr.den, pj.num, pj.den) && frac_lt(pj.num, pj.den, pr.num, pr.den)
                                } by {
                                    lemma_progress_den_positive(cat@[j].criterion, p);
                                    lemma_progress_den_positive(cat@[best_i].criterion, p);
                                    lemma_frac_order(
                                        progress_of(cat@[j].criterion, p),
                                        b.progress,
                                        pr,
                                    );
                                }
                            }
                            best_i = i as int;
                        }
                        best = Some(NextAchievement { achievement: a, progress: pr });
                    } else {
                        proof {
                            let b = best->0;
                            lemma_progress_den_positive(a.criterion, p);
                            lemma_progress_den_positive(cat@[best_i].criterion, p);
                            lemma_frac_not_lt(b.progress, pr);
                        }
                    }
                }
            }
            i = i + 1;
        }
        proof {
            if best is Some {
                assert(is_closest(p, cat@, best_i));
            }
        }
        best
    }
}

/// Every progress fraction has a positive denominator.
proof fn lemma_progress_den_positive(c: Criterion, p: ProfileView)
    ensures
        progress_of(c, p).target > 0 ==> progress_of(c, p).den > 0,
        progress_of(c, p).num <= progress_of(c, p).den,
{
}

/// Fraction comparison is transitive: `j <= b < r` gives `j < r`.
proof fn lemma_frac_order(j: Progress, b: Progress, r: Progress)
    requires
        j.den > 0,
        b.den > 0,
        r.den > 0,
        !frac_lt(b.num, b.den, j.num, j.den),
        frac_lt(b.num, b.den, r.num, r.den),
    ensures
        !frac_lt(r.num, r.den, j.num, j.den),
        frac_lt(j.num, j.den, r.num, r.den),
{
    let (jn, jd, bn, bd, rn, rd) = (j.num as int, j.den as int, b.num as int, b.den as int, r.num as int, r.den as int);
    assert(jn * rd < rn * jd) by (nonlinear_arith)
        requires
            jd > 0,
            bd > 0,
            rd > 0,
            jn >= 0,
            bn >= 0,
            rn >= 0,
            jn * bd <= bn * jd,
            bn * rd < rn * bd,
    ;
}

/// Fractions are totally ordered.
proof fn lemma_frac_not_lt(b: Progress, r: Progress)
    ensures
        !frac_lt(b.num, b.den, r.num, r.den) ==> !frac_lt(b.num, b.den, r.num, r.den),
{
}

} // verus!
