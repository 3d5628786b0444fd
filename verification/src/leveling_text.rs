//! What the leveling commands say: awarding XP by hand, the achievement list, the next
//! achievement, and the profile card.
use crate::achievements::{achievement_catalog, category_title, get_all_achievements, Achievement};
use crate::github::strings_view;
use crate::leveling::{Difficulty, XpSource};
use crate::text::{decimal, joined, lt_pos, owned, push_decimal, push_str, seq_lt, sorted_lt, str_eq, str_lt, strings_seq};
use vstd::prelude::*;

verus! {

// ---------------------------------------------------------------------------
// Awarding XP by hand
// ---------------------------------------------------------------------------

/// Why an administrator awards XP.
#[derive(Debug, Clone, Copy, PartialEq, Eq, Structural)]
pub enum AwardReason {
    Message,
    VoiceMinute,
    CodeChallenge,
}

/// The difficulty of an awarded code challenge.
#[derive(Debug, Clone, Copy, PartialEq, Eq, Structural)]
pub enum ChallengeDifficultyChoice {
    Easy,
    Medium,
    Hard,
    Expert,
}

pub open spec fn difficulty_of(c: ChallengeDifficultyChoice) -> Difficulty {
    match c {
        ChallengeDifficultyChoice::Easy => Difficulty::Easy,
        ChallengeDifficultyChoice::Medium => Difficulty::Medium,
        ChallengeDifficultyChoice::Hard => Difficulty::Hard,
        ChallengeDifficultyChoice::Expert => Difficulty::Expert,
    }
}

impl From<ChallengeDifficultyChoice> for Difficulty {
    fn from(value: ChallengeDifficultyChoice) -> (d: Difficulty) {
        match value {
            ChallengeDifficultyChoice::Easy => Difficulty::Easy,
            ChallengeDifficultyChoice::Medium => Difficulty::Medium,
            ChallengeDifficultyChoice::Hard => Difficulty::Hard,
            ChallengeDifficultyChoice::Expert => Difficulty::Expert,
        }
    }
}

impl vstd::std_specs::convert::FromSpecImpl<ChallengeDifficultyChoice> for Difficulty {
    open spec fn obeys_from_spec() -> bool {
        true
    }

    open spec fn from_spec(v: ChallengeDifficultyChoice) -> Difficulty {
        difficulty_of(v)
    }
}

/// How a reason is named in the reply (its `Debug` name).
pub open spec fn reason_name(r: AwardReason) -> Seq<char> {
    match r {
        AwardReason::Message => "Message"@,
        AwardReason::VoiceMinute => "VoiceMinute"@,
        AwardReason::CodeChallenge => "CodeChallenge"@,
    }
}

/// The source of an awarded XP amount: a message unless said otherwise; a code challenge
/// defaults to an easy one in Rust, timed at zero.
pub fn xp_source_for(
    reason: Option<AwardReason>,
    difficulty: Option<ChallengeDifficultyChoice>,
    language: Option<String>,
    execution_time_ms: Option<u64>,
) -> (s: XpSource)
    ensures
        match reason {
            Some(AwardReason::VoiceMinute) => s is VoiceMinute,
            Some(AwardReason::CodeChallenge) => s matches XpSource::CodeChallenge { difficulty: d, language: l, execution_time_ms: t }
                && d == difficulty_of(
                match difficulty {
                    Some(c) => c,
                    None => ChallengeDifficultyChoice::Easy,
                },
            ) && l@ == (match language {
                Some(x) => x@,
                None => "rust"@,
            }) && t == (match execution_time_ms {
                Some(x) => x,
                None => 0,
            }),
            _ => s is Message,
        },
{
    match reason {
        Some(AwardReason::VoiceMinute) => XpSource::VoiceMinute,
        Some(AwardReason::CodeChallenge) => {
            let c = match difficulty {
                Some(c) => c,
                None => ChallengeDifficultyChoice::Easy,
            };
            let d: Difficulty = Difficulty::from(c);
            XpSource::CodeChallenge {
                difficulty: d,
                language: match language {
                    Some(x) => x,
                    None => owned("rust"),
                },
                execution_time_ms: match execution_time_ms {
                    Some(x) => x,
                    None => 0,
                },
            }
        },
        _ => XpSource::Message,
    }
}

/// The reply to awarding XP by hand, with the new level where there was one.
pub open spec fn give_xp_text(amount: u64, name: Seq<char>, reason: AwardReason, level_up: Option<(u32, u64)>) -> Seq<char> {
    let head = "✅ Gave "@ + decimal(amount as nat) + " XP to "@ + name + " via "@ + reason_name(reason) + "!"@;
    match level_up {
        Some((l, xp)) => head + "\n🎉 They leveled up to level "@ + decimal(l as nat) + " ("@ + decimal(xp as nat)
            + " XP total)!"@,
        None => head,
    }
}

pub fn give_xp_reply(amount: u64, name: &str, reason: AwardReason, level_up: Option<(u32, u64)>) -> (s: String)
    ensures
        s@ == give_xp_text(amount, name@, reason, level_up),
{
    let mut s = owned("✅ Gave ");
    push_decimal(&mut s, amount);
    push_str(&mut s, " XP to ");
    push_str(&mut s, name);
    push_str(&mut s, " via ");
    push_str(
        &mut s,
        match reason {
            AwardReason::Message => "Message",
            AwardReason::VoiceMinute => "VoiceMinute",
            AwardReason::CodeChallenge => "CodeChallenge",
        },
    );
    push_str(&mut s, "!");
    match level_up {
        Some((l, xp)) => {
            push_str(&mut s, "\n🎉 They leveled up to level ");
            push_decimal(&mut s, l as u64);
            push_str(&mut s, " (");
            push_decimal(&mut s, xp);
            push_str(&mut s, " XP total)!");
        },
        None => {},
    }
    s
}

// ---------------------------------------------------------------------------
// The achievement list
// ---------------------------------------------------------------------------

/// One achievement in the list: earned ones in full, locked ones hidden.
pub open spec fn achievement_line(a: Achievement, earned: bool) -> Seq<char> {
    (if earned { "✅"@ } else { "🔒"@ }) + " "@ + (if earned { a.emoji@ } else { "❓"@ }) + " **"@ + (if earned {
        a.name@
    } else {
        "???"@
    }) + "**\n   _"@ + (if earned { a.description@ } else { "Locked"@ }) + "_ (+"@ + decimal(a.reward_xp as nat) + " XP)"@
}

pub open spec fn is_earned(earned: Seq<Seq<char>>, a: Achievement) -> bool {
    earned.contains(a.id@)
}

/// Per category title, in order of first appearance in the catalog: the lines of its
/// achievements.
pub open spec fn grouped(cat: Seq<Achievement>, earned: Seq<Seq<char>>) -> Seq<(Seq<char>, Seq<Seq<char>>)>
    decreases cat.len(),
{
    if cat.len() == 0 {
        Seq::empty()
    } else {
        add_line(grouped(cat.drop_last(), earned), category_title(cat.last().category), achievement_line(
            cat.last(),
            is_earned(earned, cat.last()),
        ))
    }
}

pub open spec fn add_line(g: Seq<(Seq<char>, Seq<Seq<char>>)>, title: Seq<char>, line: Seq<char>) -> Seq<
    (Seq<char>, Seq<Seq<char>>),
>
    decreases g.len(),
{
    if g.len() == 0 {
        seq![(title, seq![line])]
    } else if g[0].0 == title {
        g.update(0, (title, g[0].1.push(line)))
    } else {
        seq![g[0]] + add_line(g.drop_first(), title, line)
    }
}

pub open spec fn title_lt() -> spec_fn((Seq<char>, Seq<Seq<char>>), (Seq<char>, Seq<Seq<char>>)) -> bool {
    |a: (Seq<char>, Seq<Seq<char>>), b: (Seq<char>, Seq<Seq<char>>)| seq_lt(a.0, b.0)
}

/// The list's fields: one per category, titles in alphabetical order, each with its
/// lines one per row.
pub open spec fn achievement_fields(earned: Seq<Seq<char>>) -> Seq<(Seq<char>, Seq<char>)> {
    sorted_lt(grouped(achievement_catalog(), earned), title_lt()).map_values(
        |g: (Seq<char>, Seq<Seq<char>>)| ("📁 "@ + g.0, joined(g.1, "\n"@)),
    )
}

fn line_for(a: &Achievement, earned: bool) -> (s: String)
    ensures
        s@ == achievement_line(*a, earned),
{
    let mut s = owned(if earned { "✅" } else { "🔒" });
    push_str(&mut s, " ");
    push_str(&mut s, if earned { a.emoji } else { "❓" });
    push_str(&mut s, " **");
    push_str(&mut s, if earned { a.name } else { "???" });
    push_str(&mut s, "**\n   _");
    push_str(&mut s, if earned { a.description } else { "Locked" });
    push_str(&mut s, "_ (+");
    push_decimal(&mut s, a.reward_xp);
    push_str(&mut s, " XP)");
    s
}

fn has_id(earned: &Vec<String>, id: &str) -> (r: bool)
    ensures
        r == strings_view(earned@).contains(id@),
{
    let ghost ev = strings_view(earned@);
    let mut i: usize = 0;
    while i < earned.len()
        invariant
            i <= earned.len(),
            ev == strings_view(earned@),
            forall|j: int| 0 <= j < i ==> ev[j] != id@,
        decreases earned.len() - i,
    {
        if str_eq(earned[i].as_str(), id) {
            assert(ev[i as int] == id@);
            return true;
        }
        i = i + 1;
    }
    false
}

pub open spec fn groups_view(v: Seq<(String, Vec<String>)>) -> Seq<(Seq<char>, Seq<Seq<char>>)> {
    v.map_values(|g: (String, Vec<String>)| (g.0@, strings_seq(g.1@)))
}

fn add_line_exec(g: &mut Vec<(String, Vec<String>)>, title: &str, line: String)
    ensures
        groups_view(final(g)@) == add_line(groups_view(old(g)@), title@, line@),
{
    let ghost s = groups_view(g@);
    let mut i: usize = 0;
    assert(s.skip(0) =~= s);
    assert(s.take(0) + add_line(s.skip(0), title@, line@) =~= add_line(s, title@, line@));
    while i < g.len()
        invariant
            s == groups_view(old(g)@),
            g@ == old(g)@,
            i <= g.len(),
            add_line(s, title@, line@) == s.take(i as int) + add_line(s.skip(i as int), title@, line@),
        decreases g.len() - i,
    {
        assert(s.skip(i as int)[0] == (g@[i as int].0@, strings_seq(g@[i as int].1@)));
        assert(s.skip(i as int).drop_first() =~= s.skip(i + 1));
        if str_eq(g[i].0.as_str(), title) {
            let mut lines: Vec<String> = Vec::new();
            let mut k: usize = 0;
            while k < g[i].1.len()
                invariant
                    i < g.len(),
                    k <= g@[i as int].1.len(),
                    strings_seq(lines@) == strings_seq(g@[i as int].1@).take(k as int),
                decreases g@[i as int].1.len() - k,
            {
                let ghost before = lines@;
                lines.push(crate::text::copy_string(&g[i].1[k]));
                assert(strings_seq(lines@) =~= strings_seq(before).push(g@[i as int].1@[k as int]@));
                k = k + 1;
                assert(strings_seq(lines@) =~= strings_seq(g@[i as int].1@).take(k as int));
            }
            assert(strings_seq(g@[i as int].1@).take(k as int) =~= strings_seq(g@[i as int].1@));
            let ghost lbefore = lines@;
            let ghost lv = line@;
            lines.push(line);
            assert(strings_seq(lines@) =~= strings_seq(lbefore).push(lv));
            let entry = (owned(title), lines);
            g.set(i, entry);
            assert(groups_view(g@) =~= s.update(i as int, (title@, s[i as int].1.push(lv))));
            assert(s.take(i as int) + s.skip(i as int).update(0, (title@, s[i as int].1.push(lv))) =~= s.update(
                i as int,
                (title@, s[i as int].1.push(lv)),
            ));
            return;
        }
        assert(s.take(i + 1) =~= s.take(i as int).push(s[i as int]));
        assert(s.take(i as int) + (seq![s[i as int]] + add_line(s.skip(i + 1), title@, line@)) =~= s.take(i + 1) + add_line(
            s.skip(i + 1),
            title@,
            line@,
        ));
        i = i + 1;
    }
    assert(s.skip(i as int).len() == 0);
    assert(s.take(i as int) =~= s);
    let ghost lv = line@;
    let mut lines: Vec<String> = Vec::new();
    lines.push(line);
    assert(strings_seq(lines@) =~= seq![lv]);
    g.push((owned(title), lines));
    assert(groups_view(g@) =~= s.push((title@, seq![lv])));
}

fn insert_by_title(sorted: &mut Vec<(String, Vec<String>)>, x: (String, Vec<String>))
    ensures
        groups_view(final(sorted)@) == groups_view(old(sorted)@).insert(
            lt_pos(groups_view(old(sorted)@), (x.0@, strings_seq(x.1@)), title_lt()),
            (x.0@, strings_seq(x.1@)),
        ),
{
    let ghost s = groups_view(sorted@);
    let ghost xv = (x.0@, strings_seq(x.1@));
    let mut k: usize = 0;
    assert(s.skip(0) =~= s);
    while k < sorted.len() && !str_lt(x.0.as_str(), sorted[k].0.as_str())
        invariant
            k <= sorted.len(),
            s == groups_view(sorted@),
            xv == (x.0@, strings_seq(x.1@)),
            lt_pos(s, xv, title_lt()) == k + lt_pos(s.skip(k as int), xv, title_lt()),
        decreases sorted.len() - k,
    {
        assert(s.skip(k as int)[0] == (sorted@[k as int].0@, strings_seq(sorted@[k as int].1@)));
        assert(s.skip(k as int).drop_first() =~= s.skip(k + 1));
        k = k + 1;
    }
    proof {
        if k < sorted.len() {
            assert(s.skip(k as int)[0] == (sorted@[k as int].0@, strings_seq(sorted@[k as int].1@)));
        }
    }
    sorted.insert(k, x);
    assert(groups_view(sorted@) =~= s.insert(k as int, xv));
}

/// The fields of the achievement list of a member who earned the achievements with the
/// given ids.
pub fn achievement_list(earned: &Vec<String>) -> (r: Vec<(String, String)>)
    ensures
        r@.map_values(|f: (String, String)| (f.0@, f.1@)) == achievement_fields(strings_view(earned@)),
{
    let cat = get_all_achievements();
    let ghost ev = strings_view(earned@);
    let mut groups: Vec<(String, Vec<String>)> = Vec::new();
    let mut i: usize = 0;
    assert(groups_view(groups@) =~= grouped(cat@.take(0), ev));
    while i < cat.len()
        invariant
            i <= cat.len(),
            cat@ == achievement_catalog(),
            ev == strings_view(earned@),
            groups_view(groups@) == grouped(cat@.take(i as int), ev),
        decreases cat.len() - i,
    {
        assert(cat@.take(i + 1).drop_last() =~= cat@.take(i as int));
        assert(cat@.take(i + 1).last() == cat@[i as int]);
        let a = &cat[i];
        let e = has_id(earned, a.id);
        let line = line_for(a, e);
        add_line_exec(&mut groups, a.category.title(), line);
        i = i + 1;
    }
    assert(cat@.take(cat@.len() as int) =~= cat@);
    let ghost gv = groups_view(groups@);
    let mut sorted: Vec<(String, Vec<String>)> = Vec::new();
    let mut k: usize = 0;
    assert(groups_view(sorted@) =~= sorted_lt(gv.take(0), title_lt()));
    while k < groups.len()
        invariant
            k <= groups.len(),
            gv == groups_view(groups@),
            groups_view(sorted@) == sorted_lt(gv.take(k as int), title_lt()),
        decreases groups.len() - k,
    {
        assert(gv.take(k + 1).drop_last() =~= gv.take(k as int));
        assert(gv.take(k + 1).last() == (groups@[k as int].0@, strings_seq(groups@[k as int].1@)));
        let mut lines: Vec<String> = Vec::new();
        let mut j: usize = 0;
        while j < groups[k].1.len()
            invariant
                k < groups.len(),
                j <= groups@[k as int].1.len(),
                strings_seq(lines@) == strings_seq(groups@[k as int].1@).take(j as int),
            decreases groups@[k as int].1.len() - j,
        {
            let ghost before = lines@;
            lines.push(crate::text::copy_string(&groups[k].1[j]));
            assert(strings_seq(lines@) =~= strings_seq(before).push(groups@[k as int].1@[j as int]@));
            j = j + 1;
            assert(strings_seq(lines@) =~= strings_seq(groups@[k as int].1@).take(j as int));
        }
        assert(strings_seq(groups@[k as int].1@).take(j as int) =~= strings_seq(groups@[k as int].1@));
        insert_by_title(&mut sorted, (crate::text::copy_string(&groups[k].0), lines));
        k = k + 1;
    }
    assert(gv.take(gv.len() as int) =~= gv);
    let ghost sv = groups_view(sorted@);
    let mut r: Vec<(String, String)> = Vec::new();
    let mut m: usize = 0;
    while m < sorted.len()
        invariant
            m <= sorted.len(),
            sv == groups_view(sorted@),
            r@.map_values(|f: (String, String)| (f.0@, f.1@)) == sv.take(m as int).map_values(
                |g: (Seq<char>, Seq<Seq<char>>)| ("📁 "@ + g.0, joined(g.1, "\n"@)),
            ),
        decreases sorted.len() - m,
    {
        let ghost before = r@;
        let mut name = owned("📁 ");
        push_str(&mut name, sorted[m].0.as_str());
        let value = crate::text::join_strings(&sorted[m].1, "\n");
        r.push((name, value));
        assert(sv[m as int] == (sorted@[m as int].0@, strings_seq(sorted@[m as int].1@)));
        assert(r@.map_values(|f: (String, String)| (f.0@, f.1@)) =~= before.map_values(|f: (String, String)| (f.0@, f.1@)).push(
            ("📁 "@ + sv[m as int].0, joined(sv[m as int].1, "\n"@)),
        ));
        assert(sv.take(m + 1).map_values(|g: (Seq<char>, Seq<Seq<char>>)| ("📁 "@ + g.0, joined(g.1, "\n"@))) =~= sv.take(
            m as int,
        ).map_values(|g: (Seq<char>, Seq<Seq<char>>)| ("📁 "@ + g.0, joined(g.1, "\n"@))).push(
            ("📁 "@ + sv[m as int].0, joined(sv[m as int].1, "\n"@)),
        ));
        m = m + 1;
    }
    assert(sv.take(sv.len() as int) =~= sv);
    r
}

/// XP earned from achievements: the rewards of the earned ones.
pub open spec fn earned_reward(cat: Seq<Achievement>, earned: Seq<Seq<char>>) -> int
    decreases cat.len(),
{
    if cat.len() == 0 {
        0
    } else {
        earned_reward(cat.drop_last(), earned) + if is_earned(earned, cat.last()) {
            cat.last().reward_xp as int
        } else {
            0
        }
    }
}

/// The footer of the achievement list.
pub fn achievement_footer(earned: &Vec<String>) -> (s: String)
    ensures
        s@ == "Total achievement XP earned: "@ + decimal(earned_reward(achievement_catalog(), strings_view(earned@)) as nat),
{
    let cat = get_all_achievements();
    let ghost ev = strings_view(earned@);
    let mut total: u128 = 0;
    let mut i: usize = 0;
    while i < cat.len()
        invariant
            i <= cat.len(),
            cat@ == achievement_catalog(),
            ev == strings_view(earned@),
            total == earned_reward(cat@.take(i as int), ev),
            total <= i * u64::MAX,
        decreases cat.len() - i,
    {
        assert(cat@.take(i + 1).drop_last() =~= cat@.take(i as int));
        assert(cat@.take(i + 1).last() == cat@[i as int]);
        proof {
            assert(i * u64::MAX + u64::MAX == (i + 1) * u64::MAX) by (nonlinear_arith);
            assert(i * u64::MAX <= (i + 1) * u64::MAX) by (nonlinear_arith);
            assert((i + 1) * u64::MAX <= u128::MAX) by (nonlinear_arith)
                requires
                    i < usize::MAX,
                    usize::MAX <= u64::MAX,
            ;
        }
        if has_id(earned, cat[i].id) {
            total = total + cat[i].reward_xp as u128;
        }
        i = i + 1;
    }
    assert(cat@.take(cat@.len() as int) =~= cat@);
    let mut s = owned("Total achievement XP earned: ");
    crate::text::push_u128(&mut s, total);
    s
}

/// The first line of the achievement list: `**E/T** achievements unlocked (P%)` and the
/// bar below; the percentage and the bar come from the caller.
pub fn achievement_summary(earned: usize, total: usize, percent: &str, bar: &str) -> (s: String)
    ensures
        s@ == "**"@ + decimal(earned as nat) + "/"@ + decimal(total as nat) + "** achievements unlocked ("@ + percent@
            + "%)\n"@ + bar@,
{
    let mut s = owned("**");
    push_decimal(&mut s, earned as u64);
    push_str(&mut s, "/");
    push_decimal(&mut s, total as u64);
    push_str(&mut s, "** achievements unlocked (");
    push_str(&mut s, percent);
    push_str(&mut s, "%)\n");
    push_str(&mut s, bar);
    s
}

// ---------------------------------------------------------------------------
// The next achievement and the profile card
// ---------------------------------------------------------------------------

/// The description of the next achievement: emoji, name, description.
pub fn next_achievement_description(a: &Achievement) -> (s: String)
    ensures
        s@ == a.emoji@ + " **"@ + a.name@ + "**\n_"@ + a.description@ + "_"@,
{
    let mut s = owned(a.emoji);
    push_str(&mut s, " **");
    push_str(&mut s, a.name);
    push_str(&mut s, "**\n_");
    push_str(&mut s, a.description);
    push_str(&mut s, "_");
    s
}

/// The progress field of the next achievement: `current/target` and the bar below.
pub fn progress_text(current: u64, target: u64, bar: &str) -> (s: String)
    ensures
        s@ == decimal(current as nat) + "/"@ + decimal(target as nat) + "\n"@ + bar@,
{
    let mut s = String::new();
    push_decimal(&mut s, current);
    push_str(&mut s, "/");
    push_decimal(&mut s, target);
    push_str(&mut s, "\n");
    push_str(&mut s, bar);
    s
}

/// A reward: `+N XP`.
pub fn reward_text(xp: u64) -> (s: String)
    ensures
        s@ == "+"@ + decimal(xp as nat) + " XP"@,
{
    let mut s = owned("+");
    push_decimal(&mut s, xp);
    push_str(&mut s, " XP");
    s
}

/// A bold number: `**N**`.
pub fn bold_number(n: u64) -> (s: String)
    ensures
        s@ == "**"@ + decimal(n as nat) + "**"@,
{
    let mut s = owned("**");
    push_decimal(&mut s, n);
    push_str(&mut s, "**");
    s
}

/// The progress field of a profile: `P/S XP` and the bar below.
pub fn level_progress_text(progress: u64, span: u64, bar: &str) -> (s: String)
    ensures
        s@ == decimal(progress as nat) + "/"@ + decimal(span as nat) + " XP\n"@ + bar@,
{
    let mut s = String::new();
    push_decimal(&mut s, progress);
    push_str(&mut s, "/");
    push_decimal(&mut s, span);
    push_str(&mut s, " XP\n");
    push_str(&mut s, bar);
    s
}

} // verus!
