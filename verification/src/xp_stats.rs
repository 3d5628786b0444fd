//! XP analytics of a member's recent history, and the numbers of a profile card.
use crate::clock::{day_index, day_of, MS_PER_DAY};
use crate::github::{after_pos, sorted_by_key};
use crate::level_curve::{level_threshold, xp_threshold_for_level};
use crate::leveling::{history_view, XpEvent, XpEventView};
use crate::text::{decimal, owned, push_decimal, push_signed_decimal, push_str, signed_decimal};
use std::collections::VecDeque;
use vstd::prelude::*;

verus! {

/// Milliseconds in a week: how far back the analytics look.
pub const WEEK_MS: i64 = 604_800_000;

/// The events at or after `cutoff`, in order.
pub open spec fn recent(h: Seq<XpEventView>, cutoff: int) -> Seq<XpEventView>
    decreases h.len(),
{
    if h.len() == 0 {
        Seq::empty()
    } else {
        let r = recent(h.drop_last(), cutoff);
        if h.last().timestamp >= cutoff {
            r.push(h.last())
        } else {
            r
        }
    }
}

pub open spec fn amount_sum(h: Seq<XpEventView>) -> int
    decreases h.len(),
{
    if h.len() == 0 {
        0
    } else {
        amount_sum(h.drop_last()) + h.last().amount
    }
}

/// Per key, in order of first appearance: the key and the XP it gathered.
pub open spec fn add_to<K>(totals: Seq<(K, int)>, k: K, amount: int) -> Seq<(K, int)>
    decreases totals.len(),
{
    if totals.len() == 0 {
        seq![(k, amount)]
    } else if totals[0].0 == k {
        totals.update(0, (k, totals[0].1 + amount))
    } else {
        seq![totals[0]] + add_to(totals.drop_first(), k, amount)
    }
}

/// XP per UTC day, days in order of first appearance.
pub open spec fn day_totals(h: Seq<XpEventView>) -> Seq<(int, int)>
    decreases h.len(),
{
    if h.len() == 0 {
        Seq::empty()
    } else {
        add_to(day_totals(h.drop_last()), day_index(h.last().timestamp as int), h.last().amount as int)
    }
}

/// XP per source, sources in order of first appearance.
pub open spec fn source_totals(h: Seq<XpEventView>) -> Seq<(Seq<char>, int)>
    decreases h.len(),
{
    if h.len() == 0 {
        Seq::empty()
    } else {
        add_to(source_totals(h.drop_last()), h.last().source, h.last().amount as int)
    }
}

/// The XP of all keys together.
pub open spec fn totals_sum<K>(totals: Seq<(K, int)>) -> int
    decreases totals.len(),
{
    if totals.len() == 0 {
        0
    } else {
        totals[0].1 + totals_sum(totals.drop_first())
    }
}

proof fn lemma_add_to_sum<K>(totals: Seq<(K, int)>, k: K, amount: int)
    ensures
        totals_sum(add_to(totals, k, amount)) == totals_sum(totals) + amount,
    decreases totals.len(),
{
    if totals.len() > 0 {
        if totals[0].0 == k {
            let u = totals.update(0, (k, totals[0].1 + amount));
            assert(add_to(totals, k, amount) == u);
            assert(u.drop_first() =~= totals.drop_first());
            assert(totals_sum(u) == u[0].1 + totals_sum(u.drop_first()));
            assert(totals_sum(totals) == totals[0].1 + totals_sum(totals.drop_first()));
            assert(totals_sum(u) == totals_sum(totals) + amount);
        } else {
            lemma_add_to_sum(totals.drop_first(), k, amount);
            let r = add_to(totals.drop_first(), k, amount);
            assert(add_to(totals, k, amount) == seq![totals[0]] + r);
            assert((seq![totals[0]] + r)[0] == totals[0]);
            assert((seq![totals[0]] + r).drop_first() =~= r);
        }
    } else {
        let one = seq![(k, amount)];
        assert(one.drop_first() =~= Seq::<(K, int)>::empty());
        assert(totals_sum(one.drop_first()) == 0);
    }
}

/// The per-day and per-source breakdowns lose no XP: each adds up to the history's total.
pub proof fn lemma_totals_add_up(h: Seq<XpEventView>)
    ensures
        totals_sum(day_totals(h)) == amount_sum(h),
        totals_sum(source_totals(h)) == amount_sum(h),
    decreases h.len(),
{
    if h.len() > 0 {
        lemma_totals_add_up(h.drop_last());
        lemma_add_to_sum(day_totals(h.drop_last()), day_index(h.last().timestamp as int), h.last().amount as int);
        lemma_add_to_sum(source_totals(h.drop_last()), h.last().source, h.last().amount as int);
    }
}

pub open spec fn amount_desc() -> spec_fn((Seq<char>, int)) -> int {
    |p: (Seq<char>, int)| -p.1
}

/// What the analytics show of a history at `now`.
#[derive(Debug)]
pub struct XpAnalytics {
    /// XP of the last seven days.
    pub recent_total: u128,
    /// Each UTC day of the last seven days with XP (days since the epoch), with its XP.
    pub days: Vec<(i64, u128)>,
    /// Each source of the last seven days with its XP, most XP first.
    pub sources: Vec<(String, u128)>,
}

pub open spec fn days_view(v: Seq<(i64, u128)>) -> Seq<(int, int)> {
    v.map_values(|p: (i64, u128)| (p.0 as int, p.1 as int))
}

pub open spec fn sources_view(v: Seq<(String, u128)>) -> Seq<(Seq<char>, int)> {
    v.map_values(|p: (String, u128)| (p.0@, p.1 as int))
}

fn add_day(v: &mut Vec<(i64, u128)>, d: i64, amount: u64)
    requires
        forall|j: int| 0 <= j < old(v)@.len() ==> old(v)@[j].1 <= u128::MAX - u64::MAX,
    ensures
        days_view(final(v)@) == add_to(days_view(old(v)@), d as int, amount as int),
{
    let ghost s = days_view(v@);
    let mut i: usize = 0;
    assert(s.skip(0) =~= s);
    assert(s.take(0) + add_to(s.skip(0), d as int, amount as int) =~= add_to(s, d as int, amount as int));
    while i < v.len()
        invariant
            s == days_view(old(v)@),
            v@ == old(v)@,
            i <= v.len(),
            forall|j: int| 0 <= j < old(v)@.len() ==> old(v)@[j].1 <= u128::MAX - u64::MAX,
            add_to(s, d as int, amount as int) == s.take(i as int) + add_to(s.skip(i as int), d as int, amount as int),
        decreases v.len() - i,
    {
        assert(s.skip(i as int)[0] == (v@[i as int].0 as int, v@[i as int].1 as int));
        assert(s.skip(i as int).drop_first() =~= s.skip(i + 1));
        if v[i].0 == d {
            let total = v[i].1 + amount as u128;
            v.set(i, (d, total));
            assert(days_view(v@) =~= s.update(i as int, (d as int, s[i as int].1 + amount)));
            assert(s.take(i as int) + s.skip(i as int).update(0, (d as int, s[i as int].1 + amount)) =~= s.update(
                i as int,
                (d as int, s[i as int].1 + amount),
            ));
            return;
        }
        assert(s.take(i + 1) =~= s.take(i as int).push(s[i as int]));
        assert(s.take(i as int) + (seq![s[i as int]] + add_to(s.skip(i + 1), d as int, amount as int)) =~= s.take(i + 1)
            + add_to(s.skip(i + 1), d as int, amount as int));
        i = i + 1;
    }
    assert(s.skip(i as int).len() == 0);
    assert(s.take(i as int) =~= s);
    v.push((d, amount as u128));
    assert(days_view(v@) =~= s.push((d as int, amount as int)));
}

fn add_source(v: &mut Vec<(String, u128)>, src: &String, amount: u64)
    requires
        forall|j: int| 0 <= j < old(v)@.len() ==> old(v)@[j].1 <= u128::MAX - u64::MAX,
    ensures
        sources_view(final(v)@) == add_to(sources_view(old(v)@), src@, amount as int),
{
    let ghost s = sources_view(v@);
    let mut i: usize = 0;
    assert(s.skip(0) =~= s);
    assert(s.take(0) + add_to(s.skip(0), src@, amount as int) =~= add_to(s, src@, amount as int));
    while i < v.len()
        invariant
            s == sources_view(old(v)@),
            v@ == old(v)@,
            i <= v.len(),
            forall|j: int| 0 <= j < old(v)@.len() ==> old(v)@[j].1 <= u128::MAX - u64::MAX,
            add_to(s, src@, amount as int) == s.take(i as int) + add_to(s.skip(i as int), src@, amount as int),
        decreases v.len() - i,
    {
        assert(s.skip(i as int)[0] == (v@[i as int].0@, v@[i as int].1 as int));
        assert(s.skip(i as int).drop_first() =~= s.skip(i + 1));
        if crate::text::str_eq(v[i].0.as_str(), src.as_str()) {
            let total = v[i].1 + amount as u128;
            let key = crate::text::copy_string(src);
            v.set(i, (key, total));
            assert(sources_view(v@) =~= s.update(i as int, (src@, s[i as int].1 + amount)));
            assert(s.take(i as int) + s.skip(i as int).update(0, (src@, s[i as int].1 + amount)) =~= s.update(
                i as int,
                (src@, s[i as int].1 + amount),
            ));
            return;
        }
        assert(s.take(i + 1) =~= s.take(i as int).push(s[i as int]));
        assert(s.take(i as int) + (seq![s[i as int]] + add_to(s.skip(i + 1), src@, amount as int)) =~= s.take(i + 1)
            + add_to(s.skip(i + 1), src@, amount as int));
        i = i + 1;
    }
    assert(s.skip(i as int).len() == 0);
    assert(s.take(i as int) =~= s);
    v.push((crate::text::copy_string(src), amount as u128));
    assert(sources_view(v@) =~= s.push((src@, amount as int)));
}

proof fn lemma_add_to_bounds<K>(totals: Seq<(K, int)>, k: K, amount: int, n: int)
    requires
        0 <= amount,
        0 <= n,
        forall|j: int| 0 <= j < totals.len() ==> 0 <= #[trigger] totals[j].1 <= n,
    ensures
        forall|j: int| 0 <= j < add_to(totals, k, amount).len() ==> 0 <= #[trigger] add_to(totals, k, amount)[j].1 <= n + amount,
        add_to(totals, k, amount).len() <= totals.len() + 1,
    decreases totals.len(),
{
    if totals.len() > 0 && totals[0].0 != k {
        lemma_add_to_bounds(totals.drop_first(), k, amount, n);
        let r = add_to(totals.drop_first(), k, amount);
        assert forall|j: int| 0 <= j < add_to(totals, k, amount).len() implies 0 <= #[trigger] add_to(totals, k, amount)[j].1 <= n + amount by {
            if j > 0 {
                assert(add_to(totals, k, amount)[j] == r[j - 1]);
            }
        }
    }
}

fn insert_source_desc(sorted: &mut Vec<(String, u128)>, x: (String, u128))
    ensures
        sources_view(final(sorted)@) == sources_view(old(sorted)@).insert(
            after_pos(sources_view(old(sorted)@), (x.0@, x.1 as int), amount_desc()),
            (x.0@, x.1 as int),
        ),
{
    let ghost s = sources_view(sorted@);
    let ghost xv = (x.0@, x.1 as int);
    let mut k: usize = 0;
    assert(s.skip(0) =~= s);
    while k < sorted.len() && sorted[k].1 >= x.1
        invariant
            k <= sorted.len(),
            s == sources_view(sorted@),
            xv == (x.0@, x.1 as int),
            after_pos(s, xv, amount_desc()) == k + after_pos(s.skip(k as int), xv, amount_desc()),
        decreases sorted.len() - k,
    {
        assert(s.skip(k as int)[0] == (sorted@[k as int].0@, sorted@[k as int].1 as int));
        assert(s.skip(k as int).drop_first() =~= s.skip(k + 1));
        k = k + 1;
    }
    proof {
        if k < sorted.len() {
            assert(s.skip(k as int)[0] == (sorted@[k as int].0@, sorted@[k as int].1 as int));
        }
    }
    sorted.insert(k, x);
    assert(sources_view(sorted@) =~= s.insert(k as int, xv));
}

/// XP analytics of a history at `now`: the last seven days' total, XP per day, and XP
/// per source, most first (sources with equal XP in order of first appearance).
pub fn xp_analytics(history: &VecDeque<XpEvent>, now: i64) -> (a: XpAnalytics)
    requires
        now >= i64::MIN + WEEK_MS,
    ensures
        a.recent_total as int == amount_sum(recent(history_view(history@), now - WEEK_MS)),
        days_view(a.days@) == day_totals(recent(history_view(history@), now - WEEK_MS)),
        sources_view(a.sources@) == sorted_by_key(
            source_totals(recent(history_view(history@), now - WEEK_MS)),
            amount_desc(),
        ),
{
    let cutoff = now - WEEK_MS;
    let ghost h = history_view(history@);
    let mut total: u128 = 0;
    let mut days: Vec<(i64, u128)> = Vec::new();
    let mut by_source: Vec<(String, u128)> = Vec::new();
    let mut i: usize = 0;
    while i < history.len()
        invariant
            i <= history.len(),
            h == history_view(history@),
            cutoff == now - WEEK_MS,
            total == amount_sum(recent(h.take(i as int), cutoff as int)),
            total <= i * u64::MAX,
            days_view(days@) == day_totals(recent(h.take(i as int), cutoff as int)),
            sources_view(by_source@) == source_totals(recent(h.take(i as int), cutoff as int)),
            days@.len() <= i,
            forall|j: int| 0 <= j < days@.len() ==> days@[j].1 <= i * u64::MAX,
            forall|j: int| 0 <= j < by_source@.len() ==> by_source@[j].1 <= i * u64::MAX,
        decreases history.len() - i,
    {
        let e = &history[i];
        let ghost r0 = recent(h.take(i as int), cutoff as int);
        proof {
            assert(h.take(i + 1).drop_last() =~= h.take(i as int));
            assert(h.take(i + 1).last() == history@[i as int]@);
            if e.timestamp >= cutoff {
                assert(recent(h.take(i + 1), cutoff as int) == r0.push(e@));
                assert(r0.push(e@).drop_last() =~= r0);
                assert(r0.push(e@).last() == e@);
            } else {
                assert(recent(h.take(i + 1), cutoff as int) == r0);
            }
        }
        if e.timestamp >= cutoff {
            proof {
                lemma_add_to_bounds(days_view(days@), day_index(e.timestamp as int), e.amount as int, i * u64::MAX);
                lemma_add_to_bounds(sources_view(by_source@), e.source@, e.amount as int, i * u64::MAX);
                assert(i * u64::MAX + u64::MAX == (i + 1) * u64::MAX) by (nonlinear_arith);
                assert(i * u64::MAX <= u128::MAX - u64::MAX) by (nonlinear_arith)
                    requires
                        i < usize::MAX,
                        usize::MAX <= u64::MAX,
                ;
            }
            total = total + e.amount as u128;
            add_day(&mut days, day_of(e.timestamp), e.amount);
            add_source(&mut by_source, &e.source, e.amount);
            proof {
                assert forall|j: int| 0 <= j < days@.len() implies days@[j].1 <= (i + 1) * u64::MAX by {
                    assert(days_view(days@)[j].1 == days@[j].1);
                }
                assert forall|j: int| 0 <= j < by_source@.len() implies by_source@[j].1 <= (i + 1) * u64::MAX by {
                    assert(sources_view(by_source@)[j].1 == by_source@[j].1);
                }
            }
        } else {
            proof {
                assert(i * u64::MAX <= (i + 1) * u64::MAX) by (nonlinear_arith);
            }
        }
        i = i + 1;
    }
    assert(h.take(h.len() as int) =~= h);
    let ghost sv = sources_view(by_source@);
    let mut sorted: Vec<(String, u128)> = Vec::new();
    let mut k: usize = 0;
    assert(sources_view(sorted@) =~= sorted_by_key(sv.take(0), amount_desc()));
    while k < by_source.len()
        invariant
            k <= by_source.len(),
            sv == sources_view(by_source@),
            sources_view(sorted@) == sorted_by_key(sv.take(k as int), amount_desc()),
        decreases by_source.len() - k,
    {
        assert(sv.take(k + 1).drop_last() =~= sv.take(k as int));
        assert(sv.take(k + 1).last() == (by_source@[k as int].0@, by_source@[k as int].1 as int));
        let item = (crate::text::copy_string(&by_source[k].0), by_source[k].1);
        insert_source_desc(&mut sorted, item);
        k = k + 1;
    }
    assert(sv.take(sv.len() as int) =~= sv);
    XpAnalytics { recent_total: total, days, sources: sorted }
}

/// The best day: one with the most XP (the first such day listed).
pub open spec fn is_best_day(days: Seq<(int, int)>, best: (int, int)) -> bool {
    (exists|j: int| 0 <= j < days.len() && days[j] == best) && forall|j: int| 0 <= j < days.len() ==> #[trigger] days[j].1 <= best.1
}

pub fn best_day(days: &Vec<(i64, u128)>) -> (r: Option<(i64, u128)>)
    ensures
        days@.len() == 0 <==> r is None,
        r matches Some(b) ==> is_best_day(days_view(days@), (b.0 as int, b.1 as int)),
{
    if days.len() == 0 {
        return None;
    }
    let ghost dv = days_view(days@);
    let mut best = days[0];
    let mut bi: usize = 0;
    let mut i: usize = 1;
    while i < days.len()
        invariant
            1 <= i <= days.len(),
            dv == days_view(days@),
            bi < days.len(),
            best == days@[bi as int],
            forall|j: int| 0 <= j < i ==> days@[j].1 <= best.1,
        decreases days.len() - i,
    {
        if days[i].1 > best.1 {
            best = days[i];
            bi = i;
        }
        i = i + 1;
    }
    assert(dv[bi as int] == (best.0 as int, best.1 as int));
    assert forall|j: int| 0 <= j < dv.len() implies #[trigger] dv[j].1 <= best.1 by {
        assert(dv[j].1 == days@[j].1);
    }
    Some(best)
}

/// Integer division rounding toward zero, as chrono counts whole units of a duration.
pub open spec fn tdiv(a: int, b: int) -> int {
    if a >= 0 {
        a / b
    } else {
        -((-a) / b)
    }
}

/// How long ago, in the largest unit under its limit: minutes under an hour, hours
/// under a day, days otherwise.
pub open spec fn ago_text(diff_ms: int) -> Seq<char> {
    if tdiv(diff_ms, 60_000) < 60 {
        signed_decimal(tdiv(diff_ms, 60_000)) + "m ago"@
    } else if tdiv(diff_ms, 3_600_000) < 24 {
        signed_decimal(tdiv(diff_ms, 3_600_000)) + "h ago"@
    } else {
        signed_decimal(tdiv(diff_ms, 86_400_000)) + "d ago"@
    }
}

/// One line of the recent-events feed.
pub open spec fn feed_line(e: XpEventView, now: i64) -> Seq<char> {
    "+"@ + decimal(e.amount as nat) + " XP — "@ + e.source + (match e.note {
        Some(n) => " ("@ + n + ")"@,
        None => Seq::empty(),
    }) + " • "@ + ago_text(now - e.timestamp)
}

fn whole_units(ms: i64, unit: i64) -> (r: i64)
    requires
        unit >= 60_000,
    ensures
        r == tdiv(ms as int, unit as int),
{
    let a: i128 = ms as i128;
    let u: i128 = unit as i128;
    if a >= 0 {
        let q = a / u;
        assert(0 <= q <= a) by (nonlinear_arith)
            requires
                q == a / u,
                a >= 0,
                u >= 1,
        ;
        q as i64
    } else {
        let na: i128 = -a;
        let q = na / u;
        assert(0 <= q <= na) by (nonlinear_arith)
            requires
                q == na / u,
                na >= 0,
                u >= 1,
        ;
        (-q) as i64
    }
}

pub fn feed_entry(e: &XpEvent, now: i64) -> (s: String)
    requires
        i64::MIN <= now - e.timestamp <= i64::MAX,
    ensures
        s@ == feed_line(e@, now),
{
    let mut s = owned("+");
    push_decimal(&mut s, e.amount);
    push_str(&mut s, " XP — ");
    push_str(&mut s, e.source.as_str());
    match &e.note {
        Some(n) => {
            push_str(&mut s, " (");
            push_str(&mut s, n.as_str());
            push_str(&mut s, ")");
        },
        None => {},
    }
    push_str(&mut s, " • ");
    let diff = now - e.timestamp;
    let m = whole_units(diff, 60_000);
    if m < 60 {
        push_signed_decimal(&mut s, m);
        push_str(&mut s, "m ago");
    } else if whole_units(diff, 3_600_000) < 24 {
        push_signed_decimal(&mut s, whole_units(diff, 3_600_000));
        push_str(&mut s, "h ago");
    } else {
        push_signed_decimal(&mut s, whole_units(diff, 86_400_000));
        push_str(&mut s, "d ago");
    }
    s
}

/// The numbers of a profile card: XP into the level, XP the level spans, XP still
/// needed for the next.
pub open spec fn level_numbers(level: u32, total_xp: u64) -> (int, int, int) {
    let prev = level_threshold(level as int);
    let next = level_threshold(level + 1);
    let sat = |a: int, b: int| if a > b { a - b } else { 0 };
    (sat(total_xp as int, prev), sat(next, prev), sat(next, total_xp as int))
}

pub fn profile_numbers(level: u32, total_xp: u64) -> (r: (u64, u64, u64))
    requires
        level < u32::MAX,
    ensures
        (r.0 as int, r.1 as int, r.2 as int) == level_numbers(level, total_xp),
{
    let prev = xp_threshold_for_level(level);
    let next = xp_threshold_for_level(level + 1);
    (total_xp.saturating_sub(prev), next.saturating_sub(prev), next.saturating_sub(total_xp))
}

/// The top-sources field: up to three `source: N XP` lines, or a note when there are none.
pub open spec fn top_sources_text(sources: Seq<(Seq<char>, int)>) -> Seq<char> {
    if sources.len() == 0 {
        "No XP sources logged this week."@
    } else {
        crate::text::joined(
            sources.take(if sources.len() < 3 { sources.len() as int } else { 3 }).map_values(
                |p: (Seq<char>, int)| p.0 + ": "@ + decimal(p.1 as nat) + " XP"@,
            ),
            "\n"@,
        )
    }
}

pub fn top_sources(sources: &Vec<(String, u128)>) -> (s: String)
    ensures
        s@ == top_sources_text(sources_view(sources@)),
{
    if sources.len() == 0 {
        return owned("No XP sources logged this week.");
    }
    let ghost sv = sources_view(sources@);
    let n: usize = if sources.len() < 3 { sources.len() } else { 3 };
    let mut lines: Vec<String> = Vec::new();
    let mut i: usize = 0;
    while i < n
        invariant
            i <= n <= sources.len(),
            sv == sources_view(sources@),
            crate::text::strings_seq(lines@) == sv.take(i as int).map_values(
                |p: (Seq<char>, int)| p.0 + ": "@ + decimal(p.1 as nat) + " XP"@,
            ),
        decreases n - i,
    {
        let ghost before = lines@;
        let mut l = crate::text::copy_string(&sources[i].0);
        push_str(&mut l, ": ");
        crate::text::push_u128(&mut l, sources[i].1);
        push_str(&mut l, " XP");
        lines.push(l);
        assert(crate::text::strings_seq(lines@) =~= crate::text::strings_seq(before).push(l@));
        assert(sv.take(i + 1) =~= sv.take(i as int).push(sv[i as int]));
        assert(sv.take(i + 1).map_values(|p: (Seq<char>, int)| p.0 + ": "@ + decimal(p.1 as nat) + " XP"@) =~= sv.take(
            i as int,
        ).map_values(|p: (Seq<char>, int)| p.0 + ": "@ + decimal(p.1 as nat) + " XP"@).push(l@));
        i = i + 1;
    }
    crate::text::join_strings(&lines, "\n")
}

/// The best-day field: `N XP on YYYY-MM-DD`, or `No activity`.
pub open spec fn best_day_text(best: Option<(i64, u128)>) -> Seq<char> {
    match best {
        Some((d, n)) => decimal(n as nat) + " XP on "@ + crate::clock::utc_date_text((d * MS_PER_DAY) as i64),
        None => "No activity"@,
    }
}

pub fn best_day_line(best: Option<(i64, u128)>) -> (s: String)
    requires
        best matches Some((d, _)) ==> i64::MIN <= d * MS_PER_DAY <= i64::MAX,
    ensures
        s@ == best_day_text(best),
{
    match best {
        Some((d, n)) => {
            let mut s = String::new();
            crate::text::push_u128(&mut s, n);
            push_str(&mut s, " XP on ");
            let t = crate::clock::date_text(d * MS_PER_DAY);
            push_str(&mut s, t.as_str());
            s
        },
        None => owned("No activity"),
    }
}

/// The recent-events field: the last five events, newest first, or a note when there are
/// none.
pub open spec fn recent_feed_text(h: Seq<XpEventView>, now: i64) -> Seq<char> {
    if h.len() == 0 {
        "No XP events recorded yet."@
    } else {
        let n: int = if h.len() < 5 { h.len() as int } else { 5 };
        crate::text::joined(Seq::new(n as nat, |k: int| feed_line(h[h.len() - 1 - k], now)), "\n"@)
    }
}

pub fn recent_feed(history: &VecDeque<XpEvent>, now: i64) -> (s: String)
    requires
        forall|j: int| 0 <= j < history@.len() ==> i64::MIN <= now - #[trigger] history@[j].timestamp <= i64::MAX,
    ensures
        s@ == recent_feed_text(history_view(history@), now),
{
    if history.len() == 0 {
        return owned("No XP events recorded yet.");
    }
    let ghost h = history_view(history@);
    let n: usize = if history.len() < 5 { history.len() } else { 5 };
    let ghost target = Seq::new(n as nat, |k: int| feed_line(h[h.len() - 1 - k], now));
    let mut lines: Vec<String> = Vec::new();
    let mut k: usize = 0;
    while k < n
        invariant
            k <= n <= history.len(),
            n == (if history.len() < 5 { history.len() } else { 5 }),
            h == history_view(history@),
            target == Seq::new(n as nat, |k: int| feed_line(h[h.len() - 1 - k], now)),
            forall|j: int| 0 <= j < history@.len() ==> i64::MIN <= now - #[trigger] history@[j].timestamp <= i64::MAX,
            crate::text::strings_seq(lines@) == target.take(k as int),
        decreases n - k,
    {
        let idx = history.len() - 1 - k;
        let ghost before = lines@;
        let line = feed_entry(&history[idx], now);
        let ghost lv = line@;
        assert(h[h.len() - 1 - k] == history@[idx as int]@);
        assert(target[k as int] == lv);
        lines.push(line);
        assert(crate::text::strings_seq(lines@) =~= crate::text::strings_seq(before).push(lv));
        assert(target.take(k + 1) =~= target.take(k as int).push(lv));
        k = k + 1;
    }
    assert(target.take(n as int) =~= target);
    crate::text::join_strings(&lines, "\n")
}

} // verus!
