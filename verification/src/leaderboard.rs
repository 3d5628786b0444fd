//! The paged leaderboard: which page is shown, how the buttons move it, and the text of a
//! page. Reading profiles, resolving names and drawing progress bars are the caller's part.
use crate::text::{decimal, owned, push_decimal, push_str};
use vstd::prelude::*;

verus! {

/// Members per page.
pub const PER_PAGE: usize = 5;

/// Pages needed for `n` members.
pub open spec fn page_count(n: nat) -> nat {
    ((n + 4) / 5) as nat
}

pub fn total_pages(n: usize) -> (r: usize)
    ensures
        r == page_count(n as nat),
{
    n / PER_PAGE + if n % PER_PAGE == 0 { 0 } else { 1 }
}

/// The page first shown: the requested one (the first if none), kept within the pages.
pub open spec fn first_page(requested: Option<usize>, total: nat) -> nat {
    let p: nat = match requested {
        Some(p) => p as nat,
        None => 1,
    };
    if p < 1 {
        1
    } else if p > total {
        total
    } else {
        p
    }
}

pub fn initial_page(requested: Option<usize>, total: usize) -> (r: usize)
    requires
        total >= 1,
    ensures
        r == first_page(requested, total as nat),
        1 <= r <= total,
{
    let p = match requested {
        Some(p) => p,
        None => 1,
    };
    if p < 1 {
        1
    } else if p > total {
        total
    } else {
        p
    }
}

/// A member's place on the leaderboard (1 for the first), if listed.
pub open spec fn rank_in(ids: Seq<u64>, user_id: u64) -> Option<nat>
    decreases ids.len(),
{
    if ids.len() == 0 {
        None
    } else if ids[0] == user_id {
        Some(1)
    } else {
        match rank_in(ids.drop_first(), user_id) {
            Some(r) => Some(r + 1),
            None => None,
        }
    }
}

pub fn rank_of(ids: &Vec<u64>, user_id: u64) -> (r: Option<usize>)
    ensures
        match r {
            Some(k) => rank_in(ids@, user_id) == Some(k as nat) && 1 <= k <= ids.len(),
            None => rank_in(ids@, user_id) is None,
        },
{
    let mut i: usize = 0;
    assert(ids@.skip(0) =~= ids@);
    while i < ids.len()
        invariant
            i <= ids.len(),
            rank_in(ids@, user_id) == match rank_in(ids@.skip(i as int), user_id) {
                Some(r) => Some((r + i) as nat),
                None => None,
            },
        decreases ids.len() - i,
    {
        assert(ids@.skip(i as int)[0] == ids@[i as int]);
        assert(ids@.skip(i as int).drop_first() =~= ids@.skip(i + 1));
        if ids[i] == user_id {
            return Some(i + 1);
        }
        i = i + 1;
    }
    assert(ids@.skip(i as int).len() == 0);
    None
}

/// What a button press does to the page shown.
#[derive(Debug, Clone, Copy, PartialEq, Eq, Structural)]
pub enum PageStep {
    /// Show this page.
    Show(usize),
    /// Tell the member privately that they are not on the leaderboard.
    NotRanked,
}

/// The page after a press of `prev`, `next` or `find_me` (any other id leaves it).
pub open spec fn step_for(custom_id: Seq<char>, page: nat, total: nat, my_rank: Option<nat>) -> PageStep {
    if custom_id == "prev"@ {
        PageStep::Show((if page > 1 { (page - 1) as int } else { page as int }) as usize)
    } else if custom_id == "next"@ {
        PageStep::Show((if page < total { (page + 1) as int } else { page as int }) as usize)
    } else if custom_id == "find_me"@ {
        match my_rank {
            Some(r) => PageStep::Show(((r - 1) / 5 + 1) as usize),
            None => PageStep::NotRanked,
        }
    } else {
        PageStep::Show(page as usize)
    }
}

pub fn press(custom_id: &str, page: usize, total: usize, my_rank: Option<usize>) -> (r: PageStep)
    requires
        1 <= page <= total,
        my_rank matches Some(k) ==> k >= 1,
    ensures
        r == step_for(custom_id@, page as nat, total as nat, match my_rank {
            Some(k) => Some(k as nat),
            None => None,
        }),
{
    if crate::text::str_eq(custom_id, "prev") {
        PageStep::Show(if page > 1 { page - 1 } else { page })
    } else if crate::text::str_eq(custom_id, "next") {
        PageStep::Show(if page < total { page + 1 } else { page })
    } else if crate::text::str_eq(custom_id, "find_me") {
        match my_rank {
            Some(k) => PageStep::Show((k - 1) / PER_PAGE + 1),
            None => PageStep::NotRanked,
        }
    } else {
        PageStep::Show(page)
    }
}

/// The positions `offset..end` of the members on a page.
pub open spec fn page_range(page: nat, n: nat) -> (nat, nat) {
    let offset = ((page - 1) * 5) as nat;
    let end: int = if offset + 5 < n { (offset + 5) as int } else { n as int };
    (offset, if end < offset { offset } else { end as nat })
}

pub fn page_bounds(page: usize, n: usize) -> (r: (usize, usize))
    requires
        1 <= page,
        (page - 1) * 5 <= n,
    ensures
        r.0 == page_range(page as nat, n as nat).0,
        r.1 == page_range(page as nat, n as nat).1,
        r.0 <= r.1 <= n,
{
    let offset = (page - 1) * 5;
    let end = if n - offset > 5 { offset + 5 } else { n };
    (offset, end)
}

/// The page that holds place `r`.
pub open spec fn page_of(r: nat) -> nat {
    ((r - 1) / 5 + 1) as nat
}

/// Paging stays on the leaderboard: from a page within `1..=total`, every button shows a
/// page within `1..=total`; `find_me` shows the page that holds the member's place; and
/// the pages together hold every place, each exactly once.
pub proof fn lemma_paging(custom_id: Seq<char>, page: nat, n: nat, my_rank: Option<nat>)
    requires
        1 <= page <= page_count(n),
        n <= usize::MAX,
        my_rank matches Some(r) ==> 1 <= r <= n,
    ensures
        step_for(custom_id, page, page_count(n), my_rank) matches PageStep::Show(q) ==> 1 <= q <= page_count(n),
        my_rank matches Some(r) ==> (step_for("find_me"@, page, page_count(n), my_rank) matches PageStep::Show(q)
            && page_range(q as nat, n).0 < r <= page_range(q as nat, n).1),
        forall|r: nat| 1 <= r <= n ==> 1 <= #[trigger] page_of(r) <= page_count(n) && page_range(page_of(r), n).0 < r
            <= page_range(page_of(r), n).1,
        forall|q1: nat, q2: nat| #![trigger page_range(q1, n), page_range(q2, n)]
            1 <= q1 < q2 ==> page_range(q1, n).1 <= page_range(q2, n).0,
{
    assert forall|r: nat| 1 <= r <= n implies 1 <= #[trigger] page_of(r) <= page_count(n) && page_range(page_of(r), n).0
        < r <= page_range(page_of(r), n).1 by {
        let q = page_of(r);
        assert((r - 1) / 5 <= (n + 4) / 5 - 1) by (nonlinear_arith)
            requires
                1 <= r <= n,
        ;
        assert(((q - 1) * 5) as int == ((r - 1) / 5) * 5) by (nonlinear_arith)
            requires
                q == (r - 1) / 5 + 1,
        ;
        assert(((r - 1) / 5) * 5 <= r - 1 < ((r - 1) / 5) * 5 + 5) by (nonlinear_arith)
            requires
                r >= 1,
        ;
    }
    assert forall|q1: nat, q2: nat| #![trigger page_range(q1, n), page_range(q2, n)]
        1 <= q1 < q2 implies page_range(q1, n).1 <= page_range(q2, n).0 by {
        assert((q1 - 1) * 5 + 5 <= (q2 - 1) * 5) by (nonlinear_arith)
            requires
                1 <= q1 < q2,
        ;
    }
    if my_rank is Some {
        reveal_strlit("find_me");
        reveal_strlit("prev");
        reveal_strlit("next");
        let r = my_rank->0;
        assert(1 <= page_of(r) <= page_count(n));
        assert(page_of(r) as usize as nat == page_of(r));
        assert(((r - 1) / 5 + 1) as usize == page_of(r) as usize);
        assert("find_me"@ != "prev"@ && "find_me"@ != "next"@) by {
            assert("find_me"@[0] != "prev"@[0] && "find_me"@[0] != "next"@[0]);
        }
        assert(step_for("find_me"@, page, page_count(n), my_rank) == PageStep::Show(page_of(r) as usize));
    }
}

/// One member's row, as the caller resolved it.
#[derive(Debug)]
pub struct LeaderRow {
    pub rank: usize,
    pub name: String,
    pub is_me: bool,
    pub level: u32,
    pub xp: u64,
    pub bar: String,
}

/// The medal of the first three places; two spaces otherwise.
pub open spec fn medal(rank: nat) -> Seq<char> {
    if rank == 1 {
        "🥇"@
    } else if rank == 2 {
        "🥈"@
    } else if rank == 3 {
        "🥉"@
    } else {
        "  "@
    }
}

pub open spec fn row_text(r: LeaderRow) -> Seq<char> {
    medal(r.rank as nat) + " **#"@ + decimal(r.rank as nat) + "** "@ + (if r.is_me {
        "**"@ + r.name@ + "** (You)"@
    } else {
        r.name@
    }) + "\nLevel "@ + decimal(r.level as nat) + " | "@ + decimal(r.xp as nat) + " XP\n"@ + r.bar@ + "\n\n"@
}

pub open spec fn rows_text(rows: Seq<LeaderRow>) -> Seq<char>
    decreases rows.len(),
{
    if rows.len() == 0 {
        Seq::empty()
    } else {
        rows_text(rows.drop_last()) + row_text(rows.last())
    }
}

/// The first line of a page: the viewer's own rank, or that they are not ranked.
pub open spec fn rank_header(my_rank: Option<usize>) -> Seq<char> {
    match my_rank {
        Some(r) => "Your rank: **#"@ + decimal(r as nat) + "**\n\n"@,
        None => "You are not ranked yet.\n\n"@,
    }
}

fn row_string(r: &LeaderRow) -> (s: String)
    ensures
        s@ == row_text(*r),
{
    let m = if r.rank == 1 {
        "🥇"
    } else if r.rank == 2 {
        "🥈"
    } else if r.rank == 3 {
        "🥉"
    } else {
        "  "
    };
    let mut s = owned(m);
    push_str(&mut s, " **#");
    push_decimal(&mut s, r.rank as u64);
    push_str(&mut s, "** ");
    let ghost a = s@;
    if r.is_me {
        push_str(&mut s, "**");
        push_str(&mut s, r.name.as_str());
        push_str(&mut s, "** (You)");
        assert(s@ =~= a + ("**"@ + r.name@ + "** (You)"@));
    } else {
        push_str(&mut s, r.name.as_str());
    }
    push_str(&mut s, "\nLevel ");
    push_decimal(&mut s, r.level as u64);
    push_str(&mut s, " | ");
    push_decimal(&mut s, r.xp);
    push_str(&mut s, " XP\n");
    push_str(&mut s, r.bar.as_str());
    push_str(&mut s, "\n\n");
    assert(s@ =~= row_text(*r));
    s
}

/// The text of a leaderboard page.
pub fn page_description(my_rank: Option<usize>, rows: &Vec<LeaderRow>) -> (s: String)
    ensures
        s@ == rank_header(my_rank) + rows_text(rows@),
{
    let mut s = match my_rank {
        Some(r) => {
            let mut h = owned("Your rank: **#");
            push_decimal(&mut h, r as u64);
            push_str(&mut h, "**\n\n");
            h
        },
        None => owned("You are not ranked yet.\n\n"),
    };
    let ghost head = s@;
    let mut i: usize = 0;
    while i < rows.len()
        invariant
            i <= rows.len(),
            head == rank_header(my_rank),
            s@ == head + rows_text(rows@.take(i as int)),
        decreases rows.len() - i,
    {
        let ghost before = s@;
        let line = row_string(&rows[i]);
        push_str(&mut s, line.as_str());
        proof {
            assert(rows@.take(i + 1).drop_last() =~= rows@.take(i as int));
            assert(rows@.take(i + 1).last() == rows@[i as int]);
            assert(s@ =~= before + row_text(rows@[i as int]));
        }
        i = i + 1;
    }
    assert(rows@.take(rows@.len() as int) =~= rows@);
    s
}

/// The footer of a page: `Page N/M`.
pub fn page_footer(page: usize, total: usize) -> (s: String)
    ensures
        s@ == "Page "@ + decimal(page as nat) + "/"@ + decimal(total as nat),
{
    let mut s = owned("Page ");
    push_decimal(&mut s, page as u64);
    push_str(&mut s, "/");
    push_decimal(&mut s, total as u64);
    s
}

/// Whether the previous and next buttons are disabled on a page.
pub fn buttons_disabled(page: usize, total: usize) -> (r: (bool, bool))
    ensures
        r.0 == (page == 1),
        r.1 == (page == total),
{
    (page == 1, page == total)
}

} // verus!
