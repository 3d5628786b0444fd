//! One poll of one repository: new commits per branch, newly closed bugs, issue activity,
//! and the watermarks that remember where the poll left off.
use crate::github::{
    after_pos, collect_closed_bugs, collect_new_commits, commits_view, issues_view, latest_closed,
    latest_closed_timestamp, lemma_sorted_by_key_ascending, new_closed_bugs, new_commits, sorted_by_key,
    Commit, CommitView, Issue, IssueActivity, IssueState, IssueView, FIRST_RUN_WINDOW_MS,
};
use crate::text::{copy_string, str_eq};
use vstd::prelude::*;

verus! {

// ---------------------------------------------------------------------------
// Issue activity
// ---------------------------------------------------------------------------

/// What to report about a non-bug issue, given when issues were last checked.
pub open spec fn issue_activity(i: IssueView, baseline: Option<i64>, now: i64) -> Option<IssueActivity> {
    if i.is_bug {
        None
    } else {
        match baseline {
            None => match i.created_at {
                Some(c) => if c >= now - FIRST_RUN_WINDOW_MS {
                    Some(IssueActivity::Opened)
                } else {
                    None
                },
                None => None,
            },
            Some(b) => match i.updated_at {
                Some(u) => if u > b {
                    Some(
                        match i.state {
                            IssueState::Closed => IssueActivity::Closed,
                            IssueState::Open => match i.created_at {
                                Some(c) => if -60_000 < u - c && u - c < 60_000 {
                                    IssueActivity::Opened
                                } else {
                                    IssueActivity::Updated
                                },
                                None => IssueActivity::Updated,
                            },
                        },
                    )
                } else {
                    None
                },
                None => None,
            },
        }
    }
}

/// On the first poll (no baseline yet) only issues opened in the last thirty minutes are
/// announced, and only as opened: a non-bug issue created at or after `now - 30 min` is
/// reported as `Opened`, every other issue (a bug, one without a creation time, or an
/// older one) is not reported.
pub proof fn lemma_first_poll_announces_recent_issues(i: IssueView, now: i64)
    ensures
        issue_activity(i, None, now) is Some <==> (!i.is_bug && i.created_at is Some && i.created_at->0 >= now
            - 1_800_000),
        issue_activity(i, None, now) is Some ==> issue_activity(i, None, now) == Some(IssueActivity::Opened),
{
}

/// Once there is a baseline, a non-bug issue is reported exactly when it was updated after
/// it: as closed when it is closed, as opened when it is open and its update came within a
/// minute of its creation, and as updated otherwise. Bugs are never reported here.
pub proof fn lemma_issue_activity_after_baseline(i: IssueView, b: i64, now: i64)
    ensures
        issue_activity(i, Some(b), now) is Some <==> (!i.is_bug && i.updated_at is Some && i.updated_at->0 > b),
        issue_activity(i, Some(b), now) is Some && i.state == IssueState::Closed ==> issue_activity(i, Some(b), now)
            == Some(IssueActivity::Closed),
        issue_activity(i, Some(b), now) is Some && i.state == IssueState::Open ==> (issue_activity(i, Some(b), now)
            == Some(IssueActivity::Opened) <==> (i.created_at is Some && -60_000 < i.updated_at->0 - i.created_at->0
            < 60_000)),
        issue_activity(i, Some(b), now) is Some && i.state == IssueState::Open && !(i.created_at is Some && -60_000
            < i.updated_at->0 - i.created_at->0 < 60_000) ==> issue_activity(i, Some(b), now) == Some(
            IssueActivity::Updated,
        ),
{
}

/// The issues to report, in the order listed, each with its activity.
pub open spec fn activity_list(issues: Seq<IssueView>, baseline: Option<i64>, now: i64) -> Seq<(IssueView, IssueActivity)>
    decreases issues.len(),
{
    if issues.len() == 0 {
        Seq::empty()
    } else {
        let rest = activity_list(issues.drop_last(), baseline, now);
        match issue_activity(issues.last(), baseline, now) {
            Some(a) => rest.push((issues.last(), a)),
            None => rest,
        }
    }
}

pub open spec fn updated_key() -> spec_fn((IssueView, IssueActivity)) -> int {
    |e: (IssueView, IssueActivity)| match e.0.updated_at {
        Some(t) => t as int,
        None => i64::MIN as int - 1,
    }
}

/// The issue events to report, ordered by update time.
pub open spec fn issue_events(issues: Seq<IssueView>, baseline: Option<i64>, now: i64) -> Seq<(IssueView, IssueActivity)> {
    sorted_by_key(activity_list(issues, baseline, now), updated_key())
}

pub open spec fn events_view(v: Seq<(Issue, IssueActivity)>) -> Seq<(IssueView, IssueActivity)> {
    v.map_values(|e: (Issue, IssueActivity)| (e.0@, e.1))
}

fn activity_of(i: &Issue, baseline: Option<i64>, now: i64) -> (r: Option<IssueActivity>)
    ensures
        r == issue_activity(i@, baseline, now),
{
    if i.is_bug {
        return None;
    }
    match baseline {
        None => match i.created_at {
            Some(c) => if c as i128 >= now as i128 - FIRST_RUN_WINDOW_MS as i128 {
                Some(IssueActivity::Opened)
            } else {
                None
            },
            None => None,
        },
        Some(b) => match i.updated_at {
            Some(u) => if u > b {
                Some(
                    match i.state {
                        IssueState::Closed => IssueActivity::Closed,
                        IssueState::Open => match i.created_at {
                            Some(c) => {
                                let d: i128 = u as i128 - c as i128;
                                if -60_000 < d && d < 60_000 {
                                    IssueActivity::Opened
                                } else {
                                    IssueActivity::Updated
                                }
                            },
                            None => IssueActivity::Updated,
                        },
                    },
                )
            } else {
                None
            },
            None => None,
        },
    }
}

fn key_of_updated(i: &Issue) -> (k: i128)
    ensures
        k == (updated_key())((i@, IssueActivity::Opened)),
{
    match i.updated_at {
        Some(t) => t as i128,
        None => i64::MIN as i128 - 1,
    }
}

fn insert_event(sorted: &mut Vec<(Issue, IssueActivity)>, x: (Issue, IssueActivity))
    ensures
        events_view(final(sorted)@) == events_view(old(sorted)@).insert(
            after_pos(events_view(old(sorted)@), (x.0@, x.1), updated_key()),
            (x.0@, x.1),
        ),
{
    let ghost s = events_view(sorted@);
    let ghost xv = (x.0@, x.1);
    let kx = key_of_updated(&x.0);
    assert(kx == (updated_key())(xv));
    let mut k: usize = 0;
    assert(s.skip(0) =~= s);
    while k < sorted.len() && key_of_updated(&sorted[k].0) <= kx
        invariant
            k <= sorted.len(),
            s == events_view(sorted@),
            xv == (x.0@, x.1),
            kx == (updated_key())(xv),
            after_pos(s, xv, updated_key()) == k + after_pos(s.skip(k as int), xv, updated_key()),
        decreases sorted.len() - k,
    {
        assert(s.skip(k as int)[0] == (sorted@[k as int].0@, sorted@[k as int].1));
        assert(s.skip(k as int).drop_first() =~= s.skip(k + 1));
        k = k + 1;
    }
    proof {
        if k == sorted.len() {
            assert(s.skip(k as int).len() == 0);
        } else {
            assert(s.skip(k as int)[0] == (sorted@[k as int].0@, sorted@[k as int].1));
        }
    }
    sorted.insert(k, x);
    assert(events_view(sorted@) =~= s.insert(k as int, xv));
}

/// The issue changes to report since `baseline` (or, on the first poll, issues opened in
/// the last thirty minutes), bugs excluded, ordered by update time.
pub fn collect_issue_events(issues: &Vec<Issue>, baseline: Option<i64>, now: i64) -> (r: Vec<(Issue, IssueActivity)>)
    ensures
        events_view(r@) == issue_events(issues_view(issues@), baseline, now),
{
    let ghost s = issues_view(issues@);
    let mut sorted: Vec<(Issue, IssueActivity)> = Vec::new();
    let mut i: usize = 0;
    assert(events_view(sorted@) =~= Seq::<(IssueView, IssueActivity)>::empty());
    while i < issues.len()
        invariant
            s == issues_view(issues@),
            s.len() == issues@.len(),
            i <= issues.len(),
            events_view(sorted@) == sorted_by_key(activity_list(s.take(i as int), baseline, now), updated_key()),
        decreases issues.len() - i,
    {
        proof {
            assert(s.take(i + 1).drop_last() =~= s.take(i as int));
            assert(s.take(i + 1).last() == issues@[i as int]@);
        }
        match activity_of(&issues[i], baseline, now) {
            Some(a) => {
                insert_event(&mut sorted, (issues[i].copy(), a));
                assert(activity_list(s.take(i + 1), baseline, now).drop_last() =~= activity_list(s.take(i as int), baseline, now));
            },
            None => {},
        }
        i = i + 1;
    }
    assert(s.take(s.len() as int) =~= s);
    sorted
}

// ---------------------------------------------------------------------------
// Per-repository watermarks
// ---------------------------------------------------------------------------

/// Where tracking of one repository left off. Branch heads are kept as
/// `(branch, sha)` pairs, one per branch.
#[derive(Debug)]
pub struct RepoTrackingData {
    pub last_commit_shas: Vec<(String, String)>,
    pub last_bug_closed_at: Option<i64>,
    pub last_issue_updated_at: Option<i64>,
}

#[verifier::ext_equal]
pub struct RepoStateView {
    pub shas: Seq<(Seq<char>, Seq<char>)>,
    pub last_bug_closed_at: Option<i64>,
    pub last_issue_updated_at: Option<i64>,
}

pub open spec fn pairs_view(v: Seq<(String, String)>) -> Seq<(Seq<char>, Seq<char>)> {
    v.map_values(|p: (String, String)| (p.0@, p.1@))
}

impl View for RepoTrackingData {
    type V = RepoStateView;

    open spec fn view(&self) -> RepoStateView {
        RepoStateView {
            shas: pairs_view(self.last_commit_shas@),
            last_bug_closed_at: self.last_bug_closed_at,
            last_issue_updated_at: self.last_issue_updated_at,
        }
    }
}

impl RepoTrackingData {
    /// Nothing seen yet.
    pub fn new() -> (d: RepoTrackingData)
        ensures
            d@.shas.len() == 0,
            d@.last_bug_closed_at is None,
            d@.last_issue_updated_at is None,
    {
        RepoTrackingData { last_commit_shas: Vec::new(), last_bug_closed_at: None, last_issue_updated_at: None }
    }
}

/// The head last seen on a branch.
pub open spec fn sha_of(m: Seq<(Seq<char>, Seq<char>)>, branch: Seq<char>) -> Option<Seq<char>>
    decreases m.len(),
{
    if m.len() == 0 {
        None
    } else if m[0].0 == branch {
        Some(m[0].1)
    } else {
        sha_of(m.drop_first(), branch)
    }
}

/// The branch heads with `branch` now at `sha`.
pub open spec fn with_sha(m: Seq<(Seq<char>, Seq<char>)>, branch: Seq<char>, sha: Seq<char>) -> Seq<(Seq<char>, Seq<char>)>
    decreases m.len(),
{
    if m.len() == 0 {
        seq![(branch, sha)]
    } else if m[0].0 == branch {
        m.update(0, (branch, sha))
    } else {
        seq![m[0]] + with_sha(m.drop_first(), branch, sha)
    }
}

/// Whether some branch head is `sha`.
pub open spec fn is_known(m: Seq<(Seq<char>, Seq<char>)>, sha: Seq<char>) -> bool {
    exists|i: int| 0 <= i < m.len() && #[trigger] m[i].1 == sha
}

/// The first listed commit that is already a known branch head.
pub open spec fn first_known(cs: Seq<CommitView>, m: Seq<(Seq<char>, Seq<char>)>) -> Option<Seq<char>>
    decreases cs.len(),
{
    if cs.len() == 0 {
        None
    } else if is_known(m, cs[0].sha) {
        Some(cs[0].sha)
    } else {
        first_known(cs.drop_first(), m)
    }
}

fn lookup_sha(m: &Vec<(String, String)>, branch: &str) -> (r: Option<String>)
    ensures
        opt_view(r) == sha_of(pairs_view(m@), branch@),
{
    let ghost s = pairs_view(m@);
    let mut i: usize = 0;
    assert(s.skip(0) =~= s);
    while i < m.len()
        invariant
            s == pairs_view(m@),
            s.len() == m@.len(),
            i <= m.len(),
            sha_of(s, branch@) == sha_of(s.skip(i as int), branch@),
        decreases m.len() - i,
    {
        assert(s.skip(i as int)[0] == (m@[i as int].0@, m@[i as int].1@));
        assert(s.skip(i as int).drop_first() =~= s.skip(i + 1));
        if str_eq(m[i].0.as_str(), branch) {
            return Some(copy_string(&m[i].1));
        }
        i = i + 1;
    }
    None
}

pub open spec fn opt_view(o: Option<String>) -> Option<Seq<char>> {
    match o {
        Some(s) => Some(s@),
        None => None,
    }
}

fn put_sha(m: &mut Vec<(String, String)>, branch: &str, sha: &str)
    ensures
        pairs_view(final(m)@) == with_sha(pairs_view(old(m)@), branch@, sha@),
{
    let ghost s = pairs_view(m@);
    let mut i: usize = 0;
    assert(s.skip(0) =~= s);
    assert(s.take(0) + with_sha(s.skip(0), branch@, sha@) =~= with_sha(s, branch@, sha@));
    while i < m.len()
        invariant
            s == pairs_view(old(m)@),
            m@ == old(m)@,
            s.len() == m@.len(),
            i <= m.len(),
            forall|j: int| 0 <= j < i ==> s[j].0 != branch@,
            with_sha(s, branch@, sha@) == s.take(i as int) + with_sha(s.skip(i as int), branch@, sha@),
        decreases m.len() - i,
    {
        assert(s.skip(i as int)[0] == (m@[i as int].0@, m@[i as int].1@));
        assert(s.skip(i as int).drop_first() =~= s.skip(i + 1));
        if str_eq(m[i].0.as_str(), branch) {
            let ghost old_m = m@;
            m.set(i, (copy_string(&m[i].0), crate::text::owned(sha)));
            assert(pairs_view(m@) =~= s.update(i as int, (branch@, sha@)));
            assert(s.take(i as int) + s.skip(i as int).update(0, (branch@, sha@)) =~= s.update(i as int, (branch@, sha@)));
            return;
        }
        assert(s.take(i + 1) =~= s.take(i as int).push(s[i as int]));
        assert(s.take(i as int) + (seq![s[i as int]] + with_sha(s.skip(i + 1), branch@, sha@)) =~= s.take(i + 1) + with_sha(s.skip(i + 1), branch@, sha@));
        i = i + 1;
    }
    assert(s.skip(i as int).len() == 0);
    assert(s.take(i as int) =~= s);
    m.push((crate::text::owned(branch), crate::text::owned(sha)));
    assert(pairs_view(m@) =~= s.push((branch@, sha@)));
}

fn is_known_sha(m: &Vec<(String, String)>, sha: &str) -> (r: bool)
    ensures
        r == is_known(pairs_view(m@), sha@),
{
    let ghost s = pairs_view(m@);
    let mut i: usize = 0;
    while i < m.len()
        invariant
            s == pairs_view(m@),
            s.len() == m@.len(),
            i <= m.len(),
            forall|j: int| 0 <= j < i ==> s[j].1 != sha@,
        decreases m.len() - i,
    {
        assert(s[i as int] == (m@[i as int].0@, m@[i as int].1@));
        if str_eq(m[i].1.as_str(), sha) {
            assert(s[i as int].1 == sha@);
            return true;
        }
        i = i + 1;
    }
    false
}

fn find_first_known(cs: &Vec<Commit>, m: &Vec<(String, String)>) -> (r: Option<String>)
    ensures
        opt_view(r) == first_known(commits_view(cs@), pairs_view(m@)),
{
    let ghost s = commits_view(cs@);
    let mut i: usize = 0;
    assert(s.skip(0) =~= s);
    while i < cs.len()
        invariant
            s == commits_view(cs@),
            s.len() == cs@.len(),
            i <= cs.len(),
            first_known(s, pairs_view(m@)) == first_known(s.skip(i as int), pairs_view(m@)),
        decreases cs.len() - i,
    {
        assert(s.skip(i as int)[0] == cs@[i as int]@);
        assert(s.skip(i as int).drop_first() =~= s.skip(i + 1));
        if is_known_sha(m, cs[i].sha.as_str()) {
            return Some(copy_string(&cs[i].sha));
        }
        i = i + 1;
    }
    None
}

// ---------------------------------------------------------------------------
// Branches
// ---------------------------------------------------------------------------

/// What one branch contributes: the branch heads after it, the commits to report
/// (oldest first), and whether the watermarks changed.
pub open spec fn branch_step(
    m: Seq<(Seq<char>, Seq<char>)>,
    dirty: bool,
    first_poll: bool,
    branch: Seq<char>,
    cs: Seq<CommitView>,
) -> (Seq<(Seq<char>, Seq<char>)>, Seq<CommitView>, bool) {
    match sha_of(m, branch) {
        None => if cs.len() == 0 {
            (m, Seq::empty(), dirty)
        } else if first_poll {
            (with_sha(m, branch, cs[0].sha), Seq::empty(), true)
        } else {
            let known = first_known(cs, m);
            let m2 = with_sha(m, branch, cs[0].sha);
            if known == Some(cs[0].sha) {
                (m2, Seq::empty(), true)
            } else {
                (m2, new_commits(cs, known), true)
            }
        },
        Some(last) => {
            let nc = new_commits(cs, Some(last));
            if nc.len() > 0 {
                (with_sha(m, branch, cs[0].sha), nc, true)
            } else {
                (m, Seq::empty(), dirty)
            }
        },
    }
}

/// A branch and its latest commits (newest first), as the API lists them.
pub struct BranchCommits {
    pub branch: String,
    pub commits: Vec<Commit>,
}

pub open spec fn branches_view(v: Seq<BranchCommits>) -> Seq<(Seq<char>, Seq<CommitView>)> {
    v.map_values(|b: BranchCommits| (b.branch@, commits_view(b.commits@)))
}

/// The branches processed in order: heads, `(branch, commit)` pairs to report, dirty flag.
pub open spec fn branches_fold(
    m0: Seq<(Seq<char>, Seq<char>)>,
    first_poll: bool,
    bs: Seq<(Seq<char>, Seq<CommitView>)>,
) -> (Seq<(Seq<char>, Seq<char>)>, Seq<(Seq<char>, CommitView)>, bool)
    decreases bs.len(),
{
    if bs.len() == 0 {
        (m0, Seq::empty(), false)
    } else {
        let (m, ev, d) = branches_fold(m0, first_poll, bs.drop_last());
        let b = bs.last();
        let (m2, nc, d2) = branch_step(m, d, first_poll, b.0, b.1);
        (m2, ev + nc.map_values(|c: CommitView| (b.0, c)), d2)
    }
}

pub open spec fn pushed_view(v: Seq<(String, Commit)>) -> Seq<(Seq<char>, CommitView)> {
    v.map_values(|p: (String, Commit)| (p.0@, p.1@))
}

fn step_branch(
    m: &mut Vec<(String, String)>,
    dirty: bool,
    first_poll: bool,
    b: &BranchCommits,
    out: &mut Vec<(String, Commit)>,
) -> (d: bool)
    ensures
        ({
            let (m2, nc, d2) = branch_step(pairs_view(old(m)@), dirty, first_poll, b.branch@, commits_view(b.commits@));
            &&& pairs_view(final(m)@) == m2
            &&& pushed_view(final(out)@) == pushed_view(old(out)@) + nc.map_values(|c: CommitView| (b.branch@, c))
            &&& d == d2
        }),
{
    let ghost cs = commits_view(b.commits@);
    let ghost m0 = pairs_view(m@);
    let ghost out0 = pushed_view(out@);
    let last = lookup_sha(m, b.branch.as_str());
    let new_list: Vec<Commit>;
    let d: bool;
    match last {
        None => {
            if b.commits.len() == 0 {
                assert(nc_empty(out0, b.branch@));
                return dirty;
            }
            assert(cs[0] == b.commits@[0]@);
            let head = copy_string(&b.commits[0].sha);
            if first_poll {
                put_sha(m, b.branch.as_str(), head.as_str());
                assert(nc_empty(out0, b.branch@));
                return true;
            }
            let known = find_first_known(&b.commits, m);
            put_sha(m, b.branch.as_str(), head.as_str());
            let same = match &known {
                Some(k) => str_eq(k.as_str(), head.as_str()),
                None => false,
            };
            if same {
                assert(nc_empty(out0, b.branch@));
                return true;
            }
            new_list = match &known {
                Some(k) => collect_new_commits(&b.commits, Some(k.as_str())),
                None => collect_new_commits(&b.commits, None),
            };
            d = true;
        },
        Some(l) => {
            new_list = collect_new_commits(&b.commits, Some(l.as_str()));
            if new_list.len() == 0 {
                assert(nc_empty(out0, b.branch@));
                return dirty;
            }
            proof {
                lemma_new_commits_nonempty(cs, Some(l@));
            }
            assert(cs[0] == b.commits@[0]@);
            let head = copy_string(&b.commits[0].sha);
            put_sha(m, b.branch.as_str(), head.as_str());
            d = true;
        },
    }
    let ghost nc = commits_view(new_list@);
    let mut j: usize = 0;
    while j < new_list.len()
        invariant
            nc == commits_view(new_list@),
            nc.len() == new_list@.len(),
            j <= new_list.len(),
            pushed_view(out@) == out0 + nc.take(j as int).map_values(|c: CommitView| (b.branch@, c)),
        decreases new_list.len() - j,
    {
        let ghost before = out@;
        let item = (copy_string(&b.branch), new_list[j].copy());
        let ghost iv = (item.0@, item.1@);
        out.push(item);
        assert(iv == (b.branch@, nc[j as int]));
        assert(pushed_view(out@) =~= pushed_view(before).push(iv));
        assert(nc.take(j + 1) =~= nc.take(j as int).push(nc[j as int]));
        assert(nc.take(j + 1).map_values(|c: CommitView| (b.branch@, c)) =~= nc.take(j as int).map_values(|c: CommitView| (b.branch@, c)).push((b.branch@, nc[j as int])));
        j = j + 1;
    }
    assert(nc.take(nc.len() as int) =~= nc);
    d
}

spec fn nc_empty(out0: Seq<(Seq<char>, CommitView)>, branch: Seq<char>) -> bool {
    out0 + Seq::<CommitView>::empty().map_values(|c: CommitView| (branch, c)) =~= out0
}

proof fn lemma_new_commits_nonempty(cs: Seq<CommitView>, last: Option<Seq<char>>)
    requires
        new_commits(cs, last).len() > 0,
    ensures
        cs.len() > 0,
{
    if cs.len() == 0 {
        assert(crate::github::commits_before(cs, last) =~= Seq::<CommitView>::empty());
    }
}

/// Processes every branch in order: records new heads and collects the commits to report
/// as `(branch, commit)` pairs. On the first poll (no head recorded yet) heads are only
/// recorded; a new branch reports only commits not already known from another branch.
pub fn process_branches(
    state: &mut RepoTrackingData,
    branches: &Vec<BranchCommits>,
) -> (r: (Vec<(String, Commit)>, bool))
    ensures
        ({
            let (m, ev, d) = branches_fold(old(state)@.shas, old(state)@.shas.len() == 0, branches_view(branches@));
            &&& final(state)@ == (RepoStateView { shas: m, ..old(state)@ })
            &&& pushed_view(r.0@) == ev
            &&& r.1 == d
        }),
{
    let first_poll = state.last_commit_shas.len() == 0;
    let ghost bs = branches_view(branches@);
    let mut out: Vec<(String, Commit)> = Vec::new();
    let mut dirty = false;
    let mut i: usize = 0;
    assert(bs.take(0) =~= Seq::<(Seq<char>, Seq<CommitView>)>::empty());
    assert(pushed_view(out@) =~= Seq::<(Seq<char>, CommitView)>::empty());
    while i < branches.len()
        invariant
            bs == branches_view(branches@),
            bs.len() == branches@.len(),
            i <= branches.len(),
            first_poll == (old(state)@.shas.len() == 0),
            ({
                let (m, ev, d) = branches_fold(old(state)@.shas, first_poll, bs.take(i as int));
                &&& state@ == (RepoStateView { shas: m, ..old(state)@ })
                &&& pushed_view(out@) == ev
                &&& dirty == d
            }),
        decreases branches.len() - i,
    {
        proof {
            assert(bs.take(i + 1).drop_last() =~= bs.take(i as int));
            assert(bs.take(i + 1).last() == (branches@[i as int].branch@, commits_view(branches@[i as int].commits@)));
        }
        dirty = step_branch(&mut state.last_commit_shas, dirty, first_poll, &branches[i], &mut out);
        i = i + 1;
    }
    assert(bs.take(bs.len() as int) =~= bs);
    (out, dirty)
}

/// A branch whose listed head is already its recorded head (or that lists no commits).
pub open spec fn branch_settled(m: Seq<(Seq<char>, Seq<char>)>, branch: Seq<char>, cs: Seq<CommitView>) -> bool {
    cs.len() == 0 || sha_of(m, branch) == Some(cs[0].sha)
}

proof fn lemma_sha_of_with_sha(m: Seq<(Seq<char>, Seq<char>)>, branch: Seq<char>, sha: Seq<char>, other: Seq<char>)
    ensures
        sha_of(with_sha(m, branch, sha), branch) == Some(sha),
        other != branch ==> sha_of(with_sha(m, branch, sha), other) == sha_of(m, other),
    decreases m.len(),
{
    if m.len() == 0 {
        assert(with_sha(m, branch, sha).drop_first() =~= Seq::<(Seq<char>, Seq<char>)>::empty());
        assert(sha_of(Seq::<(Seq<char>, Seq<char>)>::empty(), other) is None);
    } else if m[0].0 == branch {
        assert(with_sha(m, branch, sha).drop_first() =~= m.drop_first());
        assert(with_sha(m, branch, sha)[0].0 == branch);
    } else {
        lemma_sha_of_with_sha(m.drop_first(), branch, sha, other);
        assert(with_sha(m, branch, sha).drop_first() =~= with_sha(m.drop_first(), branch, sha));
    }
}

/// A settled branch changes nothing and reports nothing.
proof fn lemma_settled_step(m: Seq<(Seq<char>, Seq<char>)>, dirty: bool, first_poll: bool, branch: Seq<char>, cs: Seq<CommitView>)
    requires
        branch_settled(m, branch, cs),
    ensures
        branch_step(m, dirty, first_poll, branch, cs) == (m, Seq::<CommitView>::empty(), dirty),
{
    if cs.len() > 0 {
        assert(crate::github::commits_before(cs, Some(cs[0].sha)) =~= Seq::<CommitView>::empty());
        assert(new_commits(cs, Some(cs[0].sha)) =~= Seq::<CommitView>::empty());
    } else {
        match sha_of(m, branch) {
            Some(last) => {
                assert(crate::github::commits_before(cs, Some(last)) =~= Seq::<CommitView>::empty());
                assert(new_commits(cs, Some(last)) =~= Seq::<CommitView>::empty());
            },
            None => {},
        }
    }
}

/// After a step a branch is settled, and every other branch keeps its recorded head.
proof fn lemma_step_settles(m: Seq<(Seq<char>, Seq<char>)>, dirty: bool, first_poll: bool, branch: Seq<char>, cs: Seq<CommitView>, other: Seq<char>)
    ensures
        branch_settled(branch_step(m, dirty, first_poll, branch, cs).0, branch, cs),
        other != branch ==> sha_of(branch_step(m, dirty, first_poll, branch, cs).0, other) == sha_of(m, other),
{
    if cs.len() > 0 {
        lemma_sha_of_with_sha(m, branch, cs[0].sha, other);
        match sha_of(m, branch) {
            Some(last) => {
                if last != cs[0].sha {
                    assert(crate::github::commits_before(cs, Some(last)).len() > 0);
                    assert(new_commits(cs, Some(last)).len() > 0);
                }
            },
            None => {},
        }
    }
}

/// Once the branches have been processed, each of them is settled, provided no branch is
/// listed twice.
proof fn lemma_fold_settles(m0: Seq<(Seq<char>, Seq<char>)>, first_poll: bool, bs: Seq<(Seq<char>, Seq<CommitView>)>)
    requires
        forall|i: int, j: int| 0 <= i < j < bs.len() ==> bs[i].0 != bs[j].0,
    ensures
        forall|k: int| 0 <= k < bs.len() ==> branch_settled(#[trigger] branches_fold(m0, first_poll, bs).0, bs[k].0, bs[k].1),
    decreases bs.len(),
{
    if bs.len() > 0 {
        let prev = bs.drop_last();
        lemma_fold_settles(m0, first_poll, prev);
        let (m, ev, d) = branches_fold(m0, first_poll, prev);
        let b = bs.last();
        assert forall|k: int| 0 <= k < bs.len() implies branch_settled(#[trigger] branches_fold(m0, first_poll, bs).0, bs[k].0, bs[k].1) by {
            lemma_step_settles(m, d, first_poll, b.0, b.1, bs[k].0);
            if k < bs.len() - 1 {
                assert(prev[k] == bs[k]);
                assert(bs[k].0 != b.0);
            }
        }
    }
}

/// Processing settled branches changes nothing and reports nothing.
proof fn lemma_fold_settled(m: Seq<(Seq<char>, Seq<char>)>, first_poll: bool, bs: Seq<(Seq<char>, Seq<CommitView>)>)
    requires
        forall|k: int| 0 <= k < bs.len() ==> branch_settled(m, #[trigger] bs[k].0, bs[k].1),
    ensures
        branches_fold(m, first_poll, bs) == (m, Seq::<(Seq<char>, CommitView)>::empty(), false),
    decreases bs.len(),
{
    if bs.len() > 0 {
        let prev = bs.drop_last();
        assert forall|k: int| 0 <= k < prev.len() implies branch_settled(m, #[trigger] prev[k].0, prev[k].1) by {
            assert(prev[k] == bs[k]);
        }
        lemma_fold_settled(m, first_poll, prev);
        let b = bs.last();
        assert(branch_settled(m, bs[bs.len() - 1].0, bs[bs.len() - 1].1));
        lemma_settled_step(m, false, first_poll, b.0, b.1);
        assert(Seq::<(Seq<char>, CommitView)>::empty() + Seq::<CommitView>::empty().map_values(|c: CommitView| (b.0, c))
            =~= Seq::<(Seq<char>, CommitView)>::empty());
    }
}

/// Polling the same branch listing twice reports each commit once: the second pass keeps
/// the recorded heads, reports no commit and marks nothing changed, whether or not it counts
/// as a first poll. (A listing that names a branch twice is left out.)
pub proof fn lemma_second_poll_quiet(
    m0: Seq<(Seq<char>, Seq<char>)>,
    first_poll: bool,
    bs: Seq<(Seq<char>, Seq<CommitView>)>,
    first_poll_again: bool,
)
    requires
        forall|i: int, j: int| 0 <= i < j < bs.len() ==> bs[i].0 != bs[j].0,
    ensures
        ({
            let m = branches_fold(m0, first_poll, bs).0;
            branches_fold(m, first_poll_again, bs) == (m, Seq::<(Seq<char>, CommitView)>::empty(), false)
        }),
{
    lemma_fold_settles(m0, first_poll, bs);
    let m = branches_fold(m0, first_poll, bs).0;
    assert forall|k: int| 0 <= k < bs.len() implies branch_settled(m, #[trigger] bs[k].0, bs[k].1) by {
        assert(branch_settled(branches_fold(m0, first_poll, bs).0, bs[k].0, bs[k].1));
    }
    lemma_fold_settled(m, first_poll_again, bs);
}

// ---------------------------------------------------------------------------
// Watermarks for bugs and issues
// ---------------------------------------------------------------------------

/// The latest update time among the issues.
pub open spec fn latest_updated(issues: Seq<IssueView>) -> Option<i64>
    decreases issues.len(),
{
    if issues.len() == 0 {
        None
    } else {
        let rest = latest_updated(issues.drop_last());
        match (issues.last().updated_at, rest) {
            (Some(t), Some(r)) => Some(if t > r { t } else { r }),
            (Some(t), None) => Some(t),
            (None, r) => r,
        }
    }
}

fn latest_updated_timestamp(issues: &Vec<Issue>) -> (r: Option<i64>)
    ensures
        r == latest_updated(issues_view(issues@)),
{
    let ghost s = issues_view(issues@);
    let mut best: Option<i64> = None;
    let mut i: usize = 0;
    while i < issues.len()
        invariant
            s == issues_view(issues@),
            s.len() == issues@.len(),
            i <= issues.len(),
            best == latest_updated(s.take(i as int)),
        decreases issues.len() - i,
    {
        assert(s.take(i + 1).drop_last() =~= s.take(i as int));
        assert(s.take(i + 1).last() == issues@[i as int]@);
        match (issues[i].updated_at, best) {
            (Some(t), Some(r)) => {
                best = Some(if t > r { t } else { r });
            },
            (Some(t), None) => {
                best = Some(t);
            },
            (None, _) => {},
        }
        i = i + 1;
    }
    assert(s.take(s.len() as int) =~= s);
    best
}

/// The closed-bug watermark after a poll: the latest newly closed bug, else the latest
/// closing time listed.
pub open spec fn bug_mark(bugs: Seq<IssueView>, last_closed: Option<i64>, now: i64) -> Option<i64> {
    let nb = new_closed_bugs(bugs, last_closed, now);
    if nb.len() > 0 && nb.last().closed_at is Some {
        nb.last().closed_at
    } else {
        latest_closed(bugs)
    }
}

/// The issue watermark after a poll: the latest update listed, else the old one.
pub open spec fn issue_mark(issues: Seq<IssueView>, last: Option<i64>) -> Option<i64> {
    match latest_updated(issues) {
        Some(t) => Some(t),
        None => last,
    }
}

/// The watermarks after polling bugs and issues.
pub open spec fn issues_polled(st: RepoStateView, bugs: Seq<IssueView>, issues: Seq<IssueView>, now: i64) -> RepoStateView {
    RepoStateView {
        shas: st.shas,
        last_bug_closed_at: match bug_mark(bugs, st.last_bug_closed_at, now) {
            Some(t) => Some(t),
            None => st.last_bug_closed_at,
        },
        last_issue_updated_at: issue_mark(issues, st.last_issue_updated_at),
    }
}

/// Whether polling bugs and issues moved a watermark.
pub open spec fn issues_dirty(st: RepoStateView, bugs: Seq<IssueView>, issues: Seq<IssueView>, now: i64) -> bool {
    (bug_mark(bugs, st.last_bug_closed_at, now) matches Some(t) && st.last_bug_closed_at != Some(t))
        || (issue_mark(issues, st.last_issue_updated_at) matches Some(t) && st.last_issue_updated_at != Some(t))
}

/// What polling bugs and issues yields: closed bugs to report, issue events to report,
/// and the updated watermarks with whether they changed.
pub struct IssuePoll {
    pub closed_bugs: Vec<Issue>,
    pub events: Vec<(Issue, IssueActivity)>,
    pub dirty: bool,
}

/// Finds newly closed bugs and issue activity and moves the watermarks forward.
pub fn process_issues(state: &mut RepoTrackingData, bugs: &Vec<Issue>, issues: &Vec<Issue>, now: i64) -> (r: IssuePoll)
    ensures
        issues_view(r.closed_bugs@) == new_closed_bugs(issues_view(bugs@), old(state)@.last_bug_closed_at, now),
        events_view(r.events@) == issue_events(issues_view(issues@), old(state)@.last_issue_updated_at, now),
        final(state)@ == issues_polled(old(state)@, issues_view(bugs@), issues_view(issues@), now),
        r.dirty == issues_dirty(old(state)@, issues_view(bugs@), issues_view(issues@), now),
{
    let mut dirty = false;
    let closed_bugs = collect_closed_bugs(bugs, state.last_bug_closed_at, now);
    let nb_len = closed_bugs.len();
    let mark = if nb_len > 0 && closed_bugs[nb_len - 1].closed_at.is_some() {
        assert(issues_view(closed_bugs@).last() == closed_bugs@[nb_len - 1]@);
        closed_bugs[nb_len - 1].closed_at
    } else {
        latest_closed_timestamp(bugs)
    };
    if let Some(t) = mark {
        if state.last_bug_closed_at != Some(t) {
            state.last_bug_closed_at = Some(t);
            dirty = true;
        }
    }
    let events = collect_issue_events(issues, state.last_issue_updated_at, now);
    let latest = match latest_updated_timestamp(issues) {
        Some(t) => Some(t),
        None => state.last_issue_updated_at,
    };
    if let Some(t) = latest {
        if state.last_issue_updated_at != Some(t) {
            state.last_issue_updated_at = Some(t);
            dirty = true;
        }
    }
    IssuePoll { closed_bugs, events, dirty }
}

} // verus!
