//! GitHub tracking: which commits, closed bugs and issue changes are new since the last poll.
//!
//! Calling the GitHub API and persisting the configuration are the caller's part; these
//! functions decide from what the API returned and what was stored.
use crate::text::{copy_string, owned, push_str, str_eq, str_eq_ignore_ascii_case, eq_ignore_ascii_case};
use vstd::prelude::*;

verus! {

/// Errors of the GitHub tracking workflow.
#[derive(Debug)]
pub enum GithubError {
    Api(String),
    Store(String),
}

pub open spec fn github_error_text(e: GithubError) -> Seq<char> {
    match e {
        GithubError::Api(m) => "GitHub API error: "@ + m@,
        GithubError::Store(m) => "Failed to persist GitHub config: "@ + m@,
    }
}

impl GithubError {
    /// The human-readable message of the error.
    pub fn message(&self) -> (s: String)
        ensures
            s@ == github_error_text(*self),
    {
        proof {
            reveal_strlit("GitHub API error: ");
            reveal_strlit("Failed to persist GitHub config: ");
        }
        match self {
            GithubError::Api(m) => {
                let mut s = owned("GitHub API error: ");
                push_str(&mut s, m.as_str());
                s
            },
            GithubError::Store(m) => {
                let mut s = owned("Failed to persist GitHub config: ");
                push_str(&mut s, m.as_str());
                s
            },
        }
    }
}

pub open spec fn opt_str(o: Option<String>) -> Option<Seq<char>> {
    match o {
        Some(s) => Some(s@),
        None => None,
    }
}

pub(crate) fn copy_opt(o: &Option<String>) -> (r: Option<String>)
    ensures
        opt_str(r) == opt_str(*o),
{
    match o {
        Some(s) => Some(copy_string(s)),
        None => None,
    }
}

/// A commit, independent of any HTTP or Discord type. Times are milliseconds since the epoch.
#[derive(Debug)]
pub struct Commit {
    pub sha: String,
    pub message: String,
    pub author_name: String,
    pub html_url: String,
    pub avatar_url: Option<String>,
    pub committed_at: Option<i64>,
}

#[verifier::ext_equal]
pub struct CommitView {
    pub sha: Seq<char>,
    pub message: Seq<char>,
    pub author_name: Seq<char>,
    pub html_url: Seq<char>,
    pub avatar_url: Option<Seq<char>>,
    pub committed_at: Option<i64>,
}

impl View for Commit {
    type V = CommitView;

    open spec fn view(&self) -> CommitView {
        CommitView {
            sha: self.sha@,
            message: self.message@,
            author_name: self.author_name@,
            html_url: self.html_url@,
            avatar_url: opt_str(self.avatar_url),
            committed_at: self.committed_at,
        }
    }
}

impl Commit {
    /// A copy of the commit.
    pub fn copy(&self) -> (c: Commit)
        ensures
            c@ == self@,
    {
        Commit {
            sha: copy_string(&self.sha),
            message: copy_string(&self.message),
            author_name: copy_string(&self.author_name),
            html_url: copy_string(&self.html_url),
            avatar_url: copy_opt(&self.avatar_url),
            committed_at: self.committed_at,
        }
    }
}

/// Whether an issue is open or closed.
#[derive(Debug, Clone, Copy, PartialEq, Eq, Structural)]
pub enum IssueState {
    Open,
    Closed,
}

/// What happened to an issue since the last poll.
#[derive(Debug, Clone, Copy, PartialEq, Eq, Structural)]
pub enum IssueActivity {
    Opened,
    Updated,
    Closed,
}

/// An issue (bug or not). Times are milliseconds since the epoch.
#[derive(Debug)]
pub struct Issue {
    pub number: u64,
    pub title: String,
    pub html_url: String,
    pub reporter: Option<String>,
    pub assignee: Option<String>,
    pub closed_by: Option<String>,
    pub labels: Vec<String>,
    pub state: IssueState,
    pub created_at: Option<i64>,
    pub updated_at: Option<i64>,
    pub closed_at: Option<i64>,
    pub is_bug: bool,
}

#[verifier::ext_equal]
pub struct IssueView {
    pub number: u64,
    pub title: Seq<char>,
    pub html_url: Seq<char>,
    pub reporter: Option<Seq<char>>,
    pub assignee: Option<Seq<char>>,
    pub closed_by: Option<Seq<char>>,
    pub labels: Seq<Seq<char>>,
    pub state: IssueState,
    pub created_at: Option<i64>,
    pub updated_at: Option<i64>,
    pub closed_at: Option<i64>,
    pub is_bug: bool,
}

pub open spec fn strings_view(v: Seq<String>) -> Seq<Seq<char>> {
    v.map_values(|s: String| s@)
}

impl View for Issue {
    type V = IssueView;

    open spec fn view(&self) -> IssueView {
        IssueView {
            number: self.number,
            title: self.title@,
            html_url: self.html_url@,
            reporter: opt_str(self.reporter),
            assignee: opt_str(self.assignee),
            closed_by: opt_str(self.closed_by),
            labels: strings_view(self.labels@),
            state: self.state,
            created_at: self.created_at,
            updated_at: self.updated_at,
            closed_at: self.closed_at,
            is_bug: self.is_bug,
        }
    }
}

pub(crate) fn copy_strings(v: &Vec<String>) -> (r: Vec<String>)
    ensures
        strings_view(r@) == strings_view(v@),
{
    let mut r: Vec<String> = Vec::new();
    let mut i: usize = 0;
    while i < v.len()
        invariant
            i <= v.len(),
            strings_view(r@) == strings_view(v@).take(i as int),
        decreases v.len() - i,
    {
        let ghost before = r@;
        r.push(copy_string(&v[i]));
        assert(strings_view(r@) =~= strings_view(before).push(v@[i as int]@));
        i = i + 1;
        assert(strings_view(r@) =~= strings_view(v@).take(i as int));
    }
    assert(strings_view(v@).take(v@.len() as int) =~= strings_view(v@));
    r
}

impl Issue {
    /// A copy of the issue.
    pub fn copy(&self) -> (c: Issue)
        ensures
            c@ == self@,
    {
        Issue {
            number: self.number,
            title: copy_string(&self.title),
            html_url: copy_string(&self.html_url),
            reporter: copy_opt(&self.reporter),
            assignee: copy_opt(&self.assignee),
            closed_by: copy_opt(&self.closed_by),
            labels: copy_strings(&self.labels),
            state: self.state,
            created_at: self.created_at,
            updated_at: self.updated_at,
            closed_at: self.closed_at,
            is_bug: self.is_bug,
        }
    }
}

pub open spec fn commits_view(s: Seq<Commit>) -> Seq<CommitView> {
    s.map_values(|c: Commit| c@)
}

pub open spec fn issues_view(s: Seq<Issue>) -> Seq<IssueView> {
    s.map_values(|i: Issue| i@)
}

// ---------------------------------------------------------------------------
// Commits
// ---------------------------------------------------------------------------

/// The commits before the first one whose sha is `last_seen` (newest first, as listed).
pub open spec fn commits_before(cs: Seq<CommitView>, last_seen: Option<Seq<char>>) -> Seq<CommitView>
    decreases cs.len(),
{
    if cs.len() == 0 || last_seen == Some(cs[0].sha) {
        Seq::empty()
    } else {
        seq![cs[0]] + commits_before(cs.drop_first(), last_seen)
    }
}

/// Commits newer than `last_seen`, oldest first.
pub open spec fn new_commits(cs: Seq<CommitView>, last_seen: Option<Seq<char>>) -> Seq<CommitView> {
    commits_before(cs, last_seen).reverse()
}

proof fn lemma_commits_before_step(cs: Seq<CommitView>, last: Option<Seq<char>>, i: int)
    requires
        0 <= i < cs.len(),
        forall|j: int| 0 <= j < i ==> last != Some(cs[j].sha),
    ensures
        commits_before(cs, last) == cs.take(i) + commits_before(cs.skip(i), last),
    decreases i,
{
    if i > 0 {
        lemma_commits_before_step(cs.drop_first(), last, i - 1);
        assert(cs.drop_first().take(i - 1) =~= cs.take(i).drop_first());
        assert(cs.drop_first().skip(i - 1) =~= cs.skip(i));
        assert(cs.take(i) =~= seq![cs[0]] + cs.take(i).drop_first());
    } else {
        assert(cs.skip(0) =~= cs);
    }
}

fn sha_matches(c: &Commit, last_seen: Option<&str>) -> (b: bool)
    ensures
        b == ((match last_seen {
            Some(s) => Some(s@),
            None => None,
        }) == Some(c.sha@)),
{
    match last_seen {
        Some(s) => str_eq(c.sha.as_str(), s),
        None => false,
    }
}

/// Collects the commits newer than `last_seen`, oldest first.
pub fn collect_new_commits(commits: &Vec<Commit>, last_seen: Option<&str>) -> (r: Vec<Commit>)
    ensures
        commits_view(r@) == new_commits(
            commits_view(commits@),
            match last_seen {
                Some(s) => Some(s@),
                None => None,
            },
        ),
{
    let ghost last: Option<Seq<char>> = match last_seen {
        Some(s) => Some(s@),
        None => None,
    };
    let ghost cs = commits_view(commits@);
    let mut taken: Vec<Commit> = Vec::new();
    let mut i: usize = 0;
    while i < commits.len() && !sha_matches(&commits[i], last_seen)
        invariant
            cs == commits_view(commits@),
            cs.len() == commits@.len(),
            i <= commits.len(),
            commits_view(taken@) == cs.take(i as int),
            forall|j: int| 0 <= j < i ==> last != Some(#[trigger] cs[j].sha),
            last == (match last_seen {
                Some(s) => Some(s@),
                None => None,
            }),
        decreases commits.len() - i,
    {
        assert(cs[i as int] == commits@[i as int]@);
        let ghost before = taken@;
        taken.push(commits[i].copy());
        assert(commits_view(taken@) =~= commits_view(before).push(cs[i as int]));
        i = i + 1;
        assert(commits_view(taken@) =~= cs.take(i as int));
    }
    proof {
        if i < commits.len() {
            assert(cs[i as int] == commits@[i as int]@);
            lemma_commits_before_step(cs, last, i as int);
            assert(cs.skip(i as int)[0] == cs[i as int]);
            assert(commits_before(cs.skip(i as int), last) =~= Seq::<CommitView>::empty());
        } else {
            if cs.len() > 0 {
                lemma_commits_before_step(cs, last, cs.len() - 1);
                let t = cs.skip(cs.len() - 1);
                assert(commits_before(t.drop_first(), last) =~= Seq::<CommitView>::empty());
                assert(cs.take(cs.len() - 1) + t =~= cs);
            }
        }
        assert(commits_before(cs, last) =~= cs.take(i as int));
    }
    // oldest first
    let mut r: Vec<Commit> = Vec::new();
    let mut k: usize = taken.len();
    while k > 0
        invariant
            k <= taken.len(),
            commits_view(r@) == commits_view(taken@).skip(k as int).reverse(),
        decreases k,
    {
        k = k - 1;
        let ghost before = r@;
        assert(commits_view(taken@)[k as int] == taken@[k as int]@);
        let c = taken[k].copy();
        let ghost cv = c@;
        r.push(c);
        assert(commits_view(r@) =~= commits_view(before).push(cv));
        assert(commits_view(r@) =~= commits_view(taken@).skip(k as int).reverse());
    }
    assert(commits_view(taken@).skip(0) =~= commits_view(taken@));
    r
}

// ---------------------------------------------------------------------------
// Time-ordered lists
// ---------------------------------------------------------------------------

/// Where `x` goes in a list ordered by `key`: after every element with key at most its own.
pub open spec fn after_pos<T>(s: Seq<T>, x: T, key: spec_fn(T) -> int) -> int
    decreases s.len(),
{
    if s.len() == 0 {
        0
    } else if key(s[0]) > key(x) {
        0
    } else {
        1 + after_pos(s.drop_first(), x, key)
    }
}

/// `s` ordered by `key`, ascending, equal keys keeping their order.
pub open spec fn sorted_by_key<T>(s: Seq<T>, key: spec_fn(T) -> int) -> Seq<T>
    decreases s.len(),
{
    if s.len() == 0 {
        s
    } else {
        let t = sorted_by_key(s.drop_last(), key);
        t.insert(after_pos(t, s.last(), key), s.last())
    }
}

proof fn lemma_after_pos_bounds<T>(s: Seq<T>, x: T, key: spec_fn(T) -> int)
    ensures
        0 <= after_pos(s, x, key) <= s.len(),
        forall|k: int| 0 <= k < after_pos(s, x, key) ==> key(s[k]) <= key(x),
        after_pos(s, x, key) < s.len() ==> key(s[after_pos(s, x, key)]) > key(x),
    decreases s.len(),
{
    if s.len() > 0 && key(s[0]) <= key(x) {
        lemma_after_pos_bounds(s.drop_first(), x, key);
        assert forall|k: int| 0 <= k < after_pos(s, x, key) implies key(s[k]) <= key(x) by {
            if k > 0 {
                assert(s[k] == s.drop_first()[k - 1]);
            }
        }
    }
}

/// A key-ordered list is ascending.
pub proof fn lemma_sorted_by_key_ascending<T>(s: Seq<T>, key: spec_fn(T) -> int)
    ensures
        sorted_by_key(s, key).len() == s.len(),
        forall|i: int, j: int| 0 <= i < j < s.len() ==> key(sorted_by_key(s, key)[i]) <= key(sorted_by_key(s, key)[j]),
    decreases s.len(),
{
    if s.len() > 0 {
        let t = sorted_by_key(s.drop_last(), key);
        lemma_sorted_by_key_ascending(s.drop_last(), key);
        let x = s.last();
        let k = after_pos(t, x, key);
        lemma_after_pos_bounds(t, x, key);
        let u = t.insert(k, x);
        assert forall|i: int, j: int| 0 <= i < j < u.len() implies key(u[i]) <= key(u[j]) by {
            if j < k {
            } else if i > k {
                assert(u[i] == t[i - 1] && u[j] == t[j - 1]);
            } else if i == k {
                assert(u[j] == t[j - 1]);
                if j - 1 > k {
                    assert(key(t[k]) <= key(t[j - 1]));
                }
            } else {
                if j != k {
                    assert(u[j] == t[j - 1]);
                    assert(key(t[i]) <= key(t[j - 1]));
                }
            }
        }
    }
}

/// A key-ordered list holds exactly the elements of the list it was made from.
pub proof fn lemma_sorted_by_key_permutation<T>(s: Seq<T>, key: spec_fn(T) -> int)
    ensures
        sorted_by_key(s, key).to_multiset() =~= s.to_multiset(),
    decreases s.len(),
{
    broadcast use vstd::multiset::group_multiset_axioms, vstd::seq_lib::group_to_multiset_ensures;

    if s.len() > 0 {
        let t = sorted_by_key(s.drop_last(), key);
        lemma_sorted_by_key_permutation(s.drop_last(), key);
        lemma_after_pos_bounds(t, s.last(), key);
        let k = after_pos(t, s.last(), key);
        vstd::seq_lib::lemma_seq_union_to_multiset_commutative(t.subrange(0, k), t.subrange(k, t.len() as int));
        assert(t.insert(k, s.last()) =~= t.subrange(0, k).push(s.last()) + t.subrange(k, t.len() as int));
        assert(t =~= t.subrange(0, k) + t.subrange(k, t.len() as int));
        vstd::seq_lib::lemma_multiset_commutative(t.subrange(0, k).push(s.last()), t.subrange(k, t.len() as int));
        vstd::seq_lib::lemma_multiset_commutative(t.subrange(0, k), t.subrange(k, t.len() as int));
        assert(s =~= s.drop_last().push(s.last()));
    }
}

// ---------------------------------------------------------------------------
// Closed bugs
// ---------------------------------------------------------------------------

/// Milliseconds in thirty minutes: how far back the first poll looks.
pub const FIRST_RUN_WINDOW_MS: i64 = 1_800_000;

/// A closed bug that is new: after the stored watermark, or on the first poll, closed in
/// the last thirty minutes.
pub open spec fn is_new_closed_bug(i: IssueView, last_closed: Option<i64>, now: i64) -> bool {
    &&& i.state == IssueState::Closed
    &&& i.is_bug
    &&& i.closed_at is Some
    &&& match last_closed {
        None => i.closed_at->0 >= now - FIRST_RUN_WINDOW_MS,
        Some(b) => i.closed_at->0 > b,
    }
}

pub open spec fn closed_key() -> spec_fn(IssueView) -> int {
    |i: IssueView| match i.closed_at {
        Some(t) => t as int,
        None => i64::MIN as int - 1,
    }
}

pub open spec fn new_bug_pred(last_closed: Option<i64>, now: i64) -> spec_fn(IssueView) -> bool {
    |i: IssueView| is_new_closed_bug(i, last_closed, now)
}

/// The newly closed bugs, ordered by closing time.
pub open spec fn new_closed_bugs(issues: Seq<IssueView>, last_closed: Option<i64>, now: i64) -> Seq<IssueView> {
    sorted_by_key(issues.filter(new_bug_pred(last_closed, now)), closed_key())
}

/// The latest closing time among the issues.
pub open spec fn latest_closed(issues: Seq<IssueView>) -> Option<i64>
    decreases issues.len(),
{
    if issues.len() == 0 {
        None
    } else {
        let rest = latest_closed(issues.drop_last());
        match (issues.last().closed_at, rest) {
            (Some(t), Some(r)) => Some(if t > r { t } else { r }),
            (Some(t), None) => Some(t),
            (None, r) => r,
        }
    }
}

/// The latest closing time among the issues, if any has one.
pub fn latest_closed_timestamp(issues: &Vec<Issue>) -> (r: Option<i64>)
    ensures
        r == latest_closed(issues_view(issues@)),
{
    let ghost s = issues_view(issues@);
    let mut best: Option<i64> = None;
    let mut i: usize = 0;
    while i < issues.len()
        invariant
            s == issues_view(issues@),
            i <= issues.len(),
            best == latest_closed(s.take(i as int)),
        decreases issues.len() - i,
    {
        assert(s.take(i + 1).drop_last() =~= s.take(i as int));
        assert(s.take(i + 1).last() == issues@[i as int]@);
        match (issues[i].closed_at, best) {
            (Some(t), Some(r)) => {
                best = Some(if t > r { t } else { r });
            },
            (Some(t), None) => {
                best = Some(t);
            },
            (None, _) => {},
        }
        i = i + 1;
    }
    assert(s.len() == issues@.len());
    assert(s.take(s.len() as int) =~= s);
    best
}

fn key_of_closed(i: &Issue) -> (k: i128)
    ensures
        k == (closed_key())(i@),
{
    match i.closed_at {
        Some(t) => t as i128,
        None => i64::MIN as i128 - 1,
    }
}

fn insert_by_closed(sorted: &mut Vec<Issue>, x: Issue)
    ensures
        issues_view(final(sorted)@) == issues_view(old(sorted)@).insert(
            after_pos(issues_view(old(sorted)@), x@, closed_key()),
            x@,
        ),
{
    let ghost s = issues_view(sorted@);
    let kx = key_of_closed(&x);
    let mut k: usize = 0;
    assert(s.skip(0) =~= s);
    while k < sorted.len() && key_of_closed(&sorted[k]) <= kx
        invariant
            k <= sorted.len(),
            s == issues_view(sorted@),
            kx == (closed_key())(x@),
            after_pos(s, x@, closed_key()) == k + after_pos(s.skip(k as int), x@, closed_key()),
        decreases sorted.len() - k,
    {
        assert(s.skip(k as int)[0] == sorted@[k as int]@);
        assert(s.skip(k as int).drop_first() =~= s.skip(k + 1));
        k = k + 1;
    }
    proof {
        if k == sorted.len() {
            assert(s.skip(k as int).len() == 0);
        } else {
            assert(s.skip(k as int)[0] == sorted@[k as int]@);
        }
        lemma_after_pos_bounds(s, x@, closed_key());
    }
    let ghost xv = x@;
    sorted.insert(k, x);
    assert(issues_view(sorted@) =~= s.insert(k as int, xv));
}

/// Finds the bugs closed since the stored watermark (or, on the first poll, in the last
/// thirty minutes), ordered by closing time.
pub fn collect_closed_bugs(issues: &Vec<Issue>, last_closed: Option<i64>, now: i64) -> (r: Vec<Issue>)
    ensures
        issues_view(r@) == new_closed_bugs(issues_view(issues@), last_closed, now),
{
    let ghost s = issues_view(issues@);
    let ghost pred = new_bug_pred(last_closed, now);
    let cutoff: i128 = now as i128 - FIRST_RUN_WINDOW_MS as i128;
    let mut sorted: Vec<Issue> = Vec::new();
    let mut i: usize = 0;
    while i < issues.len()
        invariant
            s == issues_view(issues@),
            i <= issues.len(),
            cutoff == now - FIRST_RUN_WINDOW_MS,
            pred == new_bug_pred(last_closed, now),
            issues_view(sorted@) == sorted_by_key(s.take(i as int).filter(pred), closed_key()),
        decreases issues.len() - i,
    {
        let it = &issues[i];
        let is_new = it.state == IssueState::Closed && it.is_bug && match it.closed_at {
            Some(c) => match last_closed {
                None => c as i128 >= cutoff,
                Some(b) => c > b,
            },
            None => false,
        };
        proof {
            assert(s.take(i + 1).drop_last() =~= s.take(i as int));
            assert(s.take(i + 1).last() == it@);
            s.take(i as int).lemma_filter_push(it@, pred);
            assert(s.take(i + 1) =~= s.take(i as int).push(it@));
            assert(pred(it@) == is_new_closed_bug(it@, last_closed, now));
            assert(is_new == is_new_closed_bug(it@, last_closed, now));
        }
        if is_new {
            insert_by_closed(&mut sorted, it.copy());
            assert(s.take(i + 1).filter(pred) == s.take(i as int).filter(pred).push(it@));
            assert(s.take(i + 1).filter(pred).drop_last() =~= s.take(i as int).filter(pred));
        }
        i = i + 1;
    }
    assert(s.len() == issues@.len());
    assert(s.take(s.len() as int) =~= s);
    sorted
}

} // verus!
