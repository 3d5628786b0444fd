//! Which repositories and organizations each guild tracks, and where each left off.
use crate::github::{copy_opt, copy_strings, opt_str, strings_view};
use crate::github_poll::{pairs_view, RepoStateView, RepoTrackingData};
use crate::text::{copy_string, decimal, eq_ignore_ascii_case, joined, owned, push_decimal, push_str, str_eq, str_eq_ignore_ascii_case, strings_seq};
use std::collections::HashMap;
use vstd::prelude::*;

verus! {

broadcast use vstd::std_specs::hash::group_hash_axioms;

// ---------------------------------------------------------------------------
// Copies
// ---------------------------------------------------------------------------

pub(crate) fn copy_pairs(v: &Vec<(String, String)>) -> (r: Vec<(String, String)>)
    ensures
        pairs_view(r@) == pairs_view(v@),
{
    let mut r: Vec<(String, String)> = Vec::new();
    let mut i: usize = 0;
    while i < v.len()
        invariant
            i <= v.len(),
            pairs_view(r@) == pairs_view(v@).take(i as int),
        decreases v.len() - i,
    {
        let ghost before = r@;
        r.push((copy_string(&v[i].0), copy_string(&v[i].1)));
        assert(pairs_view(r@) =~= pairs_view(before).push((v@[i as int].0@, v@[i as int].1@)));
        i = i + 1;
        assert(pairs_view(r@) =~= pairs_view(v@).take(i as int));
    }
    assert(pairs_view(v@).take(v@.len() as int) =~= pairs_view(v@));
    r
}

impl RepoTrackingData {
    /// A copy of the watermarks.
    pub fn copy(&self) -> (c: RepoTrackingData)
        ensures
            c@ == self@,
    {
        RepoTrackingData {
            last_commit_shas: copy_pairs(&self.last_commit_shas),
            last_bug_closed_at: self.last_bug_closed_at,
            last_issue_updated_at: self.last_issue_updated_at,
        }
    }
}

pub open spec fn states_view(v: Seq<(String, RepoTrackingData)>) -> Seq<(Seq<char>, RepoStateView)> {
    v.map_values(|p: (String, RepoTrackingData)| (p.0@, p.1@))
}

fn copy_states(v: &Vec<(String, RepoTrackingData)>) -> (r: Vec<(String, RepoTrackingData)>)
    ensures
        states_view(r@) == states_view(v@),
{
    let mut r: Vec<(String, RepoTrackingData)> = Vec::new();
    let mut i: usize = 0;
    while i < v.len()
        invariant
            i <= v.len(),
            states_view(r@) == states_view(v@).take(i as int),
        decreases v.len() - i,
    {
        let ghost before = r@;
        r.push((copy_string(&v[i].0), v[i].1.copy()));
        assert(states_view(r@) =~= states_view(before).push((v@[i as int].0@, v@[i as int].1@)));
        i = i + 1;
        assert(states_view(r@) =~= states_view(v@).take(i as int));
    }
    assert(states_view(v@).take(v@.len() as int) =~= states_view(v@));
    r
}

// ---------------------------------------------------------------------------
// Keyed lists
// ---------------------------------------------------------------------------

/// The value stored under `k` in a list of `(key, value)` pairs (the first such pair).
pub open spec fn assoc_get<V>(m: Seq<(Seq<char>, V)>, k: Seq<char>) -> Option<V>
    decreases m.len(),
{
    if m.len() == 0 {
        None
    } else if m[0].0 == k {
        Some(m[0].1)
    } else {
        assoc_get(m.drop_first(), k)
    }
}

/// The list with `k` now mapped to `v`: the first pair with key `k` replaced, or a new
/// pair at the end.
pub open spec fn assoc_put<V>(m: Seq<(Seq<char>, V)>, k: Seq<char>, v: V) -> Seq<(Seq<char>, V)>
    decreases m.len(),
{
    if m.len() == 0 {
        seq![(k, v)]
    } else if m[0].0 == k {
        m.update(0, (k, v))
    } else {
        seq![m[0]] + assoc_put(m.drop_first(), k, v)
    }
}

pub(crate) fn lookup_state(m: &Vec<(String, RepoTrackingData)>, key: &str) -> (r: Option<RepoTrackingData>)
    ensures
        match r {
            Some(d) => assoc_get(states_view(m@), key@) == Some(d@),
            None => assoc_get(states_view(m@), key@) is None,
        },
{
    let ghost s = states_view(m@);
    let mut i: usize = 0;
    assert(s.skip(0) =~= s);
    while i < m.len()
        invariant
            s == states_view(m@),
            s.len() == m@.len(),
            i <= m.len(),
            assoc_get(s, key@) == assoc_get(s.skip(i as int), key@),
        decreases m.len() - i,
    {
        assert(s.skip(i as int)[0] == (m@[i as int].0@, m@[i as int].1@));
        assert(s.skip(i as int).drop_first() =~= s.skip(i + 1));
        if str_eq(m[i].0.as_str(), key) {
            return Some(m[i].1.copy());
        }
        i = i + 1;
    }
    None
}

pub(crate) fn put_state(m: &mut Vec<(String, RepoTrackingData)>, key: String, d: RepoTrackingData)
    ensures
        states_view(final(m)@) == assoc_put(states_view(old(m)@), key@, d@),
{
    let ghost s = states_view(m@);
    let ghost kv = (key@, d@);
    let mut i: usize = 0;
    assert(s.skip(0) =~= s);
    assert(s.take(0) + assoc_put(s.skip(0), key@, d@) =~= assoc_put(s, key@, d@));
    while i < m.len()
        invariant
            s == states_view(old(m)@),
            m@ == old(m)@,
            s.len() == m@.len(),
            i <= m.len(),
            kv == (key@, d@),
            assoc_put(s, key@, d@) == s.take(i as int) + assoc_put(s.skip(i as int), key@, d@),
        decreases m.len() - i,
    {
        assert(s.skip(i as int)[0] == (m@[i as int].0@, m@[i as int].1@));
        assert(s.skip(i as int).drop_first() =~= s.skip(i + 1));
        if str_eq(m[i].0.as_str(), key.as_str()) {
            m.set(i, (key, d));
            assert(states_view(m@) =~= s.update(i as int, kv));
            assert(s.take(i as int) + s.skip(i as int).update(0, kv) =~= s.update(i as int, kv));
            return;
        }
        assert(s.take(i + 1) =~= s.take(i as int).push(s[i as int]));
        assert(s.take(i as int) + (seq![s[i as int]] + assoc_put(s.skip(i + 1), key@, d@)) =~= s.take(i + 1)
            + assoc_put(s.skip(i + 1), key@, d@));
        i = i + 1;
    }
    assert(s.skip(i as int).len() == 0);
    assert(s.take(i as int) =~= s);
    m.push((key, d));
    assert(states_view(m@) =~= s.push(kv));
}

// ---------------------------------------------------------------------------
// Tracking entries
// ---------------------------------------------------------------------------

/// One tracked item of a guild: a single repository, or an organization whose
/// repositories are all tracked. A repository's watermarks live in the entry itself; an
/// organization keeps one set per `owner/repo` key in `repo_data`.
#[derive(Debug)]
pub struct GithubTrackingEntry {
    pub owner: String,
    pub repo: Option<String>,
    pub channel_id: u64,
    pub last_commit_shas: Vec<(String, String)>,
    pub last_bug_closed_at: Option<i64>,
    pub last_issue_updated_at: Option<i64>,
    pub is_org: bool,
    pub org_repos: Vec<String>,
    pub repo_data: Vec<(String, RepoTrackingData)>,
}

#[verifier::ext_equal]
pub struct EntryView {
    pub owner: Seq<char>,
    pub repo: Option<Seq<char>>,
    pub channel_id: u64,
    pub state: RepoStateView,
    pub is_org: bool,
    pub org_repos: Seq<Seq<char>>,
    pub repo_data: Seq<(Seq<char>, RepoStateView)>,
}

impl View for GithubTrackingEntry {
    type V = EntryView;

    open spec fn view(&self) -> EntryView {
        EntryView {
            owner: self.owner@,
            repo: opt_str(self.repo),
            channel_id: self.channel_id,
            state: RepoStateView {
                shas: pairs_view(self.last_commit_shas@),
                last_bug_closed_at: self.last_bug_closed_at,
                last_issue_updated_at: self.last_issue_updated_at,
            },
            is_org: self.is_org,
            org_repos: strings_view(self.org_repos@),
            repo_data: states_view(self.repo_data@),
        }
    }
}

pub open spec fn blank_state() -> RepoStateView {
    RepoStateView { shas: Seq::empty(), last_bug_closed_at: None, last_issue_updated_at: None }
}

/// A freshly tracked repository.
pub open spec fn repo_entry(owner: Seq<char>, repo: Seq<char>, channel_id: u64) -> EntryView {
    EntryView {
        owner,
        repo: Some(repo),
        channel_id,
        state: blank_state(),
        is_org: false,
        org_repos: Seq::empty(),
        repo_data: Seq::empty(),
    }
}

/// A freshly tracked organization.
pub open spec fn org_entry(org: Seq<char>, channel_id: u64, repos: Seq<Seq<char>>) -> EntryView {
    EntryView {
        owner: org,
        repo: None,
        channel_id,
        state: blank_state(),
        is_org: true,
        org_repos: repos,
        repo_data: Seq::empty(),
    }
}

impl GithubTrackingEntry {
    /// An entry for one repository (all branches).
    pub fn new_repo(owner: &str, repo: &str, channel_id: u64) -> (e: GithubTrackingEntry)
        ensures
            e@ == repo_entry(owner@, repo@, channel_id),
    {
        let e = GithubTrackingEntry {
            owner: crate::text::owned(owner),
            repo: Some(crate::text::owned(repo)),
            channel_id,
            last_commit_shas: Vec::new(),
            last_bug_closed_at: None,
            last_issue_updated_at: None,
            is_org: false,
            org_repos: Vec::new(),
            repo_data: Vec::new(),
        };
        assert(e@ =~= repo_entry(owner@, repo@, channel_id));
        e
    }

    /// An entry for an organization and its repositories.
    pub fn new_org(org: &str, channel_id: u64, repos: Vec<String>) -> (e: GithubTrackingEntry)
        ensures
            e@ == org_entry(org@, channel_id, strings_view(repos@)),
    {
        let e = GithubTrackingEntry {
            owner: crate::text::owned(org),
            repo: None,
            channel_id,
            last_commit_shas: Vec::new(),
            last_bug_closed_at: None,
            last_issue_updated_at: None,
            is_org: true,
            org_repos: repos,
            repo_data: Vec::new(),
        };
        assert(e@ =~= org_entry(org@, channel_id, strings_view(repos@)));
        e
    }

    /// A copy of the entry.
    pub fn copy(&self) -> (c: GithubTrackingEntry)
        ensures
            c@ == self@,
    {
        GithubTrackingEntry {
            owner: copy_string(&self.owner),
            repo: copy_opt(&self.repo),
            channel_id: self.channel_id,
            last_commit_shas: copy_pairs(&self.last_commit_shas),
            last_bug_closed_at: self.last_bug_closed_at,
            last_issue_updated_at: self.last_issue_updated_at,
            is_org: self.is_org,
            org_repos: copy_strings(&self.org_repos),
            repo_data: copy_states(&self.repo_data),
        }
    }
}

pub open spec fn entries_view(v: Seq<GithubTrackingEntry>) -> Seq<EntryView> {
    v.map_values(|e: GithubTrackingEntry| e@)
}

/// The position of the first entry that satisfies `p`.
pub open spec fn first_where(es: Seq<EntryView>, p: spec_fn(EntryView) -> bool) -> Option<int>
    decreases es.len(),
{
    if es.len() == 0 {
        None
    } else if p(es[0]) {
        Some(0)
    } else {
        match first_where(es.drop_first(), p) {
            Some(i) => Some(i + 1),
            None => None,
        }
    }
}

/// The entries that do not satisfy `p`, in order.
pub open spec fn without(es: Seq<EntryView>, p: spec_fn(EntryView) -> bool) -> Seq<EntryView>
    decreases es.len(),
{
    if es.len() == 0 {
        Seq::empty()
    } else {
        let rest = without(es.drop_last(), p);
        if p(es.last()) {
            rest
        } else {
            rest.push(es.last())
        }
    }
}

/// The entry of a repository, as `track_repository` finds it: the owner compared without
/// regard to ASCII case, the repository name exactly.
pub open spec fn repo_pred(owner: Seq<char>, repo: Seq<char>) -> spec_fn(EntryView) -> bool {
    |e: EntryView| !e.is_org && eq_ignore_ascii_case(e.owner, owner) && e.repo == Some(repo)
}

/// The entry of an organization, compared without regard to ASCII case.
pub open spec fn org_pred(org: Seq<char>) -> spec_fn(EntryView) -> bool {
    |e: EntryView| e.is_org && eq_ignore_ascii_case(e.owner, org)
}

/// The entries `remove_repository` drops: owner and repository both compared without
/// regard to ASCII case.
pub open spec fn repo_removal_pred(owner: Seq<char>, repo: Seq<char>) -> spec_fn(EntryView) -> bool {
    |e: EntryView|
        (e.repo matches Some(r) && eq_ignore_ascii_case(r, repo)) && eq_ignore_ascii_case(e.owner, owner)
            && !e.is_org
}

/// The entry an update after a poll belongs to.
pub open spec fn change_pred(owner: Seq<char>, repo: Option<Seq<char>>, is_org: bool) -> spec_fn(EntryView) -> bool {
    |e: EntryView| eq_ignore_ascii_case(e.owner, owner) && e.repo == repo && e.is_org == is_org
}

/// A guild's entries after tracking a repository: an existing entry moves to the new
/// channel, otherwise a new entry is added at the end.
pub open spec fn tracked_repo(es: Seq<EntryView>, owner: Seq<char>, repo: Seq<char>, channel_id: u64) -> Seq<EntryView> {
    match first_where(es, repo_pred(owner, repo)) {
        Some(i) => es.update(i, EntryView { channel_id, ..es[i] }),
        None => es.push(repo_entry(owner, repo, channel_id)),
    }
}

/// A guild's entries after tracking an organization with the repositories listed for it.
pub open spec fn tracked_org(es: Seq<EntryView>, org: Seq<char>, channel_id: u64, repos: Seq<Seq<char>>) -> Seq<EntryView> {
    match first_where(es, org_pred(org)) {
        Some(i) => es.update(i, EntryView { channel_id, org_repos: repos, ..es[i] }),
        None => es.push(org_entry(org, channel_id, repos)),
    }
}

fn entry_matches_repo(e: &GithubTrackingEntry, owner: &str, repo: &str) -> (r: bool)
    ensures
        r == (repo_pred(owner@, repo@))(e@),
{
    if e.is_org || !str_eq_ignore_ascii_case(e.owner.as_str(), owner) {
        return false;
    }
    match &e.repo {
        Some(r) => str_eq(r.as_str(), repo),
        None => false,
    }
}

fn entry_matches_org(e: &GithubTrackingEntry, org: &str) -> (r: bool)
    ensures
        r == (org_pred(org@))(e@),
{
    e.is_org && str_eq_ignore_ascii_case(e.owner.as_str(), org)
}

fn entry_matches_removal(e: &GithubTrackingEntry, owner: &str, repo: &str) -> (r: bool)
    ensures
        r == (repo_removal_pred(owner@, repo@))(e@),
{
    let repo_ok = match &e.repo {
        Some(r) => str_eq_ignore_ascii_case(r.as_str(), repo),
        None => false,
    };
    repo_ok && str_eq_ignore_ascii_case(e.owner.as_str(), owner) && !e.is_org
}

fn entry_matches_change(e: &GithubTrackingEntry, owner: &str, repo: &Option<String>, is_org: bool) -> (r: bool)
    ensures
        r == (change_pred(owner@, opt_str(*repo), is_org))(e@),
{
    let same_repo = match (&e.repo, repo) {
        (Some(a), Some(b)) => str_eq(a.as_str(), b.as_str()),
        (None, None) => true,
        _ => false,
    };
    str_eq_ignore_ascii_case(e.owner.as_str(), owner) && same_repo && e.is_org == is_org
}

proof fn lemma_first_where_step(es: Seq<EntryView>, p: spec_fn(EntryView) -> bool, i: int)
    requires
        0 <= i < es.len(),
        !p(es[i]),
    ensures
        (match first_where(es.skip(i), p) {
            Some(k) => Some(k + i),
            None => None,
        }) == (match first_where(es.skip(i + 1), p) {
            Some(k) => Some(k + i + 1),
            None => None,
        }),
{
    assert(es.skip(i)[0] == es[i]);
    assert(es.skip(i).drop_first() =~= es.skip(i + 1));
}

fn find_repo(entries: &Vec<GithubTrackingEntry>, owner: &str, repo: &str) -> (r: Option<usize>)
    ensures
        match r {
            Some(i) => first_where(entries_view(entries@), repo_pred(owner@, repo@)) == Some(i as int) && i < entries.len(),
            None => first_where(entries_view(entries@), repo_pred(owner@, repo@)) is None,
        },
{
    let ghost es = entries_view(entries@);
    let ghost p = repo_pred(owner@, repo@);
    let mut i: usize = 0;
    assert(es.skip(0) =~= es);
    while i < entries.len()
        invariant
            es == entries_view(entries@),
            es.len() == entries@.len(),
            p == repo_pred(owner@, repo@),
            i <= entries.len(),
            first_where(es, p) == (match first_where(es.skip(i as int), p) {
                Some(k) => Some(k + i),
                None => None,
            }),
        decreases entries.len() - i,
    {
        assert(es[i as int] == entries@[i as int]@);
        if entry_matches_repo(&entries[i], owner, repo) {
            assert(es.skip(i as int)[0] == es[i as int]);
            return Some(i);
        }
        proof {
            lemma_first_where_step(es, p, i as int);
        }
        i = i + 1;
    }
    assert(es.skip(i as int).len() == 0);
    None
}

fn find_org(entries: &Vec<GithubTrackingEntry>, org: &str) -> (r: Option<usize>)
    ensures
        match r {
            Some(i) => first_where(entries_view(entries@), org_pred(org@)) == Some(i as int) && i < entries.len(),
            None => first_where(entries_view(entries@), org_pred(org@)) is None,
        },
{
    let ghost es = entries_view(entries@);
    let ghost p = org_pred(org@);
    let mut i: usize = 0;
    assert(es.skip(0) =~= es);
    while i < entries.len()
        invariant
            es == entries_view(entries@),
            es.len() == entries@.len(),
            p == org_pred(org@),
            i <= entries.len(),
            first_where(es, p) == (match first_where(es.skip(i as int), p) {
                Some(k) => Some(k + i),
                None => None,
            }),
        decreases entries.len() - i,
    {
        assert(es[i as int] == entries@[i as int]@);
        if entry_matches_org(&entries[i], org) {
            assert(es.skip(i as int)[0] == es[i as int]);
            return Some(i);
        }
        proof {
            lemma_first_where_step(es, p, i as int);
        }
        i = i + 1;
    }
    assert(es.skip(i as int).len() == 0);
    None
}

pub(crate) fn find_change(entries: &Vec<GithubTrackingEntry>, owner: &str, repo: &Option<String>, is_org: bool) -> (r: Option<usize>)
    ensures
        match r {
            Some(i) => first_where(entries_view(entries@), change_pred(owner@, opt_str(*repo), is_org)) == Some(i as int)
                && i < entries.len(),
            None => first_where(entries_view(entries@), change_pred(owner@, opt_str(*repo), is_org)) is None,
        },
{
    let ghost es = entries_view(entries@);
    let ghost p = change_pred(owner@, opt_str(*repo), is_org);
    let mut i: usize = 0;
    assert(es.skip(0) =~= es);
    while i < entries.len()
        invariant
            es == entries_view(entries@),
            es.len() == entries@.len(),
            p == change_pred(owner@, opt_str(*repo), is_org),
            i <= entries.len(),
            first_where(es, p) == (match first_where(es.skip(i as int), p) {
                Some(k) => Some(k + i),
                None => None,
            }),
        decreases entries.len() - i,
    {
        assert(es[i as int] == entries@[i as int]@);
        if entry_matches_change(&entries[i], owner, repo, is_org) {
            assert(es.skip(i as int)[0] == es[i as int]);
            return Some(i);
        }
        proof {
            lemma_first_where_step(es, p, i as int);
        }
        i = i + 1;
    }
    assert(es.skip(i as int).len() == 0);
    None
}

// ---------------------------------------------------------------------------
// Removal
// ---------------------------------------------------------------------------

proof fn lemma_without_len(es: Seq<EntryView>, p: spec_fn(EntryView) -> bool)
    ensures
        without(es, p).len() <= es.len(),
        (without(es, p).len() == es.len()) <==> (forall|i: int| 0 <= i < es.len() ==> !p(#[trigger] es[i])),
    decreases es.len(),
{
    if es.len() > 0 {
        lemma_without_len(es.drop_last(), p);
        if forall|i: int| 0 <= i < es.len() ==> !p(#[trigger] es[i]) {
            assert forall|i: int| 0 <= i < es.drop_last().len() implies !p(#[trigger] es.drop_last()[i]) by {
                assert(es.drop_last()[i] == es[i]);
            }
        } else {
            let k = choose|k: int| 0 <= k < es.len() && p(#[trigger] es[k]);
            if k < es.len() - 1 {
                assert(es.drop_last()[k] == es[k]);
            }
        }
    }
}

fn remove_repo_entries(entries: Vec<GithubTrackingEntry>, owner: &str, repo: &str) -> (r: Vec<GithubTrackingEntry>)
    ensures
        entries_view(r@) == without(entries_view(entries@), repo_removal_pred(owner@, repo@)),
{
    let ghost es = entries_view(entries@);
    let ghost p = repo_removal_pred(owner@, repo@);
    let mut kept: Vec<GithubTrackingEntry> = Vec::new();
    let mut i: usize = 0;
    assert(entries_view(kept@) =~= without(es.take(0), p));
    while i < entries.len()
        invariant
            es == entries_view(entries@),
            es.len() == entries@.len(),
            p == repo_removal_pred(owner@, repo@),
            i <= entries.len(),
            entries_view(kept@) == without(es.take(i as int), p),
        decreases entries.len() - i,
    {
        assert(es.take(i + 1).drop_last() =~= es.take(i as int));
        assert(es.take(i + 1).last() == entries@[i as int]@);
        if !entry_matches_removal(&entries[i], owner, repo) {
            let ghost before = kept@;
            kept.push(entries[i].copy());
            assert(entries_view(kept@) =~= entries_view(before).push(entries@[i as int]@));
        }
        i = i + 1;
    }
    assert(es.take(es.len() as int) =~= es);
    kept
}

fn remove_org_entries(entries: Vec<GithubTrackingEntry>, org: &str) -> (r: Vec<GithubTrackingEntry>)
    ensures
        entries_view(r@) == without(entries_view(entries@), org_pred(org@)),
{
    let ghost es = entries_view(entries@);
    let ghost p = org_pred(org@);
    let mut kept: Vec<GithubTrackingEntry> = Vec::new();
    let mut i: usize = 0;
    assert(entries_view(kept@) =~= without(es.take(0), p));
    while i < entries.len()
        invariant
            es == entries_view(entries@),
            es.len() == entries@.len(),
            p == org_pred(org@),
            i <= entries.len(),
            entries_view(kept@) == without(es.take(i as int), p),
        decreases entries.len() - i,
    {
        assert(es.take(i + 1).drop_last() =~= es.take(i as int));
        assert(es.take(i + 1).last() == entries@[i as int]@);
        if !entry_matches_org(&entries[i], org) {
            let ghost before = kept@;
            kept.push(entries[i].copy());
            assert(entries_view(kept@) =~= entries_view(before).push(entries@[i as int]@));
        }
        i = i + 1;
    }
    assert(es.take(es.len() as int) =~= es);
    kept
}

// ---------------------------------------------------------------------------
// Per-guild configuration
// ---------------------------------------------------------------------------

/// The tracked entries of every guild, keyed by guild id.
#[derive(Debug)]
pub struct GithubConfig {
    pub guilds: HashMap<u64, Vec<GithubTrackingEntry>>,
}

pub open spec fn guilds_view(m: Map<u64, Vec<GithubTrackingEntry>>) -> Map<u64, Seq<EntryView>> {
    Map::new(|g: u64| m.dom().contains(g), |g: u64| entries_view(m[g]@))
}

impl View for GithubConfig {
    type V = Map<u64, Seq<EntryView>>;

    open spec fn view(&self) -> Map<u64, Seq<EntryView>> {
        guilds_view(self.guilds@)
    }
}

/// A guild's entries; none for a guild that was never configured.
pub open spec fn guild_entries(c: Map<u64, Seq<EntryView>>, guild_id: u64) -> Seq<EntryView> {
    if c.dom().contains(guild_id) {
        c[guild_id]
    } else {
        Seq::empty()
    }
}

/// Whether any of the entries satisfies `p`.
pub open spec fn any_where(es: Seq<EntryView>, p: spec_fn(EntryView) -> bool) -> bool {
    exists|i: int| 0 <= i < es.len() && p(#[trigger] es[i])
}

impl GithubConfig {
    /// No guild tracks anything.
    pub fn new() -> (c: GithubConfig)
        ensures
            c@ == Map::<u64, Seq<EntryView>>::empty(),
    {
        let c = GithubConfig { guilds: HashMap::new() };
        assert(c@ =~= Map::<u64, Seq<EntryView>>::empty());
        c
    }

    pub(crate) fn take_entries(&mut self, guild_id: u64) -> (r: Vec<GithubTrackingEntry>)
        ensures
            entries_view(r@) == guild_entries(old(self)@, guild_id),
            final(self)@ == old(self)@.remove(guild_id),
    {
        let ghost m0 = self.guilds@;
        let r = match self.guilds.remove(&guild_id) {
            Some(v) => v,
            None => Vec::new(),
        };
        proof {
            if !m0.dom().contains(guild_id) {
                assert(entries_view(r@) =~= Seq::<EntryView>::empty());
            }
        }
        assert(self@ =~= old(self)@.remove(guild_id));
        r
    }

    pub(crate) fn put_entries(&mut self, guild_id: u64, v: Vec<GithubTrackingEntry>)
        ensures
            final(self)@ == old(self)@.insert(guild_id, entries_view(v@)),
    {
        let ghost ev = entries_view(v@);
        self.guilds.insert(guild_id, v);
        assert(self@ =~= old(self)@.insert(guild_id, ev));
    }

    /// Copies of a guild's entries, for display.
    pub fn list_entries(&self, guild_id: u64) -> (r: Vec<GithubTrackingEntry>)
        ensures
            entries_view(r@) == guild_entries(self@, guild_id),
    {
        let mut r: Vec<GithubTrackingEntry> = Vec::new();
        match self.guilds.get(&guild_id) {
            Some(v) => {
                let ghost es = entries_view(v@);
                let mut i: usize = 0;
                while i < v.len()
                    invariant
                        es == entries_view(v@),
                        i <= v.len(),
                        entries_view(r@) == es.take(i as int),
                    decreases v.len() - i,
                {
                    let ghost before = r@;
                    r.push(v[i].copy());
                    assert(entries_view(r@) =~= entries_view(before).push(v@[i as int]@));
                    i = i + 1;
                    assert(entries_view(r@) =~= es.take(i as int));
                }
                assert(es.take(es.len() as int) =~= es);
            },
            None => {
                assert(entries_view(r@) =~= Seq::<EntryView>::empty());
            },
        }
        r
    }

    /// Tracks one repository (all branches) in a guild: an entry for it moves to
    /// `channel_id`, or a new entry is added.
    pub fn track_repository(&mut self, guild_id: u64, owner: &str, repo: &str, channel_id: u64)
        ensures
            final(self)@ == old(self)@.insert(
                guild_id,
                tracked_repo(guild_entries(old(self)@, guild_id), owner@, repo@, channel_id),
            ),
    {
        let mut entries = self.take_entries(guild_id);
        let ghost es = entries_view(entries@);
        match find_repo(&entries, owner, repo) {
            Some(i) => {
                let mut e = entries[i].copy();
                e.channel_id = channel_id;
                entries.set(i, e);
                assert(entries_view(entries@) =~= es.update(i as int, EntryView { channel_id, ..es[i as int] }));
            },
            None => {
                entries.push(GithubTrackingEntry::new_repo(owner, repo, channel_id));
                assert(entries_view(entries@) =~= es.push(repo_entry(owner@, repo@, channel_id)));
            },
        }
        self.put_entries(guild_id, entries);
        assert(old(self)@.remove(guild_id).insert(guild_id, tracked_repo(es, owner@, repo@, channel_id))
            =~= old(self)@.insert(guild_id, tracked_repo(es, owner@, repo@, channel_id)));
    }

    /// Tracks an organization in a guild with the repositories listed for it; returns
    /// that list.
    pub fn track_organization(&mut self, guild_id: u64, org: &str, channel_id: u64, repos: Vec<String>) -> (r: Vec<String>)
        ensures
            strings_view(r@) == strings_view(repos@),
            final(self)@ == old(self)@.insert(
                guild_id,
                tracked_org(guild_entries(old(self)@, guild_id), org@, channel_id, strings_view(repos@)),
            ),
    {
        let ghost rv = strings_view(repos@);
        let mut entries = self.take_entries(guild_id);
        let ghost es = entries_view(entries@);
        match find_org(&entries, org) {
            Some(i) => {
                let mut e = entries[i].copy();
                e.channel_id = channel_id;
                e.org_repos = copy_strings(&repos);
                entries.set(i, e);
                assert(entries_view(entries@) =~= es.update(i as int, EntryView { channel_id, org_repos: rv, ..es[i as int] }));
            },
            None => {
                entries.push(GithubTrackingEntry::new_org(org, channel_id, copy_strings(&repos)));
                assert(entries_view(entries@) =~= es.push(org_entry(org@, channel_id, rv)));
            },
        }
        self.put_entries(guild_id, entries);
        assert(old(self)@.remove(guild_id).insert(guild_id, tracked_org(es, org@, channel_id, rv))
            =~= old(self)@.insert(guild_id, tracked_org(es, org@, channel_id, rv)));
        repos
    }

    /// Stops tracking a repository in a guild (owner and name compared without regard to
    /// ASCII case); whether an entry was removed.
    pub fn remove_repository(&mut self, guild_id: u64, owner: &str, repo: &str) -> (r: bool)
        ensures
            !old(self)@.dom().contains(guild_id) ==> final(self)@ == old(self)@ && !r,
            old(self)@.dom().contains(guild_id) ==> final(self)@ == old(self)@.insert(
                guild_id,
                without(old(self)@[guild_id], repo_removal_pred(owner@, repo@)),
            ),
            r == any_where(guild_entries(old(self)@, guild_id), repo_removal_pred(owner@, repo@)),
    {
        if !self.guilds.contains_key(&guild_id) {
            return false;
        }
        let entries = self.take_entries(guild_id);
        let ghost es = entries_view(entries@);
        let before = entries.len();
        let kept = remove_repo_entries(entries, owner, repo);
        let removed = kept.len() != before;
        proof {
            lemma_without_len(es, repo_removal_pred(owner@, repo@));
        }
        self.put_entries(guild_id, kept);
        assert(old(self)@.remove(guild_id).insert(guild_id, without(es, repo_removal_pred(owner@, repo@)))
            =~= old(self)@.insert(guild_id, without(es, repo_removal_pred(owner@, repo@))));
        removed
    }

    /// Stops tracking an organization in a guild; whether an entry was removed.
    pub fn remove_organization(&mut self, guild_id: u64, org: &str) -> (r: bool)
        ensures
            !old(self)@.dom().contains(guild_id) ==> final(self)@ == old(self)@ && !r,
            old(self)@.dom().contains(guild_id) ==> final(self)@ == old(self)@.insert(
                guild_id,
                without(old(self)@[guild_id], org_pred(org@)),
            ),
            r == any_where(guild_entries(old(self)@, guild_id), org_pred(org@)),
    {
        if !self.guilds.contains_key(&guild_id) {
            return false;
        }
        let entries = self.take_entries(guild_id);
        let ghost es = entries_view(entries@);
        let before = entries.len();
        let kept = remove_org_entries(entries, org);
        let removed = kept.len() != before;
        proof {
            lemma_without_len(es, org_pred(org@));
        }
        self.put_entries(guild_id, kept);
        assert(old(self)@.remove(guild_id).insert(guild_id, without(es, org_pred(org@)))
            =~= old(self)@.insert(guild_id, without(es, org_pred(org@))));
        removed
    }
}

// ---------------------------------------------------------------------------
// Laws of tracking and removal
// ---------------------------------------------------------------------------

/// What `first_where` finds: the first entry that satisfies `p`, or no entry does.
pub proof fn lemma_first_where(es: Seq<EntryView>, p: spec_fn(EntryView) -> bool)
    ensures
        match first_where(es, p) {
            Some(i) => 0 <= i < es.len() && p(es[i]) && forall|j: int| 0 <= j < i ==> !p(#[trigger] es[j]),
            None => forall|j: int| 0 <= j < es.len() ==> !p(#[trigger] es[j]),
        },
    decreases es.len(),
{
    if es.len() > 0 {
        lemma_first_where(es.drop_first(), p);
        assert forall|j: int| 1 <= j < es.len() implies es[j] == #[trigger] es.drop_first()[j - 1] by {}
        match first_where(es.drop_first(), p) {
            Some(i) => {
                if !p(es[0]) {
                    assert forall|j: int| 0 <= j < i + 1 implies !p(#[trigger] es[j]) by {
                        if j > 0 {
                            assert(es[j] == es.drop_first()[j - 1]);
                        }
                    }
                }
            },
            None => {
                if !p(es[0]) {
                    assert forall|j: int| 0 <= j < es.len() implies !p(#[trigger] es[j]) by {
                        if j > 0 {
                            assert(es[j] == es.drop_first()[j - 1]);
                        }
                    }
                }
            },
        }
    }
}

/// No entry that a removal drops is left after it.
pub proof fn lemma_without_none_left(es: Seq<EntryView>, p: spec_fn(EntryView) -> bool)
    ensures
        !any_where(without(es, p), p),
        forall|i: int| 0 <= i < without(es, p).len() ==> es.contains(#[trigger] without(es, p)[i]),
    decreases es.len(),
{
    if es.len() > 0 {
        lemma_without_none_left(es.drop_last(), p);
        let rest = without(es.drop_last(), p);
        assert forall|i: int| 0 <= i < rest.len() implies es.contains(#[trigger] rest[i]) by {
            let k = choose|k: int| 0 <= k < es.drop_last().len() && es.drop_last()[k] == rest[i];
            assert(es[k] == rest[i]);
        }
        if !p(es.last()) {
            assert(es[es.len() - 1] == es.last());
            assert forall|i: int| 0 <= i < rest.push(es.last()).len() implies !p(#[trigger] rest.push(es.last())[i]) by {
                if i < rest.len() {
                    assert(rest.push(es.last())[i] == rest[i]);
                }
            }
        }
    }
}

/// Tracking a repository and then removing it (with the same owner and name) removes an
/// entry, after which none for that repository remains; removing it once more removes
/// nothing.
pub proof fn lemma_track_then_remove(es: Seq<EntryView>, owner: Seq<char>, repo: Seq<char>, channel_id: u64)
    ensures
        any_where(tracked_repo(es, owner, repo, channel_id), repo_removal_pred(owner, repo)),
        !any_where(without(tracked_repo(es, owner, repo, channel_id), repo_removal_pred(owner, repo)), repo_removal_pred(owner, repo)),
        !any_where(
            without(without(tracked_repo(es, owner, repo, channel_id), repo_removal_pred(owner, repo)), repo_removal_pred(owner, repo)),
            repo_removal_pred(owner, repo),
        ),
{
    let t = tracked_repo(es, owner, repo, channel_id);
    lemma_first_where(es, repo_pred(owner, repo));
    match first_where(es, repo_pred(owner, repo)) {
        Some(i) => {
            assert(t[i].repo == es[i].repo && t[i].owner == es[i].owner && t[i].is_org == es[i].is_org);
            assert((repo_removal_pred(owner, repo))(t[i]));
        },
        None => {
            let k = es.len() as int;
            assert(t[k] == repo_entry(owner, repo, channel_id));
            assert((repo_removal_pred(owner, repo))(t[k]));
        },
    }
    lemma_without_none_left(t, repo_removal_pred(owner, repo));
    lemma_without_none_left(without(t, repo_removal_pred(owner, repo)), repo_removal_pred(owner, repo));
}

/// Tracking a repository finds its entry pointing at the new channel, and tracking it
/// again on the same channel changes nothing.
pub proof fn lemma_track_idempotent(es: Seq<EntryView>, owner: Seq<char>, repo: Seq<char>, channel_id: u64)
    ensures
        ({
            let t = tracked_repo(es, owner, repo, channel_id);
            &&& first_where(t, repo_pred(owner, repo)) matches Some(i) && t[i].channel_id == channel_id
            &&& tracked_repo(t, owner, repo, channel_id) == t
        }),
{
    let p = repo_pred(owner, repo);
    let t = tracked_repo(es, owner, repo, channel_id);
    lemma_first_where(es, p);
    lemma_first_where(t, p);
    match first_where(es, p) {
        Some(i) => {
            assert(p(t[i]));
            assert forall|j: int| 0 <= j < i implies !p(#[trigger] t[j]) by {
                assert(t[j] == es[j]);
            }
            if let Some(k) = first_where(t, p) {
                if k < i {
                    assert(!p(t[k]));
                }
            }
            assert(first_where(t, p) == Some(i));
            assert(t.update(i, EntryView { channel_id, ..t[i] }) =~= t);
        },
        None => {
            let k = es.len() as int;
            assert(t[k] == repo_entry(owner, repo, channel_id));
            assert(p(t[k]));
            assert forall|j: int| 0 <= j < k implies !p(#[trigger] t[j]) by {
                assert(t[j] == es[j]);
            }
            if let Some(m) = first_where(t, p) {
                if m < k {
                    assert(!p(t[m]));
                }
            }
            assert(first_where(t, p) == Some(k));
            assert(t.update(k, EntryView { channel_id, ..t[k] }) =~= t);
        },
    }
}

// ---------------------------------------------------------------------------
// Listing
// ---------------------------------------------------------------------------

/// The line of a tracked organization: name, repository count, channel.
pub open spec fn org_line(e: EntryView) -> Seq<char> {
    "- `"@ + e.owner + "` ("@ + decimal(e.org_repos.len()) + " repos) -> <#"@ + decimal(e.channel_id as nat) + ">"@
}

/// The line of a tracked repository: owner/name, channel.
pub open spec fn repo_line(e: EntryView, repo: Seq<char>) -> Seq<char> {
    "- `"@ + e.owner + "/"@ + repo + "` -> <#"@ + decimal(e.channel_id as nat) + ">"@
}

/// The organization lines and the repository lines, each in order.
pub open spec fn listing_lines(es: Seq<EntryView>) -> (Seq<Seq<char>>, Seq<Seq<char>>)
    decreases es.len(),
{
    if es.len() == 0 {
        (Seq::empty(), Seq::empty())
    } else {
        let (orgs, repos) = listing_lines(es.drop_last());
        let e = es.last();
        if e.is_org {
            (orgs.push(org_line(e)), repos)
        } else {
            match e.repo {
                Some(r) => (orgs, repos.push(repo_line(e, r))),
                None => (orgs, repos),
            }
        }
    }
}

/// The description of the tracked list: organizations first, then repositories, each
/// section only where it has lines.
pub open spec fn listing_text(es: Seq<EntryView>) -> Seq<char> {
    let (orgs, repos) = listing_lines(es);
    (if orgs.len() > 0 {
        "**Organizations:**\n"@ + joined(orgs, "\n"@) + "\n\n"@
    } else {
        Seq::empty()
    }) + (if repos.len() > 0 {
        "**Repositories:**\n"@ + joined(repos, "\n"@)
    } else {
        Seq::empty()
    })
}

/// Describes a guild's tracked entries.
pub fn listing(entries: &Vec<GithubTrackingEntry>) -> (s: String)
    ensures
        s@ == listing_text(entries_view(entries@)),
{
    let ghost es = entries_view(entries@);
    let mut orgs: Vec<String> = Vec::new();
    let mut repos: Vec<String> = Vec::new();
    let mut i: usize = 0;
    while i < entries.len()
        invariant
            i <= entries.len(),
            es == entries_view(entries@),
            (strings_seq(orgs@), strings_seq(repos@)) == listing_lines(es.take(i as int)),
        decreases entries.len() - i,
    {
        assert(es.take(i + 1).drop_last() =~= es.take(i as int));
        assert(es.take(i + 1).last() == entries@[i as int]@);
        let e = &entries[i];
        if e.is_org {
            let ghost before = orgs@;
            let mut l = owned("- `");
            push_str(&mut l, e.owner.as_str());
            push_str(&mut l, "` (");
            push_decimal(&mut l, e.org_repos.len() as u64);
            push_str(&mut l, " repos) -> <#");
            push_decimal(&mut l, e.channel_id);
            push_str(&mut l, ">");
            orgs.push(l);
            assert(strings_seq(orgs@) =~= strings_seq(before).push(org_line(e@)));
        } else {
            match &e.repo {
                Some(r) => {
                    let ghost before = repos@;
                    let mut l = owned("- `");
                    push_str(&mut l, e.owner.as_str());
                    push_str(&mut l, "/");
                    push_str(&mut l, r.as_str());
                    push_str(&mut l, "` -> <#");
                    push_decimal(&mut l, e.channel_id);
                    push_str(&mut l, ">");
                    repos.push(l);
                    assert(strings_seq(repos@) =~= strings_seq(before).push(repo_line(e@, r@)));
                },
                None => {},
            }
        }
        i = i + 1;
    }
    assert(es.take(es.len() as int) =~= es);
    let mut d = String::new();
    if orgs.len() > 0 {
        push_str(&mut d, "**Organizations:**\n");
        let j = crate::text::join_strings(&orgs, "\n");
        push_str(&mut d, j.as_str());
        push_str(&mut d, "\n\n");
    }
    let ghost mid = d@;
    if repos.len() > 0 {
        push_str(&mut d, "**Repositories:**\n");
        let j = crate::text::join_strings(&repos, "\n");
        push_str(&mut d, j.as_str());
    }
    assert(d@ =~= listing_text(es));
    d
}

} // verus!
