//! One poll of one repository turned into routed updates, and the bookkeeping that
//! writes the new watermarks back into the configuration.
use crate::github::{copy_strings, issues_view, opt_str, strings_view, Commit, CommitView, GithubError, Issue, IssueActivity, IssueView};
use crate::github_config::{
    assoc_get, assoc_put, change_pred, first_where, guild_entries, states_view, EntryView, GithubConfig,
    GithubTrackingEntry,
};
use crate::github_poll::{
    branches_fold, branches_view, events_view, issue_events, issues_dirty, issues_polled, pairs_view,
    process_branches, process_issues, pushed_view, BranchCommits, RepoStateView, RepoTrackingData,
};
use crate::github::new_closed_bugs;
use crate::text::{copy_string, owned, push_str};
use vstd::prelude::*;

verus! {

/// Something that happened on GitHub, as reported to a channel.
#[derive(Debug)]
pub enum GithubEvent {
    CommitPushed { owner: String, repo: String, branch: String, commit: Commit },
    BugClosed { owner: String, repo: String, issue: Issue },
    IssueActivity { owner: String, repo: String, issue: Issue, activity: IssueActivity },
}

pub enum EventView {
    CommitPushed { owner: Seq<char>, repo: Seq<char>, branch: Seq<char>, commit: CommitView },
    BugClosed { owner: Seq<char>, repo: Seq<char>, issue: IssueView },
    IssueActivity { owner: Seq<char>, repo: Seq<char>, issue: IssueView, activity: IssueActivity },
}

impl View for GithubEvent {
    type V = EventView;

    open spec fn view(&self) -> EventView {
        match self {
            GithubEvent::CommitPushed { owner, repo, branch, commit } => EventView::CommitPushed {
                owner: owner@,
                repo: repo@,
                branch: branch@,
                commit: commit@,
            },
            GithubEvent::BugClosed { owner, repo, issue } => EventView::BugClosed {
                owner: owner@,
                repo: repo@,
                issue: issue@,
            },
            GithubEvent::IssueActivity { owner, repo, issue, activity } => EventView::IssueActivity {
                owner: owner@,
                repo: repo@,
                issue: issue@,
                activity: *activity,
            },
        }
    }
}

/// An event with the guild and channel it goes to.
#[derive(Debug)]
pub struct GithubUpdate {
    pub guild_id: u64,
    pub channel_id: u64,
    pub event: GithubEvent,
}

pub struct UpdateView {
    pub guild_id: u64,
    pub channel_id: u64,
    pub event: EventView,
}

impl View for GithubUpdate {
    type V = UpdateView;

    open spec fn view(&self) -> UpdateView {
        UpdateView { guild_id: self.guild_id, channel_id: self.channel_id, event: self.event@ }
    }
}

pub open spec fn updates_view(v: Seq<GithubUpdate>) -> Seq<UpdateView> {
    v.map_values(|u: GithubUpdate| u@)
}

pub open spec fn commit_update(guild_id: u64, channel_id: u64, owner: Seq<char>, repo: Seq<char>) -> spec_fn(
    (Seq<char>, CommitView),
) -> UpdateView {
    |p: (Seq<char>, CommitView)|
        UpdateView {
            guild_id,
            channel_id,
            event: EventView::CommitPushed { owner, repo, branch: p.0, commit: p.1 },
        }
}

pub open spec fn bug_update(guild_id: u64, channel_id: u64, owner: Seq<char>, repo: Seq<char>) -> spec_fn(
    IssueView,
) -> UpdateView {
    |i: IssueView| UpdateView { guild_id, channel_id, event: EventView::BugClosed { owner, repo, issue: i } }
}

pub open spec fn activity_update(guild_id: u64, channel_id: u64, owner: Seq<char>, repo: Seq<char>) -> spec_fn(
    (IssueView, IssueActivity),
) -> UpdateView {
    |p: (IssueView, IssueActivity)|
        UpdateView {
            guild_id,
            channel_id,
            event: EventView::IssueActivity { owner, repo, issue: p.0, activity: p.1 },
        }
}

/// The watermarks after one poll of a repository.
pub open spec fn polled_state(
    st: RepoStateView,
    branches: Seq<(Seq<char>, Seq<CommitView>)>,
    bugs: Seq<IssueView>,
    issues: Seq<IssueView>,
    now: i64,
) -> RepoStateView {
    let (m, _ev, _d) = branches_fold(st.shas, st.shas.len() == 0, branches);
    issues_polled(RepoStateView { shas: m, ..st }, bugs, issues, now)
}

/// Whether one poll of a repository moved any watermark.
pub open spec fn polled_dirty(
    st: RepoStateView,
    branches: Seq<(Seq<char>, Seq<CommitView>)>,
    bugs: Seq<IssueView>,
    issues: Seq<IssueView>,
    now: i64,
) -> bool {
    let (_m, _ev, d) = branches_fold(st.shas, st.shas.len() == 0, branches);
    d || issues_dirty(st, bugs, issues, now)
}

/// The updates of one poll of a repository: new commits per branch, then newly closed
/// bugs, then issue activity.
pub open spec fn polled_updates(
    guild_id: u64,
    channel_id: u64,
    owner: Seq<char>,
    repo: Seq<char>,
    st: RepoStateView,
    branches: Seq<(Seq<char>, Seq<CommitView>)>,
    bugs: Seq<IssueView>,
    issues: Seq<IssueView>,
    now: i64,
) -> Seq<UpdateView> {
    let (_m, ev, _d) = branches_fold(st.shas, st.shas.len() == 0, branches);
    ev.map_values(commit_update(guild_id, channel_id, owner, repo))
        + new_closed_bugs(bugs, st.last_bug_closed_at, now).map_values(bug_update(guild_id, channel_id, owner, repo))
        + issue_events(issues, st.last_issue_updated_at, now).map_values(
        activity_update(guild_id, channel_id, owner, repo),
    )
}

/// Polls one repository from what the API listed: `branches` with their latest commits
/// (newest first), bug issues, and general issues. Updates `state` and returns the updates
/// to post with whether any watermark moved.
pub fn poll_repository(
    guild_id: u64,
    channel_id: u64,
    owner: &str,
    repo: &str,
    state: &mut RepoTrackingData,
    branches: &Vec<BranchCommits>,
    bugs: &Vec<Issue>,
    issues: &Vec<Issue>,
    now: i64,
) -> (r: (Vec<GithubUpdate>, bool))
    ensures
        final(state)@ == polled_state(old(state)@, branches_view(branches@), issues_view(bugs@), issues_view(issues@), now),
        r.1 == polled_dirty(old(state)@, branches_view(branches@), issues_view(bugs@), issues_view(issues@), now),
        updates_view(r.0@) == polled_updates(
            guild_id,
            channel_id,
            owner@,
            repo@,
            old(state)@,
            branches_view(branches@),
            issues_view(bugs@),
            issues_view(issues@),
            now,
        ),
{
    let ghost st0 = state@;
    let (pushed, d1) = process_branches(state, branches);
    let ghost st1 = state@;
    let polled = process_issues(state, bugs, issues, now);
    let ghost cu = commit_update(guild_id, channel_id, owner@, repo@);
    let ghost bu = bug_update(guild_id, channel_id, owner@, repo@);
    let ghost au = activity_update(guild_id, channel_id, owner@, repo@);
    let mut out: Vec<GithubUpdate> = Vec::new();
    let ghost pv = pushed_view(pushed@);
    let mut i: usize = 0;
    while i < pushed.len()
        invariant
            i <= pushed.len(),
            pv == pushed_view(pushed@),
            cu == commit_update(guild_id, channel_id, owner@, repo@),
            updates_view(out@) == pv.take(i as int).map_values(cu),
        decreases pushed.len() - i,
    {
        let ghost before = out@;
        let u = GithubUpdate {
            guild_id,
            channel_id,
            event: GithubEvent::CommitPushed {
                owner: owned(owner),
                repo: owned(repo),
                branch: copy_string(&pushed[i].0),
                commit: pushed[i].1.copy(),
            },
        };
        out.push(u);
        assert(pv.take(i + 1) =~= pv.take(i as int).push(pv[i as int]));
        assert(updates_view(out@) =~= updates_view(before).push(cu(pv[i as int])));
        assert(pv.take(i + 1).map_values(cu) =~= pv.take(i as int).map_values(cu).push(cu(pv[i as int])));
        i = i + 1;
    }
    assert(pv.take(pv.len() as int) =~= pv);
    let ghost part1 = updates_view(out@);
    let ghost bv = issues_view(polled.closed_bugs@);
    let mut j: usize = 0;
    assert(updates_view(out@) =~= part1 + bv.take(0).map_values(bu));
    while j < polled.closed_bugs.len()
        invariant
            j <= polled.closed_bugs.len(),
            bv == issues_view(polled.closed_bugs@),
            bu == bug_update(guild_id, channel_id, owner@, repo@),
            updates_view(out@) == part1 + bv.take(j as int).map_values(bu),
        decreases polled.closed_bugs.len() - j,
    {
        let ghost before = out@;
        let u = GithubUpdate {
            guild_id,
            channel_id,
            event: GithubEvent::BugClosed { owner: owned(owner), repo: owned(repo), issue: polled.closed_bugs[j].copy() },
        };
        out.push(u);
        assert(bv.take(j + 1) =~= bv.take(j as int).push(bv[j as int]));
        assert(updates_view(out@) =~= updates_view(before).push(bu(bv[j as int])));
        assert(part1 + bv.take(j + 1).map_values(bu) =~= (part1 + bv.take(j as int).map_values(bu)).push(bu(bv[j as int])));
        j = j + 1;
    }
    assert(bv.take(bv.len() as int) =~= bv);
    let ghost part2 = updates_view(out@);
    let ghost avs = events_view(polled.events@);
    let mut k: usize = 0;
    assert(updates_view(out@) =~= part2 + avs.take(0).map_values(au));
    while k < polled.events.len()
        invariant
            k <= polled.events.len(),
            avs == events_view(polled.events@),
            au == activity_update(guild_id, channel_id, owner@, repo@),
            updates_view(out@) == part2 + avs.take(k as int).map_values(au),
        decreases polled.events.len() - k,
    {
        let ghost before = out@;
        let u = GithubUpdate {
            guild_id,
            channel_id,
            event: GithubEvent::IssueActivity {
                owner: owned(owner),
                repo: owned(repo),
                issue: polled.events[k].0.copy(),
                activity: polled.events[k].1,
            },
        };
        out.push(u);
        assert(avs.take(k + 1) =~= avs.take(k as int).push(avs[k as int]));
        assert(updates_view(out@) =~= updates_view(before).push(au(avs[k as int])));
        assert(part2 + avs.take(k + 1).map_values(au) =~= (part2 + avs.take(k as int).map_values(au)).push(au(avs[k as int])));
        k = k + 1;
    }
    assert(avs.take(avs.len() as int) =~= avs);
    assert(st1.last_bug_closed_at == st0.last_bug_closed_at);
    assert(st1.last_issue_updated_at == st0.last_issue_updated_at);
    (out, d1 || polled.dirty)
}

// ---------------------------------------------------------------------------
// Writing watermarks back
// ---------------------------------------------------------------------------

/// The new watermarks of one tracked entry after a poll. For a repository, `new_state`;
/// for an organization, a freshly fetched repository list and the states of the
/// repositories whose watermarks moved, keyed `owner/repo`.
#[derive(Debug)]
pub struct RepoStateUpdate {
    pub guild_id: u64,
    pub owner: String,
    pub repo: Option<String>,
    pub is_org: bool,
    pub new_state: Option<RepoTrackingData>,
    pub org_repos: Option<Vec<String>>,
    pub repo_states: Option<Vec<(String, RepoTrackingData)>>,
}

pub struct ChangeView {
    pub guild_id: u64,
    pub owner: Seq<char>,
    pub repo: Option<Seq<char>>,
    pub is_org: bool,
    pub new_state: Option<RepoStateView>,
    pub org_repos: Option<Seq<Seq<char>>>,
    pub repo_states: Option<Seq<(Seq<char>, RepoStateView)>>,
}

impl View for RepoStateUpdate {
    type V = ChangeView;

    open spec fn view(&self) -> ChangeView {
        ChangeView {
            guild_id: self.guild_id,
            owner: self.owner@,
            repo: opt_str(self.repo),
            is_org: self.is_org,
            new_state: match self.new_state {
                Some(s) => Some(s@),
                None => None,
            },
            org_repos: match self.org_repos {
                Some(v) => Some(strings_view(v@)),
                None => None,
            },
            repo_states: match self.repo_states {
                Some(v) => Some(states_view(v@)),
                None => None,
            },
        }
    }
}

/// `m` with every pair of `st` stored, in order.
pub open spec fn put_all(m: Seq<(Seq<char>, RepoStateView)>, st: Seq<(Seq<char>, RepoStateView)>) -> Seq<
    (Seq<char>, RepoStateView),
>
    decreases st.len(),
{
    if st.len() == 0 {
        m
    } else {
        assoc_put(put_all(m, st.drop_last()), st.last().0, st.last().1)
    }
}

/// An entry with a change applied.
pub open spec fn changed_entry(e: EntryView, c: ChangeView) -> EntryView {
    if c.is_org {
        let e1 = match c.org_repos {
            Some(r) => EntryView { org_repos: r, ..e },
            None => e,
        };
        match c.repo_states {
            Some(st) => EntryView { repo_data: put_all(e1.repo_data, st), ..e1 },
            None => e1,
        }
    } else {
        match c.new_state {
            Some(s) => EntryView { state: s, ..e },
            None => e,
        }
    }
}

/// The configuration with a change applied to the first matching entry of its guild;
/// unchanged where there is none.
pub open spec fn config_after_change(cfg: Map<u64, Seq<EntryView>>, c: ChangeView) -> Map<u64, Seq<EntryView>> {
    if !cfg.dom().contains(c.guild_id) {
        cfg
    } else {
        let es = cfg[c.guild_id];
        match first_where(es, change_pred(c.owner, c.repo, c.is_org)) {
            Some(i) => cfg.insert(c.guild_id, es.update(i, changed_entry(es[i], c))),
            None => cfg,
        }
    }
}

fn put_states(m: &mut Vec<(String, RepoTrackingData)>, st: &Vec<(String, RepoTrackingData)>)
    ensures
        states_view(final(m)@) == put_all(states_view(old(m)@), states_view(st@)),
{
    let ghost sv = states_view(st@);
    let mut i: usize = 0;
    assert(put_all(states_view(m@), sv.take(0)) == states_view(m@));
    while i < st.len()
        invariant
            i <= st.len(),
            sv == states_view(st@),
            states_view(m@) == put_all(states_view(old(m)@), sv.take(i as int)),
        decreases st.len() - i,
    {
        assert(sv.take(i + 1).drop_last() =~= sv.take(i as int));
        assert(sv.take(i + 1).last() == (st@[i as int].0@, st@[i as int].1@));
        crate::github_config::put_state(m, copy_string(&st[i].0), st[i].1.copy());
        i = i + 1;
    }
    assert(sv.take(sv.len() as int) =~= sv);
}

fn apply_to_entry(e: &GithubTrackingEntry, c: &RepoStateUpdate) -> (r: GithubTrackingEntry)
    ensures
        r@ == changed_entry(e@, c@),
{
    let mut r = e.copy();
    if c.is_org {
        match &c.org_repos {
            Some(v) => {
                r.org_repos = copy_strings(v);
            },
            None => {},
        }
        match &c.repo_states {
            Some(st) => {
                put_states(&mut r.repo_data, st);
            },
            None => {},
        }
    } else {
        match &c.new_state {
            Some(s) => {
                let s2 = s.copy();
                r.last_commit_shas = s2.last_commit_shas;
                r.last_bug_closed_at = s2.last_bug_closed_at;
                r.last_issue_updated_at = s2.last_issue_updated_at;
            },
            None => {},
        }
    }
    assert(r@ =~= changed_entry(e@, c@));
    r
}

impl GithubConfig {
    /// Writes the watermarks of one poll back into the entry they belong to (found by
    /// owner without regard to ASCII case, repository and kind).
    pub fn apply_change(&mut self, c: &RepoStateUpdate)
        ensures
            final(self)@ == config_after_change(old(self)@, c@),
    {
        if !self.guilds.contains_key(&c.guild_id) {
            return;
        }
        let mut entries = self.take_entries(c.guild_id);
        let ghost es = entries_view_of(&entries);
        match crate::github_config::find_change(&entries, c.owner.as_str(), &c.repo, c.is_org) {
            Some(i) => {
                let e = apply_to_entry(&entries[i], c);
                entries.set(i, e);
                assert(crate::github_config::entries_view(entries@) =~= es.update(i as int, changed_entry(es[i as int], c@)));
                self.put_entries(c.guild_id, entries);
                assert(old(self)@.remove(c.guild_id).insert(c.guild_id, es.update(i as int, changed_entry(es[i as int], c@)))
                    =~= old(self)@.insert(c.guild_id, es.update(i as int, changed_entry(es[i as int], c@))));
            },
            None => {
                self.put_entries(c.guild_id, entries);
                assert(old(self)@.remove(c.guild_id).insert(c.guild_id, es) =~= old(self)@);
            },
        }
    }
}

spec fn entries_view_of(v: &Vec<GithubTrackingEntry>) -> Seq<EntryView> {
    crate::github_config::entries_view(v@)
}

/// The key under which an organization keeps a repository's watermarks: `owner/repo`.
pub open spec fn repo_key_text(owner: Seq<char>, repo: Seq<char>) -> Seq<char> {
    owner + "/"@ + repo
}

pub fn repo_key(owner: &str, repo: &str) -> (r: String)
    ensures
        r@ == repo_key_text(owner@, repo@),
{
    let mut r = owned(owner);
    push_str(&mut r, "/");
    push_str(&mut r, repo);
    r
}

/// The watermarks a poll of an organization's repository starts from: those stored under
/// `owner/repo`, else none.
pub fn org_repo_state(entry: &GithubTrackingEntry, repo: &str) -> (r: RepoTrackingData)
    ensures
        r@ == match assoc_get(entry@.repo_data, repo_key_text(entry@.owner, repo@)) {
            Some(s) => s,
            None => crate::github_config::blank_state(),
        },
{
    let key = repo_key(entry.owner.as_str(), repo);
    match crate::github_config::lookup_state(&entry.repo_data, key.as_str()) {
        Some(d) => d,
        None => {
            let d = RepoTrackingData::new();
            assert(d@ =~= crate::github_config::blank_state());
            d
        },
    }
}

/// The watermarks a poll of a tracked repository starts from.
pub fn entry_state(entry: &GithubTrackingEntry) -> (r: RepoTrackingData)
    ensures
        r@ == entry@.state,
{
    let d = RepoTrackingData {
        last_commit_shas: crate::github_config::copy_pairs(&entry.last_commit_shas),
        last_bug_closed_at: entry.last_bug_closed_at,
        last_issue_updated_at: entry.last_issue_updated_at,
    };
    assert(d@ =~= entry@.state);
    d
}

/// The change to record after polling a tracked repository: its new watermarks, only
/// where one moved.
pub fn repo_change(guild_id: u64, owner: &str, repo: &str, state: RepoTrackingData, dirty: bool) -> (r: Option<
    RepoStateUpdate,
>)
    ensures
        dirty <==> r is Some,
        r matches Some(c) ==> c@ == (ChangeView {
            guild_id,
            owner: owner@,
            repo: Some(repo@),
            is_org: false,
            new_state: Some(state@),
            org_repos: None,
            repo_states: None,
        }),
{
    if !dirty {
        return None;
    }
    Some(
        RepoStateUpdate {
            guild_id,
            owner: owned(owner),
            repo: Some(owned(repo)),
            is_org: false,
            new_state: Some(state),
            org_repos: None,
            repo_states: None,
        },
    )
}

/// The change to record after polling an organization: the repository list if it was
/// fetched in this poll, and the watermarks that moved; nothing where neither happened.
pub fn org_change(
    guild_id: u64,
    owner: &str,
    fetched_repos: Option<Vec<String>>,
    moved: Vec<(String, RepoTrackingData)>,
) -> (r: Option<RepoStateUpdate>)
    ensures
        (fetched_repos is Some || moved@.len() > 0) <==> r is Some,
        r matches Some(c) ==> c@ == (ChangeView {
            guild_id,
            owner: owner@,
            repo: None,
            is_org: true,
            new_state: None,
            org_repos: match fetched_repos {
                Some(v) => Some(strings_view(v@)),
                None => None,
            },
            repo_states: Some(states_view(moved@)),
        }),
{
    if fetched_repos.is_none() && moved.len() == 0 {
        return None;
    }
    Some(
        RepoStateUpdate {
            guild_id,
            owner: owned(owner),
            repo: None,
            is_org: true,
            new_state: None,
            org_repos: fetched_repos,
            repo_states: Some(moved),
        },
    )
}

/// How a poll of an organization starts: with the repositories it already lists, or by
/// fetching the list first when it has none.
#[derive(Debug)]
pub enum OrgPollStart {
    FetchRepos,
    Poll(Vec<String>),
}

/// The first step of polling an organization entry: fetch its repository list when the
/// entry has none, else poll the listed repositories.
pub fn org_poll_start(entry: &GithubTrackingEntry) -> (r: OrgPollStart)
    ensures
        entry@.org_repos.len() == 0 <==> r is FetchRepos,
        r matches OrgPollStart::Poll(v) ==> strings_view(v@) == entry@.org_repos,
{
    if entry.org_repos.len() == 0 {
        OrgPollStart::FetchRepos
    } else {
        let v = copy_strings(&entry.org_repos);
        assert(strings_view(entry.org_repos@) =~= entry@.org_repos);
        OrgPollStart::Poll(v)
    }
}

/// Keeps the new watermarks of an organization's repository under `owner/repo`, only
/// where the poll moved one.
pub fn note_org_repo(moved: &mut Vec<(String, RepoTrackingData)>, owner: &str, repo: &str, state: RepoTrackingData, dirty: bool)
    ensures
        dirty ==> states_view(final(moved)@) == states_view(old(moved)@).push((repo_key_text(owner@, repo@), state@)),
        !dirty ==> final(moved)@ == old(moved)@,
{
    if dirty {
        let ghost before = states_view(moved@);
        let key = repo_key(owner, repo);
        let ghost item = (key@, state@);
        moved.push((key, state));
        assert(states_view(moved@) =~= before.push(item));
    }
}

// ---------------------------------------------------------------------------
// A whole poll: gathering, then committing or abandoning
// ---------------------------------------------------------------------------

pub open spec fn changes_view(v: Seq<RepoStateUpdate>) -> Seq<ChangeView> {
    v.map_values(|c: RepoStateUpdate| c@)
}

/// The configuration after the changes, applied in order.
pub open spec fn changes_applied(cfg: Map<u64, Seq<EntryView>>, cs: Seq<ChangeView>) -> Map<u64, Seq<EntryView>>
    decreases cs.len(),
{
    if cs.len() == 0 {
        cfg
    } else {
        config_after_change(changes_applied(cfg, cs.drop_last()), cs.last())
    }
}

/// What a poll of every tracked repository has gathered so far: the updates to post and
/// the watermark changes to save once the whole poll has succeeded.
pub struct PollRun {
    pub updates: Vec<GithubUpdate>,
    pub changes: Vec<RepoStateUpdate>,
}

impl PollRun {
    /// A poll that has gathered nothing yet.
    pub fn new() -> (r: PollRun)
        ensures
            r.updates@.len() == 0,
            r.changes@.len() == 0,
    {
        PollRun { updates: Vec::new(), changes: Vec::new() }
    }

    /// Adds what polling one repository found: its updates, and its change if a watermark moved.
    pub fn record(&mut self, found: Vec<GithubUpdate>, change: Option<RepoStateUpdate>)
        ensures
            updates_view(final(self).updates@) == updates_view(old(self).updates@) + updates_view(found@),
            changes_view(final(self).changes@) == changes_view(old(self).changes@) + match change {
                Some(c) => seq![c@],
                None => Seq::empty(),
            },
    {
        let ghost u0 = self.updates@;
        let ghost c0 = self.changes@;
        let mut found = found;
        let ghost f0 = found@;
        self.updates.append(&mut found);
        assert(self.updates@ == u0 + f0);
        assert(updates_view(u0 + f0) =~= updates_view(u0) + updates_view(f0));
        match change {
            Some(c) => {
                let ghost cv = c@;
                self.changes.push(c);
                assert(changes_view(self.changes@) =~= changes_view(c0) + seq![cv]);
            },
            None => {
                assert(changes_view(self.changes@) =~= changes_view(c0) + Seq::<ChangeView>::empty());
            },
        }
    }
}

/// Ends a poll. A poll that failed at any client call changes nothing: the error is
/// handed back, no change is applied and nothing is to be saved, so the next poll starts
/// from the same last-seen commits and watermarks. A poll that succeeded applies its
/// changes in order and hands back its updates, with whether there is anything to save.
pub fn finish_poll(config: &mut GithubConfig, outcome: Result<PollRun, GithubError>) -> (r: Result<
    (Vec<GithubUpdate>, bool),
    GithubError,
>)
    ensures
        match outcome {
            Err(e) => final(config)@ == old(config)@ && (r matches Err(e2) && e2 == e),
            Ok(run) => final(config)@ == changes_applied(old(config)@, changes_view(run.changes@)) && (r matches Ok(
                (u, save),
            ) && updates_view(u@) == updates_view(run.updates@) && save == (run.changes@.len() > 0)),
        },
{
    match outcome {
        Err(e) => Err(e),
        Ok(run) => {
            let ghost cs = changes_view(run.changes@);
            let ghost cfg0 = config@;
            let mut i: usize = 0;
            assert(cs.take(0) =~= Seq::<ChangeView>::empty());
            while i < run.changes.len()
                invariant
                    i <= run.changes.len(),
                    cs == changes_view(run.changes@),
                    config@ == changes_applied(cfg0, cs.take(i as int)),
                decreases run.changes.len() - i,
            {
                config.apply_change(&run.changes[i]);
                assert(cs.take(i + 1).drop_last() =~= cs.take(i as int));
                assert(cs.take(i + 1).last() == run.changes@[i as int]@);
                i = i + 1;
            }
            assert(cs.take(cs.len() as int) =~= cs);
            let save = run.changes.len() > 0;
            Ok((run.updates, save))
        },
    }
}

} // verus!
