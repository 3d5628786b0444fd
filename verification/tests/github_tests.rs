use discord_bot::github::{collect_closed_bugs, collect_new_commits, Commit, GithubError, Issue, IssueActivity, IssueState};
use discord_bot::github_config::{listing, GithubConfig};
use discord_bot::github_embeds::{build_bug_embed, build_commit_embed, embed_for};
use discord_bot::github_poll::{collect_issue_events, BranchCommits, RepoTrackingData};
use discord_bot::github_updates::{entry_state, finish_poll, note_org_repo, org_poll_start, poll_repository, repo_change, GithubEvent, GithubUpdate, OrgPollStart, PollRun};

const NOW: i64 = 1_700_000_000_000;

fn create_commit(sha: &str) -> Commit {
    Commit {
        sha: sha.to_string(),
        message: "msg".to_string(),
        author_name: "auth".to_string(),
        html_url: "url".to_string(),
        avatar_url: None,
        committed_at: Some(NOW),
    }
}

fn branch(name: &str, shas: &[&str]) -> BranchCommits {
    BranchCommits { branch: name.to_string(), commits: shas.iter().map(|s| create_commit(s)).collect() }
}

fn issue(number: u64, closed_at: Option<i64>, updated_at: Option<i64>, is_bug: bool) -> Issue {
    Issue {
        number,
        title: format!("Issue {}", number),
        html_url: format!("https://github.com/o/r/issues/{}", number),
        reporter: Some("alice".to_string()),
        assignee: None,
        closed_by: Some("bob".to_string()),
        labels: vec!["bug".to_string()],
        state: if closed_at.is_some() { IssueState::Closed } else { IssueState::Open },
        created_at: Some(NOW - 10_000_000),
        updated_at,
        closed_at,
        is_bug,
    }
}

/// Polls the one tracked repository of guild 1 as the service does, writing the new
/// watermarks back.
fn poll(config: &mut GithubConfig, branches: Vec<BranchCommits>) -> Vec<GithubUpdate> {
    let entries = config.list_entries(1);
    let entry = &entries[0];
    let mut state = entry_state(entry);
    let repo = entry.repo.clone().unwrap();
    let (updates, dirty) =
        poll_repository(1, entry.channel_id, &entry.owner, &repo, &mut state, &branches, &vec![], &vec![], NOW);
    if let Some(change) = repo_change(1, &entry.owner, &repo, state, dirty) {
        config.apply_change(&change);
    }
    updates
}

fn watched_repo() -> GithubConfig {
    let mut config = GithubConfig::new();
    config.track_repository(1, "owner", "repo", 100);
    config
}

#[test]
fn test_new_branch_detection() {
    let mut config = watched_repo();
    let updates = poll(&mut config, vec![branch("main", &["sha1"])]);
    assert!(updates.is_empty(), "First poll should be quiet baseline");
    let updates = poll(&mut config, vec![branch("main", &["sha1"]), branch("feat", &["sha2"])]);
    assert_eq!(updates.len(), 1);
    if let GithubEvent::CommitPushed { branch, commit, .. } = &updates[0].event {
        assert_eq!(branch, "feat");
        assert_eq!(commit.sha, "sha2");
    } else {
        panic!("Unexpected event type");
    }
    assert_eq!(updates[0].channel_id, 100);
}

#[test]
fn test_new_branch_from_main_no_new_commits_is_quiet() {
    let mut config = watched_repo();
    poll(&mut config, vec![branch("main", &["sha1"])]);
    let updates = poll(&mut config, vec![branch("main", &["sha1"]), branch("feat", &["sha1"])]);
    assert!(updates.is_empty());
}

#[test]
fn test_branch_from_existing_only_reports_new_commits() {
    let mut config = watched_repo();
    let updates = poll(&mut config, vec![branch("main", &["sha3", "sha2", "sha1"])]);
    assert!(updates.is_empty());
    let updates = poll(
        &mut config,
        vec![branch("main", &["sha3", "sha2", "sha1"]), branch("feature-b", &["sha5", "sha4", "sha3", "sha2", "sha1"])],
    );
    let shas: Vec<&str> = updates
        .iter()
        .filter_map(|u| match &u.event {
            GithubEvent::CommitPushed { commit, .. } => Some(commit.sha.as_str()),
            _ => None,
        })
        .collect();
    assert_eq!(shas, vec!["sha4", "sha5"]);
}

#[test]
fn pushes_to_a_known_branch_are_reported_oldest_first() {
    let mut config = watched_repo();
    poll(&mut config, vec![branch("main", &["a"])]);
    let updates = poll(&mut config, vec![branch("main", &["c", "b", "a"])]);
    let shas: Vec<String> = updates
        .iter()
        .map(|u| match &u.event {
            GithubEvent::CommitPushed { commit, .. } => commit.sha.clone(),
            _ => String::new(),
        })
        .collect();
    assert_eq!(shas, vec!["b".to_string(), "c".to_string()]);
    // Nothing new the next time.
    assert!(poll(&mut config, vec![branch("main", &["c", "b", "a"])]).is_empty());
}

#[test]
fn new_commits_stop_at_the_last_seen() {
    let commits: Vec<Commit> = ["c", "b", "a"].iter().map(|s| create_commit(s)).collect();
    let shas: Vec<String> = collect_new_commits(&commits, Some("a")).iter().map(|c| c.sha.clone()).collect();
    assert_eq!(shas, vec!["b".to_string(), "c".to_string()]);
    assert!(collect_new_commits(&commits, Some("c")).is_empty());
}

#[test]
fn closed_bugs_after_the_watermark() {
    let bugs = vec![issue(1, Some(NOW - 1000), Some(NOW - 1000), true), issue(2, Some(NOW - 5000), Some(NOW - 5000), true)];
    let fresh = collect_closed_bugs(&bugs, Some(NOW - 3000), NOW);
    assert_eq!(fresh.len(), 1);
    assert_eq!(fresh[0].number, 1);
    // On the first poll only the last thirty minutes count.
    let old = vec![issue(3, Some(NOW - 3_600_000), None, true), issue(4, Some(NOW - 60_000), None, true)];
    let first = collect_closed_bugs(&old, None, NOW);
    assert_eq!(first.len(), 1);
    assert_eq!(first[0].number, 4);
}

#[test]
fn issue_activity_is_classified() {
    let opened = issue(5, None, Some(NOW - 1000), false);
    let events = collect_issue_events(&vec![opened], Some(NOW - 2000), NOW);
    assert_eq!(events.len(), 1);
    assert_eq!(events[0].1, IssueActivity::Updated);
    let mut fresh = issue(7, None, Some(NOW - 1000), false);
    fresh.created_at = Some(NOW - 1500);
    assert_eq!(collect_issue_events(&vec![fresh], Some(NOW - 2000), NOW)[0].1, IssueActivity::Opened);
    let closed = issue(8, Some(NOW - 500), Some(NOW - 500), false);
    assert_eq!(collect_issue_events(&vec![closed], Some(NOW - 2000), NOW)[0].1, IssueActivity::Closed);
    let none = collect_issue_events(&vec![issue(6, None, Some(NOW - 5000), false)], Some(NOW - 2000), NOW);
    assert!(none.is_empty());
    // Bugs are reported as closed bugs, not as issue activity.
    assert!(collect_issue_events(&vec![issue(9, None, Some(NOW - 1000), true)], Some(NOW - 2000), NOW).is_empty());
}

#[test]
fn tracking_and_removal() {
    let mut config = GithubConfig::new();
    config.track_repository(1, "Owner", "repo", 100);
    config.track_repository(1, "owner", "repo", 200);
    let entries = config.list_entries(1);
    assert_eq!(entries.len(), 1);
    assert_eq!(entries[0].channel_id, 200);
    assert!(config.remove_repository(1, "OWNER", "REPO"));
    assert!(!config.remove_repository(1, "owner", "repo"));
    assert!(config.list_entries(1).is_empty());
    assert!(!config.remove_repository(9, "owner", "repo"));
}

#[test]
fn organizations_are_tracked_with_their_repositories() {
    let mut config = GithubConfig::new();
    let repos = config.track_organization(1, "Org", 5, vec!["a".to_string(), "b".to_string()]);
    assert_eq!(repos, vec!["a".to_string(), "b".to_string()]);
    let entries = config.list_entries(1);
    assert!(entries[0].is_org);
    assert_eq!(entries[0].org_repos.len(), 2);
    assert!(config.remove_organization(1, "org"));
    assert!(!config.remove_organization(1, "org"));
}

#[test]
fn listing_names_repositories_and_organizations() {
    let mut config = GithubConfig::new();
    config.track_repository(1, "owner", "repo", 100);
    config.track_organization(1, "org", 7, vec!["x".to_string()]);
    let text = listing(&config.list_entries(1));
    assert_eq!(text, "**Organizations:**\n- `org` (1 repos) -> <#7>\n\n**Repositories:**\n- `owner/repo` -> <#100>");
}

#[test]
fn github_error_messages() {
    assert_eq!(GithubError::Api("boom".to_string()).message(), "GitHub API error: boom");
    assert_eq!(GithubError::Store("disk".to_string()).message(), "Failed to persist GitHub config: disk");
}

#[test]
fn commit_embed_shows_branch_and_short_sha() {
    let mut c = create_commit("0123456789abcdef");
    c.message = "Fix the thing\r\n\nLong body".to_string();
    let e = build_commit_embed("owner", "repo", "main", &c);
    assert_eq!(e.title.as_deref(), Some("[repo:main] new commit"));
    assert_eq!(e.description.as_deref(), Some("[`0123456`](url) Fix the thing"));
    assert_eq!(e.footer.as_deref(), Some("owner/repo"));
    assert_eq!(e.author.as_deref(), Some("auth"));
    assert_eq!(e.fields[0].name, "Committed at");
    assert_eq!(e.fields[0].value, format!("<t:{}:F>", NOW / 1000));
    let update = GithubEvent::CommitPushed {
        owner: "owner".to_string(),
        repo: "repo".to_string(),
        branch: "main".to_string(),
        commit: c,
    };
    assert_eq!(embed_for(&update).description, e.description);
}

#[test]
fn empty_commit_message_is_named() {
    let mut c = create_commit("abc");
    c.message = String::new();
    let e = build_commit_embed("o", "r", "b", &c);
    assert_eq!(e.description.as_deref(), Some("[`abc`](url) No commit message"));
}

#[test]
fn bug_embed_names_the_issue() {
    let e = build_bug_embed("owner", "repo", &issue(12, Some(NOW), None, true));
    assert_eq!(e.title.as_deref(), Some("Bug fixed: #12"));
    assert_eq!(e.description.as_deref(), Some("[Issue 12](https://github.com/o/r/issues/12)"));
    let names: Vec<&str> = e.fields.iter().map(|f| f.name.as_str()).collect();
    assert_eq!(names, vec!["Opened by", "Closed by", "Closed at", "Labels"]);
    assert_eq!(e.fields[0].value, "`alice`");
}

#[test]
fn polling_the_same_listing_again_reports_nothing() {
    let mut config = watched_repo();
    assert!(poll(&mut config, vec![branch("main", &["a1"])]).is_empty());
    let listing_now = || vec![branch("main", &["a3", "a2", "a1"]), branch("feat", &["f1", "a2"])];
    let updates = poll(&mut config, listing_now());
    assert_eq!(updates.len(), 4);
    assert!(poll(&mut config, listing_now()).is_empty());
}

#[test]
fn organization_polls_fetch_the_repository_list_only_when_it_is_empty() {
    let mut config = GithubConfig::new();
    config.track_organization(1, "org", 100, vec![]);
    config.track_organization(2, "org", 200, vec!["a".to_string(), "b".to_string()]);
    assert!(matches!(org_poll_start(&config.list_entries(1)[0]), OrgPollStart::FetchRepos));
    match org_poll_start(&config.list_entries(2)[0]) {
        OrgPollStart::Poll(repos) => assert_eq!(repos, vec!["a".to_string(), "b".to_string()]),
        OrgPollStart::FetchRepos => panic!("the list is known"),
    }
    let mut moved = Vec::new();
    note_org_repo(&mut moved, "org", "a", RepoTrackingData::new(), false);
    assert!(moved.is_empty());
    note_org_repo(&mut moved, "org", "b", RepoTrackingData::new(), true);
    assert_eq!(moved.len(), 1);
    assert_eq!(moved[0].0, "org/b");
}

#[test]
fn a_failed_poll_saves_nothing_and_a_finished_one_applies_its_changes() {
    let mut config = watched_repo();
    let mut state = RepoTrackingData::new();
    state.last_commit_shas.push(("main".to_string(), "abc".to_string()));
    state.last_issue_updated_at = Some(NOW);
    let mut run = PollRun::new();
    run.record(Vec::new(), repo_change(1, "owner", "repo", state, true));

    let failed = finish_poll(&mut config, Err(GithubError::Api("rate limited".to_string())));
    assert!(failed.is_err());
    let entry = &config.list_entries(1)[0];
    assert!(entry.last_commit_shas.is_empty());
    assert_eq!(entry.last_issue_updated_at, None);

    let (updates, save) = finish_poll(&mut config, Ok(run)).unwrap();
    assert!(updates.is_empty());
    assert!(save);
    let entry = &config.list_entries(1)[0];
    assert_eq!(entry.last_commit_shas, vec![("main".to_string(), "abc".to_string())]);
    assert_eq!(entry.last_issue_updated_at, Some(NOW));

    let (_, save) = finish_poll(&mut config, Ok(PollRun::new())).unwrap();
    assert!(!save);
}
