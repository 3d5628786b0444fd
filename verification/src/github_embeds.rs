//! How GitHub updates are shown in their channels.
use crate::embed::{titled, Embed, EmbedView, COLOUR_GOLD, COLOUR_RED};
use crate::github::{opt_str, Commit, CommitView, Issue, IssueActivity, IssueView};
use crate::github_updates::{EventView, GithubEvent};
use crate::logging::with_field;
use crate::text::{chars_of, decimal, joined, owned, push_decimal, push_signed_decimal, push_str, secs_of, signed_decimal, string_from_chars, unix_secs};
use vstd::prelude::*;

verus! {

/// Blurple, as `Colour::from_rgb(88, 101, 242)`.
pub const COLOUR_COMMIT: u32 = 0x5865F2;
/// Green, as `Colour::from_rgb(67, 181, 129)`.
pub const COLOUR_FIXED: u32 = 0x43B581;

/// A full Discord timestamp: `<t:SECONDS:F>`.
pub open spec fn full_time(ms: Option<i64>) -> Option<Seq<char>> {
    match ms {
        Some(t) => Some("<t:"@ + signed_decimal(unix_secs(t as int)) + ":F>"@),
        None => None,
    }
}

fn full_time_text(ms: i64) -> (s: String)
    ensures
        full_time(Some(ms)) == Some(s@),
{
    let mut s = owned("<t:");
    push_signed_decimal(&mut s, secs_of(ms));
    push_str(&mut s, ":F>");
    s
}

/// The first line of a commit message (`str::lines`: up to the first newline, without a
/// carriage return before it), or `No commit message` for an empty message.
pub open spec fn first_line(m: Seq<char>) -> Seq<char> {
    if m.len() == 0 {
        "No commit message"@
    } else {
        match first_newline(m) {
            Some(k) => if k > 0 && m[k - 1] == '\r' {
                m.take(k - 1)
            } else {
                m.take(k)
            },
            None => m,
        }
    }
}

/// Where the first newline is.
pub open spec fn first_newline(m: Seq<char>) -> Option<int>
    decreases m.len(),
{
    if m.len() == 0 {
        None
    } else if m[0] == '\n' {
        Some(0)
    } else {
        match first_newline(m.drop_first()) {
            Some(k) => Some(k + 1),
            None => None,
        }
    }
}

fn commit_first_line(m: &str) -> (s: String)
    ensures
        s@ == first_line(m@),
{
    let v = chars_of(m);
    if v.len() == 0 {
        return owned("No commit message");
    }
    let mut k: usize = 0;
    assert(v@.skip(0) =~= v@);
    while k < v.len() && v[k] != '\n'
        invariant
            k <= v.len(),
            first_newline(v@) == match first_newline(v@.skip(k as int)) {
                Some(j) => Some(j + k),
                None => None,
            },
        decreases v.len() - k,
    {
        assert(v@.skip(k as int)[0] == v@[k as int]);
        assert(v@.skip(k as int).drop_first() =~= v@.skip(k + 1));
        k = k + 1;
    }
    let end = if k < v.len() {
        assert(v@.skip(k as int)[0] == v@[k as int]);
        if k > 0 && v[k - 1] == '\r' {
            k - 1
        } else {
            k
        }
    } else {
        assert(v@.skip(k as int).len() == 0);
        k
    };
    let mut out: Vec<char> = Vec::new();
    let mut i: usize = 0;
    while i < end
        invariant
            i <= end <= v.len(),
            out@ == v@.take(i as int),
        decreases end - i,
    {
        out.push(v[i]);
        i = i + 1;
        assert(out@ =~= v@.take(i as int));
    }
    if k == v.len() {
        assert(v@.take(end as int) =~= v@);
    }
    string_from_chars(&out)
}

/// The first seven characters of a commit hash.
pub open spec fn short_sha(sha: Seq<char>) -> Seq<char> {
    if sha.len() < 7 {
        sha
    } else {
        sha.take(7)
    }
}

fn short_sha_text(sha: &str) -> (s: String)
    ensures
        s@ == short_sha(sha@),
{
    let v = chars_of(sha);
    let n: usize = if v.len() < 7 { v.len() } else { 7 };
    let mut out: Vec<char> = Vec::new();
    let mut i: usize = 0;
    while i < n
        invariant
            i <= n <= v.len(),
            out@ == v@.take(i as int),
        decreases n - i,
    {
        out.push(v[i]);
        i = i + 1;
        assert(out@ =~= v@.take(i as int));
    }
    if v.len() < 7 {
        assert(v@.take(n as int) =~= v@);
    }
    string_from_chars(&out)
}

pub open spec fn with_opt_field(e: EmbedView, name: Seq<char>, value: Option<Seq<char>>, inline: bool) -> EmbedView {
    match value {
        Some(v) => with_field(e, name, v, inline),
        None => e,
    }
}

pub open spec fn repo_footer(e: EmbedView, owner: Seq<char>, repo: Seq<char>) -> EmbedView {
    EmbedView { footer: Some(owner + "/"@ + repo), timestamp_now: true, ..e }
}

pub open spec fn quoted(o: Option<Seq<char>>) -> Option<Seq<char>> {
    match o {
        Some(s) => Some("`"@ + s + "`"@),
        None => None,
    }
}

/// The labels field: the first five labels, comma separated, where there are labels.
pub open spec fn with_labels(e: EmbedView, labels: Seq<Seq<char>>) -> EmbedView {
    if labels.len() == 0 {
        e
    } else {
        with_field(e, "Labels"@, joined(labels.take(if labels.len() < 5 { labels.len() as int } else { 5 }), ", "@), false)
    }
}

/// The embed of a pushed commit.
pub open spec fn commit_embed(owner: Seq<char>, repo: Seq<char>, branch: Seq<char>, c: CommitView) -> EmbedView {
    let base = repo_footer(
        titled(
            "["@ + repo + ":"@ + branch + "] new commit"@,
            "[`"@ + short_sha(c.sha) + "`]("@ + c.html_url + ") "@ + first_line(c.message),
            COLOUR_COMMIT,
        ),
        owner,
        repo,
    );
    let with_author = EmbedView { author: Some(c.author_name), author_icon: c.avatar_url, ..base };
    with_opt_field(with_author, "Committed at"@, full_time(c.committed_at), true)
}

/// The embed of a fixed bug.
pub open spec fn bug_embed(owner: Seq<char>, repo: Seq<char>, i: IssueView) -> EmbedView {
    let base = repo_footer(
        titled("Bug fixed: #"@ + decimal(i.number as nat), "["@ + i.title + "]("@ + i.html_url + ")"@, COLOUR_FIXED),
        owner,
        repo,
    );
    with_labels(
        with_opt_field(
            with_opt_field(with_opt_field(base, "Opened by"@, quoted(i.reporter), true), "Closed by"@, quoted(i.closed_by), true),
            "Closed at"@,
            full_time(i.closed_at),
            true,
        ),
        i.labels,
    )
}

pub open spec fn activity_word(a: IssueActivity) -> Seq<char> {
    match a {
        IssueActivity::Opened => "opened"@,
        IssueActivity::Updated => "updated"@,
        IssueActivity::Closed => "closed"@,
    }
}

pub open spec fn activity_colour(a: IssueActivity) -> u32 {
    match a {
        IssueActivity::Opened => COLOUR_FIXED,
        IssueActivity::Updated => COLOUR_GOLD,
        IssueActivity::Closed => COLOUR_RED,
    }
}

/// The embed of issue activity.
pub open spec fn issue_embed(owner: Seq<char>, repo: Seq<char>, i: IssueView, a: IssueActivity) -> EmbedView {
    let base = repo_footer(
        titled(
            "Issue #"@ + decimal(i.number as nat) + " "@ + activity_word(a),
            "["@ + i.title + "]("@ + i.html_url + ")"@,
            activity_colour(a),
        ),
        owner,
        repo,
    );
    let people = with_opt_field(with_opt_field(base, "Author"@, quoted(i.reporter), true), "Assigned to"@, quoted(i.assignee), true);
    let timed = if a == IssueActivity::Closed {
        with_opt_field(people, "Closed at"@, full_time(i.closed_at), true)
    } else {
        with_opt_field(people, "Updated at"@, full_time(i.updated_at), true)
    };
    with_labels(timed, i.labels)
}

/// The embed of an event.
pub open spec fn event_embed(e: EventView) -> EmbedView {
    match e {
        EventView::CommitPushed { owner, repo, branch, commit } => commit_embed(owner, repo, branch, commit),
        EventView::BugClosed { owner, repo, issue } => bug_embed(owner, repo, issue),
        EventView::IssueActivity { owner, repo, issue, activity } => issue_embed(owner, repo, issue, activity),
    }
}

fn footer_and_time(e: &mut Embed, owner: &str, repo: &str)
    ensures
        final(e)@ == repo_footer(old(e)@, owner@, repo@),
{
    let mut f = owned(owner);
    push_str(&mut f, "/");
    push_str(&mut f, repo);
    e.set_footer(f);
    e.stamp_now();
}

fn opt_field(e: &mut Embed, name: &str, value: Option<String>, inline: bool)
    ensures
        final(e)@ == with_opt_field(old(e)@, name@, opt_str(value), inline),
{
    match value {
        Some(v) => e.add_field(name, v, inline),
        None => {},
    }
}

fn quote(o: &Option<String>) -> (r: Option<String>)
    ensures
        opt_str(r) == quoted(opt_str(*o)),
{
    match o {
        Some(s) => {
            let mut q = owned("`");
            push_str(&mut q, s.as_str());
            push_str(&mut q, "`");
            Some(q)
        },
        None => None,
    }
}

fn time_field(ms: Option<i64>) -> (r: Option<String>)
    ensures
        opt_str(r) == full_time(ms),
{
    match ms {
        Some(t) => Some(full_time_text(t)),
        None => None,
    }
}

fn labels_field(e: &mut Embed, labels: &Vec<String>)
    ensures
        final(e)@ == with_labels(old(e)@, crate::github::strings_view(labels@)),
{
    if labels.len() == 0 {
        return;
    }
    let n: usize = if labels.len() < 5 { labels.len() } else { 5 };
    let mut first: Vec<String> = Vec::new();
    let mut i: usize = 0;
    while i < n
        invariant
            i <= n <= labels.len(),
            crate::text::strings_seq(first@) == crate::github::strings_view(labels@).take(i as int),
        decreases n - i,
    {
        let ghost before = first@;
        first.push(crate::text::copy_string(&labels[i]));
        assert(crate::text::strings_seq(first@) =~= crate::text::strings_seq(before).push(labels@[i as int]@));
        i = i + 1;
        assert(crate::text::strings_seq(first@) =~= crate::github::strings_view(labels@).take(i as int));
    }
    e.add_field("Labels", crate::text::join_strings(&first, ", "), false);
}

fn issue_link(i: &Issue) -> (s: String)
    ensures
        s@ == "["@ + i.title@ + "]("@ + i.html_url@ + ")"@,
{
    let mut s = owned("[");
    push_str(&mut s, i.title.as_str());
    push_str(&mut s, "](");
    push_str(&mut s, i.html_url.as_str());
    push_str(&mut s, ")");
    s
}

/// The embed of a pushed commit.
pub fn build_commit_embed(owner: &str, repo: &str, branch: &str, commit: &Commit) -> (e: Embed)
    ensures
        e@ == commit_embed(owner@, repo@, branch@, commit@),
{
    let mut title = owned("[");
    push_str(&mut title, repo);
    push_str(&mut title, ":");
    push_str(&mut title, branch);
    push_str(&mut title, "] new commit");
    let mut d = owned("[`");
    let sha = short_sha_text(commit.sha.as_str());
    push_str(&mut d, sha.as_str());
    push_str(&mut d, "`](");
    push_str(&mut d, commit.html_url.as_str());
    push_str(&mut d, ") ");
    let line = commit_first_line(commit.message.as_str());
    push_str(&mut d, line.as_str());
    let mut e = Embed::titled(title.as_str(), d, COLOUR_COMMIT);
    footer_and_time(&mut e, owner, repo);
    e.set_author(&commit.author_name, &commit.avatar_url);
    opt_field(&mut e, "Committed at", time_field(commit.committed_at), true);
    e
}

/// The embed of a fixed bug.
pub fn build_bug_embed(owner: &str, repo: &str, issue: &Issue) -> (e: Embed)
    ensures
        e@ == bug_embed(owner@, repo@, issue@),
{
    let mut title = owned("Bug fixed: #");
    push_decimal(&mut title, issue.number);
    let mut e = Embed::titled(title.as_str(), issue_link(issue), COLOUR_FIXED);
    footer_and_time(&mut e, owner, repo);
    opt_field(&mut e, "Opened by", quote(&issue.reporter), true);
    opt_field(&mut e, "Closed by", quote(&issue.closed_by), true);
    opt_field(&mut e, "Closed at", time_field(issue.closed_at), true);
    labels_field(&mut e, &issue.labels);
    e
}

/// The embed of issue activity.
pub fn build_issue_embed(owner: &str, repo: &str, issue: &Issue, activity: IssueActivity) -> (e: Embed)
    ensures
        e@ == issue_embed(owner@, repo@, issue@, activity),
{
    let word = match activity {
        IssueActivity::Opened => "opened",
        IssueActivity::Updated => "updated",
        IssueActivity::Closed => "closed",
    };
    let colour = match activity {
        IssueActivity::Opened => COLOUR_FIXED,
        IssueActivity::Updated => COLOUR_GOLD,
        IssueActivity::Closed => COLOUR_RED,
    };
    let mut title = owned("Issue #");
    push_decimal(&mut title, issue.number);
    push_str(&mut title, " ");
    push_str(&mut title, word);
    let mut e = Embed::titled(title.as_str(), issue_link(issue), colour);
    footer_and_time(&mut e, owner, repo);
    opt_field(&mut e, "Author", quote(&issue.reporter), true);
    opt_field(&mut e, "Assigned to", quote(&issue.assignee), true);
    match activity {
        IssueActivity::Closed => opt_field(&mut e, "Closed at", time_field(issue.closed_at), true),
        _ => opt_field(&mut e, "Updated at", time_field(issue.updated_at), true),
    }
    labels_field(&mut e, &issue.labels);
    e
}

/// The embed of an event.
pub fn embed_for(event: &GithubEvent) -> (e: Embed)
    ensures
        e@ == event_embed(event@),
{
    match event {
        GithubEvent::CommitPushed { owner, repo, branch, commit } => build_commit_embed(
            owner.as_str(),
            repo.as_str(),
            branch.as_str(),
            commit,
        ),
        GithubEvent::BugClosed { owner, repo, issue } => build_bug_embed(owner.as_str(), repo.as_str(), issue),
        GithubEvent::IssueActivity { owner, repo, issue, activity } => build_issue_embed(
            owner.as_str(),
            repo.as_str(),
            issue,
            *activity,
        ),
    }
}

} // verus!
