//! Server statistics channels: their settings, the counts they show, and the names
//! they carry.
use crate::text::{decimal, owned, push_decimal, push_str};
use vstd::prelude::*;

verus! {

/// The channels that show a guild's statistics.
#[derive(Debug, Clone, Copy)]
pub struct ServerStatsConfig {
    pub guild_id: u64,
    pub category_id: u64,
    pub total_members_channel_id: u64,
    pub members_channel_id: u64,
    pub bots_channel_id: u64,
    pub boost_channel_id: u64,
    pub enabled: bool,
}

/// Why a statistics settings change failed.
#[derive(Debug)]
pub enum ServerStatsError {
    Store(String),
    AlreadyConfigured,
    NotConfigured,
}

pub open spec fn stats_error_text(e: ServerStatsError) -> Seq<char> {
    match e {
        ServerStatsError::Store(m) => "Store error: "@ + m@,
        ServerStatsError::AlreadyConfigured => "Already configured"@,
        ServerStatsError::NotConfigured => "Not configured"@,
    }
}

impl ServerStatsError {
    /// The human-readable message of the error.
    pub fn message(&self) -> (s: String)
        ensures
            s@ == stats_error_text(*self),
    {
        match self {
            ServerStatsError::Store(m) => {
                let mut s = owned("Store error: ");
                push_str(&mut s, m.as_str());
                s
            },
            ServerStatsError::AlreadyConfigured => owned("Already configured"),
            ServerStatsError::NotConfigured => owned("Not configured"),
        }
    }
}

/// A guild is configured once: saving is refused where settings exist.
pub fn check_save(existing: &Option<ServerStatsConfig>) -> (r: Result<(), ServerStatsError>)
    ensures
        existing is Some <==> r is Err,
        r matches Err(e) ==> e is AlreadyConfigured,
{
    match existing {
        Some(_) => Err(ServerStatsError::AlreadyConfigured),
        None => Ok(()),
    }
}

/// Only existing settings can be deleted.
pub fn check_delete(existing: &Option<ServerStatsConfig>) -> (r: Result<(), ServerStatsError>)
    ensures
        existing is None <==> r is Err,
        r matches Err(e) ==> e is NotConfigured,
{
    match existing {
        Some(_) => Ok(()),
        None => Err(ServerStatsError::NotConfigured),
    }
}

/// The counts shown.
#[derive(Debug, Clone, Copy)]
pub struct StatCounts {
    pub total_members: u64,
    pub members: u64,
    pub bots: u64,
    pub boosts: u64,
}

/// Human members: all members less the bots found in the (possibly partial) member cache;
/// where that would go below zero, the humans found in the cache.
pub open spec fn human_count(total: u64, bots_cached: u64, humans_cached: u64) -> u64 {
    if total >= bots_cached {
        (total - bots_cached) as u64
    } else {
        humans_cached
    }
}

pub fn stat_counts(total: u64, bots_cached: u64, humans_cached: u64, boosts: u64) -> (c: StatCounts)
    ensures
        c.total_members == total,
        c.members == human_count(total, bots_cached, humans_cached),
        c.bots == bots_cached,
        c.boosts == boosts,
{
    let members = if total >= bots_cached { total - bots_cached } else { humans_cached };
    StatCounts { total_members: total, members, bots: bots_cached, boosts }
}

fn labelled(label: &str, n: u64) -> (s: String)
    ensures
        s@ == label@ + decimal(n as nat),
{
    let mut s = owned(label);
    push_decimal(&mut s, n);
    s
}

/// The names of the four channels: all members, members, bots, boosts.
pub fn channel_names(c: &StatCounts) -> (r: (String, String, String, String))
    ensures
        r.0@ == "🧑‍🤝‍🧑 All Members: "@ + decimal(c.total_members as nat),
        r.1@ == "👤 Members: "@ + decimal(c.members as nat),
        r.2@ == "🤖 Bots: "@ + decimal(c.bots as nat),
        r.3@ == "🚀 Boosts: "@ + decimal(c.boosts as nat),
{
    (
        labelled("🧑‍🤝‍🧑 All Members: ", c.total_members),
        labelled("👤 Members: ", c.members),
        labelled("🤖 Bots: ", c.bots),
        labelled("🚀 Boosts: ", c.boosts),
    )
}

/// What the status command shows of the settings, in order: the state, then each channel
/// as a mention.
pub fn status_fields(c: &ServerStatsConfig) -> (r: Vec<(String, String)>)
    ensures
        r@.len() == 6,
        r@[0].0@ == "Status"@ && r@[0].1@ == (if c.enabled { "Enabled"@ } else { "Disabled"@ }),
        r@[1].0@ == "Category"@ && r@[1].1@ == crate::logging::channel_mention(c.category_id),
        r@[2].0@ == "Total Members Channel"@ && r@[2].1@ == crate::logging::channel_mention(c.total_members_channel_id),
        r@[3].0@ == "Members Channel"@ && r@[3].1@ == crate::logging::channel_mention(c.members_channel_id),
        r@[4].0@ == "Bots Channel"@ && r@[4].1@ == crate::logging::channel_mention(c.bots_channel_id),
        r@[5].0@ == "Boosts Channel"@ && r@[5].1@ == crate::logging::channel_mention(c.boost_channel_id),
{
    let mut r: Vec<(String, String)> = Vec::new();
    r.push((owned("Status"), owned(if c.enabled { "Enabled" } else { "Disabled" })));
    r.push((owned("Category"), mention(c.category_id)));
    r.push((owned("Total Members Channel"), mention(c.total_members_channel_id)));
    r.push((owned("Members Channel"), mention(c.members_channel_id)));
    r.push((owned("Bots Channel"), mention(c.bots_channel_id)));
    r.push((owned("Boosts Channel"), mention(c.boost_channel_id)));
    r
}

fn mention(c: u64) -> (s: String)
    ensures
        s@ == crate::logging::channel_mention(c),
{
    let mut s = owned("<#");
    push_decimal(&mut s, c);
    push_str(&mut s, ">");
    s
}

} // verus!
