//! Voice-channel activity and meeting attendance, and the message snapshots kept for
//! logging edits and deletions. The state lives in dashmap's concurrent maps.
use crate::logging::{LogConfig, LogEvent, TrackedMessage};
use dashmap::{DashMap, DashSet};
use vstd::prelude::*;

verus! {

#[verifier::external_type_specification]
#[verifier::external_body]
#[verifier::reject_recursive_types(K)]
#[verifier::reject_recursive_types(V)]
#[verifier::reject_recursive_types(S)]
pub struct ExDashMap<K, V, S>(DashMap<K, V, S>);

#[verifier::external_type_specification]
#[verifier::external_body]
#[verifier::reject_recursive_types(K)]
#[verifier::reject_recursive_types(S)]
pub struct ExDashSet<K, S>(DashSet<K, S>);

// ---------------------------------------------------------------------------
// Sets of ids
// ---------------------------------------------------------------------------

/// The ids a `DashSet` holds.
pub uninterp spec fn id_set_items(s: DashSet<u64>) -> Set<u64>;

/// An empty set (`DashSet::new`).
#[verifier::external_body]
fn id_set_new() -> (s: DashSet<u64>)
    ensures
        id_set_items(s) == Set::<u64>::empty(),
{
    DashSet::new()
}

/// Adds an id (`DashSet::insert`).
#[verifier::external_body]
fn id_set_insert(s: &mut DashSet<u64>, x: u64)
    ensures
        id_set_items(*final(s)) == id_set_items(*old(s)).insert(x),
{
    s.insert(x);
}

/// Removes an id (`DashSet::remove`).
#[verifier::external_body]
fn id_set_remove(s: &mut DashSet<u64>, x: u64)
    ensures
        id_set_items(*final(s)) == id_set_items(*old(s)).remove(x),
{
    s.remove(&x);
}

/// Whether an id is in the set (`DashSet::contains`).
#[verifier::external_body]
fn id_set_contains(s: &DashSet<u64>, x: u64) -> (r: bool)
    ensures
        r == id_set_items(*s).contains(x),
{
    s.contains(&x)
}

/// The ids of the set, each once, in the order the set is walked (`DashSet::iter`).
/// Which order that is, the set leaves open.
#[verifier::external_body]
fn id_set_list(s: &DashSet<u64>) -> (r: Vec<u64>)
    ensures
        r@.to_set() == id_set_items(*s),
        r@.no_duplicates(),
{
    s.iter().map(|x| *x).collect()
}

// ---------------------------------------------------------------------------
// Maps from ids to sets of ids
// ---------------------------------------------------------------------------

/// A concurrent map from ids to sets of ids.
pub type IdSetMap = DashMap<u64, DashSet<u64>>;

/// What a `DashMap` of id sets holds: each key with the ids of its set.
pub uninterp spec fn set_map_items(m: DashMap<u64, DashSet<u64>>) -> Map<u64, Set<u64>>;

/// An empty map (`DashMap::new`).
#[verifier::external_body]
fn set_map_new() -> (r: IdSetMap)
    ensures
        set_map_items(r).dom() == Set::<u64>::empty(),
{
    DashMap::new()
}

/// Takes the set stored under a key out of the map (`DashMap::remove`).
#[verifier::external_body]
fn set_map_remove(m: &mut DashMap<u64, DashSet<u64>>, k: u64) -> (r: Option<DashSet<u64>>)
    ensures
        set_map_items(*final(m)) == set_map_items(*old(m)).remove(k),
        match r {
            Some(s) => set_map_items(*old(m)).contains_key(k) && id_set_items(s) == set_map_items(*old(m))[k],
            None => !set_map_items(*old(m)).contains_key(k),
        },
{
    m.remove(&k).map(|(_, v)| v)
}

/// Stores a set under a key (`DashMap::insert`).
#[verifier::external_body]
fn set_map_insert(m: &mut DashMap<u64, DashSet<u64>>, k: u64, s: DashSet<u64>)
    ensures
        set_map_items(*final(m)) == set_map_items(*old(m)).insert(k, id_set_items(s)),
{
    m.insert(k, s);
}

// ---------------------------------------------------------------------------
// Voice tracking
// ---------------------------------------------------------------------------

/// The stage channel whose attendance is summarised when it empties.
pub const MEETING_STAGE_CHANNEL_ID: u64 = 1393369518297972758;

/// A change of a member's voice state, with the members of both channels afterwards.
#[derive(Debug)]
pub struct VoiceUpdateParams {
    pub guild_id: u64,
    pub member_id: u64,
    pub old_channel_id: Option<u64>,
    pub new_channel_id: Option<u64>,
    pub old_channel_members: Vec<u64>,
    pub new_channel_members: Vec<u64>,
}

/// Which voice channels hold a conversation (two people or more), per guild, and who
/// attended the meeting stage, per channel.
pub struct VoiceTracker {
    active_voice_channels: DashMap<u64, DashSet<u64>>,
    meeting_attendees: DashMap<u64, DashSet<u64>>,
}

pub struct VoiceView {
    pub active: Map<u64, Set<u64>>,
    pub meetings: Map<u64, Set<u64>>,
}

impl View for VoiceTracker {
    type V = VoiceView;

    closed spec fn view(&self) -> VoiceView {
        VoiceView {
            active: set_map_items(self.active_voice_channels),
            meetings: set_map_items(self.meeting_attendees),
        }
    }
}

pub open spec fn is_active(active: Map<u64, Set<u64>>, guild_id: u64, channel_id: u64) -> bool {
    active.contains_key(guild_id) && active[guild_id].contains(channel_id)
}

/// The guild's active channels with `channel_id` added or removed.
pub open spec fn marked(active: Map<u64, Set<u64>>, guild_id: u64, channel_id: u64, on: bool) -> Map<u64, Set<u64>> {
    let cur = if active.contains_key(guild_id) {
        active[guild_id]
    } else {
        Set::empty()
    };
    active.insert(guild_id, if on { cur.insert(channel_id) } else { cur.remove(channel_id) })
}

/// The attendance after a member joins the stage.
pub open spec fn joined_meeting(meetings: Map<u64, Set<u64>>, channel_id: u64, member_id: u64) -> Map<u64, Set<u64>> {
    let cur = if meetings.contains_key(channel_id) {
        meetings[channel_id]
    } else {
        Set::empty()
    };
    meetings.insert(channel_id, cur.insert(member_id))
}

/// Whether the update ends the meeting: someone left the stage, it is now empty, and
/// attendance was being recorded.
pub open spec fn meeting_ends(p: VoiceParamsView, meetings: Map<u64, Set<u64>>) -> bool {
    p.old_channel == Some(MEETING_STAGE_CHANNEL_ID) && p.old_members.len() == 0 && meetings.contains_key(
        MEETING_STAGE_CHANNEL_ID,
    )
}

pub struct VoiceParamsView {
    pub guild_id: u64,
    pub member_id: u64,
    pub old_channel: Option<u64>,
    pub new_channel: Option<u64>,
    pub old_members: Seq<u64>,
    pub new_members: Seq<u64>,
}

impl View for VoiceUpdateParams {
    type V = VoiceParamsView;

    open spec fn view(&self) -> VoiceParamsView {
        VoiceParamsView {
            guild_id: self.guild_id,
            member_id: self.member_id,
            old_channel: self.old_channel_id,
            new_channel: self.new_channel_id,
            old_members: self.old_channel_members@,
            new_members: self.new_channel_members@,
        }
    }
}

/// Whether the old (non-stage) channel stops being a conversation: it was one, and fewer
/// than two people are left.
pub open spec fn goes_inactive(p: VoiceParamsView, active: Map<u64, Set<u64>>) -> bool {
    p.old_channel matches Some(c) && c != MEETING_STAGE_CHANNEL_ID && p.old_members.len() < 2 && is_active(
        active,
        p.guild_id,
        c,
    )
}

/// Whether the new (non-stage) channel becomes a conversation, judged after the old
/// channel was updated.
pub open spec fn goes_active(p: VoiceParamsView, active: Map<u64, Set<u64>>) -> bool {
    p.new_channel matches Some(c) && c != MEETING_STAGE_CHANNEL_ID && p.new_members.len() >= 2 && !is_active(
        active,
        p.guild_id,
        c,
    )
}

/// The tracked state after an update (logging enabled).
pub open spec fn voice_after(p: VoiceParamsView, st: VoiceView) -> VoiceView {
    let m1 = if p.new_channel == Some(MEETING_STAGE_CHANNEL_ID) {
        joined_meeting(st.meetings, MEETING_STAGE_CHANNEL_ID, p.member_id)
    } else {
        st.meetings
    };
    let m2 = if meeting_ends(p, m1) {
        m1.remove(MEETING_STAGE_CHANNEL_ID)
    } else {
        m1
    };
    let a1 = if goes_inactive(p, st.active) {
        marked(st.active, p.guild_id, p.old_channel.unwrap(), false)
    } else {
        st.active
    };
    let a2 = if goes_active(p, a1) {
        marked(a1, p.guild_id, p.new_channel.unwrap(), true)
    } else {
        a1
    };
    VoiceView { active: a2, meetings: m2 }
}

/// The tracker follows conversations: after an update, a (non-stage) channel that now
/// holds two people or more is marked active, one left with fewer than two is no longer
/// marked (unless the member moved into it), and marks of other guilds and channels are
/// untouched. A channel already marked is not announced again.
pub proof fn lemma_voice_tracking(p: VoiceParamsView, st: VoiceView, guild_id: u64, channel_id: u64)
    ensures
        p.new_channel == Some(channel_id) && channel_id != MEETING_STAGE_CHANNEL_ID && p.new_members.len() >= 2
            ==> is_active(voice_after(p, st).active, p.guild_id, channel_id),
        p.old_channel == Some(channel_id) && channel_id != MEETING_STAGE_CHANNEL_ID && p.old_members.len() < 2
            && p.new_channel != Some(channel_id) ==> !is_active(voice_after(p, st).active, p.guild_id, channel_id),
        (guild_id != p.guild_id || (p.old_channel != Some(channel_id) && p.new_channel != Some(channel_id)))
            ==> (is_active(voice_after(p, st).active, guild_id, channel_id) == is_active(st.active, guild_id, channel_id)),
        is_active(st.active, p.guild_id, channel_id) && p.new_channel == Some(channel_id) && p.old_channel != Some(channel_id)
            ==> !goes_active(p, st.active),
{
}

pub open spec fn mentions_of<F: Fn(u64) -> String>(f: F, ids: Seq<u64>, mentions: Seq<String>) -> bool {
    mentions.len() == ids.len() && forall|i: int| 0 <= i < ids.len() ==> call_ensures(f, (ids[i],), #[trigger] mentions[i])
}

fn mention_all<F: Fn(u64) -> String>(f: &F, ids: &Vec<u64>) -> (r: Vec<String>)
    requires
        forall|x: u64| call_requires(*f, (x,)),
    ensures
        mentions_of(*f, ids@, r@),
{
    let mut r: Vec<String> = Vec::new();
    let mut i: usize = 0;
    while i < ids.len()
        invariant
            i <= ids.len(),
            forall|x: u64| call_requires(*f, (x,)),
            r@.len() == i,
            forall|j: int| 0 <= j < i ==> call_ensures(*f, (ids@[j],), #[trigger] r@[j]),
        decreases ids.len() - i,
    {
        let m = f(ids[i]);
        r.push(m);
        i = i + 1;
    }
    r
}

/// The events an update yields, in order: the meeting summary, the old channel going
/// quiet, the new channel becoming a conversation, each where it happens.
pub open spec fn voice_events_ok<F: Fn(u64) -> String>(f: F, p: VoiceParamsView, st: VoiceView, events: Seq<LogEvent>) -> bool {
    let m1 = if p.new_channel == Some(MEETING_STAGE_CHANNEL_ID) {
        joined_meeting(st.meetings, MEETING_STAGE_CHANNEL_ID, p.member_id)
    } else {
        st.meetings
    };
    let ends = meeting_ends(p, m1);
    let inactive = goes_inactive(p, st.active);
    let a1 = if inactive {
        marked(st.active, p.guild_id, p.old_channel.unwrap(), false)
    } else {
        st.active
    };
    let active = goes_active(p, a1);
    let n0: int = if ends { 1 } else { 0 };
    let n1: int = n0 + if inactive { 1int } else { 0int };
    &&& events.len() == n1 + if active { 1int } else { 0int }
    &&& ends ==> (events[0] matches LogEvent::MeetingEnded { guild_id, channel_id, total_attendees, attendees } && guild_id
        == p.guild_id && channel_id == MEETING_STAGE_CHANNEL_ID && total_attendees == m1[MEETING_STAGE_CHANNEL_ID].len()
        && exists|ids: Seq<u64>|
        ids.to_set() == m1[MEETING_STAGE_CHANNEL_ID] && ids.no_duplicates() && #[trigger] mentions_of(f, ids, attendees@))
    &&& inactive ==> (events[n0] matches LogEvent::VoiceChannelInactive { guild_id, channel_id, member_count }
        && guild_id == p.guild_id && Some(channel_id) == p.old_channel && member_count == p.old_members.len())
    &&& active ==> (events[n1] matches LogEvent::VoiceChannelActive { guild_id, channel_id, member_count, members }
        && guild_id == p.guild_id && Some(channel_id) == p.new_channel && member_count == p.new_members.len()
        && mentions_of(f, p.new_members, members@))
}

impl VoiceTracker {
    /// Nothing active, no meeting recorded.
    pub fn new() -> (t: VoiceTracker)
        ensures
            t@.active == Map::<u64, Set<u64>>::empty(),
            t@.meetings == Map::<u64, Set<u64>>::empty(),
    {
        let t = VoiceTracker { active_voice_channels: set_map_new(), meeting_attendees: set_map_new() };
        assert(t@.active =~= Map::<u64, Set<u64>>::empty());
        assert(t@.meetings =~= Map::<u64, Set<u64>>::empty());
        t
    }

    fn channel_active(&mut self, guild_id: u64, channel_id: u64) -> (r: bool)
        ensures
            final(self)@.active == old(self)@.active,
            final(self)@.meetings == old(self)@.meetings,
            r == is_active(old(self)@.active, guild_id, channel_id),
    {
        let ghost before = self@.active;
        match set_map_remove(&mut self.active_voice_channels, guild_id) {
            Some(s) => {
                let r = id_set_contains(&s, channel_id);
                set_map_insert(&mut self.active_voice_channels, guild_id, s);
                assert(set_map_items(self.active_voice_channels) =~= before);
                r
            },
            None => false,
        }
    }

    fn mark_channel(&mut self, guild_id: u64, channel_id: u64, on: bool)
        ensures
            final(self)@.active == marked(old(self)@.active, guild_id, channel_id, on),
            final(self)@.meetings == old(self)@.meetings,
    {
        let mut s = match set_map_remove(&mut self.active_voice_channels, guild_id) {
            Some(s) => s,
            None => id_set_new(),
        };
        if on {
            id_set_insert(&mut s, channel_id);
        } else {
            id_set_remove(&mut s, channel_id);
        }
        set_map_insert(&mut self.active_voice_channels, guild_id, s);
        assert(set_map_items(self.active_voice_channels) =~= marked(old(self)@.active, guild_id, channel_id, on));
    }

    /// Turns a voice-state change into log events and updates the tracking; nothing is
    /// tracked or logged where logging is not enabled for the guild. `mention` gives
    /// the mention text of a member.
    pub fn process_voice_update<F: Fn(u64) -> String>(
        &mut self,
        params: VoiceUpdateParams,
        config: Option<LogConfig>,
        mention: F,
    ) -> (r: Vec<LogEvent>)
        requires
            forall|x: u64| call_requires(mention, (x,)),
        ensures
            !(config matches Some(c) && c.enabled) ==> r@.len() == 0 && final(self)@ == old(self)@,
            (config matches Some(c) && c.enabled) ==> final(self)@ == voice_after(params@, old(self)@)
                && voice_events_ok(mention, params@, old(self)@, r@),
    {
        let mut events: Vec<LogEvent> = Vec::new();
        let enabled = match config {
            Some(c) => c.enabled,
            None => false,
        };
        if !enabled {
            return events;
        }
        let ghost st = self@;
        let ghost p = params@;
        let guild_id = params.guild_id;
        if params.new_channel_id == Some(MEETING_STAGE_CHANNEL_ID) {
            let mut s = match set_map_remove(&mut self.meeting_attendees, MEETING_STAGE_CHANNEL_ID) {
                Some(s) => s,
                None => id_set_new(),
            };
            id_set_insert(&mut s, params.member_id);
            set_map_insert(&mut self.meeting_attendees, MEETING_STAGE_CHANNEL_ID, s);
            assert(set_map_items(self.meeting_attendees) =~= joined_meeting(st.meetings, MEETING_STAGE_CHANNEL_ID, p.member_id));
        }
        let ghost m1 = self@.meetings;
        if params.old_channel_id == Some(MEETING_STAGE_CHANNEL_ID) && params.old_channel_members.len() == 0 {
            match set_map_remove(&mut self.meeting_attendees, MEETING_STAGE_CHANNEL_ID) {
                Some(s) => {
                    let ids = id_set_list(&s);
                    proof {
                        ids@.unique_seq_to_set();
                    }
                    let attendees = mention_all(&mention, &ids);
                    let ghost av = attendees@;
                    assert(mentions_of(mention, ids@, av));
                    assert(exists|x: Seq<u64>|
                        x.to_set() == m1[MEETING_STAGE_CHANNEL_ID] && x.no_duplicates() && #[trigger] mentions_of(mention, x, av));
                    events.push(
                        LogEvent::MeetingEnded {
                            guild_id,
                            channel_id: MEETING_STAGE_CHANNEL_ID,
                            total_attendees: ids.len(),
                            attendees,
                        },
                    );
                    assert(events@[0] matches LogEvent::MeetingEnded { attendees, .. } && attendees@ == av);
                },
                None => {},
            }
        }
        let ghost e0 = events@;
        let inactive = match params.old_channel_id {
            Some(old_id) => old_id != MEETING_STAGE_CHANNEL_ID && params.old_channel_members.len() < 2 && self.channel_active(guild_id, old_id),
            None => false,
        };
        if inactive {
            let old_id = params.old_channel_id.unwrap();
            self.mark_channel(guild_id, old_id, false);
            events.push(
                LogEvent::VoiceChannelInactive { guild_id, channel_id: old_id, member_count: params.old_channel_members.len() },
            );
        }
        let ghost e1 = events@;
        let active = match params.new_channel_id {
            Some(new_id) => new_id != MEETING_STAGE_CHANNEL_ID && params.new_channel_members.len() >= 2 && !self.channel_active(guild_id, new_id),
            None => false,
        };
        if active {
            let new_id = params.new_channel_id.unwrap();
            self.mark_channel(guild_id, new_id, true);
            let members = mention_all(&mention, &params.new_channel_members);
            events.push(
                LogEvent::VoiceChannelActive {
                    guild_id,
                    channel_id: new_id,
                    member_count: params.new_channel_members.len(),
                    members,
                },
            );
        }
        proof {
            if e0.len() > 0 {
                assert(events@[0] == e0[0]);
            }
            if e1.len() > e0.len() {
                assert(events@[e0.len() as int] == e1[e0.len() as int]);
            }
        }
        assert(self@.meetings == voice_after(p, st).meetings);
        assert(self@.active == voice_after(p, st).active);
        assert(voice_events_ok(mention, p, st, events@));
        events
    }
}

// ---------------------------------------------------------------------------
// Message snapshots
// ---------------------------------------------------------------------------

/// At most this many messages are kept.
pub const MAX_TRACKED_MESSAGES: usize = 5_000;

pub struct TrackedView {
    pub message_id: u64,
    pub guild_id: u64,
    pub channel_id: u64,
    pub author_id: u64,
    pub author_name: Seq<char>,
    pub content: Seq<char>,
    pub attachments: Seq<Seq<char>>,
    pub avatar_url: Option<Seq<char>>,
}

impl View for TrackedMessage {
    type V = TrackedView;

    open spec fn view(&self) -> TrackedView {
        TrackedView {
            message_id: self.message_id,
            guild_id: self.guild_id,
            channel_id: self.channel_id,
            author_id: self.author_id,
            author_name: self.author_name@,
            content: self.content@,
            attachments: crate::text::strings_seq(self.attachments@),
            avatar_url: crate::github::opt_str(self.avatar_url),
        }
    }
}

impl TrackedMessage {
    /// A copy of the snapshot.
    pub fn copy(&self) -> (r: TrackedMessage)
        ensures
            r@ == self@,
    {
        let r = TrackedMessage {
            message_id: self.message_id,
            guild_id: self.guild_id,
            channel_id: self.channel_id,
            author_id: self.author_id,
            author_name: crate::text::copy_string(&self.author_name),
            content: crate::text::copy_string(&self.content),
            attachments: crate::github::copy_strings(&self.attachments),
            avatar_url: crate::github::copy_opt(&self.avatar_url),
        };
        assert(crate::text::strings_seq(r.attachments@) =~= crate::github::strings_view(r.attachments@));
        assert(crate::text::strings_seq(self.attachments@) =~= crate::github::strings_view(self.attachments@));
        r
    }
}

/// The snapshots a `DashMap` holds, by message id.
pub uninterp spec fn tracked_items(m: DashMap<u64, TrackedMessage>) -> Map<u64, TrackedView>;

/// An empty map (`DashMap::new`).
#[verifier::external_body]
fn tracked_map_new() -> (r: DashMap<u64, TrackedMessage>)
    ensures
        tracked_items(r).dom() == Set::<u64>::empty(),
{
    DashMap::new()
}

/// Stores a snapshot (`DashMap::insert`).
#[verifier::external_body]
fn tracked_map_insert(m: &mut DashMap<u64, TrackedMessage>, k: u64, v: TrackedMessage)
    ensures
        tracked_items(*final(m)) == tracked_items(*old(m)).insert(k, v@),
{
    m.insert(k, v);
}

/// How many snapshots the map holds (`DashMap::len`).
#[verifier::external_body]
fn tracked_map_len(m: &DashMap<u64, TrackedMessage>) -> (r: usize)
    ensures
        r == tracked_items(*m).dom().len(),
{
    m.len()
}

/// Takes a snapshot out of the map (`DashMap::remove`).
#[verifier::external_body]
fn tracked_map_remove(m: &mut DashMap<u64, TrackedMessage>, k: u64) -> (r: Option<TrackedMessage>)
    ensures
        tracked_items(*final(m)) == tracked_items(*old(m)).remove(k),
        match r {
            Some(v) => tracked_items(*old(m)).contains_key(k) && v@ == tracked_items(*old(m))[k],
            None => !tracked_items(*old(m)).contains_key(k),
        },
{
    m.remove(&k).map(|(_, v)| v)
}

/// A copy of the snapshot stored under a key (`DashMap::get`).
#[verifier::external_body]
fn tracked_map_get(m: &DashMap<u64, TrackedMessage>, k: u64) -> (r: Option<TrackedMessage>)
    ensures
        match r {
            Some(v) => tracked_items(*m).contains_key(k) && v@ == tracked_items(*m)[k],
            None => !tracked_items(*m).contains_key(k),
        },
{
    m.get(&k).map(|e| e.copy())
}

/// The key of the first entry the map walks (`DashMap::iter`); which one that is, the
/// map leaves open.
#[verifier::external_body]
fn tracked_map_first_key(m: &DashMap<u64, TrackedMessage>) -> (r: Option<u64>)
    ensures
        match r {
            Some(k) => tracked_items(*m).contains_key(k),
            None => tracked_items(*m).dom() == Set::<u64>::empty(),
        },
{
    m.iter().next().map(|e| *e.key())
}

/// Snapshots of recent messages, so that edits and deletions can be logged after the
/// cache of the Discord library has dropped the message.
pub struct MessageCache {
    message_cache: DashMap<u64, TrackedMessage>,
}

impl View for MessageCache {
    type V = Map<u64, TrackedView>;

    closed spec fn view(&self) -> Map<u64, TrackedView> {
        tracked_items(self.message_cache)
    }
}

impl MessageCache {
    /// No snapshot kept.
    pub fn new() -> (c: MessageCache)
        ensures
            c@.dom() == Set::<u64>::empty(),
    {
        MessageCache { message_cache: tracked_map_new() }
    }

    /// Keeps a snapshot under its message id. Past the cap, one snapshot (whichever the
    /// map walks first) is dropped.
    pub fn remember_message(&mut self, message: TrackedMessage)
        ensures
            ({
                let m1 = old(self)@.insert(message.message_id, message@);
                if m1.dom().len() > MAX_TRACKED_MESSAGES {
                    exists|k: u64| m1.contains_key(k) && final(self)@ == m1.remove(k)
                } else {
                    final(self)@ == m1
                }
            }),
            old(self)@.dom().finite() && old(self)@.dom().len() <= MAX_TRACKED_MESSAGES ==> final(self)@.dom().finite()
                && final(self)@.dom().len() <= MAX_TRACKED_MESSAGES,
            old(self)@.dom().finite() && old(self)@.dom().len() < MAX_TRACKED_MESSAGES ==> final(self)@
                == old(self)@.insert(message.message_id, message@),
    {
        let id = message.message_id;
        let ghost mv = message@;
        tracked_map_insert(&mut self.message_cache, id, message);
        let ghost m1 = self@;
        assert(m1.dom() =~= old(self)@.dom().insert(id));
        if tracked_map_len(&self.message_cache) > MAX_TRACKED_MESSAGES {
            match tracked_map_first_key(&self.message_cache) {
                Some(k) => {
                    let _ = tracked_map_remove(&mut self.message_cache, k);
                    assert(m1.contains_key(k) && self@ == m1.remove(k));
                },
                None => {
                    assert(m1.dom().len() == 0);
                },
            }
        }
    }

    /// A copy of a snapshot, which stays (for edits).
    pub fn get_tracked_message(&self, message_id: u64) -> (r: Option<TrackedMessage>)
        ensures
            match r {
                Some(v) => self@.contains_key(message_id) && v@ == self@[message_id],
                None => !self@.contains_key(message_id),
            },
    {
        tracked_map_get(&self.message_cache, message_id)
    }

    /// Takes a snapshot out (for deletions).
    pub fn take_tracked_message(&mut self, message_id: u64) -> (r: Option<TrackedMessage>)
        ensures
            final(self)@ == old(self)@.remove(message_id),
            match r {
                Some(v) => old(self)@.contains_key(message_id) && v@ == old(self)@[message_id],
                None => !old(self)@.contains_key(message_id),
            },
    {
        tracked_map_remove(&mut self.message_cache, message_id)
    }
}

} // verus!
