//! Server logging: what is logged, and how each event is shown in the log channel.
use crate::embed::{titled, Embed, EmbedView, COLOUR_BLUE, COLOUR_BLURPLE, COLOUR_RED};
use crate::github::opt_str;
use crate::text::{
    decimal, join_strings, joined, owned, push_decimal, push_signed_decimal, push_str, secs_of, show_content,
    shown_content, signed_decimal, strings_seq, unix_secs,
};
use vstd::prelude::*;

verus! {

/// Logging settings of a guild.
#[derive(Debug, Clone, Copy)]
pub struct LogConfig {
    pub guild_id: u64,
    pub enabled: bool,
    pub channel_id: Option<u64>,
}

/// A message kept so that its later edit or deletion can still be logged.
#[derive(Debug)]
pub struct TrackedMessage {
    pub message_id: u64,
    pub guild_id: u64,
    pub channel_id: u64,
    pub author_id: u64,
    pub author_name: String,
    pub content: String,
    pub attachments: Vec<String>,
    pub avatar_url: Option<String>,
}

/// Something to log. Times are milliseconds since the epoch.
#[derive(Debug)]
pub enum LogEvent {
    VoiceChannelActive { guild_id: u64, channel_id: u64, member_count: usize, members: Vec<String> },
    VoiceChannelInactive { guild_id: u64, channel_id: u64, member_count: usize },
    MeetingEnded { guild_id: u64, channel_id: u64, total_attendees: usize, attendees: Vec<String> },
    MemberJoined { guild_id: u64, user_id: u64, user_mention: String, avatar_url: Option<String>, created_at: i64 },
    MemberLeft {
        guild_id: u64,
        user_id: u64,
        user_mention: String,
        avatar_url: Option<String>,
        joined_at: Option<i64>,
    },
    MessageDeleted {
        guild_id: u64,
        author_id: u64,
        author_name: String,
        channel_id: u64,
        content: String,
        attachments: Vec<String>,
        avatar_url: Option<String>,
    },
    MessageEdited {
        guild_id: u64,
        author_id: u64,
        author_name: String,
        channel_id: u64,
        before_content: String,
        after_content: String,
        avatar_url: Option<String>,
    },
}

/// Most characters of a deleted message shown.
pub const DELETED_CONTENT_MAX: usize = 4096;
/// Most characters of each side of an edit shown.
pub const EDITED_CONTENT_MAX: usize = 1024;
/// Green, as `Color::from_rgb(0, 255, 0)`.
pub const COLOUR_GREEN_RGB: u32 = 0x00FF00;
/// Orange, as `Color::from_rgb(255, 165, 0)`.
pub const COLOUR_ORANGE_RGB: u32 = 0xFFA500;

// ---------------------------------------------------------------------------
// What each event looks like
// ---------------------------------------------------------------------------

pub open spec fn with_field(e: EmbedView, name: Seq<char>, value: Seq<char>, inline: bool) -> EmbedView {
    EmbedView { fields: e.fields.push((name, value, inline)), ..e }
}

/// The footer naming the guild, with the current time shown.
pub open spec fn closed_off(e: EmbedView, guild_id: u64) -> EmbedView {
    EmbedView { footer: Some("Guild ID: "@ + decimal(guild_id as nat)), timestamp_now: true, ..e }
}

pub open spec fn with_thumbnail(e: EmbedView, url: Option<Seq<char>>) -> EmbedView {
    match url {
        Some(u) => EmbedView { thumbnail: Some(u), ..e },
        None => e,
    }
}

pub open spec fn channel_mention(c: u64) -> Seq<char> {
    "<#"@ + decimal(c as nat) + ">"@
}

/// A relative Discord timestamp: `<t:SECONDS:R>`.
pub open spec fn relative_time(ms: i64) -> Seq<char> {
    "<t:"@ + signed_decimal(unix_secs(ms as int)) + ":R>"@
}

pub open spec fn author_line(name: Seq<char>, id: u64) -> Seq<char> {
    name + " (`"@ + decimal(id as nat) + "`)"@
}

/// The embed of a log event.
pub open spec fn log_embed(e: LogEvent) -> EmbedView {
    match e {
        LogEvent::VoiceChannelActive { guild_id, channel_id, member_count, members } => closed_off(
            with_field(
                titled(
                    "Voice Channel Active"@,
                    channel_mention(channel_id) + " now has "@ + decimal(member_count as nat)
                        + " people (conversation started)"@,
                    COLOUR_GREEN_RGB,
                ),
                "Members"@,
                joined(strings_seq(members@), ", "@),
                false,
            ),
            guild_id,
        ),
        LogEvent::VoiceChannelInactive { guild_id, channel_id, member_count } => closed_off(
            with_field(
                titled(
                    "Voice Channel Inactive"@,
                    channel_mention(channel_id) + " now has "@ + decimal(member_count as nat)
                        + " people (conversation ended)"@,
                    COLOUR_ORANGE_RGB,
                ),
                "Previous State"@,
                "Active conversation"@,
                false,
            ),
            guild_id,
        ),
        LogEvent::MeetingEnded { guild_id, channel_id, total_attendees, attendees } => closed_off(
            with_field(
                with_field(
                    titled(
                        "📊 Meeting Ended - Attendance Summary"@,
                        "The leadership meeting in "@ + channel_mention(channel_id) + " has concluded."@,
                        COLOUR_BLUE,
                    ),
                    "Total Attendees"@,
                    decimal(total_attendees as nat),
                    false,
                ),
                "Attendees"@,
                if attendees@.len() == 0 {
                    "No attendees recorded"@
                } else {
                    joined(strings_seq(attendees@), "\n"@)
                },
                false,
            ),
            guild_id,
        ),
        LogEvent::MemberJoined { guild_id, user_id, user_mention, avatar_url, created_at } => with_thumbnail(
            closed_off(
                with_field(
                    titled("Member Joined Server"@, user_mention@ + " has joined the server."@, COLOUR_GREEN_RGB),
                    "Account Created"@,
                    relative_time(created_at),
                    false,
                ),
                guild_id,
            ),
            opt_str(avatar_url),
        ),
        LogEvent::MemberLeft { guild_id, user_id, user_mention, avatar_url, joined_at } => with_thumbnail(
            closed_off(
                with_field(
                    titled("Member Left Server"@, user_mention@ + " has left the server."@, COLOUR_RED),
                    "Joined Server"@,
                    match joined_at {
                        Some(t) => relative_time(t),
                        None => "Unknown"@,
                    },
                    false,
                ),
                guild_id,
            ),
            opt_str(avatar_url),
        ),
        LogEvent::MessageDeleted { guild_id, author_id, author_name, channel_id, content, attachments, avatar_url } => {
            let base = closed_off(
                with_field(
                    with_field(
                        titled("Message Deleted"@, shown_content(content@, 4096), COLOUR_ORANGE_RGB),
                        "Author"@,
                        author_line(author_name@, author_id),
                        false,
                    ),
                    "Channel"@,
                    channel_mention(channel_id),
                    false,
                ),
                guild_id,
            );
            let with_att = if attachments@.len() == 0 {
                base
            } else {
                with_field(base, "Attachments"@, joined(strings_seq(attachments@), "\n"@), false)
            };
            with_thumbnail(with_att, opt_str(avatar_url))
        },
        LogEvent::MessageEdited {
            guild_id,
            author_id,
            author_name,
            channel_id,
            before_content,
            after_content,
            avatar_url,
        } => with_thumbnail(
            closed_off(
                with_field(
                    with_field(
                        with_field(
                            with_field(
                                titled(
                                    "Message Edited"@,
                                    "Message edited in "@ + channel_mention(channel_id),
                                    COLOUR_BLURPLE,
                                ),
                                "Author"@,
                                author_line(author_name@, author_id),
                                false,
                            ),
                            "Channel"@,
                            channel_mention(channel_id),
                            false,
                        ),
                        "Before"@,
                        shown_content(before_content@, 1024),
                        false,
                    ),
                    "After"@,
                    shown_content(after_content@, 1024),
                    false,
                ),
                guild_id,
            ),
            opt_str(avatar_url),
        ),
    }
}

fn channel_text(c: u64) -> (s: String)
    ensures
        s@ == channel_mention(c),
{
    let mut s = owned("<#");
    push_decimal(&mut s, c);
    push_str(&mut s, ">");
    s
}

fn relative_text(ms: i64) -> (s: String)
    ensures
        s@ == relative_time(ms),
{
    let mut s = owned("<t:");
    push_signed_decimal(&mut s, secs_of(ms));
    push_str(&mut s, ":R>");
    s
}

fn author_text(name: &String, id: u64) -> (s: String)
    ensures
        s@ == author_line(name@, id),
{
    let mut s = crate::text::copy_string(name);
    push_str(&mut s, " (`");
    push_decimal(&mut s, id);
    push_str(&mut s, "`)");
    s
}

fn close_off(e: &mut Embed, guild_id: u64)
    ensures
        final(e)@ == closed_off(old(e)@, guild_id),
{
    let mut f = owned("Guild ID: ");
    push_decimal(&mut f, guild_id);
    e.set_footer(f);
    e.stamp_now();
}

fn thumbnail_of(e: &mut Embed, url: &Option<String>)
    ensures
        final(e)@ == with_thumbnail(old(e)@, opt_str(*url)),
{
    match url {
        Some(u) => e.set_thumbnail(u),
        None => {},
    }
}

fn count_text(channel_id: u64, n: usize, tail: &str) -> (s: String)
    ensures
        s@ == channel_mention(channel_id) + " now has "@ + decimal(n as nat) + tail@,
{
    let mut s = channel_text(channel_id);
    push_str(&mut s, " now has ");
    push_decimal(&mut s, n as u64);
    push_str(&mut s, tail);
    s
}

/// The log-channel embed of an event.
pub fn format_log_event(event: &LogEvent) -> (e: Embed)
    ensures
        e@ == log_embed(*event),
{
    match event {
        LogEvent::VoiceChannelActive { guild_id, channel_id, member_count, members } => {
            let mut e = Embed::titled(
                "Voice Channel Active",
                count_text(*channel_id, *member_count, " people (conversation started)"),
                COLOUR_GREEN_RGB,
            );
            e.add_field("Members", join_strings(members, ", "), false);
            close_off(&mut e, *guild_id);
            e
        },
        LogEvent::VoiceChannelInactive { guild_id, channel_id, member_count } => {
            let mut e = Embed::titled(
                "Voice Channel Inactive",
                count_text(*channel_id, *member_count, " people (conversation ended)"),
                COLOUR_ORANGE_RGB,
            );
            e.add_field("Previous State", owned("Active conversation"), false);
            close_off(&mut e, *guild_id);
            e
        },
        LogEvent::MeetingEnded { guild_id, channel_id, total_attendees, attendees } => {
            let mut d = owned("The leadership meeting in ");
            let c = channel_text(*channel_id);
            push_str(&mut d, c.as_str());
            push_str(&mut d, " has concluded.");
            let mut e = Embed::titled("📊 Meeting Ended - Attendance Summary", d, COLOUR_BLUE);
            e.add_field("Total Attendees", crate::text::u64_to_string(*total_attendees as u64), false);
            let list = if attendees.len() == 0 {
                owned("No attendees recorded")
            } else {
                join_strings(attendees, "\n")
            };
            e.add_field("Attendees", list, false);
            close_off(&mut e, *guild_id);
            e
        },
        LogEvent::MemberJoined { guild_id, user_id, user_mention, avatar_url, created_at } => {
            let mut d = crate::text::copy_string(user_mention);
            push_str(&mut d, " has joined the server.");
            let mut e = Embed::titled("Member Joined Server", d, COLOUR_GREEN_RGB);
            e.add_field("Account Created", relative_text(*created_at), false);
            close_off(&mut e, *guild_id);
            thumbnail_of(&mut e, avatar_url);
            e
        },
        LogEvent::MemberLeft { guild_id, user_id, user_mention, avatar_url, joined_at } => {
            let mut d = crate::text::copy_string(user_mention);
            push_str(&mut d, " has left the server.");
            let mut e = Embed::titled("Member Left Server", d, COLOUR_RED);
            let joined_text = match joined_at {
                Some(t) => relative_text(*t),
                None => owned("Unknown"),
            };
            e.add_field("Joined Server", joined_text, false);
            close_off(&mut e, *guild_id);
            thumbnail_of(&mut e, avatar_url);
            e
        },
        LogEvent::MessageDeleted { guild_id, author_id, author_name, channel_id, content, attachments, avatar_url } => {
            let mut e = Embed::titled("Message Deleted", show_content(content, DELETED_CONTENT_MAX), COLOUR_ORANGE_RGB);
            e.add_field("Author", author_text(author_name, *author_id), false);
            e.add_field("Channel", channel_text(*channel_id), false);
            close_off(&mut e, *guild_id);
            if attachments.len() > 0 {
                e.add_field("Attachments", join_strings(attachments, "\n"), false);
            }
            thumbnail_of(&mut e, avatar_url);
            e
        },
        LogEvent::MessageEdited {
            guild_id,
            author_id,
            author_name,
            channel_id,
            before_content,
            after_content,
            avatar_url,
        } => {
            let mut d = owned("Message edited in ");
            let c = channel_text(*channel_id);
            push_str(&mut d, c.as_str());
            let mut e = Embed::titled("Message Edited", d, COLOUR_BLURPLE);
            e.add_field("Author", author_text(author_name, *author_id), false);
            e.add_field("Channel", channel_text(*channel_id), false);
            e.add_field("Before", show_content(before_content, EDITED_CONTENT_MAX), false);
            e.add_field("After", show_content(after_content, EDITED_CONTENT_MAX), false);
            close_off(&mut e, *guild_id);
            thumbnail_of(&mut e, avatar_url);
            e
        },
    }
}

// ---------------------------------------------------------------------------
// Settings changes
// ---------------------------------------------------------------------------

/// The settings saved when a log channel is chosen: logging on, to that channel.
pub fn channel_config(guild_id: u64, channel_id: u64) -> (c: LogConfig)
    ensures
        c.guild_id == guild_id,
        c.enabled,
        c.channel_id == Some(channel_id),
{
    LogConfig { guild_id, enabled: true, channel_id: Some(channel_id) }
}

/// The settings to save when logging is switched on or off: none where the guild has no
/// settings yet, or where it is switched on without a channel.
pub fn toggled_config(config: Option<LogConfig>, enabled: bool) -> (r: Option<LogConfig>)
    ensures
        match config {
            Some(c) => if enabled && c.channel_id is None {
                r is None
            } else {
                r == Some(LogConfig { enabled, ..c })
            },
            None => r is None,
        },
{
    match config {
        Some(c) => {
            if enabled && c.channel_id.is_none() {
                None
            } else {
                Some(LogConfig { enabled, ..c })
            }
        },
        None => None,
    }
}

/// The status shown for a guild's logging settings, and the mention of its channel.
pub open spec fn logging_state(config: Option<LogConfig>) -> (Seq<char>, Seq<char>) {
    match config {
        Some(c) => (
            if c.enabled && c.channel_id is Some { "Enabled"@ } else { "Disabled"@ },
            match c.channel_id {
                Some(id) => channel_mention(id),
                None => "Not set"@,
            },
        ),
        None => ("Disabled"@, "Not set"@),
    }
}

/// The embed that shows a guild's logging settings.
pub open spec fn logging_status_view(config: Option<LogConfig>, guild_id: u64) -> EmbedView {
    closed_off(
        with_field(
            with_field(
                with_field(titled("Activity Logging Configuration"@, Seq::empty(), COLOUR_BLURPLE), "Status"@,
                    logging_state(config).0, false),
                "Log Channel"@,
                logging_state(config).1,
                false,
            ),
            "Tracked Events"@,
            "• Member Join/Leave\n• Message Edit/Delete\n• Voice Activity"@,
            false,
        ),
        guild_id,
    )
}

/// Builds the embed that shows a guild's logging settings.
pub fn logging_status_embed(config: Option<LogConfig>, guild_id: u64) -> (e: Embed)
    ensures
        e@ == logging_status_view(config, guild_id),
{
    let (status, mention) = match config {
        Some(c) => {
            let status = if c.enabled && c.channel_id.is_some() { owned("Enabled") } else { owned("Disabled") };
            let mention = match c.channel_id {
                Some(id) => channel_text(id),
                None => owned("Not set"),
            };
            (status, mention)
        },
        None => (owned("Disabled"), owned("Not set")),
    };
    let mut e = Embed::titled("Activity Logging Configuration", String::new(), COLOUR_BLURPLE);
    e.add_field("Status", status, false);
    e.add_field("Log Channel", mention, false);
    e.add_field("Tracked Events", owned("• Member Join/Leave\n• Message Edit/Delete\n• Voice Activity"), false);
    close_off(&mut e, guild_id);
    e
}

// ---------------------------------------------------------------------------
// From Discord events to log events
// ---------------------------------------------------------------------------

/// The channel a guild's log goes to: where logging is enabled and a channel is set.
pub open spec fn log_channel(config: Option<LogConfig>) -> Option<u64> {
    match config {
        Some(c) => if c.enabled {
            c.channel_id
        } else {
            None
        },
        None => None,
    }
}

pub fn log_target(config: Option<LogConfig>) -> (r: Option<u64>)
    ensures
        r == log_channel(config),
{
    match config {
        Some(c) => if c.enabled {
            c.channel_id
        } else {
            None
        },
        None => None,
    }
}

/// The log event of a deleted message, from its snapshot; none where the snapshot
/// belongs to another guild.
pub fn deletion_event(snapshot: TrackedMessage, guild_id: u64) -> (r: Option<LogEvent>)
    ensures
        snapshot.guild_id != guild_id <==> r is None,
        r matches Some(e) ==> (e matches LogEvent::MessageDeleted {
            guild_id: g,
            author_id,
            author_name,
            channel_id,
            content,
            attachments,
            avatar_url,
        } && g == guild_id && author_id == snapshot.author_id && author_name@ == snapshot.author_name@ && channel_id
            == snapshot.channel_id && content@ == snapshot.content@ && attachments@ == snapshot.attachments@
            && opt_str(avatar_url) == opt_str(snapshot.avatar_url)),
{
    if snapshot.guild_id != guild_id {
        return None;
    }
    Some(
        LogEvent::MessageDeleted {
            guild_id,
            author_id: snapshot.author_id,
            author_name: snapshot.author_name,
            channel_id: snapshot.channel_id,
            content: snapshot.content,
            attachments: snapshot.attachments,
            avatar_url: snapshot.avatar_url,
        },
    )
}

/// The log event of an edit, and the snapshot to keep after it; none where the content
/// did not change.
pub fn edit_event(snapshot: &TrackedMessage, guild_id: u64, new_content: String) -> (r: Option<(LogEvent, TrackedMessage)>)
    ensures
        (snapshot.content@ == new_content@) <==> r is None,
        r matches Some((e, t)) ==> (e matches LogEvent::MessageEdited {
            guild_id: g,
            author_id,
            author_name,
            channel_id,
            before_content,
            after_content,
            avatar_url,
        } && g == guild_id && author_id == snapshot.author_id && author_name@ == snapshot.author_name@ && channel_id
            == snapshot.channel_id && before_content@ == snapshot.content@ && after_content@ == new_content@
            && opt_str(avatar_url) == opt_str(snapshot.avatar_url)),
        r matches Some((e, t)) ==> t.message_id == snapshot.message_id && t.guild_id == snapshot.guild_id
            && t.channel_id == snapshot.channel_id && t.author_id == snapshot.author_id && t.author_name@
            == snapshot.author_name@ && t.content@ == new_content@ && crate::text::strings_seq(t.attachments@)
            == crate::text::strings_seq(snapshot.attachments@) && opt_str(t.avatar_url) == opt_str(snapshot.avatar_url),
{
    if crate::text::str_eq(snapshot.content.as_str(), new_content.as_str()) {
        return None;
    }
    let event = LogEvent::MessageEdited {
        guild_id,
        author_id: snapshot.author_id,
        author_name: crate::text::copy_string(&snapshot.author_name),
        channel_id: snapshot.channel_id,
        before_content: crate::text::copy_string(&snapshot.content),
        after_content: crate::text::copy_string(&new_content),
        avatar_url: crate::github::copy_opt(&snapshot.avatar_url),
    };
    let updated = TrackedMessage {
        message_id: snapshot.message_id,
        guild_id: snapshot.guild_id,
        channel_id: snapshot.channel_id,
        author_id: snapshot.author_id,
        author_name: crate::text::copy_string(&snapshot.author_name),
        content: new_content,
        attachments: crate::github::copy_strings(&snapshot.attachments),
        avatar_url: crate::github::copy_opt(&snapshot.avatar_url),
    };
    assert(crate::text::strings_seq(updated.attachments@) =~= crate::github::strings_view(updated.attachments@));
    assert(crate::text::strings_seq(snapshot.attachments@) =~= crate::github::strings_view(snapshot.attachments@));
    Some((event, updated))
}

/// A voice state seen in the guild cache: the member, their channel, and whether the
/// cache knows them as a bot (none where the member is not cached).
#[derive(Debug, Clone, Copy)]
pub struct VoiceSeat {
    pub user_id: u64,
    pub channel_id: Option<u64>,
    pub is_bot: Option<bool>,
}

/// The members in a channel, as the voice log counts them: bots left out, members the
/// cache does not know counted in.
pub open spec fn members_in(seats: Seq<VoiceSeat>, channel_id: u64) -> Seq<u64>
    decreases seats.len(),
{
    if seats.len() == 0 {
        Seq::empty()
    } else {
        let rest = members_in(seats.drop_last(), channel_id);
        let s = seats.last();
        if s.channel_id == Some(channel_id) && s.is_bot != Some(true) {
            rest.push(s.user_id)
        } else {
            rest
        }
    }
}

pub fn channel_members(seats: &Vec<VoiceSeat>, channel_id: u64) -> (r: Vec<u64>)
    ensures
        r@ == members_in(seats@, channel_id),
{
    let mut r: Vec<u64> = Vec::new();
    let mut i: usize = 0;
    while i < seats.len()
        invariant
            i <= seats.len(),
            r@ == members_in(seats@.take(i as int), channel_id),
        decreases seats.len() - i,
    {
        assert(seats@.take(i + 1).drop_last() =~= seats@.take(i as int));
        assert(seats@.take(i + 1).last() == seats@[i as int]);
        let s = seats[i];
        if s.channel_id == Some(channel_id) && s.is_bot != Some(true) {
            r.push(s.user_id);
        }
        i = i + 1;
    }
    assert(seats@.take(seats@.len() as int) =~= seats@);
    r
}

/// The mention of a member: `<@ID>`.
pub fn member_mention(user_id: u64) -> (s: String)
    ensures
        s@ == "<@"@ + decimal(user_id as nat) + ">"@,
{
    let mut s = owned("<@");
    push_decimal(&mut s, user_id);
    push_str(&mut s, ">");
    s
}

} // verus!
