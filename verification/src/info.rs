//! The studio's "start here" card for newcomers.
use crate::embed::{titled, Embed, EmbedView};
use crate::logging::{channel_mention, with_field};
use crate::text::{owned, push_decimal, push_str, str_eq};
use vstd::prelude::*;

verus! {

/// Blurple, as `Colour::from_rgb(88, 101, 242)`.
pub const COLOUR_INFO: u32 = 0x5865F2;

/// The mentions of the application and role-overview channels among the guild's
/// channels (the last channel of each name wins), else their plain names.
pub open spec fn info_mentions(channels: Seq<(Seq<char>, u64)>) -> (Seq<char>, Seq<char>)
    decreases channels.len(),
{
    if channels.len() == 0 {
        ("#apply-here"@, "#role-overview"@)
    } else {
        let (a, r) = info_mentions(channels.drop_last());
        let (name, id) = channels.last();
        if name == "apply-here"@ {
            (channel_mention(id), r)
        } else if name == "role-overview"@ {
            (a, channel_mention(id))
        } else {
            (a, r)
        }
    }
}

pub open spec fn channels_view(v: Seq<(String, u64)>) -> Seq<(Seq<char>, u64)> {
    v.map_values(|c: (String, u64)| (c.0@, c.1))
}

fn mention_of(id: u64) -> (s: String)
    ensures
        s@ == channel_mention(id),
{
    let mut s = owned("<#");
    push_decimal(&mut s, id);
    push_str(&mut s, ">");
    s
}

/// Finds the two channels the card links to.
pub fn find_info_channels(channels: &Vec<(String, u64)>) -> (r: (String, String))
    ensures
        (r.0@, r.1@) == info_mentions(channels_view(channels@)),
{
    let ghost cv = channels_view(channels@);
    let mut apply = owned("#apply-here");
    let mut roles = owned("#role-overview");
    let mut i: usize = 0;
    while i < channels.len()
        invariant
            i <= channels.len(),
            cv == channels_view(channels@),
            (apply@, roles@) == info_mentions(cv.take(i as int)),
        decreases channels.len() - i,
    {
        assert(cv.take(i + 1).drop_last() =~= cv.take(i as int));
        assert(cv.take(i + 1).last() == (channels@[i as int].0@, channels@[i as int].1));
        if str_eq(channels[i].0.as_str(), "apply-here") {
            apply = mention_of(channels[i].1);
        } else if str_eq(channels[i].0.as_str(), "role-overview") {
            roles = mention_of(channels[i].1);
        }
        i = i + 1;
    }
    assert(cv.take(cv.len() as int) =~= cv);
    (apply, roles)
}

pub open spec fn who_we_are() -> Seq<char> {
    "Greybeard Game Studios is an indie collective led by Ranger-Z with community managers LargeModGames and Att keeping everything running. We're a remote-first team united by a love of deep, story-rich RPGs."@
}

pub open spec fn what_we_build() -> Seq<char> {
    "We're crafting *Project Fiefdom*, a narrative-driven single-player RPG about loyalty, betrayal, and surviving the harsh realities of a living feudal world. Programmers, artists, writers, and audio leads collaborate daily to bring each kingdom faction to life."@
}

pub open spec fn need_help() -> Seq<char> {
    "Have questions before applying? Ping LargeModGames or Att, or drop a note in the community help channels. We're happy to review portfolios, point you at resources, or chat about where you can plug in."@
}

/// The application steps, linking the application and role-overview channels.
pub open spec fn how_to_apply(apply: Seq<char>, roles: Seq<char>) -> Seq<char> {
    "1. Visit "@ + apply + " after reading the guidelines in "@ + roles
        + ".\n2. Post one application per role and include:\n\u{00A0}\u{00A0}• The specific role you're pursuing\n\u{00A0}\u{00A0}• Past experience plus portfolio or resume links\n\u{00A0}\u{00A0}• Your weekly availability (e.g., 10 hours/week)\n3. Acknowledge ping expectations—respond within 48 hours or you'll be removed and must reapply.\n4. All newcomers complete a mandatory one-week probation so we can assess fit.\nBy applying you agree to the legal agreement and project rules attached in "@
        + apply + "."@
}

/// The card, with the bot's avatar where there is one.
pub open spec fn info_card(apply: Seq<char>, roles: Seq<char>, avatar: Option<Seq<char>>) -> EmbedView {
    let base = EmbedView {
        timestamp_now: true,
        thumbnail: avatar,
        ..titled(
            "Greybeard Game Studios — Start Here"@,
            "Everything you need to introduce new members to the studio, our current project, and how to get involved."@,
            COLOUR_INFO,
        )
    };
    EmbedView {
        footer: Some("Welcome aboard! let's build something unforgettable together."@),
        ..with_field(
            with_field(
                with_field(with_field(base, "Who We Are"@, who_we_are(), false), "What We Build"@, what_we_build(), false),
                "How to Apply"@,
                how_to_apply(apply, roles),
                false,
            ),
            "Need Help?"@,
            need_help(),
            false,
        )
    }
}

/// Builds the card.
pub fn build_info_embed(apply: &str, roles: &str, avatar: Option<String>) -> (e: Embed)
    ensures
        e@ == info_card(apply@, roles@, crate::github::opt_str(avatar)),
{
    let mut e = Embed::titled(
        "Greybeard Game Studios — Start Here",
        owned(
            "Everything you need to introduce new members to the studio, our current project, and how to get involved.",
        ),
        COLOUR_INFO,
    );
    e.stamp_now();
    match &avatar {
        Some(a) => e.set_thumbnail(a),
        None => {},
    }
    e.add_field(
        "Who We Are",
        owned(
            "Greybeard Game Studios is an indie collective led by Ranger-Z with community managers LargeModGames and Att keeping everything running. We're a remote-first team united by a love of deep, story-rich RPGs.",
        ),
        false,
    );
    e.add_field(
        "What We Build",
        owned(
            "We're crafting *Project Fiefdom*, a narrative-driven single-player RPG about loyalty, betrayal, and surviving the harsh realities of a living feudal world. Programmers, artists, writers, and audio leads collaborate daily to bring each kingdom faction to life.",
        ),
        false,
    );
    let mut steps = owned("1. Visit ");
    push_str(&mut steps, apply);
    push_str(&mut steps, " after reading the guidelines in ");
    push_str(&mut steps, roles);
    push_str(
        &mut steps,
        ".\n2. Post one application per role and include:\n\u{00A0}\u{00A0}• The specific role you're pursuing\n\u{00A0}\u{00A0}• Past experience plus portfolio or resume links\n\u{00A0}\u{00A0}• Your weekly availability (e.g., 10 hours/week)\n3. Acknowledge ping expectations—respond within 48 hours or you'll be removed and must reapply.\n4. All newcomers complete a mandatory one-week probation so we can assess fit.\nBy applying you agree to the legal agreement and project rules attached in ",
    );
    push_str(&mut steps, apply);
    push_str(&mut steps, ".");
    e.add_field("How to Apply", steps, false);
    e.add_field(
        "Need Help?",
        owned(
            "Have questions before applying? Ping LargeModGames or Att, or drop a note in the community help channels. We're happy to review portfolios, point you at resources, or chat about where you can plug in.",
        ),
        false,
    );
    e.set_footer(owned("Welcome aboard! let's build something unforgettable together."));
    assert(e@ =~= info_card(apply@, roles@, crate::github::opt_str(avatar)));
    e
}

} // verus!
