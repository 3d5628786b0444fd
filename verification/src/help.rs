//! The command guide: how commands are grouped, ordered and described.
use crate::embed::{Embed, EmbedView};
use crate::text::{byte_len, chars_of, joined, lt_pos, owned, push_str, seq_lt, sorted_lt, str_eq, str_lt, strings_seq};
use vstd::prelude::*;

verus! {

/// The sections of the guide, in the order they are shown.
pub open spec fn category_order() -> Seq<Seq<char>> {
    seq!["Quick Start"@, "Music Controls"@, "Music Tools"@, "Progress & Rewards"@, "GitHub Automation"@, "Utilities"@]
}

/// The emoji of a section, `•` for any other.
pub open spec fn category_emoji(category: Seq<char>) -> Seq<char> {
    if category == "Quick Start"@ {
        "🚀"@
    } else if category == "Music Controls"@ {
        "🎵"@
    } else if category == "Music Tools"@ {
        "🎛️"@
    } else if category == "Progress & Rewards"@ {
        "📈"@
    } else if category == "GitHub Automation"@ {
        "📡"@
    } else if category == "Utilities"@ {
        "🧰"@
    } else {
        "•"@
    }
}

/// The emoji shown before a section's title.
pub fn get_category_emoji(category: &str) -> (r: &'static str)
    ensures
        r@ == category_emoji(category@),
{
    if str_eq(category, "Quick Start") {
        "🚀"
    } else if str_eq(category, "Music Controls") {
        "🎵"
    } else if str_eq(category, "Music Tools") {
        "🎛️"
    } else if str_eq(category, "Progress & Rewards") {
        "📈"
    } else if str_eq(category, "GitHub Automation") {
        "📡"
    } else if str_eq(category, "Utilities") {
        "🧰"
    } else {
        "•"
    }
}

/// Where a command goes in the guide and what it says of it.
#[derive(Debug, Clone, Copy)]
pub struct CommandMetadata {
    pub category: &'static str,
    pub priority: i32,
    pub description: Option<&'static str>,
    pub note: Option<&'static str>,
}

pub struct MetadataView {
    pub category: Seq<char>,
    pub priority: i32,
    pub description: Option<Seq<char>>,
    pub note: Option<Seq<char>>,
}

pub open spec fn opt_text(o: Option<&'static str>) -> Option<Seq<char>> {
    match o {
        Some(s) => Some(s@),
        None => None,
    }
}

impl View for CommandMetadata {
    type V = MetadataView;

    open spec fn view(&self) -> MetadataView {
        MetadataView {
            category: self.category@,
            priority: self.priority,
            description: opt_text(self.description),
            note: opt_text(self.note),
        }
    }
}

pub open spec fn meta(category: Seq<char>, priority: i32, description: Option<Seq<char>>, note: Option<Seq<char>>) -> MetadataView {
    MetadataView { category, priority, description, note }
}

/// The guide entry of each command; any other command goes last under Utilities.
pub open spec fn command_metadata(name: Seq<char>) -> MetadataView {
    if name == "info"@ {
        meta("Quick Start"@, 120, Some("Post studio background details and application steps for newcomers."@), None)
    } else if name == "play"@ {
        meta(
            "Quick Start"@,
            110,
            Some("Play a song or playlist with autocomplete support."@),
            Some("Mirrors `!p` but with Discord's slash UI."@),
        )
    } else if name == "profile"@ {
        meta("Progress & Rewards"@, 80, Some("Open an embedded version of your Greybeard profile stats."@), None)
    } else if name == "level"@ {
        meta("Progress & Rewards"@, 79, Some("Check your current level and XP."@), None)
    } else if name == "daily"@ {
        meta("Progress & Rewards"@, 70, Some("Claim your daily XP and GreyCoins reward once every 24 hours."@), None)
    } else if name == "leaderboard"@ {
        meta("Progress & Rewards"@, 65, Some("Display the top 10 community members by level and XP."@), None)
    } else if name == "xpstats"@ {
        meta("Progress & Rewards"@, 60, Some("Show detailed XP analytics for yourself or another member."@), None)
    } else if name == "achievements"@ {
        meta("Progress & Rewards"@, 55, Some("View your unlocked achievements."@), None)
    } else if name == "next_achievement"@ {
        meta("Progress & Rewards"@, 50, Some("Show the closest achievement you can earn."@), Some("Aliases: /nextach"@))
    } else if name == "prestige"@ {
        meta(
            "Progress & Rewards"@,
            45,
            Some("Reset your level for permanent bonuses (requires level 50)."@),
            Some("Gain XP multipliers, daily bonuses, and coin bonuses."@),
        )
    } else if name == "github"@ {
        meta("GitHub Automation"@, 60, Some("Manage GitHub repository tracking."@), Some("Subcommands: track, remove, list, check"@))
    } else if name == "timezones"@ {
        meta("Utilities"@, 42, Some("Show the current local times for key Greybeard team locations."@), None)
    } else if name == "serverstats"@ {
        meta("Utilities"@, 30, Some("Check that the server stats module is responding."@), None)
    } else if name == "logging"@ {
        meta("Utilities"@, 20, Some("Configure logging channels."@), None)
    } else if name == "give_xp"@ {
        meta("Utilities"@, 0, Some("Award XP to a user (Admin only)."@), None)
    } else {
        meta("Utilities"@, 0, None, None)
    }
}

fn md(category: &'static str, priority: i32, description: Option<&'static str>, note: Option<&'static str>) -> (m: CommandMetadata)
    ensures
        m@ == meta(category@, priority, opt_text(description), opt_text(note)),
{
    CommandMetadata { category, priority, description, note }
}

/// The guide entry of a command.
pub fn get_command_metadata(name: &str) -> (m: CommandMetadata)
    ensures
        m@ == command_metadata(name@),
{
    if str_eq(name, "info") {
        md("Quick Start", 120, Some("Post studio background details and application steps for newcomers."), None)
    } else if str_eq(name, "play") {
        md(
            "Quick Start",
            110,
            Some("Play a song or playlist with autocomplete support."),
            Some("Mirrors `!p` but with Discord's slash UI."),
        )
    } else if str_eq(name, "profile") {
        md("Progress & Rewards", 80, Some("Open an embedded version of your Greybeard profile stats."), None)
    } else if str_eq(name, "level") {
        md("Progress & Rewards", 79, Some("Check your current level and XP."), None)
    } else if str_eq(name, "daily") {
        md("Progress & Rewards", 70, Some("Claim your daily XP and GreyCoins reward once every 24 hours."), None)
    } else if str_eq(name, "leaderboard") {
        md("Progress & Rewards", 65, Some("Display the top 10 community members by level and XP."), None)
    } else if str_eq(name, "xpstats") {
        md("Progress & Rewards", 60, Some("Show detailed XP analytics for yourself or another member."), None)
    } else if str_eq(name, "achievements") {
        md("Progress & Rewards", 55, Some("View your unlocked achievements."), None)
    } else if str_eq(name, "next_achievement") {
        md("Progress & Rewards", 50, Some("Show the closest achievement you can earn."), Some("Aliases: /nextach"))
    } else if str_eq(name, "prestige") {
        md(
            "Progress & Rewards",
            45,
            Some("Reset your level for permanent bonuses (requires level 50)."),
            Some("Gain XP multipliers, daily bonuses, and coin bonuses."),
        )
    } else if str_eq(name, "github") {
        md("GitHub Automation", 60, Some("Manage GitHub repository tracking."), Some("Subcommands: track, remove, list, check"))
    } else if str_eq(name, "timezones") {
        md("Utilities", 42, Some("Show the current local times for key Greybeard team locations."), None)
    } else if str_eq(name, "serverstats") {
        md("Utilities", 30, Some("Check that the server stats module is responding."), None)
    } else if str_eq(name, "logging") {
        md("Utilities", 20, Some("Configure logging channels."), None)
    } else if str_eq(name, "give_xp") {
        md("Utilities", 0, Some("Award XP to a user (Admin only)."), None)
    } else {
        md("Utilities", 0, None, None)
    }
}

// ---------------------------------------------------------------------------
// Chunking
// ---------------------------------------------------------------------------

/// Chunks of a section fill up to just under 1000 bytes, one byte counted per newline.
pub const CHUNK_LIMIT: usize = 1000;

/// The chunking state after some entries: closed chunks, the open chunk, and its length.
pub open spec fn chunk_state(entries: Seq<Seq<char>>) -> (Seq<Seq<Seq<char>>>, Seq<Seq<char>>, int)
    decreases entries.len(),
{
    if entries.len() == 0 {
        (Seq::empty(), Seq::empty(), 0)
    } else {
        let (chunks, current, len) = chunk_state(entries.drop_last());
        let e = entries.last();
        let l = byte_len(e) as int;
        if len + l + 1 > 1000 {
            (chunks.push(current), seq![e], l + 1)
        } else {
            (chunks, current.push(e), len + l + 1)
        }
    }
}

/// Entries split into chunks in order: an entry that would take the open chunk past the
/// limit starts a new one (the chunk it closes is kept even when empty), and the last
/// chunk is kept unless empty.
pub open spec fn chunked(entries: Seq<Seq<char>>) -> Seq<Seq<Seq<char>>> {
    let (chunks, current, _len) = chunk_state(entries);
    if current.len() > 0 {
        chunks.push(current)
    } else {
        chunks
    }
}

proof fn lemma_chunk_state_flatten(entries: Seq<Seq<char>>)
    ensures
        ({
            let (chunks, current, len) = chunk_state(entries);
            chunks.flatten() + current == entries
        }),
    decreases entries.len(),
{
    broadcast use Seq::lemma_flatten_push;

    if entries.len() > 0 {
        lemma_chunk_state_flatten(entries.drop_last());
        let (chunks, current, len) = chunk_state(entries.drop_last());
        let e = entries.last();
        assert(entries =~= entries.drop_last().push(e));
        if len + (byte_len(e) as int) + 1 > 1000 {
            assert(chunks.push(current).flatten() =~= chunks.flatten() + current);
            assert(chunks.push(current).flatten() + seq![e] =~= entries);
        } else {
            assert(chunks.flatten() + current.push(e) =~= entries);
        }
    }
}

/// Chunking loses, adds and reorders no entry: the chunks, read in order, are the entries.
pub proof fn lemma_chunked_flatten(entries: Seq<Seq<char>>)
    ensures
        chunked(entries).flatten() == entries,
{
    broadcast use Seq::lemma_flatten_push;

    lemma_chunk_state_flatten(entries);
    let (chunks, current, len) = chunk_state(entries);
    if current.len() > 0 {
        assert(chunks.push(current).flatten() =~= chunks.flatten() + current);
    } else {
        assert(chunks.flatten() + current =~= chunks.flatten());
    }
}

pub open spec fn chunks_view(v: Seq<Vec<String>>) -> Seq<Seq<Seq<char>>> {
    v.map_values(|c: Vec<String>| strings_seq(c@))
}

/// Splits the entries of a section into chunks that fit a field.
pub fn chunk_entries(entries: &Vec<String>) -> (r: Vec<Vec<String>>)
    ensures
        chunks_view(r@) == chunked(strings_seq(entries@)),
{
    let ghost es = strings_seq(entries@);
    let mut chunks: Vec<Vec<String>> = Vec::new();
    let mut current: Vec<String> = Vec::new();
    let mut current_length: u128 = 0;
    let mut i: usize = 0;
    assert(es.take(0) =~= Seq::<Seq<char>>::empty());
    while i < entries.len()
        invariant
            i <= entries.len(),
            es == strings_seq(entries@),
            ({
                let (cs, cur, len) = chunk_state(es.take(i as int));
                &&& chunks_view(chunks@) == cs
                &&& strings_seq(current@) == cur
                &&& current_length == len
            }),
            current_length <= usize::MAX as int + 1,
        decreases entries.len() - i,
    {
        proof {
            assert(es.take(i + 1).drop_last() =~= es.take(i as int));
            assert(es.take(i + 1).last() == entries@[i as int]@);
        }
        let entry_len = entries[i].as_str().len();
        if current_length + entry_len as u128 + 1 > 1000 {
            let ghost before = chunks@;
            let full = current;
            chunks.push(full);
            assert(chunks_view(chunks@) =~= chunks_view(before).push(strings_seq(full@)));
            current = Vec::new();
            current_length = 0;
        }
        let ghost cur_before = current@;
        current.push(crate::text::copy_string(&entries[i]));
        assert(strings_seq(current@) =~= strings_seq(cur_before).push(entries@[i as int]@));
        current_length = current_length + entry_len as u128 + 1;
        i = i + 1;
    }
    assert(es.take(es.len() as int) =~= es);
    if current.len() > 0 {
        let ghost before = chunks@;
        let last = current;
        chunks.push(last);
        assert(chunks_view(chunks@) =~= chunks_view(before).push(strings_seq(last@)));
    }
    chunks
}

// ---------------------------------------------------------------------------
// The guide
// ---------------------------------------------------------------------------

/// A command as the framework lists it.
#[derive(Debug)]
pub struct CommandInfo {
    pub name: String,
    pub hide_in_help: bool,
    pub description: Option<String>,
    pub help_text: Option<String>,
}

/// The guide line of a command: its name, a description (the guide's own, else the
/// command's, else its help text), and the guide's note below.
pub open spec fn entry_text(c: CommandInfo) -> Seq<char> {
    let m = command_metadata(c.name@);
    let desc = match m.description {
        Some(d) => d,
        None => match c.description {
            Some(d) => d@,
            None => match c.help_text {
                Some(h) => h@,
                None => "No description provided."@,
            },
        },
    };
    "• **/"@ + c.name@ + "** — "@ + desc + (match m.note {
        Some(n) => "\n  ⤷ "@ + n,
        None => Seq::empty(),
    })
}

pub type Group = (Seq<char>, Seq<(i32, Seq<char>)>);

pub open spec fn add_entry(g: Seq<Group>, category: Seq<char>, e: (i32, Seq<char>)) -> Seq<Group>
    decreases g.len(),
{
    if g.len() == 0 {
        seq![(category, seq![e])]
    } else if g[0].0 == category {
        g.update(0, (category, g[0].1.push(e)))
    } else {
        seq![g[0]] + add_entry(g.drop_first(), category, e)
    }
}

/// The shown commands grouped by section, sections in order of first appearance.
pub open spec fn groups_of(cmds: Seq<CommandInfo>) -> Seq<Group>
    decreases cmds.len(),
{
    if cmds.len() == 0 {
        Seq::empty()
    } else {
        let g = groups_of(cmds.drop_last());
        let c = cmds.last();
        if c.hide_in_help || c.name@ == "help"@ {
            g
        } else {
            let m = command_metadata(c.name@);
            add_entry(g, m.category, (m.priority, entry_text(c)))
        }
    }
}

/// Where a section comes in the guide's order; 999 for any other.
pub open spec fn category_rank(c: Seq<char>) -> int {
    let o = category_order();
    if exists|i: int| 0 <= i < o.len() && o[i] == c {
        choose|i: int| 0 <= i < o.len() && o[i] == c
    } else {
        999
    }
}

pub open spec fn group_lt() -> spec_fn(Group, Group) -> bool {
    |a: Group, b: Group|
        category_rank(a.0) < category_rank(b.0) || (category_rank(a.0) == category_rank(b.0) && seq_lt(a.0, b.0))
}

pub open spec fn entry_lt() -> spec_fn((i32, Seq<char>), (i32, Seq<char>)) -> bool {
    |a: (i32, Seq<char>), b: (i32, Seq<char>)| a.0 > b.0 || (a.0 == b.0 && seq_lt(a.1, b.1))
}

/// The fields of one section: its chunks, the first titled with the section, the rest
/// marked as continued.
pub open spec fn section_fields(category: Seq<char>, entries: Seq<(i32, Seq<char>)>) -> Seq<(Seq<char>, Seq<char>, bool)> {
    let title = category_emoji(category) + " "@ + category;
    let texts = sorted_lt(entries, entry_lt()).map_values(|e: (i32, Seq<char>)| e.1);
    let chunks = chunked(texts);
    Seq::new(
        chunks.len(),
        |i: int| (if i == 0 { title } else { title + " (cont.)"@ }, joined(chunks[i], "\n"@), false),
    )
}

pub open spec fn all_fields(groups: Seq<Group>) -> Seq<(Seq<char>, Seq<char>, bool)>
    decreases groups.len(),
{
    if groups.len() == 0 {
        Seq::empty()
    } else {
        all_fields(groups.drop_last()) + section_fields(groups.last().0, groups.last().1)
    }
}

/// Blurple, as `Colour::from_rgb(88, 101, 242)`.
pub const COLOUR_GUIDE: u32 = 0x5865F2;

pub open spec fn guide_description() -> Seq<char> {
    "Use slash commands with `/`. Everything is organised by what you want to do, and the most helpful commands sit at the top of each section."@
}

/// The guide: sections in the guide's order (others alphabetically after them), each
/// section's commands by priority, then alphabetically.
pub open spec fn guide(cmds: Seq<CommandInfo>, avatar: Option<Seq<char>>) -> EmbedView {
    EmbedView {
        title: Some("Greybeard Command Guide"@),
        description: Some(guide_description()),
        color: Some(COLOUR_GUIDE),
        fields: all_fields(sorted_lt(groups_of(cmds), group_lt())),
        footer: Some("Need a hand? Ping a moderator."@),
        thumbnail: avatar,
        author: None,
        author_icon: None,
        timestamp_now: true,
    }
}

fn entry_line(c: &CommandInfo) -> (s: String)
    ensures
        s@ == entry_text(*c),
{
    let m = get_command_metadata(c.name.as_str());
    let mut s = owned("• **/");
    push_str(&mut s, c.name.as_str());
    push_str(&mut s, "** — ");
    match m.description {
        Some(d) => push_str(&mut s, d),
        None => match &c.description {
            Some(d) => push_str(&mut s, d.as_str()),
            None => match &c.help_text {
                Some(h) => push_str(&mut s, h.as_str()),
                None => push_str(&mut s, "No description provided."),
            },
        },
    }
    match m.note {
        Some(n) => {
            push_str(&mut s, "\n  ⤷ ");
            push_str(&mut s, n);
        },
        None => {},
    }
    s
}

pub struct GroupExec {
    pub category: String,
    pub entries: Vec<(i32, String)>,
}

pub open spec fn entries_view(v: Seq<(i32, String)>) -> Seq<(i32, Seq<char>)> {
    v.map_values(|e: (i32, String)| (e.0, e.1@))
}

pub open spec fn gview(v: Seq<GroupExec>) -> Seq<Group> {
    v.map_values(|g: GroupExec| (g.category@, entries_view(g.entries@)))
}

fn copy_entries(v: &Vec<(i32, String)>) -> (r: Vec<(i32, String)>)
    ensures
        entries_view(r@) == entries_view(v@),
{
    let mut r: Vec<(i32, String)> = Vec::new();
    let mut i: usize = 0;
    while i < v.len()
        invariant
            i <= v.len(),
            entries_view(r@) == entries_view(v@).take(i as int),
        decreases v.len() - i,
    {
        let ghost before = r@;
        r.push((v[i].0, crate::text::copy_string(&v[i].1)));
        assert(entries_view(r@) =~= entries_view(before).push((v@[i as int].0, v@[i as int].1@)));
        i = i + 1;
        assert(entries_view(r@) =~= entries_view(v@).take(i as int));
    }
    assert(entries_view(v@).take(v@.len() as int) =~= entries_view(v@));
    r
}

fn add_entry_exec(g: &mut Vec<GroupExec>, category: &str, e: (i32, String))
    ensures
        gview(final(g)@) == add_entry(gview(old(g)@), category@, (e.0, e.1@)),
{
    let ghost s = gview(g@);
    let ghost ev = (e.0, e.1@);
    let mut i: usize = 0;
    assert(s.skip(0) =~= s);
    assert(s.take(0) + add_entry(s.skip(0), category@, ev) =~= add_entry(s, category@, ev));
    while i < g.len()
        invariant
            s == gview(old(g)@),
            g@ == old(g)@,
            i <= g.len(),
            ev == (e.0, e.1@),
            add_entry(s, category@, ev) == s.take(i as int) + add_entry(s.skip(i as int), category@, ev),
        decreases g.len() - i,
    {
        assert(s.skip(i as int)[0] == (g@[i as int].category@, entries_view(g@[i as int].entries@)));
        assert(s.skip(i as int).drop_first() =~= s.skip(i + 1));
        if str_eq(g[i].category.as_str(), category) {
            let mut es = copy_entries(&g[i].entries);
            let ghost before = es@;
            es.push(e);
            assert(entries_view(es@) =~= entries_view(before).push(ev));
            g.set(i, GroupExec { category: owned(category), entries: es });
            assert(gview(g@) =~= s.update(i as int, (category@, s[i as int].1.push(ev))));
            assert(s.take(i as int) + s.skip(i as int).update(0, (category@, s[i as int].1.push(ev))) =~= s.update(
                i as int,
                (category@, s[i as int].1.push(ev)),
            ));
            return;
        }
        assert(s.take(i + 1) =~= s.take(i as int).push(s[i as int]));
        assert(s.take(i as int) + (seq![s[i as int]] + add_entry(s.skip(i + 1), category@, ev)) =~= s.take(i + 1) + add_entry(
            s.skip(i + 1),
            category@,
            ev,
        ));
        i = i + 1;
    }
    assert(s.skip(i as int).len() == 0);
    assert(s.take(i as int) =~= s);
    let mut es: Vec<(i32, String)> = Vec::new();
    es.push(e);
    assert(entries_view(es@) =~= seq![ev]);
    g.push(GroupExec { category: owned(category), entries: es });
    assert(gview(g@) =~= s.push((category@, seq![ev])));
}

fn rank_of(category: &str) -> (r: i32)
    ensures
        r as int == category_rank(category@),
{
    let names: [&str; 6] = ["Quick Start", "Music Controls", "Music Tools", "Progress & Rewards", "GitHub Automation", "Utilities"];
    let ghost o = category_order();
    assert forall|k: int| 0 <= k < 6 implies #[trigger] names@[k]@ == o[k] by {}
    let mut i: usize = 0;
    while i < 6
        invariant
            i <= 6,
            o == category_order(),
            names@.len() == 6,
            forall|k: int| 0 <= k < 6 ==> #[trigger] names@[k]@ == o[k],
            forall|k: int| 0 <= k < i ==> o[k] != category@,
        decreases 6 - i,
    {
        if str_eq(names[i], category) {
            assert(o[i as int] == category@);
            proof {
                let w = choose|j: int| 0 <= j < o.len() && o[j] == category@;
                assert(o[w] == o[i as int]);
                lemma_order_distinct(w, i as int);
            }
            return i as i32;
        }
        i = i + 1;
    }
    assert(!(exists|j: int| 0 <= j < o.len() && o[j] == category@));
    999
}

proof fn lemma_order_distinct(a: int, b: int)
    requires
        0 <= a < 6,
        0 <= b < 6,
        category_order()[a] == category_order()[b],
    ensures
        a == b,
{
    reveal_strlit("Quick Start");
    reveal_strlit("Music Controls");
    reveal_strlit("Music Tools");
    reveal_strlit("Progress & Rewards");
    reveal_strlit("GitHub Automation");
    reveal_strlit("Utilities");
    let o = category_order();
    if a != b {
        assert(o[a].len() != o[b].len() || o[a][0] != o[b][0] || o[a][6] != o[b][6]);
    }
}

fn group_before(a: &GroupExec, ra: i32, b: &GroupExec, rb: i32) -> (r: bool)
    requires
        ra as int == category_rank(a.category@),
        rb as int == category_rank(b.category@),
    ensures
        r == (group_lt())((a.category@, entries_view(a.entries@)), (b.category@, entries_view(b.entries@))),
{
    ra < rb || (ra == rb && str_lt(a.category.as_str(), b.category.as_str()))
}

fn sort_groups(groups: Vec<GroupExec>) -> (r: Vec<GroupExec>)
    ensures
        gview(r@) == sorted_lt(gview(groups@), group_lt()),
{
    let ghost gv = gview(groups@);
    let mut sorted: Vec<GroupExec> = Vec::new();
    let mut i: usize = 0;
    assert(gview(sorted@) =~= sorted_lt(gv.take(0), group_lt()));
    while i < groups.len()
        invariant
            i <= groups.len(),
            gv == gview(groups@),
            gview(sorted@) == sorted_lt(gv.take(i as int), group_lt()),
        decreases groups.len() - i,
    {
        assert(gv.take(i + 1).drop_last() =~= gv.take(i as int));
        assert(gv.take(i + 1).last() == (groups@[i as int].category@, entries_view(groups@[i as int].entries@)));
        let x = GroupExec { category: crate::text::copy_string(&groups[i].category), entries: copy_entries(&groups[i].entries) };
        let rx = rank_of(x.category.as_str());
        let ghost s = gview(sorted@);
        let ghost xv = (x.category@, entries_view(x.entries@));
        let mut k: usize = 0;
        assert(s.skip(0) =~= s);
        while k < sorted.len() && !group_before(&x, rx, &sorted[k], rank_of(sorted[k].category.as_str()))
            invariant
                k <= sorted.len(),
                s == gview(sorted@),
                rx as int == category_rank(x.category@),
                xv == (x.category@, entries_view(x.entries@)),
                lt_pos(s, xv, group_lt()) == k + lt_pos(s.skip(k as int), xv, group_lt()),
            decreases sorted.len() - k,
        {
            assert(s.skip(k as int)[0] == (sorted@[k as int].category@, entries_view(sorted@[k as int].entries@)));
            assert(s.skip(k as int).drop_first() =~= s.skip(k + 1));
            k = k + 1;
        }
        proof {
            if k < sorted.len() {
                assert(s.skip(k as int)[0] == (sorted@[k as int].category@, entries_view(sorted@[k as int].entries@)));
            }
        }
        sorted.insert(k, x);
        assert(gview(sorted@) =~= s.insert(k as int, xv));
        i = i + 1;
    }
    assert(gv.take(gv.len() as int) =~= gv);
    sorted
}

fn sort_entries(v: &Vec<(i32, String)>) -> (r: Vec<String>)
    ensures
        strings_seq(r@) == sorted_lt(entries_view(v@), entry_lt()).map_values(|e: (i32, Seq<char>)| e.1),
{
    let ghost ev = entries_view(v@);
    let mut sorted: Vec<(i32, String)> = Vec::new();
    let mut i: usize = 0;
    assert(entries_view(sorted@) =~= sorted_lt(ev.take(0), entry_lt()));
    while i < v.len()
        invariant
            i <= v.len(),
            ev == entries_view(v@),
            entries_view(sorted@) == sorted_lt(ev.take(i as int), entry_lt()),
        decreases v.len() - i,
    {
        assert(ev.take(i + 1).drop_last() =~= ev.take(i as int));
        assert(ev.take(i + 1).last() == (v@[i as int].0, v@[i as int].1@));
        let x = (v[i].0, crate::text::copy_string(&v[i].1));
        let ghost s = entries_view(sorted@);
        let ghost xv = (x.0, x.1@);
        let mut k: usize = 0;
        assert(s.skip(0) =~= s);
        while k < sorted.len() && !(x.0 > sorted[k].0 || (x.0 == sorted[k].0 && str_lt(x.1.as_str(), sorted[k].1.as_str())))
            invariant
                k <= sorted.len(),
                s == entries_view(sorted@),
                xv == (x.0, x.1@),
                lt_pos(s, xv, entry_lt()) == k + lt_pos(s.skip(k as int), xv, entry_lt()),
            decreases sorted.len() - k,
        {
            assert(s.skip(k as int)[0] == (sorted@[k as int].0, sorted@[k as int].1@));
            assert(s.skip(k as int).drop_first() =~= s.skip(k + 1));
            k = k + 1;
        }
        proof {
            if k < sorted.len() {
                assert(s.skip(k as int)[0] == (sorted@[k as int].0, sorted@[k as int].1@));
            }
        }
        sorted.insert(k, x);
        assert(entries_view(sorted@) =~= s.insert(k as int, xv));
        i = i + 1;
    }
    assert(ev.take(ev.len() as int) =~= ev);
    let ghost sv = entries_view(sorted@);
    let mut r: Vec<String> = Vec::new();
    let mut j: usize = 0;
    while j < sorted.len()
        invariant
            j <= sorted.len(),
            sv == entries_view(sorted@),
            strings_seq(r@) == sv.take(j as int).map_values(|e: (i32, Seq<char>)| e.1),
        decreases sorted.len() - j,
    {
        let ghost before = r@;
        r.push(crate::text::copy_string(&sorted[j].1));
        assert(strings_seq(r@) =~= strings_seq(before).push(sorted@[j as int].1@));
        assert(sv.take(j + 1).map_values(|e: (i32, Seq<char>)| e.1) =~= sv.take(j as int).map_values(|e: (i32, Seq<char>)| e.1).push(
            sorted@[j as int].1@,
        ));
        j = j + 1;
    }
    assert(sv.take(sv.len() as int) =~= sv);
    r
}

fn add_section(e: &mut Embed, g: &GroupExec)
    ensures
        final(e)@ == (EmbedView { fields: old(e)@.fields + section_fields(g.category@, entries_view(g.entries@)), ..old(e)@ }),
{
    let emoji = get_category_emoji(g.category.as_str());
    let mut title = owned(emoji);
    push_str(&mut title, " ");
    push_str(&mut title, g.category.as_str());
    let texts = sort_entries(&g.entries);
    let chunks = chunk_entries(&texts);
    let ghost target = section_fields(g.category@, entries_view(g.entries@));
    let ghost start = e@;
    let mut i: usize = 0;
    assert(e@ =~= (EmbedView { fields: start.fields + target.take(0), ..start }));
    while i < chunks.len()
        invariant
            i <= chunks.len(),
            chunks_view(chunks@) == chunked(strings_seq(texts@)),
            target == section_fields(g.category@, entries_view(g.entries@)),
            title@ == category_emoji(g.category@) + " "@ + g.category@,
            strings_seq(texts@) == sorted_lt(entries_view(g.entries@), entry_lt()).map_values(|e: (i32, Seq<char>)| e.1),
            e@ == (EmbedView { fields: start.fields + target.take(i as int), ..start }),
        decreases chunks.len() - i,
    {
        let name = if i == 0 {
            crate::text::copy_string(&title)
        } else {
            let mut n = crate::text::copy_string(&title);
            push_str(&mut n, " (cont.)");
            n
        };
        let value = crate::text::join_strings(&chunks[i], "\n");
        assert(chunks_view(chunks@)[i as int] == strings_seq(chunks@[i as int]@));
        e.add_field(name.as_str(), value, false);
        assert(target[i as int] == (name@, value@, false));
        assert(start.fields + target.take(i + 1) =~= (start.fields + target.take(i as int)).push(target[i as int]));
        assert(e@ =~= (EmbedView { fields: start.fields + target.take(i + 1), ..start }));
        i = i + 1;
    }
    assert(target.take(chunks.len() as int) =~= target);
}

/// Builds the command guide from the framework's commands.
pub fn build_help(cmds: &Vec<CommandInfo>, avatar: Option<String>) -> (e: Embed)
    ensures
        e@ == guide(cmds@, crate::github::opt_str(avatar)),
{
    let mut groups: Vec<GroupExec> = Vec::new();
    let mut i: usize = 0;
    assert(gview(groups@) =~= groups_of(cmds@.take(0)));
    while i < cmds.len()
        invariant
            i <= cmds.len(),
            gview(groups@) == groups_of(cmds@.take(i as int)),
        decreases cmds.len() - i,
    {
        assert(cmds@.take(i + 1).drop_last() =~= cmds@.take(i as int));
        assert(cmds@.take(i + 1).last() == cmds@[i as int]);
        let c = &cmds[i];
        if !c.hide_in_help && !str_eq(c.name.as_str(), "help") {
            let m = get_command_metadata(c.name.as_str());
            add_entry_exec(&mut groups, m.category, (m.priority, entry_line(c)));
        }
        i = i + 1;
    }
    assert(cmds@.take(cmds@.len() as int) =~= cmds@);
    let sorted = sort_groups(groups);
    let mut e = Embed::titled(
        "Greybeard Command Guide",
        owned(
            "Use slash commands with `/`. Everything is organised by what you want to do, and the most helpful commands sit at the top of each section.",
        ),
        COLOUR_GUIDE,
    );
    e.stamp_now();
    match &avatar {
        Some(a) => e.set_thumbnail(a),
        None => {},
    }
    let ghost sv = gview(sorted@);
    let ghost start = e@;
    let mut k: usize = 0;
    assert(e@ =~= (EmbedView { fields: all_fields(sv.take(0)), ..start }));
    while k < sorted.len()
        invariant
            k <= sorted.len(),
            sv == gview(sorted@),
            start.fields.len() == 0,
            e@ == (EmbedView { fields: all_fields(sv.take(k as int)), ..start }),
        decreases sorted.len() - k,
    {
        assert(sv.take(k + 1).drop_last() =~= sv.take(k as int));
        assert(sv.take(k + 1).last() == (sorted@[k as int].category@, entries_view(sorted@[k as int].entries@)));
        add_section(&mut e, &sorted[k]);
        k = k + 1;
    }
    assert(sv.take(sv.len() as int) =~= sv);
    e.set_footer(owned("Need a hand? Ping a moderator."));
    assert(e@ =~= guide(cmds@, crate::github::opt_str(avatar)));
    e
}

} // verus!
