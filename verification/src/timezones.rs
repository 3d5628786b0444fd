//! Local times of the team's timezones.
use crate::text::{owned, push_signed_decimal, push_str, secs_of, signed_decimal, unix_secs};
use chrono_tz::Tz;
use vstd::prelude::*;

verus! {

/// A team location shown by the timezone command.
#[derive(Debug, Clone, Copy)]
pub struct TeamTimezone {
    pub label: &'static str,
    pub tz_name: &'static str,
    pub note: &'static str,
}

/// The local time of a location.
#[derive(Debug)]
pub struct TimezoneDisplay {
    pub twelve_hour: String,
    pub twenty_four_hour: String,
    pub date_fragment: String,
    pub relative_timestamp: i64,
}

/// The team's locations, in the order shown: label, IANA zone, cities.
pub open spec fn team_table() -> Seq<(Seq<char>, Seq<char>, Seq<char>)> {
    seq![
        ("🕐 Pacific"@, "America/Los_Angeles"@, "Seattle / Vancouver"@),
        ("🕑 Mountain"@, "America/Denver"@, "Denver / Calgary"@),
        ("🕒 Central"@, "America/Chicago"@, "Austin / Chicago"@),
        ("🕓 Eastern"@, "America/New_York"@, "New York / Toronto"@),
        ("🕔 UK"@, "Europe/London"@, "London / Belfast"@),
        ("🕕 Central Europe"@, "Europe/Berlin"@, "Amsterdam / Paris"@),
        ("🕖 India"@, "Asia/Kolkata"@, "Bengaluru / Mumbai"@),
        ("🕗 Australia"@, "Australia/Sydney"@, "Sydney / Melbourne"@),
    ]
}

pub open spec fn zone_view(t: TeamTimezone) -> (Seq<char>, Seq<char>, Seq<char>) {
    (t.label@, t.tz_name@, t.note@)
}

/// The team's timezones.
pub struct TimezoneService {
    timezones: Vec<TeamTimezone>,
}

impl View for TimezoneService {
    type V = Seq<(Seq<char>, Seq<char>, Seq<char>)>;

    closed spec fn view(&self) -> Seq<(Seq<char>, Seq<char>, Seq<char>)> {
        self.timezones@.map_values(|t: TeamTimezone| zone_view(t))
    }
}

fn zone(label: &'static str, tz_name: &'static str, note: &'static str) -> (t: TeamTimezone)
    ensures
        zone_view(t) == (label@, tz_name@, note@),
{
    TeamTimezone { label, tz_name, note }
}

// ---------------------------------------------------------------------------
// Clock texts
// ---------------------------------------------------------------------------

/// The patterns the command formats with.
pub open spec fn known_pattern(p: Seq<char>) -> bool {
    p == "%I:%M %p"@ || p == "%H:%M"@ || p == "%a %d %b"@
}

/// What chrono prints for a UTC instant seen in an IANA zone with a pattern; none where
/// chrono-tz does not know the zone or chrono cannot represent the instant.
pub uninterp spec fn zone_clock(zone: Seq<char>, utc_ms: i64, pattern: Seq<char>) -> Option<Seq<char>>;

/// Formats an instant in a zone (`str::parse::<chrono_tz::Tz>`, then chrono's
/// `with_timezone` and `format`). The text is a function of the zone's name, the instant
/// and the pattern; what it spells is not stated here.
#[verifier::external_body]
fn zone_clock_text(zone: &str, utc_ms: i64, pattern: &str) -> (r: Option<String>)
    requires
        known_pattern(pattern@),
    ensures
        match r {
            Some(s) => zone_clock(zone@, utc_ms, pattern@) == Some(s@),
            None => zone_clock(zone@, utc_ms, pattern@) is None,
        },
{
    let tz: Tz = zone.parse().ok()?;
    let dt = chrono::DateTime::from_timestamp_millis(utc_ms)?;
    Some(dt.with_timezone(&tz).format(pattern).to_string())
}

/// The text of a pattern in a zone, falling back to UTC for an unknown zone.
pub open spec fn clock_in(zone: Seq<char>, utc_ms: i64, pattern: Seq<char>) -> Seq<char> {
    match zone_clock(zone, utc_ms, pattern) {
        Some(t) => t,
        None => match zone_clock("UTC"@, utc_ms, pattern) {
            Some(t) => t,
            None => Seq::empty(),
        },
    }
}

fn clock(zone: &str, utc_ms: i64, pattern: &str) -> (r: String)
    requires
        known_pattern(pattern@),
    ensures
        r@ == clock_in(zone@, utc_ms, pattern@),
{
    match zone_clock_text(zone, utc_ms, pattern) {
        Some(t) => t,
        None => match zone_clock_text("UTC", utc_ms, pattern) {
            Some(t) => t,
            None => String::new(),
        },
    }
}

/// A 12-hour time without its leading zero (`09:05 AM` reads `9:05 AM`).
pub open spec fn without_leading_zero(s: Seq<char>) -> Seq<char> {
    if s.len() > 0 && s[0] == '0' {
        s.drop_first()
    } else {
        s
    }
}

/// The display of a location from the texts chrono gave for it.
pub fn zone_display(twelve: String, twenty_four: String, date: String, utc_ms: i64) -> (d: TimezoneDisplay)
    ensures
        d.twelve_hour@ == without_leading_zero(twelve@),
        d.twenty_four_hour@ == twenty_four@,
        d.date_fragment@ == date@,
        d.relative_timestamp == unix_secs(utc_ms as int),
{
    let v = crate::text::chars_of(twelve.as_str());
    let twelve_hour = if v.len() > 0 && v[0] == '0' {
        let mut rest: Vec<char> = Vec::new();
        let mut i: usize = 1;
        while i < v.len()
            invariant
                1 <= i <= v.len(),
                rest@ == v@.subrange(1, i as int),
            decreases v.len() - i,
        {
            rest.push(v[i]);
            i = i + 1;
            assert(rest@ =~= v@.subrange(1, i as int));
        }
        assert(v@.subrange(1, v@.len() as int) =~= v@.drop_first());
        crate::text::string_from_chars(&rest)
    } else {
        twelve
    };
    TimezoneDisplay { twelve_hour, twenty_four_hour: twenty_four, date_fragment: date, relative_timestamp: secs_of(utc_ms) }
}

/// The display of a zone at an instant.
pub open spec fn display_spec(zone: Seq<char>, utc_ms: i64, d: TimezoneDisplay) -> bool {
    &&& d.twelve_hour@ == without_leading_zero(clock_in(zone, utc_ms, "%I:%M %p"@))
    &&& d.twenty_four_hour@ == clock_in(zone, utc_ms, "%H:%M"@)
    &&& d.date_fragment@ == clock_in(zone, utc_ms, "%a %d %b"@)
    &&& d.relative_timestamp == unix_secs(utc_ms as int)
}

/// The local time of a zone at an instant.
pub fn display_at(zone: &str, utc_ms: i64) -> (d: TimezoneDisplay)
    ensures
        display_spec(zone@, utc_ms, d),
{
    proof {
        reveal_strlit("%I:%M %p");
        reveal_strlit("%H:%M");
        reveal_strlit("%a %d %b");
    }
    let twelve = clock(zone, utc_ms, "%I:%M %p");
    let twenty_four = clock(zone, utc_ms, "%H:%M");
    let date = clock(zone, utc_ms, "%a %d %b");
    zone_display(twelve, twenty_four, date, utc_ms)
}

/// Each location shown with its local time at one instant.
pub open spec fn displays_at(zones: Seq<(Seq<char>, Seq<char>, Seq<char>)>, now: i64, r: Seq<(TeamTimezone, TimezoneDisplay)>) -> bool {
    r.len() == zones.len() && forall|i: int| 0 <= i < r.len() ==> zone_view(#[trigger] r[i].0) == zones[i] && display_spec(
        zones[i].1,
        now,
        r[i].1,
    )
}

impl TimezoneService {
    /// The team's eight locations.
    pub fn new() -> (s: TimezoneService)
        ensures
            s@ == team_table(),
    {
        let mut v: Vec<TeamTimezone> = Vec::new();
        v.push(zone("🕐 Pacific", "America/Los_Angeles", "Seattle / Vancouver"));
        v.push(zone("🕑 Mountain", "America/Denver", "Denver / Calgary"));
        v.push(zone("🕒 Central", "America/Chicago", "Austin / Chicago"));
        v.push(zone("🕓 Eastern", "America/New_York", "New York / Toronto"));
        v.push(zone("🕔 UK", "Europe/London", "London / Belfast"));
        v.push(zone("🕕 Central Europe", "Europe/Berlin", "Amsterdam / Paris"));
        v.push(zone("🕖 India", "Asia/Kolkata", "Bengaluru / Mumbai"));
        v.push(zone("🕗 Australia", "Australia/Sydney", "Sydney / Melbourne"));
        let s = TimezoneService { timezones: v };
        assert(s@ =~= team_table());
        s
    }

    /// Each location with its local time at an instant, in order.
    pub fn team_timezones_at(&self, utc_ms: i64) -> (r: Vec<(TeamTimezone, TimezoneDisplay)>)
        ensures
            r@.len() == self@.len(),
            forall|i: int| 0 <= i < r@.len() ==> zone_view(#[trigger] r@[i].0) == self@[i] && display_spec(
                self@[i].1,
                utc_ms,
                r@[i].1,
            ),
    {
        let mut r: Vec<(TeamTimezone, TimezoneDisplay)> = Vec::new();
        let mut i: usize = 0;
        while i < self.timezones.len()
            invariant
                i <= self.timezones.len(),
                self@ == self.timezones@.map_values(|t: TeamTimezone| zone_view(t)),
                r@.len() == i,
                forall|j: int| 0 <= j < i ==> zone_view(#[trigger] r@[j].0) == self@[j] && display_spec(
                    self@[j].1,
                    utc_ms,
                    r@[j].1,
                ),
            decreases self.timezones.len() - i,
        {
            let t = self.timezones[i];
            let d = display_at(t.tz_name, utc_ms);
            r.push((t, d));
            i = i + 1;
        }
        r
    }

    /// Each location with its local time now.
    pub fn get_team_timezones(&self) -> (r: Vec<(TeamTimezone, TimezoneDisplay)>)
        ensures
            r@.len() == self@.len(),
            exists|now: i64| #[trigger] displays_at(self@, now, r@),
    {
        let now = crate::clock::now_millis();
        let r = self.team_timezones_at(now);
        assert(displays_at(self@, now, r@));
        r
    }
}

/// The field of a location: `**12h** (24h)`, the date, a relative timestamp, the cities.
pub open spec fn zone_field_text(d: TimezoneDisplay, note: Seq<char>) -> Seq<char> {
    "**"@ + d.twelve_hour@ + "** ("@ + d.twenty_four_hour@ + ")\n"@ + d.date_fragment@ + "\n<t:"@ + signed_decimal(
        d.relative_timestamp as int,
    ) + ":R>\n_"@ + note + "_"@
}

pub fn zone_field(d: &TimezoneDisplay, note: &str) -> (s: String)
    ensures
        s@ == zone_field_text(*d, note@),
{
    let mut s = owned("**");
    push_str(&mut s, d.twelve_hour.as_str());
    push_str(&mut s, "** (");
    push_str(&mut s, d.twenty_four_hour.as_str());
    push_str(&mut s, ")\n");
    push_str(&mut s, d.date_fragment.as_str());
    push_str(&mut s, "\n<t:");
    push_signed_decimal(&mut s, d.relative_timestamp);
    push_str(&mut s, ":R>\n_");
    push_str(&mut s, note);
    push_str(&mut s, "_");
    s
}

} // verus!
