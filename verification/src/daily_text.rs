//! The texts of the daily-reward replies: time left until the next claim, streaks, the
//! server goal, and what was gained.
use crate::text::{decimal, owned, push_decimal, push_str, with_thousands};
use vstd::prelude::*;

verus! {

/// The earlier of two claim times, where there are any.
pub open spec fn earliest(a: Option<i64>, b: Option<i64>) -> Option<i64> {
    match (a, b) {
        (Some(x), Some(y)) => Some(if x < y { x } else { y }),
        (Some(x), None) => Some(x),
        (None, Some(y)) => Some(y),
        (None, None) => None,
    }
}

pub fn earliest_claim(a: Option<i64>, b: Option<i64>) -> (r: Option<i64>)
    ensures
        r == earliest(a, b),
{
    match (a, b) {
        (Some(x), Some(y)) => Some(if x < y { x } else { y }),
        (Some(x), None) => Some(x),
        (None, Some(y)) => Some(y),
        (None, None) => None,
    }
}

/// Time left until the next claim, from milliseconds left: `Ready soon` under a second,
/// else minutes and seconds under an hour, hours and minutes under a day, days and hours
/// beyond.
pub open spec fn time_left_text(ms: int) -> Seq<char> {
    let secs = ms / 1000;
    if ms < 1000 {
        "Ready soon"@
    } else if secs / 60 < 60 {
        decimal((secs / 60) as nat) + "m "@ + decimal((secs % 60) as nat) + "s"@
    } else if secs / 3600 < 24 {
        decimal((secs / 3600) as nat) + "h "@ + decimal(((secs / 60) % 60) as nat) + "m"@
    } else {
        decimal((secs / 86400) as nat) + "d "@ + decimal(((secs / 3600) % 24) as nat) + "h"@
    }
}

pub fn time_left(ms: i64) -> (s: String)
    ensures
        s@ == time_left_text(ms as int),
{
    if ms < 1000 {
        return owned("Ready soon");
    }
    let secs: u64 = (ms / 1000) as u64;
    let mut s = String::new();
    if secs / 60 < 60 {
        push_decimal(&mut s, secs / 60);
        push_str(&mut s, "m ");
        push_decimal(&mut s, secs % 60);
        push_str(&mut s, "s");
    } else if secs / 3600 < 24 {
        push_decimal(&mut s, secs / 3600);
        push_str(&mut s, "h ");
        push_decimal(&mut s, (secs / 60) % 60);
        push_str(&mut s, "m");
    } else {
        push_decimal(&mut s, secs / 86400);
        push_str(&mut s, "d ");
        push_decimal(&mut s, (secs / 3600) % 24);
        push_str(&mut s, "h");
    }
    s
}

/// The server goal field: `P/T claims` and the bar below.
pub fn goal_text(progress: u32, target: u32, bar: &str) -> (s: String)
    ensures
        s@ == decimal(progress as nat) + "/"@ + decimal(target as nat) + " claims\n"@ + bar@,
{
    let mut s = String::new();
    push_decimal(&mut s, progress as u64);
    push_str(&mut s, "/");
    push_decimal(&mut s, target as u64);
    push_str(&mut s, " claims\n");
    push_str(&mut s, bar);
    s
}

/// A streak: `N days`, with a flame where asked.
pub fn streak_text(days: u32, flame: bool) -> (s: String)
    ensures
        s@ == decimal(days as nat) + " days"@ + (if flame { " 🔥"@ } else { Seq::empty() }),
{
    let mut s = String::new();
    push_decimal(&mut s, days as u64);
    push_str(&mut s, " days");
    if flame {
        push_str(&mut s, " 🔥");
    }
    s
}

/// What a daily XP claim says: the XP gained, and the new level where there was one.
pub fn xp_gain_text(xp: u64, new_level: Option<u32>) -> (s: String)
    ensures
        s@ == match new_level {
            Some(l) => "You gained "@ + decimal(xp as nat) + " XP and leveled up to "@ + decimal(l as nat) + "!"@,
            None => "You gained "@ + decimal(xp as nat) + " XP!"@,
        },
{
    let mut s = owned("You gained ");
    push_decimal(&mut s, xp);
    match new_level {
        Some(l) => {
            push_str(&mut s, " XP and leveled up to ");
            push_decimal(&mut s, l as u64);
            push_str(&mut s, "!");
        },
        None => push_str(&mut s, " XP!"),
    }
    s
}

/// The lines of a combined daily claim: XP gained (with the new level), then coins
/// gained with the new balance, each where it was gained, one per line.
pub open spec fn daily_lines(xp: u64, new_level: Option<u32>, coins: Option<(i64, i64)>) -> Seq<char> {
    let xp_line = match new_level {
        Some(l) => "✨ **+"@ + decimal(xp as nat) + " XP** — Leveled up to **"@ + decimal(l as nat) + "**!"@,
        None => "✨ **+"@ + decimal(xp as nat) + " XP**"@,
    };
    let coin_line = match coins {
        Some((c, b)) => "🪙 **+"@ + crate::text::signed_decimal(c as int) + " GreyCoins** (Balance: "@ + with_thousands(
            b as int,
        ) + ")"@,
        None => Seq::empty(),
    };
    if xp > 0 && coins is Some {
        xp_line + "\n"@ + coin_line
    } else if xp > 0 {
        xp_line
    } else {
        coin_line
    }
}

pub fn daily_description(xp: u64, new_level: Option<u32>, coins: Option<(i64, i64)>) -> (s: String)
    ensures
        s@ == daily_lines(xp, new_level, coins),
{
    let mut s = String::new();
    if xp > 0 {
        push_str(&mut s, "✨ **+");
        push_decimal(&mut s, xp);
        match new_level {
            Some(l) => {
                push_str(&mut s, " XP** — Leveled up to **");
                push_decimal(&mut s, l as u64);
                push_str(&mut s, "**!");
            },
            None => push_str(&mut s, " XP**"),
        }
    }
    match coins {
        Some((c, b)) => {
            if xp > 0 {
                push_str(&mut s, "\n");
            }
            push_str(&mut s, "🪙 **+");
            crate::text::push_signed_decimal(&mut s, c);
            push_str(&mut s, " GreyCoins** (Balance: ");
            let n = crate::text::format_number(b);
            push_str(&mut s, n.as_str());
            push_str(&mut s, ")");
        },
        None => {},
    }
    s
}

} // verus!
