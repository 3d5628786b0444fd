//! Reminder times: reading `30m`, `2 hours` and the like, checking the allowed range, and
//! writing a duration out in words.
use crate::text::{all_ascii, ascii_lower, chars_of, decimal, digit_char, is_ws, trim_end, trim_start, lowercase, owned, push_decimal, push_str, to_lowercase, trim, trimmed};
use vstd::prelude::*;

verus! {

// ---------------------------------------------------------------------------
// Characters
// ---------------------------------------------------------------------------

fn char_is_ws(c: char) -> (r: bool)
    ensures
        r == is_ws(c),
{
    ('\u{9}' <= c && c <= '\u{d}') || c == ' ' || c == '\u{85}' || c == '\u{a0}' || c == '\u{1680}' || ('\u{2000}' <= c
        && c <= '\u{200a}') || c == '\u{2028}' || c == '\u{2029}' || c == '\u{202f}' || c == '\u{205f}' || c == '\u{3000}'
}

pub open spec fn is_digit(c: char) -> bool {
    '0' <= c && c <= '9'
}

pub open spec fn all_digits(s: Seq<char>) -> bool {
    forall|i: int| 0 <= i < s.len() ==> is_digit(#[trigger] s[i])
}

/// The value of a run of decimal digits.
pub open spec fn digits_value(d: Seq<char>) -> nat
    decreases d.len(),
{
    if d.len() == 0 {
        0
    } else {
        digits_value(d.drop_last()) * 10 + (d.last() as nat - '0' as nat) as nat
    }
}

/// What `u64::from_str` reads: an optional `+` then at least one digit, and nothing else,
/// the value fitting in a `u64`.
pub open spec fn parse_u64(s: Seq<char>) -> Option<nat> {
    let d = if s.len() > 0 && s[0] == '+' {
        s.drop_first()
    } else {
        s
    };
    if d.len() == 0 || !all_digits(d) || digits_value(d) > u64::MAX {
        None
    } else {
        Some(digits_value(d))
    }
}

fn parse_number(s: &Vec<char>) -> (r: Option<u64>)
    ensures
        match r {
            Some(n) => parse_u64(s@) == Some(n as nat),
            None => parse_u64(s@) is None,
        },
{
    let start: usize = if s.len() > 0 && s[0] == '+' { 1 } else { 0 };
    let ghost d = if s@.len() > 0 && s@[0] == '+' { s@.drop_first() } else { s@ };
    assert(d =~= s@.skip(start as int));
    if start >= s.len() {
        assert(d.len() == 0);
        assert(parse_u64(s@) is None);
        return None;
    }
    let mut value: u64 = 0;
    let mut i: usize = start;
    assert(s@.subrange(start as int, start as int) =~= Seq::<char>::empty());
    while i < s.len()
        invariant
            start <= i <= s.len(),
            start < s.len(),
            d == s@.skip(start as int),
            d == (if s@.len() > 0 && s@[0] == '+' { s@.drop_first() } else { s@ }),
            all_digits(s@.subrange(start as int, i as int)),
            value == digits_value(s@.subrange(start as int, i as int)),
        decreases s.len() - i,
    {
        let c = s[i];
        let ghost p = s@.subrange(start as int, i + 1);
        assert(p.drop_last() =~= s@.subrange(start as int, i as int));
        assert(p.last() == c);
        if !('0' <= c && c <= '9') {
            assert(d[i - start] == c);
            assert(!is_digit(d[i - start]));
            assert(!all_digits(d));
            assert(parse_u64(s@) is None);
            return None;
        }
        let digit = (c as u32 - '0' as u32) as u64;
        assert(digits_value(p) == value * 10 + digit);
        if value > (u64::MAX - digit) / 10 {
            proof {
                assert(value * 10 + digit > u64::MAX) by (nonlinear_arith)
                    requires
                        value > (u64::MAX - digit) / 10,
                        digit <= 9,
                ;
                assert(p =~= d.take(p.len() as int));
                lemma_digits_grow(p, d);
                assert(parse_u64(s@) is None);
            }
            return None;
        }
        assert(value * 10 + digit <= u64::MAX) by (nonlinear_arith)
            requires
                value <= (u64::MAX - digit) / 10,
                digit <= 9,
        ;
        value = value * 10 + digit;
        assert forall|j: int| 0 <= j < p.len() implies is_digit(#[trigger] p[j]) by {
            if j < p.len() - 1 {
                assert(p[j] == s@.subrange(start as int, i as int)[j]);
            }
        }
        i = i + 1;
    }
    assert(s@.subrange(start as int, s.len() as int) =~= d);
    assert(parse_u64(s@) == Some(value as nat));
    Some(value)
}

proof fn lemma_digits_prefix(p: Seq<char>, whole: Seq<char>)
    requires
        p.len() <= whole.len(),
        p == whole.take(p.len() as int),
        all_digits(whole),
    ensures
        digits_value(p) <= digits_value(whole),
    decreases whole.len() - p.len(),
{
    if p.len() < whole.len() {
        let q = whole.take((p.len() + 1) as int);
        assert(q.drop_last() =~= p);
        assert(whole.take(q.len() as int) =~= q);
        assert(is_digit(whole[p.len() as int]));
        assert(q.last() == whole[p.len() as int]);
        lemma_digits_prefix(q, whole);
    } else {
        assert(p =~= whole);
    }
}

proof fn lemma_digits_grow(p: Seq<char>, whole: Seq<char>)
    requires
        p.len() <= whole.len(),
        p == whole.take(p.len() as int),
        digits_value(p) > u64::MAX,
    ensures
        !all_digits(whole) || digits_value(whole) > u64::MAX,
{
    if all_digits(whole) {
        lemma_digits_prefix(p, whole);
    }
}

/// `s` with every trailing `c` removed (`str::trim_end_matches`).
pub open spec fn strip_trailing(s: Seq<char>, c: char) -> Seq<char>
    decreases s.len(),
{
    if s.len() > 0 && s.last() == c {
        strip_trailing(s.drop_last(), c)
    } else {
        s
    }
}

fn strip_end(s: &Vec<char>, c: char) -> (r: Vec<char>)
    ensures
        r@ == strip_trailing(s@, c),
{
    let mut n = s.len();
    assert(s@.take(n as int) =~= s@);
    while n > 0 && s[n - 1] == c
        invariant
            n <= s.len(),
            strip_trailing(s@, c) == strip_trailing(s@.take(n as int), c),
        decreases n,
    {
        assert(s@.take(n as int).drop_last() =~= s@.take(n - 1));
        n = n - 1;
    }
    let mut r: Vec<char> = Vec::new();
    let mut i: usize = 0;
    while i < n
        invariant
            i <= n <= s.len(),
            r@ == s@.take(i as int),
        decreases n - i,
    {
        r.push(s[i]);
        i = i + 1;
        assert(r@ =~= s@.take(i as int));
    }
    r
}

pub open spec fn ends_with(s: Seq<char>, suffix: Seq<char>) -> bool {
    suffix.len() <= s.len() && s.subrange(s.len() - suffix.len(), s.len() as int) == suffix
}

fn has_suffix(s: &Vec<char>, suffix: &str) -> (r: bool)
    ensures
        r == ends_with(s@, suffix@),
{
    let t = chars_of(suffix);
    if t.len() > s.len() {
        return false;
    }
    let off = s.len() - t.len();
    let mut i: usize = 0;
    while i < t.len()
        invariant
            off == s.len() - t.len(),
            i <= t.len(),
            t@ == suffix@,
            forall|j: int| 0 <= j < i ==> s@[off + j] == t@[j],
        decreases t.len() - i,
    {
        if s[off + i] != t[i] {
            assert(s@.subrange(off as int, s.len() as int)[i as int] == s@[off + i]);
            return false;
        }
        i = i + 1;
    }
    assert(s@.subrange(off as int, s.len() as int) =~= t@);
    true
}

/// The words of a text, split at white space (`str::split_whitespace`).
pub open spec fn words(s: Seq<char>) -> Seq<Seq<char>>
    decreases s.len(),
{
    if s.len() == 0 {
        Seq::empty()
    } else {
        let w = words(s.drop_last());
        let c = s.last();
        if is_ws(c) {
            w
        } else if s.len() >= 2 && !is_ws(s[s.len() - 2]) {
            w.update(w.len() - 1, w.last().push(c))
        } else {
            w.push(seq![c])
        }
    }
}

proof fn lemma_words_open(s: Seq<char>)
    requires
        s.len() > 0,
        !is_ws(s.last()),
    ensures
        words(s).len() > 0,
    decreases s.len(),
{
    if s.len() >= 2 && !is_ws(s[s.len() - 2]) {
        assert(s.drop_last().last() == s[s.len() - 2]);
        lemma_words_open(s.drop_last());
    }
}

pub open spec fn words_view(v: Seq<Vec<char>>) -> Seq<Seq<char>> {
    v.map_values(|w: Vec<char>| w@)
}

fn split_words(s: &Vec<char>) -> (r: Vec<Vec<char>>)
    ensures
        words_view(r@) == words(s@),
{
    let mut ws: Vec<Vec<char>> = Vec::new();
    let mut i: usize = 0;
    assert(words_view(ws@) =~= words(s@.take(0)));
    while i < s.len()
        invariant
            i <= s.len(),
            words_view(ws@) == words(s@.take(i as int)),
        decreases s.len() - i,
    {
        let c = s[i];
        let ghost pre = s@.take(i as int);
        assert(s@.take(i + 1).drop_last() =~= pre);
        assert(s@.take(i + 1).last() == c);
        if char_is_ws(c) {
        } else if i >= 1 && !char_is_ws(s[i - 1]) {
            proof {
                assert(pre.last() == s@[i - 1]);
                lemma_words_open(pre);
            }
            let k = ws.len() - 1;
            let ghost before = words_view(ws@);
            let mut last = ws.pop().unwrap();
            last.push(c);
            ws.push(last);
            assert(s@.take(i + 1)[i + 1 - 2] == s@[i - 1]);
            assert(words_view(ws@) =~= before.update(k as int, before.last().push(c)));
        } else {
            let ghost before = words_view(ws@);
            let mut w: Vec<char> = Vec::new();
            w.push(c);
            ws.push(w);
            proof {
                if i >= 1 {
                    assert(s@.take(i + 1)[i + 1 - 2] == s@[i - 1]);
                }
            }
            assert(words_view(ws@) =~= before.push(seq![c]));
        }
        i = i + 1;
    }
    assert(s@.take(s.len() as int) =~= s@);
    ws
}

// ---------------------------------------------------------------------------
// Reading a duration
// ---------------------------------------------------------------------------

pub open spec fn times(n: Option<nat>, k: nat) -> Option<nat> {
    match n {
        Some(v) => Some(v * k),
        None => None,
    }
}

/// Seconds of a compact duration such as `45s`, `30m`, `2h`, `1d` or `3w`.
pub open spec fn compact_secs(input: Seq<char>) -> Option<nat> {
    let t = trimmed(input);
    if t.len() > 0 && t.last() == 's' && !ends_with(t, "seconds"@) {
        let num = trimmed(strip_trailing(t, 's'));
        if all_digits(num) {
            times(parse_u64(num), 1)
        } else {
            None
        }
    } else if t.len() > 0 && t.last() == 'm' && !ends_with(t, "minutes"@) {
        times(parse_u64(trimmed(strip_trailing(t, 'm'))), 60)
    } else if t.len() > 0 && t.last() == 'h' {
        times(parse_u64(trimmed(strip_trailing(t, 'h'))), 3600)
    } else if t.len() > 0 && t.last() == 'd' {
        times(parse_u64(trimmed(strip_trailing(t, 'd'))), 86400)
    } else if t.len() > 0 && t.last() == 'w' {
        times(parse_u64(trimmed(strip_trailing(t, 'w'))), 604800)
    } else {
        None
    }
}

/// Seconds per unit of a spelled-out duration.
pub open spec fn unit_secs(u: Seq<char>) -> Option<nat> {
    if u == "second"@ || u == "seconds"@ || u == "sec"@ || u == "secs"@ {
        Some(1)
    } else if u == "minute"@ || u == "minutes"@ || u == "min"@ || u == "mins"@ {
        Some(60)
    } else if u == "hour"@ || u == "hours"@ || u == "hr"@ || u == "hrs"@ {
        Some(3600)
    } else if u == "day"@ || u == "days"@ {
        Some(86400)
    } else if u == "week"@ || u == "weeks"@ {
        Some(604800)
    } else {
        None
    }
}

/// Seconds of a spelled-out duration such as `30 minutes` or `1 day`: exactly two words,
/// a number and a unit.
pub open spec fn verbose_secs(input: Seq<char>) -> Option<nat> {
    let ws = words(input);
    if ws.len() != 2 {
        None
    } else {
        match (parse_u64(ws[0]), unit_secs(ws[1])) {
            (Some(n), Some(k)) => Some(n * k),
            _ => None,
        }
    }
}

/// Seconds of a duration as the reminder reads it: trimmed and lower-cased, compact form
/// first, spelled-out form otherwise.
pub open spec fn duration_secs(input: Seq<char>) -> Option<nat> {
    let s = lowercase(trimmed(input));
    match compact_secs(s) {
        Some(v) => Some(v),
        None => verbose_secs(s),
    }
}

/// Whether the seconds read fit in a `u64` (a larger product overflows when the
/// duration is built).
pub open spec fn duration_fits(input: Seq<char>) -> bool {
    match duration_secs(input) {
        Some(v) => v <= u64::MAX,
        None => true,
    }
}

fn number_of(s: &str) -> (r: Option<u64>)
    ensures
        match r {
            Some(n) => parse_u64(s@) == Some(n as nat),
            None => parse_u64(s@) is None,
        },
{
    let v = chars_of(s);
    parse_number(&v)
}

fn string_of(v: &Vec<char>) -> (r: String)
    ensures
        r@ == v@,
{
    crate::text::string_from_chars(v)
}

fn all_digit_chars(v: &Vec<char>) -> (r: bool)
    ensures
        r == all_digits(v@),
{
    let mut i: usize = 0;
    while i < v.len()
        invariant
            i <= v.len(),
            forall|j: int| 0 <= j < i ==> is_digit(#[trigger] v@[j]),
        decreases v.len() - i,
    {
        if !('0' <= v[i] && v[i] <= '9') {
            assert(!is_digit(v@[i as int]));
            return false;
        }
        i = i + 1;
    }
    true
}

fn compact(input: &str) -> (r: Option<u128>)
    ensures
        match r {
            Some(v) => compact_secs(input@) == Some(v as nat),
            None => compact_secs(input@) is None,
        },
{
    let t = trim(input);
    let tv = chars_of(t.as_str());
    if tv.len() == 0 {
        return None;
    }
    let last = tv[tv.len() - 1];
    let (c, mult): (char, u128) = if last == 's' && !has_suffix(&tv, "seconds") {
        ('s', 1)
    } else if last == 'm' && !has_suffix(&tv, "minutes") {
        ('m', 60)
    } else if last == 'h' {
        ('h', 3600)
    } else if last == 'd' {
        ('d', 86400)
    } else if last == 'w' {
        ('w', 604800)
    } else {
        return None;
    };
    let stripped = strip_end(&tv, c);
    let num = trim(string_of(&stripped).as_str());
    if c == 's' && !all_digit_chars(&chars_of(num.as_str())) {
        return None;
    }
    match number_of(num.as_str()) {
        Some(n) => Some(n as u128 * mult),
        None => None,
    }
}

fn verbose(input: &str) -> (r: Option<u128>)
    ensures
        match r {
            Some(v) => verbose_secs(input@) == Some(v as nat),
            None => verbose_secs(input@) is None,
        },
{
    let v = chars_of(input);
    let ws = split_words(&v);
    if ws.len() != 2 {
        return None;
    }
    let n = match parse_number(&ws[0]) {
        Some(n) => n,
        None => return None,
    };
    let u = string_of(&ws[1]);
    let us = u.as_str();
    let eq = |a: &str| -> (r: bool)
        ensures
            r == (us@ == a@),
        { crate::text::str_eq(us, a) };
    let k: u128 = if eq("second") || eq("seconds") || eq("sec") || eq("secs") {
        1
    } else if eq("minute") || eq("minutes") || eq("min") || eq("mins") {
        60
    } else if eq("hour") || eq("hours") || eq("hr") || eq("hrs") {
        3600
    } else if eq("day") || eq("days") {
        86400
    } else if eq("week") || eq("weeks") {
        604800
    } else {
        return None;
    };
    Some(n as u128 * k)
}

fn read_secs(input: &str) -> (r: Option<u128>)
    ensures
        match r {
            Some(v) => duration_secs(input@) == Some(v as nat),
            None => duration_secs(input@) is None,
        },
{
    let t = trim(input);
    let s = to_lowercase(t.as_str());
    match compact(s.as_str()) {
        Some(v) => Some(v),
        None => verbose(s.as_str()),
    }
}

/// Whether a duration text is within what can be read (see `duration_fits`).
pub fn duration_in_range(input: &str) -> (r: bool)
    ensures
        r == duration_fits(input@),
{
    match read_secs(input) {
        Some(v) => v <= u64::MAX as u128,
        None => true,
    }
}

/// Reads a reminder time in seconds: `30s`, `5m`, `2h`, `1d`, `3w`, or `30 seconds`,
/// `5 minutes`, `2 hours`, `1 day`, `3 weeks` (with short unit names too), ignoring case and
/// surrounding space. None where the text is not a duration.
pub fn parse_duration(input: &str) -> (r: Option<u64>)
    requires
        duration_fits(input@),
    ensures
        match r {
            Some(v) => duration_secs(input@) == Some(v as nat),
            None => duration_secs(input@) is None,
        },
{
    match read_secs(input) {
        Some(v) => Some(v as u64),
        None => None,
    }
}

/// What reading a reminder time gives.
#[derive(Debug, Clone, Copy, PartialEq, Eq, Structural)]
pub enum DurationReading {
    /// The duration, in seconds.
    Seconds(u64),
    /// The text is not a duration.
    NotADuration,
    /// A duration whose seconds do not fit in a `u64`.
    TooLong,
}

/// Reads a reminder time from any text: the seconds when it is a duration that fits,
/// `TooLong` when its seconds do not fit in a `u64`, `NotADuration` otherwise.
pub fn read_duration(input: &str) -> (r: DurationReading)
    ensures
        match duration_secs(input@) {
            Some(v) => if v <= u64::MAX {
                r == DurationReading::Seconds(v as u64)
            } else {
                r == DurationReading::TooLong
            },
            None => r == DurationReading::NotADuration,
        },
{
    if !duration_in_range(input) {
        return DurationReading::TooLong;
    }
    match parse_duration(input) {
        Some(v) => DurationReading::Seconds(v),
        None => DurationReading::NotADuration,
    }
}

// ---------------------------------------------------------------------------
// Checking and writing a duration
// ---------------------------------------------------------------------------

/// Seconds used when no time is given.
pub const DEFAULT_REMINDER_SECS: u64 = 60;
/// Fewest seconds a reminder may wait.
pub const MIN_REMINDER_SECS: u64 = 10;
/// Most seconds a reminder may wait: thirty days.
pub const MAX_REMINDER_SECS: u64 = 2_592_000;

/// Why a reminder time is refused.
#[derive(Debug, Clone, Copy, PartialEq, Eq, Structural)]
pub enum ReminderTimeError {
    TooSoon,
    TooLate,
}

/// Checks that a reminder waits between ten seconds and thirty days.
pub fn check_reminder_secs(secs: u64) -> (r: Result<(), ReminderTimeError>)
    ensures
        secs < 10 ==> r == Err::<(), ReminderTimeError>(ReminderTimeError::TooSoon),
        10 <= secs <= 2_592_000 ==> r is Ok,
        secs > 2_592_000 ==> r == Err::<(), ReminderTimeError>(ReminderTimeError::TooLate),
{
    if secs < MIN_REMINDER_SECS {
        Err(ReminderTimeError::TooSoon)
    } else if secs > MAX_REMINDER_SECS {
        Err(ReminderTimeError::TooLate)
    } else {
        Ok(())
    }
}

pub open spec fn plural(n: nat) -> Seq<char> {
    if n == 1 {
        Seq::empty()
    } else {
        "s"@
    }
}

pub open spec fn counted(n: nat, unit: Seq<char>) -> Seq<char> {
    decimal(n) + " "@ + unit + plural(n)
}

/// A duration in words: seconds under a minute, minutes under an hour, hours (and
/// minutes) under a day, days (and hours) beyond.
pub open spec fn duration_words(secs: nat) -> Seq<char> {
    if secs < 60 {
        counted(secs, "second"@)
    } else if secs < 3600 {
        counted(secs / 60, "minute"@)
    } else if secs < 86400 {
        let h = secs / 3600;
        let m = (secs % 3600) / 60;
        if m > 0 {
            counted(h, "hour"@) + " and "@ + counted(m, "minute"@)
        } else {
            counted(h, "hour"@)
        }
    } else {
        let d = secs / 86400;
        let h = (secs % 86400) / 3600;
        if h > 0 {
            counted(d, "day"@) + " and "@ + counted(h, "hour"@)
        } else {
            counted(d, "day"@)
        }
    }
}

fn push_counted(s: &mut String, n: u64, unit: &str)
    ensures
        final(s)@ == old(s)@ + counted(n as nat, unit@),
{
    push_decimal(s, n);
    push_str(s, " ");
    push_str(s, unit);
    if n != 1 {
        push_str(s, "s");
    }
    proof {
        reveal_strlit("s");
    }
}

/// Writes a duration out in words.
pub fn format_duration(secs: u64) -> (s: String)
    ensures
        s@ == duration_words(secs as nat),
{
    let mut s = String::new();
    if secs < 60 {
        push_counted(&mut s, secs, "second");
    } else if secs < 3600 {
        push_counted(&mut s, secs / 60, "minute");
    } else if secs < 86400 {
        let h = secs / 3600;
        let m = (secs % 3600) / 60;
        push_counted(&mut s, h, "hour");
        if m > 0 {
            push_str(&mut s, " and ");
            push_counted(&mut s, m, "minute");
        }
    } else {
        let d = secs / 86400;
        let h = (secs % 86400) / 3600;
        push_counted(&mut s, d, "day");
        if h > 0 {
            push_str(&mut s, " and ");
            push_counted(&mut s, h, "hour");
        }
    }
    assert(s@ =~= duration_words(secs as nat));
    s
}

// ---------------------------------------------------------------------------
// Reading back what is written
// ---------------------------------------------------------------------------

proof fn lemma_digit_char(d: nat)
    requires
        d < 10,
    ensures
        is_digit(digit_char(d)),
        digit_char(d) as nat - '0' as nat == d,
{
}

/// The decimal text of a number is a non-empty run of digits worth that number.
proof fn lemma_decimal_digits(n: nat)
    ensures
        decimal(n).len() > 0,
        all_digits(decimal(n)),
        digits_value(decimal(n)) == n,
    decreases n,
{
    if n < 10 {
        lemma_digit_char(n);
        let d = decimal(n);
        assert(d.drop_last() =~= Seq::<char>::empty());
        assert(digits_value(d.drop_last()) == 0);
        assert(d.last() == digit_char(n));
        assert(digits_value(d) == n);
    } else {
        lemma_decimal_digits(n / 10);
        lemma_digit_char(n % 10);
        let d = decimal(n);
        assert(d.drop_last() =~= decimal(n / 10));
        assert(d.last() == digit_char(n % 10));
        assert(digits_value(d) == digits_value(decimal(n / 10)) * 10 + (digit_char(n % 10) as nat - '0' as nat) as nat);
        assert((n / 10) * 10 + n % 10 == n);
        assert forall|i: int| 0 <= i < d.len() implies is_digit(#[trigger] d[i]) by {
            if i < d.len() - 1 {
                assert(d[i] == decimal(n / 10)[i]);
            }
        }
    }
}

/// A single word, without white space, is one word.
proof fn lemma_one_word(a: Seq<char>)
    requires
        a.len() > 0,
        forall|i: int| 0 <= i < a.len() ==> !is_ws(#[trigger] a[i]),
    ensures
        words(a) == seq![a],
    decreases a.len(),
{
    if a.len() == 1 {
        assert(a.drop_last() =~= Seq::<char>::empty());
        assert(words(a.drop_last()) == Seq::<Seq<char>>::empty());
        assert(seq![a.last()] =~= a);
        assert(words(a) == Seq::<Seq<char>>::empty().push(seq![a.last()]));
        assert(Seq::<Seq<char>>::empty().push(a) =~= seq![a]);
    } else {
        let p = a.drop_last();
        assert forall|i: int| 0 <= i < p.len() implies !is_ws(#[trigger] p[i]) by {
            assert(p[i] == a[i]);
        }
        lemma_one_word(p);
        assert(a[a.len() - 2] == p[p.len() - 1]);
        assert(p.push(a.last()) =~= a);
        assert(seq![p].update(0, p.push(a.last())) =~= seq![a]);
    }
}

/// A word after white space is the next word.
proof fn lemma_word_after(p: Seq<char>, b: Seq<char>)
    requires
        p.len() > 0,
        is_ws(p.last()),
        b.len() > 0,
        forall|i: int| 0 <= i < b.len() ==> !is_ws(#[trigger] b[i]),
    ensures
        words(p + b) == words(p).push(b),
    decreases b.len(),
{
    let s = p + b;
    if b.len() == 1 {
        assert(s.drop_last() =~= p);
        assert(s[s.len() - 2] == p.last());
        assert(seq![b[0]] =~= b);
    } else {
        let b2 = b.drop_last();
        assert forall|i: int| 0 <= i < b2.len() implies !is_ws(#[trigger] b2[i]) by {
            assert(b2[i] == b[i]);
        }
        lemma_word_after(p, b2);
        assert(s.drop_last() =~= p + b2);
        assert(s[s.len() - 2] == b[b.len() - 2]);
        assert(words(p).push(b2).last() == b2);
        assert(b2.push(b.last()) =~= b);
        assert(words(p).push(b2).update(words(p).len() as int, b) =~= words(p).push(b));
    }
}

/// A text that starts and ends with other than white space is its own trim.
proof fn lemma_trimmed_same(s: Seq<char>)
    requires
        s.len() > 0,
        !is_ws(s[0]),
        !is_ws(s.last()),
    ensures
        trimmed(s) == s,
{
    assert(trim_start(s) == s);
    assert(trim_end(s) == s);
}

/// The phrase `N unit`.
pub open spec fn duration_phrase(n: nat, unit: Seq<char>) -> Seq<char> {
    decimal(n) + " "@ + unit
}

/// The units spelled out in full, with the largest count that reads back as written:
/// seconds and minutes below the next unit, hours below a day, days as long as the
/// seconds fit in a `u64`.
pub open spec fn round_trip_unit(n: nat, unit: Seq<char>) -> bool {
    ||| (unit == "seconds"@ || unit == "minutes"@) && n <= 59
    ||| unit == "hours"@ && n <= 23
    ||| unit == "days"@ && n * 86400 <= u64::MAX
}

proof fn lemma_phrase_parts(n: nat, unit: Seq<char>)
    requires
        unit.len() >= 2,
        forall|i: int| 0 <= i < unit.len() ==> 'a' <= #[trigger] unit[i] <= 'z',
        unit.last() == 's',
        unit[unit.len() - 2] != 's',
    ensures
        ({
            let ph = duration_phrase(n, unit);
            &&& trimmed(ph) == ph
            &&& lowercase(trimmed(ph)) == ph
            &&& words(ph) == seq![decimal(n), unit]
            &&& ph.last() == 's'
            &&& strip_trailing(ph, 's') == ph.drop_last()
            &&& trimmed(ph.drop_last()) == ph.drop_last()
            &&& !all_digits(ph.drop_last())
        }),
{
    reveal_strlit(" ");
    let a = decimal(n);
    let ph = duration_phrase(n, unit);
    lemma_decimal_digits(n);
    assert(ph.len() == a.len() + 1 + unit.len());
    assert(ph[0] == a[0]);
    assert(is_digit(a[0]));
    assert(ph.last() == unit.last());
    lemma_trimmed_same(ph);
    assert forall|i: int| 0 <= i < ph.len() implies (#[trigger] ph[i] as u32) < 0x80 && ascii_lower(ph[i]) == ph[i] by {
        if i < a.len() {
            assert(ph[i] == a[i]);
            assert(is_digit(a[i]));
        } else if i == a.len() {
            assert(ph[i] == ' ');
        } else {
            assert(ph[i] == unit[i - a.len() - 1]);
        }
    }
    assert(all_ascii(ph));
    assert(ph.map_values(|c: char| ascii_lower(c)) =~= ph);
    let sp = a + " "@;
    assert forall|i: int| 0 <= i < a.len() implies !is_ws(#[trigger] a[i]) by {
        assert(is_digit(a[i]));
    }
    lemma_one_word(a);
    assert(sp.drop_last() =~= a);
    assert(sp.last() == ' ');
    assert(words(sp) == words(a));
    assert forall|i: int| 0 <= i < unit.len() implies !is_ws(#[trigger] unit[i]) by {
        assert('a' <= unit[i] <= 'z');
    }
    lemma_word_after(sp, unit);
    assert(sp + unit =~= ph);
    assert(ph.drop_last().last() == unit[unit.len() - 2]);
    assert(strip_trailing(ph.drop_last(), 's') == ph.drop_last());
    let d = ph.drop_last();
    assert(d[0] == a[0]);
    assert(d.last() == unit[unit.len() - 2]);
    lemma_trimmed_same(d);
    assert(d[a.len() as int] == ' ');
    assert(!is_digit(d[a.len() as int]));
}

/// Writing out a duration read from `N seconds`, `N minutes`, `N hours` or `N days` gives
/// the phrase back, with the unit singular exactly when `N` is 1.
pub proof fn lemma_duration_round_trip(n: nat, unit: Seq<char>)
    requires
        n >= 1,
        round_trip_unit(n, unit),
    ensures
        duration_fits(duration_phrase(n, unit)),
        unit_secs(unit) matches Some(k) && duration_secs(duration_phrase(n, unit)) == Some(n * k)
            && duration_words(n * k) == counted(n, unit.drop_last()),
{
    reveal_strlit("seconds");
    reveal_strlit("minutes");
    reveal_strlit("hours");
    reveal_strlit("days");
    reveal_strlit("second");
    reveal_strlit("sec");
    reveal_strlit("secs");
    reveal_strlit("minute");
    reveal_strlit("min");
    reveal_strlit("mins");
    reveal_strlit("hour");
    reveal_strlit("hr");
    reveal_strlit("hrs");
    reveal_strlit("day");
    reveal_strlit("week");
    reveal_strlit("weeks");
    reveal_strlit(" ");
    let ph = duration_phrase(n, unit);
    let a = decimal(n);
    assert(unit.len() >= 4);
    assert forall|i: int| 0 <= i < unit.len() implies 'a' <= #[trigger] unit[i] <= 'z' by {}
    lemma_phrase_parts(n, unit);
    lemma_decimal_digits(n);
    assert(a[0] != '+') by {
        assert(is_digit(a[0]));
    }
    let l = ph.len() as int;
    // the compact reading finds nothing
    if unit == "seconds"@ {
        assert(ph.subrange(l - 7, l) =~= unit);
    } else if unit == "minutes"@ {
        assert(ph[l - 7] == 'm');
        assert(ph.subrange(l - 7, l)[0] == 'm');
    } else if unit == "hours"@ {
        assert(ph[l - 5] == 'h');
        if l >= 7 {
            assert(ph.subrange(l - 7, l)[2] == 'h');
        }
    } else {
        assert(ph[l - 4] == 'd');
        if l >= 7 {
            assert(ph.subrange(l - 7, l)[3] == 'd');
        }
    }
    assert(compact_secs(ph) is None);
    // the spelled-out reading
    assert(parse_u64(a) == Some(n)) by {
        if unit == "days"@ {
            assert(n <= n * 86400) by (nonlinear_arith)
                requires
                    n >= 1,
            ;
        }
    }
    let k = unit_secs(unit)->0;
    assert(verbose_secs(ph) == Some(n * k));
    assert(duration_secs(ph) == Some(n * k));
    if unit == "seconds"@ {
        assert(k == 1);
        assert(n * k == n) by (nonlinear_arith)
            requires
                k == 1,
        ;
    } else if unit == "minutes"@ {
        assert(n * 60 < 3600 && (n * 60) / 60 == n) by (nonlinear_arith)
            requires
                1 <= n <= 59,
        ;
    } else if unit == "hours"@ {
        assert(3600 <= n * 3600 < 86400 && (n * 3600) / 3600 == n && ((n * 3600) % 3600) / 60 == 0) by (nonlinear_arith)
            requires
                1 <= n <= 23,
        ;
    } else {
        assert(86400 <= n * 86400 && (n * 86400) / 86400 == n && ((n * 86400) % 86400) / 3600 == 0) by (nonlinear_arith)
            requires
                1 <= n,
        ;
    }
    assert(unit.drop_last() =~= (if unit == "seconds"@ { "second"@ } else if unit == "minutes"@ { "minute"@ } else if unit
        == "hours"@ { "hour"@ } else { "day"@ }));
}

} // verus!
