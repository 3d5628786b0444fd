//! Character-level text helpers shared by the formatting code of the bot.
//!
//! Strings are reasoned about through their character sequences (`s@`).
use vstd::prelude::*;
use vstd::string::*;

verus! {

// ---------------------------------------------------------------------------
// Basic string construction
// ---------------------------------------------------------------------------

/// Appends one character (`String::push`).
#[verifier::external_body]
pub(crate) fn push_char(s: &mut String, c: char)
    ensures
        final(s)@ == old(s)@.push(c),
{
    s.push(c);
}

/// Appends a string slice.
pub(crate) fn push_str(s: &mut String, t: &str)
    ensures
        final(s)@ == old(s)@ + t@,
{
    s.append(t);
}

/// The characters of a string slice, in order.
pub(crate) fn chars_of(s: &str) -> (v: Vec<char>)
    ensures
        v@ == s@,
{
    broadcast use vstd::string::axiom_spec_iter;
    let mut v: Vec<char> = Vec::new();
    for c in it: s.chars()
        invariant
            it.seq() == s@,
            v@ == it.seq().take(it.index() as int),
    {
        v.push(c);
    }
    v
}

/// A fresh `String` holding a copy of `s`.
pub(crate) fn owned(s: &str) -> (r: String)
    ensures
        r@ == s@,
{
    String::from_str(s)
}

/// Builds a `String` from a character vector.
pub fn string_from_chars(v: &Vec<char>) -> (r: String)
    ensures
        r@ == v@,
{
    let mut r = String::new();
    let mut i: usize = 0;
    while i < v.len()
        invariant
            i <= v.len(),
            r@ == v@.subrange(0, i as int),
        decreases v.len() - i,
    {
        push_char(&mut r, v[i]);
        i = i + 1;
        assert(r@ =~= v@.subrange(0, i as int));
    }
    assert(v@.subrange(0, v@.len() as int) =~= v@);
    r
}

/// Copies a string (`String::clone` with its contents known).
pub fn copy_string(s: &String) -> (r: String)
    ensures
        r@ == s@,
{
    owned(s.as_str())
}

/// Character-wise equality of two string slices.
pub fn str_eq(a: &str, b: &str) -> (r: bool)
    ensures
        r == (a@ == b@),
{
    let va = chars_of(a);
    let vb = chars_of(b);
    if va.len() != vb.len() {
        return false;
    }
    let mut i: usize = 0;
    while i < va.len()
        invariant
            va@ == a@,
            vb@ == b@,
            va.len() == vb.len(),
            i <= va.len(),
            forall|j: int| 0 <= j < i ==> va@[j] == vb@[j],
        decreases va.len() - i,
    {
        if va[i] != vb[i] {
            return false;
        }
        i = i + 1;
    }
    assert(va@ =~= vb@);
    true
}

// ---------------------------------------------------------------------------
// Sub-sequence search
// ---------------------------------------------------------------------------

/// `pat` occurs in `s` starting at position `i`.
pub open spec fn occurs_at(s: Seq<char>, pat: Seq<char>, i: int) -> bool {
    0 <= i && i + pat.len() <= s.len() && s.subrange(i, i + pat.len()) == pat
}

/// `pat` occurs somewhere in `s` (what `str::contains` answers).
pub open spec fn seq_contains(s: Seq<char>, pat: Seq<char>) -> bool {
    exists|i: int| occurs_at(s, pat, i)
}

/// The first position at which `pat` occurs in `s` (what `str::find` answers).
#[verifier::opaque]
pub open spec fn first_occurrence(s: Seq<char>, pat: Seq<char>) -> Option<int> {
    if seq_contains(s, pat) {
        Some(choose|i: int| occurs_at(s, pat, i) && forall|j: int| 0 <= j < i ==> !occurs_at(s, pat, j))
    } else {
        None
    }
}

fn matches_at(s: &Vec<char>, pat: &Vec<char>, i: usize) -> (r: bool)
    requires
        i + pat.len() <= s.len(),
    ensures
        r == occurs_at(s@, pat@, i as int),
{
    let mut k: usize = 0;
    while k < pat.len()
        invariant
            i + pat.len() <= s.len(),
            k <= pat.len(),
            forall|j: int| 0 <= j < k ==> s@[i + j] == pat@[j],
        decreases pat.len() - k,
    {
        if s[i + k] != pat[k] {
            assert(s@.subrange(i as int, i + pat.len())[k as int] != pat@[k as int]);
            return false;
        }
        k = k + 1;
    }
    assert(s@.subrange(i as int, i + pat.len()) =~= pat@);
    true
}

/// Finds the first occurrence of `pat` in `s`.
pub fn find_chars(s: &Vec<char>, pat: &Vec<char>) -> (r: Option<usize>)
    ensures
        match r {
            Some(i) => first_occurrence(s@, pat@) == Some(i as int) && occurs_at(s@, pat@, i as int),
            None => first_occurrence(s@, pat@) is None,
        },
{
    reveal(first_occurrence);
    if pat.len() > s.len() {
        assert forall|i: int| !occurs_at(s@, pat@, i) by {}
        return None;
    }
    if pat.len() == 0 {
        assert(occurs_at(s@, pat@, 0)) by {
            assert(s@.subrange(0, 0) =~= pat@);
        }
        return Some(0);
    }
    let last = s.len() - pat.len();
    let mut i: usize = 0;
    while i <= last
        invariant
            last == s.len() - pat.len(),
            1 <= pat.len() <= s.len(),
            i <= last + 1,
            forall|j: int| 0 <= j < i ==> !occurs_at(s@, pat@, j),
        decreases last + 1 - i,
    {
        if matches_at(s, pat, i) {
            proof {
                reveal(first_occurrence);
                let w = choose|w: int| occurs_at(s@, pat@, w) && forall|j: int| 0 <= j < w ==> !occurs_at(s@, pat@, j);
                assert(occurs_at(s@, pat@, w));
                if w < i {
                } else if w > i {
                }
            }
            return Some(i);
        }
        i = i + 1;
    }
    assert forall|j: int| !occurs_at(s@, pat@, j) by {
        if 0 <= j && j + pat@.len() <= s@.len() {
            assert(j < i);
        }
    }
    None
}

/// Whether `pat` occurs in `s`.
pub fn contains_chars(s: &Vec<char>, pat: &Vec<char>) -> (r: bool)
    ensures
        r == seq_contains(s@, pat@),
{
    proof {
        reveal(first_occurrence);
    }
    match find_chars(s, pat) {
        Some(i) => {
            proof {
                let w = choose|w: int| occurs_at(s@, pat@, w) && forall|j: int| 0 <= j < w ==> !occurs_at(s@, pat@, j);
            }
            true
        },
        None => false,
    }
}

/// Whether `pat` occurs in `s` (string slices).
pub fn str_contains(s: &str, pat: &str) -> (r: bool)
    ensures
        r == seq_contains(s@, pat@),
{
    let vs = chars_of(s);
    let vp = chars_of(pat);
    contains_chars(&vs, &vp)
}

// ---------------------------------------------------------------------------
// Case handling
// ---------------------------------------------------------------------------

/// The Unicode lower-case mapping that `str::to_lowercase` applies to a text that is not
/// all ASCII.
pub uninterp spec fn unicode_lowercase(s: Seq<char>) -> Seq<char>;

/// Whether every character is ASCII.
pub open spec fn all_ascii(s: Seq<char>) -> bool {
    forall|i: int| 0 <= i < s.len() ==> (#[trigger] s[i] as u32) < 0x80
}

/// What `str::to_lowercase` gives: on ASCII text `A`..`Z` become `a`..`z` and every other
/// character stays; beyond ASCII the Unicode mapping, which is only named here.
pub open spec fn lowercase(s: Seq<char>) -> Seq<char> {
    if all_ascii(s) {
        s.map_values(|c: char| ascii_lower(c))
    } else {
        unicode_lowercase(s)
    }
}

/// Lower-cases a string (`str::to_lowercase`). On ASCII text the Unicode lower-case mapping
/// turns `A`..`Z` into `a`..`z` and keeps every other character; what it does beyond ASCII
/// is not stated, only named (`unicode_lowercase`).
#[verifier::external_body]
pub(crate) fn to_lowercase(s: &str) -> (r: String)
    ensures
        r@ == lowercase(s@),
        !all_ascii(s@) ==> r@ == unicode_lowercase(s@),
{
    s.to_lowercase()
}

/// Unicode white space: the characters with the `White_Space` property
/// (`char::is_whitespace`).
pub open spec fn is_ws(c: char) -> bool {
    ('\u{9}' <= c && c <= '\u{d}') || c == ' ' || c == '\u{85}' || c == '\u{a0}' || c == '\u{1680}' || ('\u{2000}' <= c
        && c <= '\u{200a}') || c == '\u{2028}' || c == '\u{2029}' || c == '\u{202f}' || c == '\u{205f}' || c == '\u{3000}'
}

/// The text without its leading white space.
pub open spec fn trim_start(s: Seq<char>) -> Seq<char>
    decreases s.len(),
{
    if s.len() > 0 && is_ws(s[0]) {
        trim_start(s.drop_first())
    } else {
        s
    }
}

/// The text without its trailing white space.
pub open spec fn trim_end(s: Seq<char>) -> Seq<char>
    decreases s.len(),
{
    if s.len() > 0 && is_ws(s.last()) {
        trim_end(s.drop_last())
    } else {
        s
    }
}

/// What `str::trim` leaves of a string: leading and trailing white space removed.
pub open spec fn trimmed(s: Seq<char>) -> Seq<char> {
    trim_end(trim_start(s))
}

/// Removes leading and trailing white space (`str::trim`, which removes the characters
/// with the Unicode `White_Space` property from both ends).
#[verifier::external_body]
pub(crate) fn trim(s: &str) -> (r: String)
    ensures
        r@ == trimmed(s@),
{
    s.trim().to_string()
}

/// ASCII lower-casing of a single character.
pub open spec fn ascii_lower(c: char) -> char {
    if 'A' <= c && c <= 'Z' {
        ((c as u32) + 32) as char
    } else {
        c
    }
}

fn ascii_lower_char(c: char) -> (r: char)
    ensures
        r == ascii_lower(c),
{
    if 'A' <= c && c <= 'Z' {
        let v: u32 = (c as u32) + 32;
        assert(0x61 <= v <= 0x7a);
        // lower-case ASCII letters
        let r = match v {
            0x61 => 'a', 0x62 => 'b', 0x63 => 'c', 0x64 => 'd', 0x65 => 'e', 0x66 => 'f',
            0x67 => 'g', 0x68 => 'h', 0x69 => 'i', 0x6a => 'j', 0x6b => 'k', 0x6c => 'l',
            0x6d => 'm', 0x6e => 'n', 0x6f => 'o', 0x70 => 'p', 0x71 => 'q', 0x72 => 'r',
            0x73 => 's', 0x74 => 't', 0x75 => 'u', 0x76 => 'v', 0x77 => 'w', 0x78 => 'x',
            0x79 => 'y', _ => 'z',
        };
        r
    } else {
        c
    }
}

/// Two texts are equal once ASCII letters are lower-cased (what `str::eq_ignore_ascii_case` answers).
pub open spec fn eq_ignore_ascii_case(a: Seq<char>, b: Seq<char>) -> bool {
    a.len() == b.len() && forall|i: int| 0 <= i < a.len() ==> ascii_lower(a[i]) == ascii_lower(b[i])
}

/// Case-insensitive (ASCII) comparison of two string slices.
pub fn str_eq_ignore_ascii_case(a: &str, b: &str) -> (r: bool)
    ensures
        r == eq_ignore_ascii_case(a@, b@),
{
    let va = chars_of(a);
    let vb = chars_of(b);
    if va.len() != vb.len() {
        return false;
    }
    let mut i: usize = 0;
    while i < va.len()
        invariant
            va@ == a@,
            vb@ == b@,
            va.len() == vb.len(),
            i <= va.len(),
            forall|j: int| 0 <= j < i ==> ascii_lower(va@[j]) == ascii_lower(vb@[j]),
        decreases va.len() - i,
    {
        if ascii_lower_char(va[i]) != ascii_lower_char(vb[i]) {
            return false;
        }
        i = i + 1;
    }
    true
}

// ---------------------------------------------------------------------------
// Numbers
// ---------------------------------------------------------------------------

/// The character of a decimal digit.
pub open spec fn digit_char(d: nat) -> char {
    if d == 0 { '0' }
    else if d == 1 { '1' }
    else if d == 2 { '2' }
    else if d == 3 { '3' }
    else if d == 4 { '4' }
    else if d == 5 { '5' }
    else if d == 6 { '6' }
    else if d == 7 { '7' }
    else if d == 8 { '8' }
    else { '9' }
}

/// Decimal representation of a natural number, without leading zeros.
pub open spec fn decimal(n: nat) -> Seq<char>
    decreases n,
{
    if n < 10 {
        seq![digit_char(n)]
    } else {
        decimal(n / 10).push(digit_char(n % 10))
    }
}

/// Decimal representation of an integer, with a leading `-` when negative.
pub open spec fn signed_decimal(n: int) -> Seq<char> {
    if n < 0 {
        seq!['-'] + decimal((-n) as nat)
    } else {
        decimal(n as nat)
    }
}

fn digit(d: u64) -> (c: char)
    requires
        d < 10,
    ensures
        c == digit_char(d as nat),
{
    match d {
        0 => '0',
        1 => '1',
        2 => '2',
        3 => '3',
        4 => '4',
        5 => '5',
        6 => '6',
        7 => '7',
        8 => '8',
        _ => '9',
    }
}

/// Appends the decimal digits of `n`.
pub fn push_decimal(s: &mut String, n: u64)
    ensures
        final(s)@ == old(s)@ + decimal(n as nat),
    decreases n,
{
    if n < 10 {
        push_char(s, digit(n));
        assert(seq![digit_char(n as nat)] =~= decimal(n as nat));
    } else {
        push_decimal(s, n / 10);
        push_char(s, digit(n % 10));
    }
}

/// Decimal text of an unsigned number (`u64::to_string`).
pub fn u64_to_string(n: u64) -> (s: String)
    ensures
        s@ == decimal(n as nat),
{
    let mut s = String::new();
    push_decimal(&mut s, n);
    assert(s@ =~= decimal(n as nat));
    s
}

/// Appends the decimal text of a signed number.
pub fn push_signed_decimal(s: &mut String, n: i64)
    ensures
        final(s)@ == old(s)@ + signed_decimal(n as int),
{
    if n < 0 {
        push_char(s, '-');
        let m: u64 = if n == i64::MIN { 9223372036854775808u64 } else { (-n) as u64 };
        push_decimal(s, m);
        assert(old(s)@.push('-') + decimal(m as nat) =~= old(s)@ + (seq!['-'] + decimal(m as nat)));
    } else {
        push_decimal(s, n as u64);
    }
}

/// Decimal text of a signed number (`i64::to_string`).
pub fn i64_to_string(n: i64) -> (s: String)
    ensures
        s@ == signed_decimal(n as int),
{
    let mut s = String::new();
    push_signed_decimal(&mut s, n);
    assert(s@ =~= signed_decimal(n as int));
    s
}

/// Digits grouped in threes from the right, separated by commas.
pub open spec fn group_thousands(d: Seq<char>) -> Seq<char>
    decreases d.len(),
{
    if d.len() <= 3 {
        d
    } else {
        group_thousands(d.subrange(0, d.len() - 3)) + seq![','] + d.subrange(d.len() - 3, d.len() as int)
    }
}

/// A number with thousands separators: `1234567` is `1,234,567`, `-1000` is `-1,000`.
pub open spec fn with_thousands(n: int) -> Seq<char> {
    if n < 0 {
        seq!['-'] + group_thousands(decimal((-n) as nat))
    } else {
        group_thousands(decimal(n as nat))
    }
}

fn push_grouped(s: &mut String, d: &Vec<char>, end: usize)
    requires
        end <= d.len(),
    ensures
        final(s)@ == old(s)@ + group_thousands(d@.subrange(0, end as int)),
    decreases end,
{
    let ghost prefix = d@.subrange(0, end as int);
    if end <= 3 {
        let mut i: usize = 0;
        while i < end
            invariant
                i <= end,
                end <= d.len(),
                s@ == old(s)@ + d@.subrange(0, i as int),
            decreases end - i,
        {
            push_char(s, d[i]);
            i = i + 1;
            assert(s@ =~= old(s)@ + d@.subrange(0, i as int));
        }
    } else {
        push_grouped(s, d, end - 3);
        push_char(s, ',');
        push_char(s, d[end - 3]);
        push_char(s, d[end - 2]);
        push_char(s, d[end - 1]);
        assert(prefix.subrange(0, prefix.len() - 3) =~= d@.subrange(0, end - 3));
        assert(prefix.subrange(prefix.len() - 3, prefix.len() as int) =~= seq![d@[end - 3], d@[end - 2], d@[end - 1]]);
        assert(s@ =~= old(s)@ + group_thousands(prefix));
    }
}

/// Formats a number with commas for readability.
pub fn format_number(n: i64) -> (r: String)
    ensures
        r@ == with_thousands(n as int),
{
    let mut r = String::new();
    let m: u64 = if n < 0 {
        push_char(&mut r, '-');
        if n == i64::MIN { 9223372036854775808u64 } else { (-n) as u64 }
    } else {
        n as u64
    };
    let digits = u64_to_string(m);
    let d = chars_of(digits.as_str());
    push_grouped(&mut r, &d, d.len());
    assert(d@.subrange(0, d@.len() as int) =~= d@);
    if n < 0 {
        assert(r@ =~= seq!['-'] + group_thousands(decimal(m as nat)));
    } else {
        assert(r@ =~= group_thousands(decimal(m as nat)));
    }
    r
}

// ---------------------------------------------------------------------------
// Joining and cutting
// ---------------------------------------------------------------------------

/// Texts joined with a separator between consecutive ones (`[String]::join`).
pub open spec fn joined(parts: Seq<Seq<char>>, sep: Seq<char>) -> Seq<char>
    decreases parts.len(),
{
    if parts.len() == 0 {
        Seq::empty()
    } else if parts.len() == 1 {
        parts[0]
    } else {
        joined(parts.drop_last(), sep) + sep + parts.last()
    }
}

pub open spec fn strings_seq(v: Seq<String>) -> Seq<Seq<char>> {
    v.map_values(|s: String| s@)
}

/// Joins strings with a separator.
pub fn join_strings(parts: &Vec<String>, sep: &str) -> (r: String)
    ensures
        r@ == joined(strings_seq(parts@), sep@),
{
    let ghost ps = strings_seq(parts@);
    let mut r = String::new();
    let mut i: usize = 0;
    while i < parts.len()
        invariant
            i <= parts.len(),
            ps == strings_seq(parts@),
            r@ == joined(ps.take(i as int), sep@),
        decreases parts.len() - i,
    {
        let ghost before = r@;
        if i > 0 {
            push_str(&mut r, sep);
        }
        push_str(&mut r, parts[i].as_str());
        proof {
            assert(ps.take(i + 1).drop_last() =~= ps.take(i as int));
            assert(ps.take(i + 1).last() == parts@[i as int]@);
            if i == 0 {
                assert(ps.take(1) =~= seq![parts@[0]@]);
                assert(r@ =~= parts@[0]@);
            } else {
                assert(r@ =~= joined(ps.take(i as int), sep@) + sep@ + parts@[i as int]@);
            }
        }
        i = i + 1;
    }
    assert(ps.take(ps.len() as int) =~= ps);
    r
}

/// The byte length of a text in UTF-8 (what `str::len` answers).
pub open spec fn byte_len(s: Seq<char>) -> usize {
    vstd::utf8::encode_utf8(s).len() as usize
}

/// A text cut to at most `max` characters, or `*No content*` when it is empty, as the log
/// embeds show message contents.
pub open spec fn shown_content(s: Seq<char>, max: nat) -> Seq<char> {
    if s.len() == 0 {
        "*No content*"@
    } else if s.len() > max {
        s.take(max as int)
    } else {
        s
    }
}

pub fn show_content(s: &String, max: usize) -> (r: String)
    ensures
        r@ == shown_content(s@, max as nat),
{
    let v = chars_of(s.as_str());
    if v.len() == 0 {
        return owned("*No content*");
    }
    if v.len() <= max {
        return copy_string(s);
    }
    let mut r = String::new();
    let mut i: usize = 0;
    while i < max
        invariant
            i <= max < v.len(),
            r@ == v@.take(i as int),
        decreases max - i,
    {
        push_char(&mut r, v[i]);
        i = i + 1;
        assert(r@ =~= v@.take(i as int));
    }
    r
}

/// Whole seconds since the epoch of a millisecond timestamp, rounded down
/// (`DateTime::timestamp`).
pub open spec fn unix_secs(ms: int) -> int {
    ms / 1000
}

pub fn secs_of(ms: i64) -> (r: i64)
    ensures
        r == unix_secs(ms as int),
{
    let q = ms / 1000;
    if ms % 1000 < 0 {
        q - 1
    } else {
        q
    }
}

/// Appends the decimal digits of a `u128`.
pub fn push_u128(s: &mut String, n: u128)
    ensures
        final(s)@ == old(s)@ + decimal(n as nat),
    decreases n,
{
    if n < 10 {
        push_decimal(s, n as u64);
    } else {
        push_u128(s, n / 10);
        push_decimal(s, (n % 10) as u64);
        assert(decimal((n % 10) as nat) == seq![digit_char((n % 10) as nat)]);
    }
}

// ---------------------------------------------------------------------------
// Ordering of texts
// ---------------------------------------------------------------------------

/// Whether `a` sorts before `b` (`str`'s `<`: character by character, a proper prefix
/// first).
pub open spec fn seq_lt(a: Seq<char>, b: Seq<char>) -> bool
    decreases a.len(),
{
    if a.len() == 0 {
        b.len() > 0
    } else if b.len() == 0 {
        false
    } else if (a[0] as u32) < (b[0] as u32) {
        true
    } else if (a[0] as u32) > (b[0] as u32) {
        false
    } else {
        seq_lt(a.drop_first(), b.drop_first())
    }
}

/// Compares two texts.
pub fn str_lt(a: &str, b: &str) -> (r: bool)
    ensures
        r == seq_lt(a@, b@),
{
    let va = chars_of(a);
    let vb = chars_of(b);
    let mut i: usize = 0;
    assert(va@.skip(0) =~= va@);
    assert(vb@.skip(0) =~= vb@);
    while i < va.len() && i < vb.len() && (va[i] as u32) == (vb[i] as u32)
        invariant
            i <= va.len(),
            i <= vb.len(),
            seq_lt(va@, vb@) == seq_lt(va@.skip(i as int), vb@.skip(i as int)),
        decreases va.len() - i,
    {
        assert(va@.skip(i as int).drop_first() =~= va@.skip(i + 1));
        assert(vb@.skip(i as int).drop_first() =~= vb@.skip(i + 1));
        assert(va@.skip(i as int)[0] == va@[i as int]);
        assert(vb@.skip(i as int)[0] == vb@[i as int]);
        i = i + 1;
    }
    if i == va.len() {
        assert(va@.skip(i as int).len() == 0);
        i < vb.len()
    } else if i == vb.len() {
        assert(vb@.skip(i as int).len() == 0);
        false
    } else {
        assert(va@.skip(i as int)[0] == va@[i as int]);
        assert(vb@.skip(i as int)[0] == vb@[i as int]);
        (va[i] as u32) < (vb[i] as u32)
    }
}

/// Where `x` goes in a list ordered by `lt`: after every element not after it.
pub open spec fn lt_pos<T>(s: Seq<T>, x: T, lt: spec_fn(T, T) -> bool) -> int
    decreases s.len(),
{
    if s.len() == 0 {
        0
    } else if lt(x, s[0]) {
        0
    } else {
        1 + lt_pos(s.drop_first(), x, lt)
    }
}

/// `s` ordered by `lt`, elements that are not ordered against each other keeping their
/// order.
pub open spec fn sorted_lt<T>(s: Seq<T>, lt: spec_fn(T, T) -> bool) -> Seq<T>
    decreases s.len(),
{
    if s.len() == 0 {
        s
    } else {
        let t = sorted_lt(s.drop_last(), lt);
        t.insert(lt_pos(t, s.last(), lt), s.last())
    }
}

} // verus!
