//! Token-aware selection of the conversation context sent with a question: the most
//! recent messages always, then the most relevant older ones that fit the budget, all in
//! chronological order.
use crate::ai::{messages_view, AiMessage, MessageView};
use crate::github::{after_pos, sorted_by_key, strings_view};
use crate::text::{byte_len, copy_string, lowercase, owned, push_str, seq_contains, str_contains, str_eq, to_lowercase};
use vstd::prelude::*;
use vstd::string::*;

verus! {

// ---------------------------------------------------------------------------
// Messages
// ---------------------------------------------------------------------------

/// A message of the conversation, with what the selection looks at.
#[derive(Debug)]
pub struct ContextMessage {
    /// `user`, `assistant` or `system`.
    pub role: String,
    pub content: String,
    /// Seconds since the epoch; orders the conversation.
    pub timestamp: u64,
    /// Display name of the author of a user message.
    pub author_name: String,
}

pub struct ContextView {
    pub role: Seq<char>,
    pub content: Seq<char>,
    pub timestamp: u64,
    pub author_name: Seq<char>,
}

impl View for ContextMessage {
    type V = ContextView;

    open spec fn view(&self) -> ContextView {
        ContextView {
            role: self.role@,
            content: self.content@,
            timestamp: self.timestamp,
            author_name: self.author_name@,
        }
    }
}

pub open spec fn contexts_view(v: Seq<ContextMessage>) -> Seq<ContextView> {
    v.map_values(|m: ContextMessage| m@)
}

/// The message sent to the provider: a user message is prefixed with its author's name.
pub open spec fn ai_view(m: ContextView) -> MessageView {
    MessageView {
        role: m.role,
        content: if m.role == "user"@ && m.author_name.len() > 0 {
            m.author_name + ": "@ + m.content
        } else {
            m.content
        },
    }
}

pub open spec fn ai_view_fn() -> spec_fn(ContextView) -> MessageView {
    |m: ContextView| ai_view(m)
}

impl ContextMessage {
    pub fn new(role: String, content: String, timestamp: u64, author_name: String) -> (m: ContextMessage)
        ensures
            m@ == (ContextView { role: role@, content: content@, timestamp, author_name: author_name@ }),
    {
        ContextMessage { role, content, timestamp, author_name }
    }

    /// A copy of the message.
    pub fn copy(&self) -> (m: ContextMessage)
        ensures
            m@ == self@,
    {
        ContextMessage {
            role: copy_string(&self.role),
            content: copy_string(&self.content),
            timestamp: self.timestamp,
            author_name: copy_string(&self.author_name),
        }
    }

    /// The message as sent to the provider.
    pub fn to_ai_message(&self) -> (r: AiMessage)
        ensures
            r@ == ai_view(self@),
    {
        let content = if str_eq(self.role.as_str(), "user") && self.author_name.as_str().unicode_len() > 0 {
            let mut c = copy_string(&self.author_name);
            push_str(&mut c, ": ");
            push_str(&mut c, self.content.as_str());
            c
        } else {
            copy_string(&self.content)
        };
        AiMessage { role: copy_string(&self.role), content }
    }
}

// ---------------------------------------------------------------------------
// Tokens and relevance
// ---------------------------------------------------------------------------

/// About four bytes per token, rounded up.
pub open spec fn tokens_for(bytes: int) -> int {
    (bytes + 3) / 4
}

/// Estimated tokens of a text: its UTF-8 length divided by four, rounded up.
pub fn estimate_tokens(text: &str) -> (r: usize)
    ensures
        r as int == tokens_for(text.len() as int),
{
    let n = text.len();
    let q = n / 4;
    if n % 4 == 0 {
        q
    } else {
        q + 1
    }
}

pub open spec fn msg_tokens(m: ContextView) -> int {
    tokens_for(byte_len(m.content) as int)
}

fn message_tokens(m: &ContextMessage) -> (r: usize)
    ensures
        r as int == msg_tokens(m@),
        r <= 0x4000_0000_0000_0000,
{
    let text = m.content.as_str();
    let r = estimate_tokens(text);
    r
}

/// How many keywords occur in a lower-cased text, each lower-cased.
pub open spec fn keyword_hits(lower: Seq<char>, keywords: Seq<Seq<char>>) -> nat
    decreases keywords.len(),
{
    if keywords.len() == 0 {
        0
    } else {
        keyword_hits(lower, keywords.drop_last()) + if seq_contains(lower, lowercase(keywords.last())) {
            1nat
        } else {
            0nat
        }
    }
}

/// The relevance of a message on a scale of 0 to 5: its keyword hits, capped at five.
/// (Divided by five, this is the score between 0 and 1.)
pub open spec fn relevance(content: Seq<char>, keywords: Seq<Seq<char>>) -> nat {
    let h = keyword_hits(lowercase(content), keywords);
    if h > 5 {
        5
    } else {
        h
    }
}

/// The number of keywords found in a message, case-insensitively.
pub fn keyword_matches(msg: &ContextMessage, keywords: &Vec<String>) -> (r: usize)
    ensures
        r == keyword_hits(lowercase(msg.content@), strings_view(keywords@)),
{
    let lower = to_lowercase(msg.content.as_str());
    let ghost ks = strings_view(keywords@);
    let mut count: usize = 0;
    let mut i: usize = 0;
    while i < keywords.len()
        invariant
            i <= keywords.len(),
            ks == strings_view(keywords@),
            lower@ == lowercase(msg.content@),
            count == keyword_hits(lower@, ks.take(i as int)),
            count <= i,
        decreases keywords.len() - i,
    {
        assert(ks.take(i + 1).drop_last() =~= ks.take(i as int));
        assert(ks.take(i + 1).last() == keywords@[i as int]@);
        let k = to_lowercase(keywords[i].as_str());
        if str_contains(lower.as_str(), k.as_str()) {
            count = count + 1;
        }
        i = i + 1;
    }
    assert(ks.take(ks.len() as int) =~= ks);
    count
}

/// The relevance of a message, 0 to 5 (keyword hits capped at five).
pub fn relevance_level(msg: &ContextMessage, keywords: &Vec<String>) -> (r: usize)
    ensures
        r == relevance(msg.content@, strings_view(keywords@)),
{
    let h = keyword_matches(msg, keywords);
    if h > 5 {
        5
    } else {
        h
    }
}

// ---------------------------------------------------------------------------
// Selection
// ---------------------------------------------------------------------------

pub open spec fn timestamp_key() -> spec_fn(ContextView) -> int {
    |m: ContextView| m.timestamp as int
}

/// Positions `0..n`.
pub open spec fn positions(n: nat) -> Seq<usize> {
    Seq::new(n, |i: int| i as usize)
}

/// Orders candidate positions by relevance, most relevant first.
pub open spec fn relevance_key(cands: Seq<ContextView>, keywords: Seq<Seq<char>>) -> spec_fn(usize) -> int {
    |i: usize| -(relevance(cands[i as int].content, keywords) as int)
}

pub open spec fn tokens_sum(ms: Seq<ContextView>) -> int
    decreases ms.len(),
{
    if ms.len() == 0 {
        0
    } else {
        tokens_sum(ms.drop_last()) + msg_tokens(ms.last())
    }
}

/// The candidates taken, in the given order, while the budget lasts: each one that
/// still fits is taken, and taking stops once the budget is used up.
pub open spec fn greedy(order: Seq<usize>, cands: Seq<ContextView>, used: int, max: int) -> Set<usize>
    decreases order.len(),
{
    if order.len() == 0 || used >= max {
        Set::empty()
    } else {
        let i = order[0];
        let t = msg_tokens(cands[i as int]);
        if used + t <= max {
            greedy(order.drop_first(), cands, used + t, max).insert(i)
        } else {
            greedy(order.drop_first(), cands, used, max)
        }
    }
}

/// The candidates whose positions were taken, in order, as provider messages.
pub open spec fn picked(cands: Seq<ContextView>, taken: Set<usize>) -> Seq<MessageView>
    decreases cands.len(),
{
    if cands.len() == 0 {
        Seq::empty()
    } else {
        let r = picked(cands.drop_last(), taken);
        if taken.contains((cands.len() - 1) as usize) {
            r.push(ai_view(cands.last()))
        } else {
            r
        }
    }
}

/// What `select` returns: messages ordered by time; the last `keep` always; if they alone
/// reach the budget, only they; else the older messages most relevant first, each taken
/// while it fits the budget, then everything in chronological order.
pub open spec fn selection(max_tokens: usize, keep: usize, keywords: Seq<Seq<char>>, msgs: Seq<ContextView>) -> Seq<MessageView> {
    let sorted = sorted_by_key(msgs, timestamp_key());
    let split: int = if sorted.len() > keep { sorted.len() - keep } else { 0 };
    let cands = sorted.take(split);
    let must = sorted.skip(split);
    let used = tokens_sum(must);
    if used >= max_tokens {
        must.map_values(ai_view_fn())
    } else {
        let order = sorted_by_key(positions(split as nat), relevance_key(cands, keywords));
        picked(cands, greedy(order, cands, used, max_tokens as int)) + must.map_values(ai_view_fn())
    }
}

/// Tokens of the candidates whose positions (below `k`) are in `taken`.
pub open spec fn taken_tokens(cands: Seq<ContextView>, taken: Set<usize>, k: int) -> int
    decreases k,
{
    if k <= 0 {
        0
    } else {
        taken_tokens(cands, taken, k - 1) + if taken.contains((k - 1) as usize) { msg_tokens(cands[k - 1]) } else { 0 }
    }
}

proof fn lemma_taken_tokens_empty(cands: Seq<ContextView>, k: int)
    ensures
        taken_tokens(cands, Set::empty(), k) == 0,
    decreases k,
{
    if k > 0 {
        lemma_taken_tokens_empty(cands, k - 1);
    }
}

proof fn lemma_taken_tokens_insert(cands: Seq<ContextView>, taken: Set<usize>, i: usize, k: int)
    requires
        !taken.contains(i),
        i < k <= usize::MAX as int + 1,
    ensures
        taken_tokens(cands, taken.insert(i), k) == taken_tokens(cands, taken, k) + msg_tokens(cands[i as int]),
    decreases k,
{
    let last: usize = (k - 1) as usize;
    assert(last as int == k - 1);
    if k - 1 > i {
        lemma_taken_tokens_insert(cands, taken, i, k - 1);
        assert(last != i);
    } else {
        assert(last == i);
        lemma_taken_tokens_same(cands, taken, i, k - 1);
    }
}

proof fn lemma_taken_tokens_same(cands: Seq<ContextView>, taken: Set<usize>, i: usize, k: int)
    requires
        k <= i,
    ensures
        taken_tokens(cands, taken.insert(i), k) == taken_tokens(cands, taken, k),
    decreases k,
{
    if k > 0 {
        lemma_taken_tokens_same(cands, taken, i, k - 1);
        let last: usize = (k - 1) as usize;
        assert(last as int == k - 1);
        assert(last != i);
    }
}

/// The greedy pass stays within the budget: what it takes, added to what was already
/// used, is at most `max` (when anything was left), and it takes only positions it was given.
proof fn lemma_greedy_budget(order: Seq<usize>, cands: Seq<ContextView>, used: int, max: int)
    requires
        order.no_duplicates(),
        cands.len() <= usize::MAX,
        forall|j: int| 0 <= j < order.len() ==> (#[trigger] order[j]) < cands.len(),
    ensures
        forall|x: usize| greedy(order, cands, used, max).contains(x) ==> order.contains(x),
        used < max ==> taken_tokens(cands, greedy(order, cands, used, max), cands.len() as int) + used <= max,
        used >= max ==> taken_tokens(cands, greedy(order, cands, used, max), cands.len() as int) == 0,
    decreases order.len(),
{
    if order.len() == 0 || used >= max {
        lemma_taken_tokens_empty(cands, cands.len() as int);
    } else {
        let i = order[0];
        let t = msg_tokens(cands[i as int]);
        let rest = order.drop_first();
        assert forall|j: int| 0 <= j < rest.len() implies (#[trigger] rest[j]) < cands.len() by {
            assert(rest[j] == order[j + 1]);
        }
        assert(rest.no_duplicates()) by {
            assert forall|a: int, b: int| 0 <= a < rest.len() && 0 <= b < rest.len() && a != b implies rest[a] != rest[b] by {
                assert(rest[a] == order[a + 1] && rest[b] == order[b + 1]);
            }
        }
        if used + t <= max {
            lemma_greedy_budget(rest, cands, used + t, max);
            let g = greedy(rest, cands, used + t, max);
            assert(!g.contains(i)) by {
                if g.contains(i) {
                    assert(rest.contains(i));
                    let j = choose|j: int| 0 <= j < rest.len() && rest[j] == i;
                    assert(rest[j] == order[j + 1]);
                    assert(order[j + 1] == order[0]);
                }
            }
            lemma_taken_tokens_insert(cands, g, i, cands.len() as int);
            assert forall|x: usize| g.insert(i).contains(x) implies order.contains(x) by {
                if x == i {
                    assert(order[0] == x);
                } else {
                    assert(g.contains(x));
                    assert(rest.contains(x));
                    let j = choose|j: int| 0 <= j < rest.len() && rest[j] == x;
                    assert(rest[j] == order[j + 1]);
                }
            }
        } else {
            lemma_greedy_budget(rest, cands, used, max);
            let g = greedy(rest, cands, used, max);
            assert forall|x: usize| g.contains(x) implies order.contains(x) by {
                assert(rest.contains(x));
                let j = choose|j: int| 0 <= j < rest.len() && rest[j] == x;
                assert(rest[j] == order[j + 1]);
            }
        }
    }
}

/// Tokens of the candidates taken among the first `j` positions of `order`.
pub open spec fn tokens_taken_before(order: Seq<usize>, cands: Seq<ContextView>, g: Set<usize>, j: int) -> int
    decreases j,
{
    if j <= 0 {
        0
    } else {
        tokens_taken_before(order, cands, g, j - 1) + if g.contains(order[j - 1]) {
            msg_tokens(cands[order[j - 1] as int])
        } else {
            0
        }
    }
}

proof fn lemma_taken_before_shift(order: Seq<usize>, cands: Seq<ContextView>, g: Set<usize>, g2: Set<usize>, j: int)
    requires
        1 <= j <= order.len(),
        forall|k: int| 1 <= k < j ==> (g.contains(#[trigger] order[k]) <==> g2.contains(order[k])),
    ensures
        tokens_taken_before(order, cands, g, j) == (if g.contains(order[0]) {
            msg_tokens(cands[order[0] as int])
        } else {
            0
        }) + tokens_taken_before(order.drop_first(), cands, g2, j - 1),
    decreases j,
{
    let rest = order.drop_first();
    if j > 1 {
        lemma_taken_before_shift(order, cands, g, g2, j - 1);
        assert(rest[j - 2] == order[j - 1]);
        assert(g.contains(order[j - 1]) <==> g2.contains(order[j - 1]));
        assert(tokens_taken_before(rest, cands, g2, j - 1) == tokens_taken_before(rest, cands, g2, j - 2) + if g2.contains(
            rest[j - 2],
        ) {
            msg_tokens(cands[rest[j - 2] as int])
        } else {
            0
        });
    } else {
        assert(tokens_taken_before(order, cands, g, 0) == 0);
        assert(tokens_taken_before(rest, cands, g2, 0) == 0);
    }
}

/// The greedy fill skips only what does not fit: going through the candidates in order,
/// each one is taken exactly when its tokens, added to those already used and those of
/// the candidates taken before it, stay within the budget while budget is left. A
/// candidate that does not fit is skipped and the fill goes on with the next one.
pub proof fn lemma_greedy_fills_what_fits(order: Seq<usize>, cands: Seq<ContextView>, used: int, max: int)
    requires
        order.no_duplicates(),
        cands.len() <= usize::MAX,
        forall|j: int| 0 <= j < order.len() ==> (#[trigger] order[j]) < cands.len(),
    ensures
        forall|j: int|
            0 <= j < order.len() ==> {
                let before = used + tokens_taken_before(order, cands, greedy(order, cands, used, max), j);
                (greedy(order, cands, used, max).contains(#[trigger] order[j]) <==> (before < max && before
                    + msg_tokens(cands[order[j] as int]) <= max))
            },
    decreases order.len(),
{
    let g = greedy(order, cands, used, max);
    lemma_greedy_budget(order, cands, used, max);
    if order.len() == 0 {
    } else if used >= max {
        assert forall|j: int| 0 <= j < order.len() implies tokens_taken_before(order, cands, g, j) == 0 by {
            lemma_taken_before_empty(order, cands, j);
        }
    } else {
        let i = order[0];
        let t = msg_tokens(cands[i as int]);
        let rest = order.drop_first();
        assert forall|j: int| 0 <= j < rest.len() implies (#[trigger] rest[j]) < cands.len() by {
            assert(rest[j] == order[j + 1]);
        }
        assert(rest.no_duplicates()) by {
            assert forall|a: int, b: int| 0 <= a < rest.len() && 0 <= b < rest.len() && a != b implies rest[a] != rest[b] by {
                assert(rest[a] == order[a + 1] && rest[b] == order[b + 1]);
            }
        }
        let used2 = if used + t <= max { used + t } else { used };
        let g2 = greedy(rest, cands, used2, max);
        lemma_greedy_fills_what_fits(rest, cands, used2, max);
        lemma_greedy_budget(rest, cands, used2, max);
        assert(!g2.contains(i)) by {
            if g2.contains(i) {
                assert(rest.contains(i));
                let j = choose|j: int| 0 <= j < rest.len() && rest[j] == i;
                assert(rest[j] == order[j + 1]);
            }
        }
        assert(g == if used + t <= max { g2.insert(i) } else { g2 });
        assert forall|k: int| 1 <= k < order.len() implies (g.contains(#[trigger] order[k]) <==> g2.contains(order[k])) by {
            assert(order[k] != order[0]);
        }
        assert forall|j: int| 0 <= j < order.len() implies {
            let before = used + tokens_taken_before(order, cands, g, j);
            (g.contains(#[trigger] order[j]) <==> (before < max && before + msg_tokens(cands[order[j] as int]) <= max))
        } by {
            if j == 0 {
                assert(tokens_taken_before(order, cands, g, 0) == 0);
            } else {
                lemma_taken_before_shift(order, cands, g, g2, j);
                assert(rest[j - 1] == order[j]);
                assert(g.contains(order[j]) <==> g2.contains(rest[j - 1]));
            }
        }
    }
}

proof fn lemma_taken_before_empty(order: Seq<usize>, cands: Seq<ContextView>, j: int)
    ensures
        tokens_taken_before(order, cands, Set::empty(), j) == 0,
    decreases j,
{
    if j > 0 {
        lemma_taken_before_empty(order, cands, j - 1);
    }
}

/// The context sent keeps to the token budget and always ends with the latest messages:
/// the last `keep` messages by time (all of them when there are fewer) come last, in
/// order; older messages are added only while their tokens, together with those of the
/// latest ones, stay within `max_tokens`.
pub proof fn lemma_selection_laws(max_tokens: usize, keep: usize, keywords: Seq<Seq<char>>, msgs: Seq<ContextView>)
    requires
        msgs.len() <= usize::MAX,
    ensures
        ({
            let sorted = sorted_by_key(msgs, timestamp_key());
            let split: int = if sorted.len() > keep { sorted.len() - keep } else { 0 };
            let must = sorted.skip(split);
            let sel = selection(max_tokens, keep, keywords, msgs);
            let cands = sorted.take(split);
            let order = sorted_by_key(positions(split as nat), relevance_key(cands, keywords));
            &&& sorted.len() == msgs.len()
            &&& sel.len() >= must.len()
            &&& sel.subrange(sel.len() - must.len(), sel.len() as int) == must.map_values(ai_view_fn())
            &&& tokens_sum(must) < max_tokens ==> taken_tokens(
                cands,
                greedy(order, cands, tokens_sum(must), max_tokens as int),
                split,
            ) + tokens_sum(must) <= max_tokens
        }),
{
    broadcast use vstd::multiset::group_multiset_axioms, vstd::seq_lib::group_to_multiset_ensures;

    let sorted = sorted_by_key(msgs, timestamp_key());
    crate::github::lemma_sorted_by_key_ascending(msgs, timestamp_key());
    let split: int = if sorted.len() > keep { sorted.len() - keep } else { 0 };
    let must = sorted.skip(split);
    let sel = selection(max_tokens, keep, keywords, msgs);
    let cands = sorted.take(split);
    let used = tokens_sum(must);
    let ps = positions(split as nat);
    let order = sorted_by_key(ps, relevance_key(cands, keywords));
    if used >= max_tokens {
        assert(sel.subrange(sel.len() - must.len(), sel.len() as int) =~= must.map_values(ai_view_fn()));
    } else {
        let front = picked(cands, greedy(order, cands, used, max_tokens as int));
        assert(sel == front + must.map_values(ai_view_fn()));
        assert(sel.subrange(sel.len() - must.len(), sel.len() as int) =~= must.map_values(ai_view_fn()));
        assert(ps.no_duplicates()) by {
            assert forall|a: int, b: int| 0 <= a < ps.len() && 0 <= b < ps.len() && a != b implies ps[a] != ps[b] by {
                assert(ps[a] as int == a && ps[b] as int == b);
            }
        }
        crate::github::lemma_sorted_by_key_permutation(ps, relevance_key(cands, keywords));
        ps.lemma_multiset_has_no_duplicates();
        assert forall|x: usize| order.to_multiset().contains(x) implies order.to_multiset().count(x) == 1 by {}
        order.lemma_multiset_has_no_duplicates_conv();
        assert forall|j: int| 0 <= j < order.len() implies (#[trigger] order[j]) < cands.len() by {
            assert(order.contains(order[j]));
            assert(order.to_multiset().count(order[j]) > 0);
            assert(ps.contains(order[j]));
            let m = choose|m: int| 0 <= m < ps.len() && ps[m] == order[j];
            assert(ps[m] as int == m);
        }
        lemma_greedy_budget(order, cands, used, max_tokens as int);
    }
}

/// Settings of the context selection.
#[derive(Debug)]
pub struct ContextSelector {
    /// The token budget.
    pub max_tokens: usize,
    /// How many of the latest messages are always kept.
    pub always_keep_recent: usize,
    /// Words that make an older message relevant.
    pub keywords: Vec<String>,
}

/// Words about the project that make a message relevant.
pub open spec fn default_keywords() -> Seq<Seq<char>> {
    seq![
        "fiefdom"@, "greybeard"@, "project"@, "game"@, "dev"@, "development"@, "bug"@, "feature"@,
        "help"@, "issue"@, "error"@, "problem"@, "build"@, "release"@, "update"@, "changelog"@,
        "roadmap"@, "story"@, "character"@, "quest"@, "gameplay"@, "mechanic"@, "art"@, "sound"@,
        "music"@, "design"@, "programming"@, "team"@, "studio"@, "apply"@, "join"@, "contribute"@,
    ]
}

fn default_keyword_list() -> (r: Vec<String>)
    ensures
        strings_view(r@) == default_keywords(),
{
    let words: [&str; 32] = [
        "fiefdom", "greybeard", "project", "game", "dev", "development", "bug", "feature", "help",
        "issue", "error", "problem", "build", "release", "update", "changelog", "roadmap", "story",
        "character", "quest", "gameplay", "mechanic", "art", "sound", "music", "design",
        "programming", "team", "studio", "apply", "join", "contribute",
    ];
    let ghost expected = default_keywords();
    assert(words@.len() == 32);
    assert forall|i: int| 0 <= i < 32 implies #[trigger] words@[i]@ == expected[i] by {}
    let mut r: Vec<String> = Vec::new();
    let mut i: usize = 0;
    while i < 32
        invariant
            i <= 32,
            words@.len() == 32,
            expected == default_keywords(),
            forall|j: int| 0 <= j < 32 ==> #[trigger] words@[j]@ == expected[j],
            strings_view(r@) == expected.take(i as int),
        decreases 32 - i,
    {
        let ghost before = r@;
        r.push(owned(words[i]));
        assert(strings_view(r@) =~= strings_view(before).push(expected[i as int]));
        i = i + 1;
        assert(strings_view(r@) =~= expected.take(i as int));
    }
    assert(expected.take(32) =~= expected);
    r
}

impl Default for ContextSelector {
    /// A budget of 8000 tokens, the last five messages always kept, the project keywords.
    fn default() -> (s: ContextSelector)
        ensures
            s.max_tokens == 8000,
            s.always_keep_recent == 5,
            strings_view(s.keywords@) == default_keywords(),
    {
        ContextSelector { max_tokens: 8000, always_keep_recent: 5, keywords: default_keyword_list() }
    }
}

impl ContextSelector {
    /// A selector with the given budget and the default settings otherwise.
    pub fn new(max_tokens: usize) -> (s: ContextSelector)
        ensures
            s.max_tokens == max_tokens,
            s.always_keep_recent == 5,
            strings_view(s.keywords@) == default_keywords(),
    {
        ContextSelector { max_tokens, always_keep_recent: 5, keywords: default_keyword_list() }
    }

    /// A selector with the given budget and keywords.
    pub fn with_keywords(max_tokens: usize, keywords: Vec<String>) -> (s: ContextSelector)
        ensures
            s.max_tokens == max_tokens,
            s.always_keep_recent == 5,
            s.keywords@ == keywords@,
    {
        ContextSelector { max_tokens, always_keep_recent: 5, keywords }
    }

    /// Selects the context within the token budget (see `selection`).
    pub fn select(&self, messages: Vec<ContextMessage>) -> (r: Vec<AiMessage>)
        ensures
            messages_view(r@) == selection(self.max_tokens, self.always_keep_recent, strings_view(self.keywords@), contexts_view(messages@)),
    {
        let ghost kws = strings_view(self.keywords@);
        let ghost msgs = contexts_view(messages@);
        let sorted = sort_by_time(&messages);
        let ghost sv = contexts_view(sorted@);
        let total = sorted.len();
        let split: usize = if total > self.always_keep_recent { total - self.always_keep_recent } else { 0 };
        let ghost cands = sv.take(split as int);
        let ghost must = sv.skip(split as int);
        let mut used: u128 = 0;
        let mut i: usize = split;
        assert(must.take(0) =~= Seq::<ContextView>::empty());
        if self.max_tokens == 0 {
            proof {
                lemma_tokens_sum_prefix(must, 0);
            }
            return all_to_ai(&sorted, split);
        }
        while i < total
            invariant
                split <= i <= total,
                total == sorted.len(),
                sv == contexts_view(sorted@),
                msgs == contexts_view(messages@),
                sv == sorted_by_key(msgs, timestamp_key()),
                split == (if total > self.always_keep_recent { total - self.always_keep_recent } else { 0 }),
                must == sv.skip(split as int),
                used == tokens_sum(must.take(i - split)),
                used < self.max_tokens,
            decreases total - i,
        {
            assert(must.take(i - split + 1).drop_last() =~= must.take(i - split));
            assert(must.take(i - split + 1).last() == sorted@[i as int]@);
            let t = message_tokens(&sorted[i]);
            used = used + t as u128;
            i = i + 1;
            if used >= self.max_tokens as u128 {
                proof {
                    lemma_tokens_sum_prefix(must, i - split);
                }
                let r = all_to_ai(&sorted, split);
                return r;
            }
        }
        assert(must.take(total - split) =~= must);
        let order = order_by_relevance(&sorted, split, &self.keywords);
        let taken = take_greedily(&sorted, split, &order, used, self.max_tokens);
        let ghost set = greedy(order@, cands, used as int, self.max_tokens as int);
        let mut r = picked_to_ai(&sorted, split, &taken, Ghost(set));
        let tail = all_to_ai(&sorted, split);
        let ghost head = messages_view(r@);
        let mut k: usize = 0;
        while k < tail.len()
            invariant
                k <= tail.len(),
                messages_view(r@) == head + messages_view(tail@).take(k as int),
            decreases tail.len() - k,
        {
            let ghost before = r@;
            r.push(tail[k].copy());
            assert(messages_view(r@) =~= messages_view(before).push(tail@[k as int]@));
            assert(messages_view(tail@).take(k + 1) =~= messages_view(tail@).take(k as int).push(tail@[k as int]@));
            k = k + 1;
        }
        assert(messages_view(tail@).take(tail@.len() as int) =~= messages_view(tail@));
        r
    }
}

/// Selects context within a token budget with the default settings.
pub fn select_context(messages: Vec<ContextMessage>, max_tokens: usize) -> (r: Vec<AiMessage>)
    ensures
        messages_view(r@) == selection(max_tokens, 5, default_keywords(), contexts_view(messages@)),
{
    let selector = ContextSelector::new(max_tokens);
    selector.select(messages)
}

proof fn lemma_tokens_sum_prefix(ms: Seq<ContextView>, k: int)
    requires
        0 <= k <= ms.len(),
    ensures
        tokens_sum(ms.take(k)) <= tokens_sum(ms),
    decreases ms.len() - k,
{
    if k < ms.len() {
        lemma_tokens_sum_prefix(ms, k + 1);
        assert(ms.take(k + 1).drop_last() =~= ms.take(k));
    } else {
        assert(ms.take(k) =~= ms);
    }
}

fn insert_by_time(sorted: &mut Vec<ContextMessage>, x: ContextMessage)
    ensures
        contexts_view(final(sorted)@) == contexts_view(old(sorted)@).insert(
            after_pos(contexts_view(old(sorted)@), x@, timestamp_key()),
            x@,
        ),
{
    let ghost s = contexts_view(sorted@);
    let ghost xv = x@;
    let mut k: usize = 0;
    assert(s.skip(0) =~= s);
    while k < sorted.len() && sorted[k].timestamp <= x.timestamp
        invariant
            k <= sorted.len(),
            s == contexts_view(sorted@),
            xv == x@,
            after_pos(s, xv, timestamp_key()) == k + after_pos(s.skip(k as int), xv, timestamp_key()),
        decreases sorted.len() - k,
    {
        assert(s.skip(k as int)[0] == sorted@[k as int]@);
        assert(s.skip(k as int).drop_first() =~= s.skip(k + 1));
        k = k + 1;
    }
    proof {
        if k < sorted.len() {
            assert(s.skip(k as int)[0] == sorted@[k as int]@);
        }
    }
    sorted.insert(k, x);
    assert(contexts_view(sorted@) =~= s.insert(k as int, xv));
}

fn sort_by_time(messages: &Vec<ContextMessage>) -> (r: Vec<ContextMessage>)
    ensures
        contexts_view(r@) == sorted_by_key(contexts_view(messages@), timestamp_key()),
{
    let ghost s = contexts_view(messages@);
    let mut r: Vec<ContextMessage> = Vec::new();
    let mut i: usize = 0;
    assert(contexts_view(r@) =~= sorted_by_key(s.take(0), timestamp_key()));
    while i < messages.len()
        invariant
            i <= messages.len(),
            s == contexts_view(messages@),
            contexts_view(r@) == sorted_by_key(s.take(i as int), timestamp_key()),
        decreases messages.len() - i,
    {
        assert(s.take(i + 1).drop_last() =~= s.take(i as int));
        assert(s.take(i + 1).last() == messages@[i as int]@);
        insert_by_time(&mut r, messages[i].copy());
        i = i + 1;
    }
    assert(s.take(s.len() as int) =~= s);
    r
}

fn all_to_ai(sorted: &Vec<ContextMessage>, from: usize) -> (r: Vec<AiMessage>)
    requires
        from <= sorted.len(),
    ensures
        messages_view(r@) == contexts_view(sorted@).skip(from as int).map_values(ai_view_fn()),
{
    let ghost tail = contexts_view(sorted@).skip(from as int);
    let mut r: Vec<AiMessage> = Vec::new();
    let mut i: usize = from;
    while i < sorted.len()
        invariant
            from <= i <= sorted.len(),
            tail == contexts_view(sorted@).skip(from as int),
            messages_view(r@) == tail.take(i - from).map_values(ai_view_fn()),
        decreases sorted.len() - i,
    {
        let ghost before = r@;
        r.push(sorted[i].to_ai_message());
        assert(tail[i - from] == sorted@[i as int]@);
        assert(tail.take(i - from + 1) =~= tail.take(i - from).push(tail[i - from]));
        assert(messages_view(r@) =~= messages_view(before).push(ai_view(tail[i - from])));
        assert(tail.take(i - from + 1).map_values(ai_view_fn()) =~= tail.take(i - from).map_values(ai_view_fn()).push(
            ai_view(tail[i - from]),
        ));
        i = i + 1;
    }
    assert(tail.take(sorted.len() - from) =~= tail);
    r
}

fn insert_by_relevance(order: &mut Vec<usize>, x: usize, levels: &Vec<usize>, Ghost(key): Ghost<spec_fn(usize) -> int>)
    requires
        x < levels.len(),
        forall|j: usize| j < levels.len() ==> key(j) == -(levels@[j as int] as int),
        forall|j: int| 0 <= j < old(order)@.len() ==> old(order)@[j] < levels.len(),
    ensures
        final(order)@ == old(order)@.insert(after_pos(old(order)@, x, key), x),
        forall|j: int| 0 <= j < final(order)@.len() ==> final(order)@[j] < levels.len(),
{
    let ghost s = order@;
    let mut k: usize = 0;
    assert(s.skip(0) =~= s);
    while k < order.len() && levels[order[k]] >= levels[x]
        invariant
            k <= order.len(),
            s == order@,
            x < levels.len(),
            forall|j: usize| j < levels.len() ==> key(j) == -(levels@[j as int] as int),
            forall|j: int| 0 <= j < order@.len() ==> order@[j] < levels.len(),
            after_pos(s, x, key) == k + after_pos(s.skip(k as int), x, key),
        decreases order.len() - k,
    {
        assert(s.skip(k as int)[0] == order@[k as int]);
        assert(s.skip(k as int).drop_first() =~= s.skip(k + 1));
        k = k + 1;
    }
    proof {
        if k < order.len() {
            assert(s.skip(k as int)[0] == order@[k as int]);
        }
    }
    order.insert(k, x);
}

fn order_by_relevance(sorted: &Vec<ContextMessage>, split: usize, keywords: &Vec<String>) -> (r: Vec<usize>)
    requires
        split <= sorted.len(),
    ensures
        r@ == sorted_by_key(
            positions(split as nat),
            relevance_key(contexts_view(sorted@).take(split as int), strings_view(keywords@)),
        ),
        forall|j: int| 0 <= j < r@.len() ==> r@[j] < split,
{
    let ghost cands = contexts_view(sorted@).take(split as int);
    let ghost key = relevance_key(cands, strings_view(keywords@));
    let mut levels: Vec<usize> = Vec::new();
    let mut i: usize = 0;
    while i < split
        invariant
            i <= split <= sorted.len(),
            cands == contexts_view(sorted@).take(split as int),
            levels@.len() == i,
            forall|j: int| 0 <= j < i ==> levels@[j] == relevance(cands[j].content, strings_view(keywords@)),
        decreases split - i,
    {
        levels.push(relevance_level(&sorted[i], keywords));
        assert(cands[i as int] == sorted@[i as int]@);
        i = i + 1;
    }
    let ghost ps = positions(split as nat);
    let mut order: Vec<usize> = Vec::new();
    let mut k: usize = 0;
    assert(order@ =~= sorted_by_key(ps.take(0), key));
    while k < split
        invariant
            k <= split,
            levels@.len() == split,
            ps == positions(split as nat),
            key == relevance_key(cands, strings_view(keywords@)),
            forall|j: int| 0 <= j < split ==> levels@[j] == relevance(cands[j].content, strings_view(keywords@)),
            forall|j: int| 0 <= j < order@.len() ==> order@[j] < split,
            order@ == sorted_by_key(ps.take(k as int), key),
        decreases split - k,
    {
        assert(ps.take(k + 1).drop_last() =~= ps.take(k as int));
        assert(ps.take(k + 1).last() == k);
        assert forall|j: usize| j < levels.len() implies key(j) == -(levels@[j as int] as int) by {}
        insert_by_relevance(&mut order, k, &levels, Ghost(key));
        k = k + 1;
    }
    assert(ps.take(split as int) =~= ps);
    order
}

fn take_greedily(sorted: &Vec<ContextMessage>, split: usize, order: &Vec<usize>, used0: u128, max: usize) -> (r: Vec<bool>)
    requires
        split <= sorted.len(),
        forall|j: int| 0 <= j < order@.len() ==> order@[j] < split,
        used0 < max,
    ensures
        r@.len() == split,
        forall|j: int| 0 <= j < split ==> (r@[j] <==> greedy(order@, contexts_view(sorted@).take(split as int), used0 as int, max as int).contains(j as usize)),
{
    let ghost cands = contexts_view(sorted@).take(split as int);
    let ghost full = greedy(order@, cands, used0 as int, max as int);
    let mut flags: Vec<bool> = Vec::new();
    let mut i: usize = 0;
    while i < split
        invariant
            i <= split,
            flags@.len() == i,
            forall|j: int| 0 <= j < i ==> !flags@[j],
        decreases split - i,
    {
        flags.push(false);
        i = i + 1;
    }
    let ghost mut taken: Set<usize> = Set::empty();
    let mut used = used0;
    let mut k: usize = 0;
    assert(order@.skip(0) =~= order@);
    while k < order.len() && used < max as u128
        invariant
            k <= order.len(),
            split <= sorted.len(),
            cands == contexts_view(sorted@).take(split as int),
            full == greedy(order@, cands, used0 as int, max as int),
            forall|j: int| 0 <= j < order@.len() ==> order@[j] < split,
            flags@.len() == split,
            used <= max,
            forall|j: int| 0 <= j < split ==> (flags@[j] <==> taken.contains(j as usize)),
            taken.union(greedy(order@.skip(k as int), cands, used as int, max as int)) == full,
        decreases order.len() - k,
    {
        let idx = order[k];
        assert(order@.skip(k as int)[0] == idx);
        assert(order@.skip(k as int).drop_first() =~= order@.skip(k + 1));
        assert(cands[idx as int] == sorted@[idx as int]@);
        let t = message_tokens(&sorted[idx]);
        if used + t as u128 <= max as u128 {
            let ghost rest = greedy(order@.skip(k + 1), cands, used + t, max as int);
            proof {
                assert(taken.insert(idx).union(rest) =~= taken.union(rest.insert(idx)));
                taken = taken.insert(idx);
            }
            flags.set(idx, true);
            used = used + t as u128;
        }
        k = k + 1;
    }
    assert(greedy(order@.skip(k as int), cands, used as int, max as int) =~= Set::<usize>::empty());
    assert(taken.union(Set::<usize>::empty()) =~= taken);
    flags
}

fn picked_to_ai(sorted: &Vec<ContextMessage>, split: usize, taken: &Vec<bool>, Ghost(set): Ghost<Set<usize>>) -> (r: Vec<AiMessage>)
    requires
        split <= sorted.len(),
        taken@.len() == split,
        forall|j: int| 0 <= j < split ==> (taken@[j] <==> set.contains(j as usize)),
    ensures
        messages_view(r@) == picked(contexts_view(sorted@).take(split as int), set),
{
    let ghost cands = contexts_view(sorted@).take(split as int);
    let mut r: Vec<AiMessage> = Vec::new();
    let mut i: usize = 0;
    while i < split
        invariant
            i <= split <= sorted.len(),
            taken@.len() == split,
            cands == contexts_view(sorted@).take(split as int),
            forall|j: int| 0 <= j < split ==> (taken@[j] <==> set.contains(j as usize)),
            messages_view(r@) == picked(cands.take(i as int), set),
        decreases split - i,
    {
        let ghost before = r@;
        assert(cands.take(i + 1).drop_last() =~= cands.take(i as int));
        assert(cands.take(i + 1).last() == sorted@[i as int]@);
        assert(taken@[i as int] <==> set.contains(i));
        if taken[i] {
            r.push(sorted[i].to_ai_message());
            assert(messages_view(r@) =~= messages_view(before).push(ai_view(sorted@[i as int]@)));
        }
        i = i + 1;
    }
    assert(cands.take(split as int) =~= cands);
    r
}

} // verus!
