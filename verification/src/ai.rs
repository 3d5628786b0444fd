//! Messages exchanged with the AI provider, the answer parsing, and the citation list
//! shown under an answer.
use crate::text::{copy_string, decimal, find_chars, chars_of, first_occurrence, owned, push_decimal, push_str, string_from_chars, trim, trimmed};
use vstd::prelude::*;

verus! {

/// A chat message sent to the provider.
#[derive(Debug)]
pub struct AiMessage {
    pub role: String,
    pub content: String,
}

pub struct MessageView {
    pub role: Seq<char>,
    pub content: Seq<char>,
}

impl View for AiMessage {
    type V = MessageView;

    open spec fn view(&self) -> MessageView {
        MessageView { role: self.role@, content: self.content@ }
    }
}

pub open spec fn messages_view(v: Seq<AiMessage>) -> Seq<MessageView> {
    v.map_values(|m: AiMessage| m@)
}

impl AiMessage {
    /// A copy of the message.
    pub fn copy(&self) -> (r: AiMessage)
        ensures
            r@ == self@,
    {
        AiMessage { role: copy_string(&self.role), content: copy_string(&self.content) }
    }
}

/// What the provider answered: the content and, where the model exposes it, its thinking.
#[derive(Debug)]
pub struct AiProviderResponse {
    pub content: String,
    pub thinking: Option<String>,
}

/// The answer after parsing, with the reasoning where there is any.
#[derive(Debug)]
pub struct AiResponse {
    pub answer: String,
    pub reasoning: Option<String>,
}

/// A source the provider cited.
#[derive(Debug)]
pub struct Citation {
    pub title: Option<String>,
    pub url: String,
}

/// A chunk of stored knowledge used to ground answers.
#[derive(Debug)]
pub struct KnowledgeChunk {
    pub id: i64,
    pub category: String,
    pub content: String,
    pub keywords: Vec<String>,
    pub created_at: i64,
}

// ---------------------------------------------------------------------------
// Chat request and answer parsing
// ---------------------------------------------------------------------------

/// The messages of a chat request: the system prompt, then the context in order.
pub open spec fn chat_messages(system_prompt: Seq<char>, context: Seq<MessageView>) -> Seq<MessageView> {
    seq![MessageView { role: "system"@, content: system_prompt }] + context
}

/// Builds the messages of a chat request.
pub fn build_chat_messages(system_prompt: &str, context: &Vec<AiMessage>) -> (r: Vec<AiMessage>)
    ensures
        messages_view(r@) == chat_messages(system_prompt@, messages_view(context@)),
{
    let mut r: Vec<AiMessage> = Vec::new();
    r.push(AiMessage { role: owned("system"), content: owned(system_prompt) });
    let ghost head = messages_view(r@);
    let mut i: usize = 0;
    while i < context.len()
        invariant
            i <= context.len(),
            head == seq![MessageView { role: "system"@, content: system_prompt@ }],
            messages_view(r@) == head + messages_view(context@).take(i as int),
        decreases context.len() - i,
    {
        let ghost before = r@;
        r.push(context[i].copy());
        assert(messages_view(r@) =~= messages_view(before).push(context@[i as int]@));
        assert(messages_view(context@).take(i + 1) =~= messages_view(context@).take(i as int).push(context@[i as int]@));
        i = i + 1;
    }
    assert(messages_view(context@).take(context@.len() as int) =~= messages_view(context@));
    r
}

/// The text between the first `open` and the first `close` tag, trimmed, where the
/// first `close` comes after the first `open`.
pub open spec fn tagged(content: Seq<char>, open: Seq<char>, close: Seq<char>) -> Option<Seq<char>> {
    match (first_occurrence(content, open), first_occurrence(content, close)) {
        (Some(s), Some(e)) => if e > s {
            Some(trimmed(content.subrange(s + open.len(), e)))
        } else {
            None
        },
        _ => None,
    }
}

/// The answer of a response: the text inside `<answer>` tags where there is one, else
/// the whole content.
pub open spec fn parsed_answer(content: Seq<char>) -> Seq<char> {
    match tagged(content, "<answer>"@, "</answer>"@) {
        Some(a) => a,
        None => content,
    }
}

/// The reasoning inside `<rationale>` tags, if any.
pub open spec fn parsed_rationale(content: Seq<char>) -> Option<Seq<char>> {
    tagged(content, "<rationale>"@, "</rationale>"@)
}

fn chars_between(content: &Vec<char>, start: usize, end: usize) -> (r: Vec<char>)
    requires
        start <= end <= content.len(),
    ensures
        r@ == content@.subrange(start as int, end as int),
{
    let mut inner: Vec<char> = Vec::new();
    let mut k: usize = start;
    while k < end
        invariant
            start <= k <= end <= content.len(),
            inner@ == content@.subrange(start as int, k as int),
        decreases end - k,
    {
        inner.push(content[k]);
        k = k + 1;
        assert(inner@ =~= content@.subrange(start as int, k as int));
    }
    inner
}

/// No character of `open` after the first can start `close`, so a `close` that follows an
/// `open` cannot overlap it.
#[verifier::opaque]
spec fn closes_apart(open: Seq<char>, close: Seq<char>) -> bool {
    close.len() > 0 && forall|k: int| 1 <= k < open.len() ==> open[k] != close[0]
}

proof fn lemma_tags_apart(content: Seq<char>, open: Seq<char>, close: Seq<char>, s: int, e: int)
    requires
        crate::text::occurs_at(content, open, s),
        crate::text::occurs_at(content, close, e),
        s < e,
        closes_apart(open, close),
    ensures
        s + open.len() <= e,
{
    reveal(closes_apart);
    if e < s + open.len() {
        assert(content.subrange(e, e + close.len())[0] == close[0]);
        assert(content.subrange(s, s + open.len())[e - s] == open[e - s]);
    }
}

fn extract_tagged(content: &Vec<char>, open: &str, close: &str) -> (r: Option<String>)
    requires
        closes_apart(open@, close@),
    ensures
        match r {
            Some(s) => tagged(content@, open@, close@) == Some(s@),
            None => tagged(content@, open@, close@) is None,
        },
{
    let o = chars_of(open);
    let c = chars_of(close);
    let fs = find_chars(content, &o);
    let fe = find_chars(content, &c);
    let ghost fo = first_occurrence(content@, open@);
    let ghost fc = first_occurrence(content@, close@);
    assert(tagged(content@, open@, close@) == match (fo, fc) {
        (Some(a), Some(b)) => if b > a {
            Some(trimmed(content@.subrange(a + open@.len(), b)))
        } else {
            None
        },
        _ => None,
    });
    if let Some(s) = fs {
        if let Some(e) = fe {
            if e > s {
                proof {
                    lemma_tags_apart(content@, o@, c@, s as int, e as int);
                }
                let inner = chars_between(content, s + o.len(), e);
                let text = string_from_chars(&inner);
                return Some(trim(text.as_str()));
            }
        }
    }
    None
}

/// Splits a response into the answer and the `<rationale>` reasoning.
pub fn parse_response(content: &str) -> (r: (String, Option<String>))
    ensures
        r.0@ == parsed_answer(content@),
        match r.1 {
            Some(s) => parsed_rationale(content@) == Some(s@),
            None => parsed_rationale(content@) is None,
        },
{
    assert(closes_apart("<answer>"@, "</answer>"@)) by {
        reveal(closes_apart);
        reveal_strlit("<answer>");
        reveal_strlit("</answer>");
    }
    assert(closes_apart("<rationale>"@, "</rationale>"@)) by {
        reveal(closes_apart);
        reveal_strlit("<rationale>");
        reveal_strlit("</rationale>");
    }
    let v = chars_of(content);
    let answer = match extract_tagged(&v, "<answer>", "</answer>") {
        Some(a) => a,
        None => owned(content),
    };
    let reasoning = extract_tagged(&v, "<rationale>", "</rationale>");
    (answer, reasoning)
}

/// The final response: the parsed answer, with the provider's own thinking preferred
/// over reasoning found in `<rationale>` tags.
pub fn finish_response(response: AiProviderResponse) -> (r: AiResponse)
    ensures
        r.answer@ == parsed_answer(response.content@),
        match response.thinking {
            Some(t) => r.reasoning matches Some(x) && x@ == t@,
            None => match parsed_rationale(response.content@) {
                Some(x) => r.reasoning matches Some(y) && y@ == x,
                None => r.reasoning is None,
            },
        },
{
    let (answer, xml_reasoning) = parse_response(response.content.as_str());
    let reasoning = match response.thinking {
        Some(t) => Some(t),
        None => xml_reasoning,
    };
    AiResponse { answer, reasoning }
}

// ---------------------------------------------------------------------------
// Citations
// ---------------------------------------------------------------------------

/// At most this many citations are listed.
pub const MAX_CITATIONS: usize = 5;

/// One listed citation: `- [title](url)`, the title `Source` where there is none.
pub open spec fn citation_line(title: Option<Seq<char>>, url: Seq<char>) -> Seq<char> {
    let t = match title {
        Some(t) => t,
        None => "Source"@,
    };
    "- ["@ + t + "]("@ + url + ")"@
}

pub open spec fn citation_lines(cs: Seq<Citation>) -> Seq<Seq<char>> {
    cs.map_values(|c: Citation| citation_line(crate::github::opt_str(c.title), c.url@))
}

/// Lines joined with newlines.
pub open spec fn joined_lines(lines: Seq<Seq<char>>) -> Seq<char>
    decreases lines.len(),
{
    if lines.len() == 0 {
        Seq::empty()
    } else if lines.len() == 1 {
        lines[0]
    } else {
        joined_lines(lines.drop_last()) + "\n"@ + lines.last()
    }
}

/// The citation block shown under an answer: a `Sources:` header, the first five
/// citations, and a note counting the rest; none where there are no citations.
pub open spec fn citations_text(cs: Seq<Citation>) -> Option<Seq<char>> {
    if cs.len() == 0 {
        None
    } else {
        let shown = citation_lines(cs).take(if cs.len() < 5 { cs.len() as int } else { 5 });
        let more = if cs.len() > 5 {
            "\n_...and "@ + decimal((cs.len() - 5) as nat) + " more sources_"@
        } else {
            Seq::empty()
        };
        Some("Sources:\n"@ + joined_lines(shown) + more)
    }
}

/// Formats citations for Discord: `Sources:` and one `- [title](url)` line per citation,
/// at most five, then `_...and N more sources_` for the rest.
pub fn format_citations_for_discord(citations: &Vec<Citation>) -> (r: Option<String>)
    ensures
        match r {
            Some(s) => citations_text(citations@) == Some(s@),
            None => citations_text(citations@) is None,
        },
{
    if citations.len() == 0 {
        return None;
    }
    let ghost lines = citation_lines(citations@);
    let n: usize = if citations.len() < MAX_CITATIONS { citations.len() } else { MAX_CITATIONS };
    let mut result = owned("Sources:\n");
    let ghost head = result@;
    let mut i: usize = 0;
    while i < n
        invariant
            i <= n <= citations.len(),
            n == (if citations.len() < 5 { citations.len() } else { 5 }),
            lines == citation_lines(citations@),
            head == "Sources:\n"@,
            result@ == head + joined_lines(lines.take(i as int)),
        decreases n - i,
    {
        let ghost before = result@;
        if i > 0 {
            push_str(&mut result, "\n");
        }
        push_str(&mut result, "- [");
        match &citations[i].title {
            Some(t) => push_str(&mut result, t.as_str()),
            None => push_str(&mut result, "Source"),
        }
        push_str(&mut result, "](");
        push_str(&mut result, citations[i].url.as_str());
        push_str(&mut result, ")");
        proof {
            let l = lines[i as int];
            assert(l == citation_line(crate::github::opt_str(citations@[i as int].title), citations@[i as int].url@));
            assert(lines.take(i + 1).drop_last() =~= lines.take(i as int));
            assert(lines.take(i + 1).last() == l);
            if i == 0 {
                assert(lines.take(1) =~= seq![l]);
                assert(result@ =~= head + l);
            } else {
                assert(result@ =~= head + (joined_lines(lines.take(i as int)) + "\n"@ + l));
            }
        }
        i = i + 1;
    }
    if citations.len() > MAX_CITATIONS {
        push_str(&mut result, "\n_...and ");
        let more: usize = citations.len() - MAX_CITATIONS;
        push_decimal(&mut result, more as u64);
        push_str(&mut result, " more sources_");
    }
    assert(result@ =~= citations_text(citations@).unwrap());
    Some(result)
}

// ---------------------------------------------------------------------------
// Background context from announcement channels
// ---------------------------------------------------------------------------

/// A message read from a context channel. Times are milliseconds since the epoch.
#[derive(Debug)]
pub struct ChannelMessage {
    pub author_name: String,
    pub author_is_bot: bool,
    pub content: String,
    pub timestamp: i64,
}

/// The channels whose recent messages give the AI its background.
pub const AI_CONTEXT_CHANNEL_IDS: [u64; 2] = [1388293243015270472, 1408975407335608392];

/// The header of a context channel: its name, or `channel-ID` where the name is unknown.
pub open spec fn channel_header(name: Option<Seq<char>>, channel_id: u64) -> Seq<char> {
    "--- Context from #"@ + (match name {
        Some(n) => n,
        None => "channel-"@ + decimal(channel_id as nat),
    }) + " (for background information) ---"@
}

/// One context line: `[YYYY-MM-DD] author: content`.
pub open spec fn context_line(m: ChannelMessage) -> Seq<char> {
    "["@ + crate::clock::utc_date_text(m.timestamp) + "] "@ + m.author_name@ + ": "@ + m.content@
}

/// The context messages of one channel, from messages listed newest first: the header,
/// then the members' messages oldest first, bots left out.
pub open spec fn channel_context_spec(name: Option<Seq<char>>, channel_id: u64, newest_first: Seq<ChannelMessage>) -> Seq<MessageView>
    decreases newest_first.len(),
{
    if newest_first.len() == 0 {
        seq![MessageView { role: "system"@, content: channel_header(name, channel_id) }]
    } else {
        let rest = channel_context_spec(name, channel_id, newest_first.drop_first());
        let m = newest_first[0];
        if m.author_is_bot {
            rest
        } else {
            rest.push(MessageView { role: "user"@, content: context_line(m) })
        }
    }
}

pub fn channel_context(name: Option<String>, channel_id: u64, newest_first: &Vec<ChannelMessage>) -> (r: Vec<AiMessage>)
    ensures
        messages_view(r@) == channel_context_spec(crate::github::opt_str(name), channel_id, newest_first@),
{
    let mut header = owned("--- Context from #");
    match &name {
        Some(n) => push_str(&mut header, n.as_str()),
        None => {
            push_str(&mut header, "channel-");
            push_decimal(&mut header, channel_id);
        },
    }
    push_str(&mut header, " (for background information) ---");
    let ghost nm = crate::github::opt_str(name);
    assert(header@ =~= channel_header(nm, channel_id));
    let ghost hv = header@;
    let mut r: Vec<AiMessage> = Vec::new();
    r.push(AiMessage { role: owned("system"), content: header });
    assert(messages_view(r@) =~= seq![MessageView { role: "system"@, content: hv }]);
    let n = newest_first.len();
    let mut k: usize = n;
    assert(newest_first@.skip(n as int).len() == 0);
    while k > 0
        invariant
            k <= n == newest_first.len(),
            messages_view(r@) == channel_context_spec(nm, channel_id, newest_first@.skip(k as int)),
        decreases k,
    {
        let idx = k - 1;
        let ghost before = r@;
        assert(newest_first@.skip(idx as int).drop_first() =~= newest_first@.skip(k as int));
        assert(newest_first@.skip(idx as int)[0] == newest_first@[idx as int]);
        let m = &newest_first[idx];
        if !m.author_is_bot {
            let mut line = owned("[");
            let d = crate::clock::date_text(m.timestamp);
            push_str(&mut line, d.as_str());
            push_str(&mut line, "] ");
            push_str(&mut line, m.author_name.as_str());
            push_str(&mut line, ": ");
            push_str(&mut line, m.content.as_str());
            r.push(AiMessage { role: owned("user"), content: line });
            assert(messages_view(r@) =~= messages_view(before).push(MessageView { role: "user"@, content: context_line(*m) }));
        }
        k = idx;
    }
    assert(newest_first@.skip(0) =~= newest_first@);
    r
}

} // verus!
