//! The decision protocol translator: reduces what a provider's payload
//! carries — batch responses and streamed chunks alike — to a structured
//! `Decision`, and classifies the line-delimited frames of a streamed
//! exchange.
//!
//! The transport parses the wire bytes and hands over only the fields the
//! translator reads: the text content and the tool-call entries of the
//! first choice. Argument text that is not well-formed JSON falls back to
//! an empty object instead of failing the round.

use vstd::prelude::*;
use vstd::string::StrSliceExecFns;
use vstd::string::StringExecFns;

use crate::history::is_ascii_ws;
use crate::tools::batch_wf;
use crate::types::Decision;
use crate::types::ToolCall;
use crate::types::ToolCallArgs;
use crate::types::ToolCallView;
use crate::types::ToolCalls;
use crate::types::tool_calls_view;

verus! {

// ---------------------------------------------------------------------------
// JSON validity of argument text
// ---------------------------------------------------------------------------

/// Whether a text is a well-formed JSON document, as the parser decides
/// it. Named only; no contract states what it is on given values.
pub uninterp spec fn json_wellformed(s: Seq<char>) -> bool;

/// Relies on serde_json::from_str::<Value>: whether a text parses as JSON
/// depends on the text alone.
#[verifier::external_body]
fn json_text_parses(s: &str) -> (r: bool)
    ensures
        r == json_wellformed(s@),
{
    serde_json::from_str::<serde_json::Value>(s).is_ok()
}

// ---------------------------------------------------------------------------
// The payload model
// ---------------------------------------------------------------------------

/// One tool-call entry as the payload carries it: any of the three parts
/// may be missing, and an incomplete entry is skipped.
#[derive(Debug, PartialEq, Eq)]
pub struct PayloadToolCall {
    pub id: Option<String>,
    pub name: Option<String>,
    pub arguments: Option<String>,
}

/// What the translator reads from the first choice of a payload: its text
/// content and its tool-call entries, either of which may be absent.
#[derive(Debug, PartialEq, Eq)]
pub struct PayloadMessage {
    pub content: Option<String>,
    pub tool_calls: Option<Vec<PayloadToolCall>>,
}

/// An entry that names all three parts and so can become a call.
pub open spec fn entry_complete(c: PayloadToolCall) -> bool {
    c.id is Some && c.name is Some && c.arguments is Some
}

/// Argument text as the decision records it: kept if well-formed JSON,
/// replaced by an empty object otherwise.
pub open spec fn normalized_args(a: Seq<char>) -> Seq<char> {
    if json_wellformed(a) {
        a
    } else {
        "{}"@
    }
}

/// The call a complete entry becomes.
pub open spec fn view_of_entry(c: PayloadToolCall) -> ToolCallView {
    ToolCallView {
        call_id: c.id.unwrap()@,
        tool_type: "function"@,
        tool_name: c.name.unwrap()@,
        args: normalized_args(c.arguments.unwrap()@),
    }
}

/// Inserts a call into a batch keyed by call-id: a call of the same id is
/// replaced in place, any other is appended.
pub open spec fn spec_upsert(s: Seq<ToolCallView>, c: ToolCallView) -> Seq<ToolCallView> {
    if exists|i: int| 0 <= i < s.len() && s[i].call_id == c.call_id {
        s.update(choose|i: int| 0 <= i < s.len() && s[i].call_id == c.call_id, c)
    } else {
        s.push(c)
    }
}

/// The batch a payload's entries reduce to: complete entries inserted in
/// order, the last entry of an id winning; incomplete entries skipped.
pub open spec fn spec_calls_of(entries: Seq<PayloadToolCall>) -> Seq<ToolCallView>
    decreases entries.len(),
{
    if entries.len() == 0 {
        Seq::empty()
    } else {
        let prev = spec_calls_of(entries.drop_last());
        if entry_complete(entries.last()) {
            spec_upsert(prev, view_of_entry(entries.last()))
        } else {
            prev
        }
    }
}

/// Inserts one call into a well-formed batch, replacing a call of the
/// same id, and keeps the batch well formed.
fn upsert_call(calls: &mut ToolCalls, call: ToolCall)
    requires
        batch_wf(old(calls)@),
    ensures
        tool_calls_view(final(calls)@) == spec_upsert(tool_calls_view(old(calls)@), call@),
        batch_wf(final(calls)@),
{
    let ghost old_view = tool_calls_view(old(calls)@);
    let n = calls.len();
    let mut i: usize = 0;
    while i < n
        invariant
            i <= n,
            n == calls@.len(),
            calls@ == old(calls)@,
            batch_wf(old(calls)@),
            old_view == tool_calls_view(old(calls)@),
            forall|j: int| 0 <= j < i ==> calls@[j].call_id@ != call.call_id@,
        decreases n - i,
    {
        if calls[i].call_id == call.call_id {
            let ghost pos = i as int;
            let ghost before = calls@;
            calls[i] = call;
            proof {
                assert(before == old(calls)@);
                assert(old_view.len() == before.len());
                assert(old_view[pos] == before[pos]@);
                assert(old_view[pos].call_id == call@.call_id);
                let w = choose|k: int|
                    0 <= k < old_view.len() && old_view[k].call_id == call@.call_id;
                assert(old_view[w] == before[w]@);
                assert(before[w].call_id@ == before[pos].call_id@);
                assert(w == pos);
                assert(tool_calls_view(calls@) =~= old_view.update(pos, call@));
                assert(spec_upsert(old_view, call@) == old_view.update(w, call@));
                assert forall|a: int, b: int|
                    0 <= a < calls@.len() && 0 <= b < calls@.len() && a != b implies calls@[a].call_id@
                    != calls@[b].call_id@ by {
                    if a != pos && b != pos {
                        assert(calls@[a] == before[a] && calls@[b] == before[b]);
                    } else if a == pos {
                        assert(calls@[b] == before[b] && before[b].call_id@
                            != before[pos].call_id@);
                    } else {
                        assert(calls@[a] == before[a] && before[a].call_id@
                            != before[pos].call_id@);
                    }
                }
            }
            return ;
        }
        i = i + 1;
    }
    let ghost before = calls@;
    calls.push(call);
    proof {
        assert forall|k: int| 0 <= k < old_view.len() implies old_view[k].call_id
            != call.call_id@ by {
            assert(old_view[k].call_id == before[k].call_id@);
        }
        assert(tool_calls_view(calls@) =~= old_view.push(calls@[before.len() as int]@));
        assert forall|a: int, b: int|
            0 <= a < calls@.len() && 0 <= b < calls@.len() && a != b implies calls@[a].call_id@
            != calls@[b].call_id@ by {
            if a < before.len() && b < before.len() {
                assert(calls@[a] == before[a] && calls@[b] == before[b]);
            } else if a < before.len() {
                assert(calls@[a] == before[a] && calls@[b] == call);
            } else {
                assert(calls@[a] == call && calls@[b] == before[b]);
            }
        }
    }
}

/// Reduces a payload's tool-call entries to a batch: each complete entry
/// becomes a call with normalized arguments, keyed by its id; incomplete
/// entries are skipped.
fn calls_of_entries(entries: &Vec<PayloadToolCall>) -> (calls: ToolCalls)
    ensures
        tool_calls_view(calls@) == spec_calls_of(entries@),
        batch_wf(calls@),
{
    let mut calls: ToolCalls = Vec::new();
    proof {
        assert(tool_calls_view(calls@) =~= Seq::<ToolCallView>::empty());
        assert(tool_calls_view(calls@) =~= spec_calls_of(entries@.take(0)));
    }
    let mut i: usize = 0;
    while i < entries.len()
        invariant
            i <= entries.len(),
            tool_calls_view(calls@) == spec_calls_of(entries@.take(i as int)),
            batch_wf(calls@),
        decreases entries.len() - i,
    {
        let ghost taken = entries@.take(i as int);
        let ghost taken_next = entries@.take(i as int + 1);
        proof {
            assert(taken_next.drop_last() =~= taken);
            assert(taken_next.last() == entries@[i as int]);
        }
        let e = &entries[i];
        match (&e.id, &e.name, &e.arguments) {
            (Some(id), Some(name), Some(arguments)) => {
                let norm = if json_text_parses(arguments.as_str()) {
                    arguments.clone()
                } else {
                    "{}".to_owned()
                };
                let call = ToolCall {
                    call_id: id.clone(),
                    args: ToolCallArgs {
                        tool_type: "function".to_owned(),
                        tool_name: name.clone(),
                        args: norm,
                    },
                };
                proof {
                    assert(entry_complete(entries@[i as int]));
                    assert(call@ == view_of_entry(entries@[i as int]));
                }
                upsert_call(&mut calls, call);
            },
            _ => {
                proof {
                    assert(!entry_complete(entries@[i as int]));
                }
            },
        }
        i = i + 1;
    }
    proof {
        assert(entries@.take(entries@.len() as int) =~= entries@);
    }
    calls
}

/// The text a payload message carries, empty when absent.
pub open spec fn content_text(m: PayloadMessage) -> Seq<char> {
    match m.content {
        Some(c) => c@,
        None => Seq::empty(),
    }
}

/// What the decision for this payload message must be: a tool request
/// exactly when the entries reduce to a non-empty batch, a plain reply
/// otherwise, the text carried either way.
pub open spec fn decision_ok(m: PayloadMessage, d: Decision) -> bool {
    match m.tool_calls {
        None => d matches Decision::Respond(t) && t@ == content_text(m),
        Some(entries) => {
            if spec_calls_of(entries@).len() == 0 {
                d matches Decision::Respond(t) && t@ == content_text(m)
            } else {
                d matches Decision::ExecuteTool(t, cs) && t@ == content_text(m) && tool_calls_view(
                    cs@,
                ) == spec_calls_of(entries@) && batch_wf(cs@)
            }
        },
    }
}

/// Turns one payload message into the round's decision.
pub fn decision_of_payload(m: PayloadMessage) -> (r: Decision)
    ensures
        decision_ok(m, r),
{
    let PayloadMessage { content, tool_calls } = m;
    let text = match content {
        Some(c) => c,
        None => String::new(),
    };
    match tool_calls {
        None => Decision::Respond(text),
        Some(entries) => {
            let calls = calls_of_entries(&entries);
            if calls.len() == 0 {
                Decision::Respond(text)
            } else {
                Decision::ExecuteTool(text, calls)
            }
        },
    }
}

/// Translates a batch response: an empty choices list degrades to an
/// empty reply rather than failing; otherwise the first choice decides.
pub fn decision_of_response(choices: Vec<PayloadMessage>) -> (r: Decision)
    ensures
        choices@.len() == 0 ==> (r matches Decision::Respond(t) && t@ == Seq::<char>::empty()),
        choices@.len() > 0 ==> decision_ok(choices@[0], r),
{
    let mut choices = choices;
    if choices.len() == 0 {
        Decision::Respond(String::new())
    } else {
        let first = choices.remove(0);
        decision_of_payload(first)
    }
}

/// Translates one streamed chunk: a chunk without a readable delta
/// degrades to an empty reply fragment; otherwise its delta decides.
pub fn decision_of_chunk(delta: Option<PayloadMessage>) -> (r: Decision)
    ensures
        delta is None ==> (r matches Decision::Respond(t) && t@ == Seq::<char>::empty()),
        delta matches Some(m) ==> decision_ok(m, r),
{
    match delta {
        None => Decision::Respond(String::new()),
        Some(m) => decision_of_payload(m),
    }
}

// ---------------------------------------------------------------------------
// Streamed frames
// ---------------------------------------------------------------------------

/// What one line of a streamed exchange is: noise to skip, the closing
/// sentinel, or the text of one event frame.
#[derive(Debug, PartialEq, Eq)]
pub enum SseLine {
    Ignored,
    Done,
    Data(String),
}

/// A text with its leading and trailing ASCII whitespace stripped.
pub open spec fn trim_spec(s: Seq<char>) -> Seq<char>
    decreases s.len(),
{
    if s.len() == 0 {
        s
    } else if is_ascii_ws(s.first()) {
        trim_spec(s.drop_first())
    } else if is_ascii_ws(s.last()) {
        trim_spec(s.drop_last())
    } else {
        s
    }
}

/// A line that carries no frame: no `data:` marker, or nothing after it.
pub open spec fn sse_ignored(line: Seq<char>) -> bool {
    let t = trim_spec(line);
    t.len() < 5 || t.subrange(0, 5) != "data:"@ || trim_spec(t.skip(5)).len() == 0
}

/// The line that closes a stream: `data: [DONE]`.
pub open spec fn sse_done(line: Seq<char>) -> bool {
    let t = trim_spec(line);
    t.len() >= 5 && t.subrange(0, 5) == "data:"@ && trim_spec(t.skip(5)) == "[DONE]"@
}

/// The frame text a data line carries.
pub open spec fn sse_payload(line: Seq<char>) -> Seq<char> {
    trim_spec(trim_spec(line).skip(5))
}

proof fn lemma_trim_range(s: Seq<char>, a: int, b: int)
    requires
        0 <= a <= b <= s.len(),
        forall|i: int| 0 <= i < a ==> is_ascii_ws(s[i]),
        forall|i: int| b <= i < s.len() ==> is_ascii_ws(s[i]),
        a == b || (!is_ascii_ws(s[a]) && !is_ascii_ws(s[b - 1])),
    ensures
        trim_spec(s) == s.subrange(a, b),
    decreases s.len(),
{
    if s.len() == 0 {
        assert(s.subrange(0, 0) =~= s);
    } else if is_ascii_ws(s.first()) {
        let rest = s.drop_first();
        if a > 0 {
            assert forall|i: int| 0 <= i < a - 1 implies is_ascii_ws(rest[i]) by {
                assert(rest[i] == s[i + 1]);
            }
            assert forall|i: int| b - 1 <= i < rest.len() implies is_ascii_ws(rest[i]) by {
                assert(rest[i] == s[i + 1]);
            }
            lemma_trim_range(rest, a - 1, b - 1);
            assert(rest.subrange(a - 1, b - 1) =~= s.subrange(a, b));
        } else {
            assert(a == 0);
            assert(a == b);
            assert forall|i: int| 0 <= i < rest.len() implies is_ascii_ws(rest[i]) by {
                assert(rest[i] == s[i + 1]);
            }
            lemma_trim_range(rest, 0, 0);
            assert(rest.subrange(0, 0) =~= s.subrange(0, 0));
        }
    } else if is_ascii_ws(s.last()) {
        let rest = s.drop_last();
        if b == s.len() {
            assert(a == b);
            assert(a == s.len());
            lemma_trim_range(rest, rest.len() as int, rest.len() as int);
            assert(rest.subrange(rest.len() as int, rest.len() as int) =~= s.subrange(a, b));
        } else {
            lemma_trim_range(rest, a, b);
            assert(rest.subrange(a, b) =~= s.subrange(a, b));
        }
    } else {
        assert(a == 0 && b == s.len());
        assert(s.subrange(0, s.len() as int) =~= s);
    }
}

/// Strips leading and trailing ASCII whitespace.
fn trim_ascii(s: &str) -> (r: &str)
    ensures
        r@ == trim_spec(s@),
{
    let len = s.unicode_len();
    let mut a: usize = 0;
    let mut head_done: bool = false;
    while a < len && !head_done
        invariant
            a <= len,
            len == s@.len(),
            forall|i: int| 0 <= i < a ==> is_ascii_ws(s@[i]),
            head_done ==> a < len && !is_ascii_ws(s@[a as int]),
        decreases (len - a) as int + (if head_done { 0int } else { 1int }),
    {
        let c = s.get_char(a);
        if c == ' ' || c == '\t' || c == '\n' || c == '\r' {
            a = a + 1;
        } else {
            head_done = true;
        }
    }
    let mut b: usize = len;
    let mut tail_done: bool = false;
    while b > a && !tail_done
        invariant
            a <= b <= len,
            len == s@.len(),
            forall|i: int| 0 <= i < a ==> is_ascii_ws(s@[i]),
            a < len && b > a ==> !is_ascii_ws(s@[a as int]),
            forall|i: int| b <= i < len ==> is_ascii_ws(s@[i]),
            tail_done ==> b > a && !is_ascii_ws(s@[b as int - 1]),
        decreases (b as int) + (if tail_done { 0int } else { 1int }),
    {
        let c = s.get_char(b - 1);
        if c == ' ' || c == '\t' || c == '\n' || c == '\r' {
            b = b - 1;
        } else {
            tail_done = true;
        }
    }
    proof {
        lemma_trim_range(s@, a as int, b as int);
    }
    s.substring_char(a, b)
}

/// Classifies one line of a streamed exchange: a `data:` line carries a
/// frame, `data: [DONE]` closes the stream, anything else is skipped.
pub fn classify_sse_line(line: &str) -> (r: SseLine)
    ensures
        r is Ignored <==> sse_ignored(line@),
        r is Done <==> sse_done(line@),
        r matches SseLine::Data(p) ==> p@ == sse_payload(line@),
{
    proof {
        reveal_strlit("data:");
        reveal_strlit("[DONE]");
    }
    let t = trim_ascii(line);
    let t_len = t.unicode_len();
    if t_len < 5 {
        return SseLine::Ignored;
    }
    if !(t.get_char(0) == 'd' && t.get_char(1) == 'a' && t.get_char(2) == 't' && t.get_char(3)
        == 'a' && t.get_char(4) == ':') {
        proof {
            if t@.subrange(0, 5) == "data:"@ {
                assert(t@.subrange(0, 5)[0] == t@[0]);
                assert(t@.subrange(0, 5)[1] == t@[1]);
                assert(t@.subrange(0, 5)[2] == t@[2]);
                assert(t@.subrange(0, 5)[3] == t@[3]);
                assert(t@.subrange(0, 5)[4] == t@[4]);
            }
            assert(t@.subrange(0, 5) != "data:"@);
        }
        return SseLine::Ignored;
    }
    proof {
        assert(t@.subrange(0, 5) =~= "data:"@);
    }
    let rest = t.substring_char(5, t_len);
    proof {
        assert(rest@ =~= t@.skip(5));
    }
    let d = trim_ascii(rest);
    let d_len = d.unicode_len();
    if d_len == 0 {
        return SseLine::Ignored;
    }
    if d_len == 6 && d.get_char(0) == '[' && d.get_char(1) == 'D' && d.get_char(2) == 'O'
        && d.get_char(3) == 'N' && d.get_char(4) == 'E' && d.get_char(5) == ']' {
        proof {
            assert(d@ =~= "[DONE]"@);
        }
        return SseLine::Done;
    }
    proof {
        if d@ == "[DONE]"@ {
            assert(d@[0] == "[DONE]"@[0]);
            assert(d@[1] == "[DONE]"@[1]);
            assert(d@[2] == "[DONE]"@[2]);
            assert(d@[3] == "[DONE]"@[3]);
            assert(d@[4] == "[DONE]"@[4]);
            assert(d@[5] == "[DONE]"@[5]);
        }
        assert(d@ != "[DONE]"@);
    }
    SseLine::Data(d.to_owned())
}

// ---------------------------------------------------------------------------
// Wire form of the history
// ---------------------------------------------------------------------------

/// One message as the provider's wire format carries it: a role tag, the
/// text, and — for an assistant turn — its requested calls, or — for a
/// tool turn — the call it answers. The transport serializes this
/// one-to-one.
#[derive(Debug, PartialEq, Eq)]
pub struct WireMessage {
    pub role: String,
    pub content: String,
    pub tool_calls: Option<ToolCalls>,
    pub tool_call_id: Option<String>,
}

/// How a history message must appear on the wire: developer and system
/// turns as `system`, the rest under their own role, calls and call-ids
/// carried through unchanged.
pub open spec fn wire_matches(m: crate::types::MessageView, w: WireMessage) -> bool {
    match m {
        crate::types::MessageView::Developer { content } => {
            w.role@ == "system"@ && w.content@ == content && w.tool_calls is None
                && w.tool_call_id is None
        },
        crate::types::MessageView::System { content } => {
            w.role@ == "system"@ && w.content@ == content && w.tool_calls is None
                && w.tool_call_id is None
        },
        crate::types::MessageView::User { content } => {
            w.role@ == "user"@ && w.content@ == content && w.tool_calls is None
                && w.tool_call_id is None
        },
        crate::types::MessageView::Assistant { content, tool_calls } => {
            w.role@ == "assistant"@ && w.content@ == content && w.tool_call_id is None && (match (
                tool_calls,
                w.tool_calls,
            ) {
                (None, None) => true,
                (Some(v), Some(wv)) => tool_calls_view(wv@) == v,
                _ => false,
            })
        },
        crate::types::MessageView::Tool { content, tool_call_id } => {
            w.role@ == "tool"@ && w.content@ == content && w.tool_calls is None && (
            w.tool_call_id matches Some(id) && id@ == tool_call_id)
        },
    }
}

/// Lays the context out in the provider's wire form, message for message
/// and in order.
pub fn wire_messages(messages: &Vec<crate::types::Message>) -> (r: Vec<WireMessage>)
    ensures
        r@.len() == messages@.len(),
        forall|i: int| 0 <= i < r@.len() ==> wire_matches(messages@[i]@, #[trigger] r@[i]),
{
    let mut out: Vec<WireMessage> = Vec::new();
    let mut i: usize = 0;
    while i < messages.len()
        invariant
            i <= messages.len(),
            out@.len() == i,
            forall|j: int| 0 <= j < i ==> wire_matches(messages@[j]@, #[trigger] out@[j]),
        decreases messages.len() - i,
    {
        let w = match &messages[i] {
            crate::types::Message::Developer { content } => WireMessage {
                role: "system".to_owned(),
                content: content.clone(),
                tool_calls: None,
                tool_call_id: None,
            },
            crate::types::Message::System { content } => WireMessage {
                role: "system".to_owned(),
                content: content.clone(),
                tool_calls: None,
                tool_call_id: None,
            },
            crate::types::Message::User { content } => WireMessage {
                role: "user".to_owned(),
                content: content.clone(),
                tool_calls: None,
                tool_call_id: None,
            },
            crate::types::Message::Assistant { content, tool_calls } => WireMessage {
                role: "assistant".to_owned(),
                content: content.clone(),
                tool_calls: match tool_calls {
                    Some(calls) => Some(crate::types::clone_tool_calls(calls)),
                    None => None,
                },
                tool_call_id: None,
            },
            crate::types::Message::Tool { content, tool_call_id } => WireMessage {
                role: "tool".to_owned(),
                content: content.clone(),
                tool_calls: None,
                tool_call_id: Some(tool_call_id.clone()),
            },
        };
        out.push(w);
        i = i + 1;
    }
    out
}

} // verus!
