//! Data model of the conversation core: messages, tool-call batches,
//! round decisions, per-session configuration and the error taxonomy.

use vstd::prelude::*;

verus! {

// ---------------------------------------------------------------------------
// Spec-level views
// ---------------------------------------------------------------------------

/// Mathematical image of one requested tool call.
#[verifier::ext_equal]
pub struct ToolCallView {
    pub call_id: Seq<char>,
    pub tool_type: Seq<char>,
    pub tool_name: Seq<char>,
    pub args: Seq<char>,
}

/// Mathematical image of one message of the conversation history.
#[verifier::ext_equal]
pub enum MessageView {
    Developer { content: Seq<char> },
    System { content: Seq<char> },
    User { content: Seq<char> },
    Assistant { content: Seq<char>, tool_calls: Option<Seq<ToolCallView>> },
    Tool { content: Seq<char>, tool_call_id: Seq<char> },
}

/// View of a whole batch of requested calls, in request order.
pub open spec fn tool_calls_view(s: Seq<ToolCall>) -> Seq<ToolCallView> {
    s.map_values(|c: ToolCall| c@)
}

/// View of an ordered list of messages.
pub open spec fn messages_view(s: Seq<Message>) -> Seq<MessageView> {
    s.map_values(|m: Message| m@)
}

/// View of a list of `(call-id, text)` entries.
pub open spec fn entries_view(s: Seq<(String, String)>) -> Seq<(Seq<char>, Seq<char>)> {
    s.map_values(|p: (String, String)| (p.0@, p.1@))
}

// ---------------------------------------------------------------------------
// Messages and tool calls
// ---------------------------------------------------------------------------

/// Arguments of one requested tool call: the call kind (`"function"`), the
/// tool's name, and the raw argument text (a JSON document kept as text at
/// this layer; it is opaque to the core).
#[derive(Debug, PartialEq, Eq)]
pub struct ToolCallArgs {
    pub tool_type: String,
    pub tool_name: String,
    pub args: String,
}

/// One requested tool call, correlated with its result by `call_id`.
#[derive(Debug, PartialEq, Eq)]
pub struct ToolCall {
    pub call_id: String,
    pub args: ToolCallArgs,
}

/// A batch of requested tool calls, in the order the provider named them.
/// A well-formed batch names each call-id at most once.
pub type ToolCalls = Vec<ToolCall>;

/// One entry of the conversation history. Appended, never mutated in place.
#[derive(Debug, PartialEq, Eq)]
pub enum Message {
    Developer { content: String },
    System { content: String },
    User { content: String },
    Assistant { content: String, tool_calls: Option<ToolCalls> },
    Tool { content: String, tool_call_id: String },
}

impl View for ToolCall {
    type V = ToolCallView;

    open spec fn view(&self) -> ToolCallView {
        ToolCallView {
            call_id: self.call_id@,
            tool_type: self.args.tool_type@,
            tool_name: self.args.tool_name@,
            args: self.args.args@,
        }
    }
}

impl View for Message {
    type V = MessageView;

    open spec fn view(&self) -> MessageView {
        match self {
            Message::Developer { content } => MessageView::Developer { content: content@ },
            Message::System { content } => MessageView::System { content: content@ },
            Message::User { content } => MessageView::User { content: content@ },
            Message::Assistant { content, tool_calls } => MessageView::Assistant {
                content: content@,
                tool_calls: match tool_calls {
                    Some(calls) => Some(tool_calls_view(calls@)),
                    None => None,
                },
            },
            Message::Tool { content, tool_call_id } => MessageView::Tool {
                content: content@,
                tool_call_id: tool_call_id@,
            },
        }
    }
}

impl Clone for ToolCallArgs {
    fn clone(&self) -> (r: Self)
        ensures
            r == *self,
    {
        ToolCallArgs {
            tool_type: self.tool_type.clone(),
            tool_name: self.tool_name.clone(),
            args: self.args.clone(),
        }
    }
}

impl Clone for ToolCall {
    fn clone(&self) -> (r: Self)
        ensures
            r == *self,
    {
        ToolCall { call_id: self.call_id.clone(), args: self.args.clone() }
    }
}

/// Copies a batch of tool calls entry by entry.
pub fn clone_tool_calls(calls: &ToolCalls) -> (r: ToolCalls)
    ensures
        r@ == calls@,
{
    let mut out: ToolCalls = Vec::new();
    let mut i: usize = 0;
    while i < calls.len()
        invariant
            i <= calls.len(),
            out@ =~= calls@.take(i as int),
        decreases calls.len() - i,
    {
        out.push(calls[i].clone());
        i = i + 1;
    }
    proof {
        assert(calls@.take(calls@.len() as int) =~= calls@);
    }
    out
}

impl Clone for Message {
    fn clone(&self) -> (r: Self)
        ensures
            r@ == self@,
    {
        match self {
            Message::Developer { content } => Message::Developer { content: content.clone() },
            Message::System { content } => Message::System { content: content.clone() },
            Message::User { content } => Message::User { content: content.clone() },
            Message::Assistant { content, tool_calls } => Message::Assistant {
                content: content.clone(),
                tool_calls: match tool_calls {
                    Some(calls) => Some(clone_tool_calls(calls)),
                    None => None,
                },
            },
            Message::Tool { content, tool_call_id } => Message::Tool {
                content: content.clone(),
                tool_call_id: tool_call_id.clone(),
            },
        }
    }
}

// ---------------------------------------------------------------------------
// Decisions and tool results
// ---------------------------------------------------------------------------

/// The structured outcome of one provider round: either a request to run
/// tools (with the text produced so far) or a direct reply.
#[derive(Debug)]
pub enum Decision {
    ExecuteTool(String, ToolCalls),
    Respond(String),
}

/// Per-call results of one executed batch: `success_result` holds
/// `(call-id, output)` entries, `failure_result` holds `(call-id, error
/// text)` entries. Every call-id of the batch lands in exactly one of the
/// two.
#[derive(Debug, PartialEq, Eq)]
pub struct ToolExecutionResult {
    pub success_result: Vec<(String, String)>,
    pub failure_result: Vec<(String, String)>,
}

// ---------------------------------------------------------------------------
// Configuration
// ---------------------------------------------------------------------------

/// Retry policy for one conversation: how many extra provider attempts a
/// timed-out round may take, and how the caller should pace them.
#[derive(Debug, Clone, PartialEq, Eq)]
pub struct RetryConfig {
    pub max_retries: usize,
    pub retry_delay_ms: u64,
    pub should_retry_on_error: bool,
}

/// Immutable per-session configuration, set once at construction.
/// `temperature_milli` is the sampling temperature in thousandths, so that
/// the core stays within integer arithmetic; the transport divides by 1000.
#[derive(Debug, Clone, PartialEq, Eq)]
pub struct AgentConfig {
    pub system_prompt: String,
    pub max_turns: usize,
    pub max_tokens: Option<usize>,
    pub enable_parallel: bool,
    pub retry_config: RetryConfig,
    pub temperature_milli: u32,
    pub timeout_ms: u64,
}

impl Default for RetryConfig {
    fn default() -> (r: Self)
        ensures
            r.max_retries == 3,
            r.retry_delay_ms == 1000,
            r.should_retry_on_error,
    {
        RetryConfig { max_retries: 3, retry_delay_ms: 1000, should_retry_on_error: true }
    }
}

impl Default for AgentConfig {
    fn default() -> (r: Self)
        ensures
            r.system_prompt@ == "You are a helpful AI assistant."@,
            r.max_turns == 10,
            r.max_tokens == Some(2048usize),
            !r.enable_parallel,
            r.retry_config.max_retries == 3,
            r.retry_config.retry_delay_ms == 1000,
            r.retry_config.should_retry_on_error,
            r.temperature_milli == 700,
            r.timeout_ms == 30000,
    {
        AgentConfig {
            system_prompt: "You are a helpful AI assistant.".to_owned(),
            max_turns: 10,
            max_tokens: Some(2048),
            enable_parallel: false,
            retry_config: RetryConfig::default(),
            temperature_milli: 700,
            timeout_ms: 30000,
        }
    }
}

// ---------------------------------------------------------------------------
// States and errors
// ---------------------------------------------------------------------------

/// The lifecycle of one conversation instance. Only `Ready` accepts a new
/// user message.
#[derive(Debug, Clone, PartialEq, Eq)]
pub enum AgentState {
    Ready,
    Processing,
    WaitingForUserInput,
    Error(String),
    Terminated,
}

impl AgentState {
    /// True exactly when a new user message may be handled.
    pub fn is_ready(&self) -> (r: bool)
        ensures
            r == (self is Ready),
    {
        matches!(self, AgentState::Ready)
    }
}

/// Terminal and per-frame failures of the turn loop.
///
/// `NotReady`: a message was handed in while the state was not `Ready`.
/// `Timeout`: the provider round ran out of time and so did its retries.
/// `RetryExhausted`: the round loop reached its bound without a reply.
/// `TransportFailure`: the provider failed outright; not retried.
/// `MalformedFrame`: one streamed frame could not be read; the stream
/// itself goes on.
#[derive(Debug, PartialEq, Eq)]
pub enum AgentError {
    NotReady,
    Timeout,
    RetryExhausted,
    TransportFailure(String),
    MalformedFrame(String),
}

} // verus!
