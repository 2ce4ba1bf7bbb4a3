//! The conversation orchestrator: one instance owns its history, its
//! registered tools and its state, and drives a turn to completion as a
//! state machine.
//!
//! The network lives with the caller. Each step function consumes one
//! observed event — a decision, a timeout, a provider failure, a batch of
//! tool outcomes, a stream fragment — and answers with the next thing to
//! do: ask the provider, run tools, finish with a reply, or fail. History
//! is mutated only at round boundaries, so an abandoned round leaves it
//! untouched.

use vstd::prelude::*;
use vstd::string::StringExecFns;

use crate::history::History;
use crate::history::context_ok;
use crate::tools::ToolOutcome;
use crate::tools::ToolSpec;
use crate::tools::batch_wf;
use crate::tools::failure_notice;
use crate::tools::failure_notice_text;
use crate::tools::notice_name;
use crate::tools::outcomes_match;
use crate::tools::registered_pred;
use crate::tools::registry_wf;
use crate::tools::spec_failures;
use crate::tools::spec_has_tool;
use crate::tools::spec_successes;
use crate::types::AgentConfig;
use crate::types::AgentError;
use crate::types::AgentState;
use crate::types::Decision;
use crate::types::Message;
use crate::types::MessageView;
use crate::types::ToolCalls;
use crate::types::ToolExecutionResult;
use crate::types::clone_tool_calls;
use crate::types::entries_view;
use crate::types::messages_view;
use crate::types::tool_calls_view;

verus! {

// ---------------------------------------------------------------------------
// Steps and phases
// ---------------------------------------------------------------------------

/// Where a turn stands between two events.
#[derive(Debug, Clone, PartialEq, Eq)]
pub enum TurnPhase {
    /// No turn is under way.
    Idle,
    /// A provider round was requested; the next event is its decision,
    /// its failure or its timeout.
    AwaitingDecision,
    /// A tool batch was handed out; the next event is its outcomes.
    AwaitingTools,
    /// A streamed round is being consumed fragment by fragment.
    Streaming,
}

/// What the caller must do next.
#[derive(Debug)]
pub enum TurnStep {
    /// Ask the provider for a decision over this context, under this
    /// timeout.
    AskProvider { context: Vec<Message>, max_tokens: Option<usize>, timeout_ms: u64 },
    /// Execute these calls and hand their outcomes back.
    RunTools { calls: ToolCalls },
    /// The turn finished with this reply.
    Done { reply: String },
    /// The turn failed; the error is terminal for this turn.
    Failed { error: AgentError },
}

/// What the state is set to when a round times out beyond its retries.
pub open spec fn timeout_error_text() -> Seq<char> {
    "the provider round timed out and the retry budget is exhausted"@
}

/// What the state is set to when the round limit is reached.
pub open spec fn exhausted_error_text() -> Seq<char> {
    "the round limit was reached without a final reply"@
}

/// The history entries a batch's successful calls become.
pub open spec fn tool_success_messages(entries: Seq<(Seq<char>, Seq<char>)>) -> Seq<MessageView> {
    entries.map_values(
        |p: (Seq<char>, Seq<char>)| MessageView::Tool { content: p.1, tool_call_id: p.0 },
    )
}

/// The history entries a batch's failed calls become: each carries the
/// failure notice for its call.
pub open spec fn tool_failure_messages(
    entries: Seq<(Seq<char>, Seq<char>)>,
    batch: Seq<crate::types::ToolCall>,
) -> Seq<MessageView> {
    entries.map_values(
        |p: (Seq<char>, Seq<char>)| MessageView::Tool {
            content: failure_notice_text(notice_name(batch, p.0), p.1),
            tool_call_id: p.0,
        },
    )
}

/// Appends one executed batch's results to the history: first the
/// successes, then the failures wrapped in their notices, in batch order.
fn append_tool_results(history: &mut History, result: &ToolExecutionResult, batch: &ToolCalls)
    ensures
        final(history)@ == old(history)@ + tool_success_messages(
            entries_view(result.success_result@),
        ) + tool_failure_messages(entries_view(result.failure_result@), batch@),
{
    let ghost succ = tool_success_messages(entries_view(result.success_result@));
    let ghost fail = tool_failure_messages(entries_view(result.failure_result@), batch@);
    let mut i: usize = 0;
    while i < result.success_result.len()
        invariant
            i <= result.success_result@.len(),
            succ == tool_success_messages(entries_view(result.success_result@)),
            history@ == old(history)@ + succ.take(i as int),
        decreases result.success_result@.len() - i,
    {
        let entry = &result.success_result[i];
        history.add_message(
            Message::Tool { content: entry.1.clone(), tool_call_id: entry.0.clone() },
        );
        proof {
            assert(succ.take(i as int + 1) =~= succ.take(i as int).push(succ[i as int]));
            assert(succ[i as int] == MessageView::Tool {
                content: result.success_result@[i as int].1@,
                tool_call_id: result.success_result@[i as int].0@,
            });
            assert(history@ =~= old(history)@ + succ.take(i as int + 1));
        }
        i = i + 1;
    }
    proof {
        assert(succ.take(succ.len() as int) =~= succ);
    }
    let mut j: usize = 0;
    while j < result.failure_result.len()
        invariant
            j <= result.failure_result@.len(),
            succ == tool_success_messages(entries_view(result.success_result@)),
            fail == tool_failure_messages(entries_view(result.failure_result@), batch@),
            history@ == old(history)@ + succ + fail.take(j as int),
        decreases result.failure_result@.len() - j,
    {
        let entry = &result.failure_result[j];
        let notice = failure_notice(batch, &entry.0, &entry.1);
        history.add_message(Message::Tool { content: notice, tool_call_id: entry.0.clone() });
        proof {
            assert(fail.take(j as int + 1) =~= fail.take(j as int).push(fail[j as int]));
            assert(fail[j as int] == MessageView::Tool {
                content: failure_notice_text(
                    notice_name(batch@, result.failure_result@[j as int].0@),
                    result.failure_result@[j as int].1@,
                ),
                tool_call_id: result.failure_result@[j as int].0@,
            });
            assert(history@ =~= old(history)@ + succ + fail.take(j as int + 1));
        }
        j = j + 1;
    }
    proof {
        assert(fail.take(fail.len() as int) =~= fail);
    }
}

// ---------------------------------------------------------------------------
// The agent
// ---------------------------------------------------------------------------

/// One conversation instance: its history, its registered tools, its
/// configuration and its place in the turn state machine.
#[derive(Debug)]
pub struct Agent {
    history: History,
    tools: Vec<ToolSpec>,
    config: AgentConfig,
    state: AgentState,
    phase: TurnPhase,
    streaming: bool,
    retries: usize,
    rounds: usize,
    pending_batch: ToolCalls,
    pending_runnable: ToolCalls,
    stream_text: String,
    stream_calls: Option<ToolCalls>,
}

impl Agent {
    /// The conversation history, as the contracts speak of it.
    pub closed spec fn spec_history(&self) -> Seq<MessageView> {
        self.history@
    }

    /// The registered tools.
    pub closed spec fn spec_tools(&self) -> Seq<ToolSpec> {
        self.tools@
    }

    /// The per-session configuration.
    pub closed spec fn spec_config(&self) -> AgentConfig {
        self.config
    }

    /// The lifecycle state.
    pub closed spec fn spec_state(&self) -> AgentState {
        self.state
    }

    /// Where the current turn stands.
    pub closed spec fn spec_phase(&self) -> TurnPhase {
        self.phase
    }

    /// Whether the current turn surfaces fragments as they arrive.
    pub closed spec fn spec_streaming(&self) -> bool {
        self.streaming
    }

    /// Timed-out attempts of the current round.
    pub closed spec fn spec_retries(&self) -> nat {
        self.retries as nat
    }

    /// Provider rounds taken by the current turn, the running one
    /// included.
    pub closed spec fn spec_rounds(&self) -> nat {
        self.rounds as nat
    }

    /// The tool batch of the round being executed.
    pub closed spec fn spec_pending_batch(&self) -> Seq<crate::types::ToolCall> {
        self.pending_batch@
    }

    /// The resolvable part of the pending batch, as planned.
    pub closed spec fn spec_pending_runnable(&self) -> Seq<crate::types::ToolCall> {
        self.pending_runnable@
    }

    /// The text accumulated from the current streamed round.
    pub closed spec fn spec_stream_text(&self) -> Seq<char> {
        self.stream_text@
    }

    /// The last call map observed in the current streamed round.
    pub closed spec fn spec_stream_calls(&self) -> Option<ToolCalls> {
        self.stream_calls
    }

    /// What every step preserves: the registry has distinct names, the
    /// pending batch has distinct ids, the pending runnable list is
    /// exactly the registered part of the pending batch, and a pending
    /// batch exists only while tools are out.
    pub open spec fn wf(&self) -> bool {
        &&& registry_wf(self.spec_tools())
        &&& batch_wf(self.spec_pending_batch())
        &&& self.spec_pending_runnable() == self.spec_pending_batch().filter(
            registered_pred(self.spec_tools()),
        )
        &&& !(self.spec_phase() is AwaitingTools) ==> self.spec_pending_batch().len() == 0
        &&& (self.spec_stream_calls() matches Some(c) ==> batch_wf(c@))
    }

    /// A fresh agent: ready, with an empty history, no tools, and the
    /// default configuration.
    pub fn new() -> (a: Agent)
        ensures
            a.wf(),
            a.spec_state() is Ready,
            a.spec_phase() is Idle,
            a.spec_history() == Seq::<MessageView>::empty(),
            a.spec_tools() == Seq::<ToolSpec>::empty(),
            a.spec_config().system_prompt@ == "You are a helpful AI assistant."@,
            a.spec_config().max_turns == 10,
            a.spec_config().max_tokens == Some(2048usize),
            !a.spec_config().enable_parallel,
            a.spec_config().retry_config.max_retries == 3,
            a.spec_config().retry_config.retry_delay_ms == 1000,
            a.spec_config().retry_config.should_retry_on_error,
            a.spec_config().temperature_milli == 700,
            a.spec_config().timeout_ms == 30000,
    {
        let a = Agent {
            history: History::new(),
            tools: Vec::new(),
            config: AgentConfig::default(),
            state: AgentState::Ready,
            phase: TurnPhase::Idle,
            streaming: false,
            retries: 0,
            rounds: 0,
            pending_batch: Vec::new(),
            pending_runnable: Vec::new(),
            stream_text: String::new(),
            stream_calls: None,
        };
        proof {
            reveal(Seq::filter);
        }
        a
    }

    /// Adopts a configuration and seeds the history with its system
    /// prompt.
    pub fn with_config(self, config: AgentConfig) -> (a: Agent)
        ensures
            a.spec_history() == self.spec_history().push(
                MessageView::System { content: config.system_prompt@ },
            ),
            a.spec_config() == config,
            a.spec_tools() == self.spec_tools(),
            a.spec_state() == self.spec_state(),
            a.spec_phase() == self.spec_phase(),
            self.wf() ==> a.wf(),
    {
        let mut a = self;
        a.history.add_message(Message::System { content: config.system_prompt.clone() });
        a.config = config;
        a
    }

    /// Registers a tool under its name; a tool of the same name is
    /// replaced.
    pub fn register_tool(&mut self, tool: ToolSpec)
        requires
            old(self).wf(),
            old(self).spec_phase() is Idle,
        ensures
            final(self).wf(),
            spec_has_tool(final(self).spec_tools(), tool.name@),
            forall|n: Seq<char>|
                #[trigger] spec_has_tool(final(self).spec_tools(), n) <==> (spec_has_tool(
                    old(self).spec_tools(),
                    n,
                ) || n == tool.name@),
            final(self).spec_history() == old(self).spec_history(),
            final(self).spec_state() == old(self).spec_state(),
            final(self).spec_phase() == old(self).spec_phase(),
            final(self).spec_config() == old(self).spec_config(),
    {
        let ghost old_tools = self.tools@;
        let ghost name = tool.name@;
        crate::tools::upsert_tool(&mut self.tools, tool);
        proof {
            if spec_has_tool(old_tools, name) {
                let i = choose|i: int|
                    0 <= i < old_tools.len() && old_tools[i].name@ == name && self.tools@
                        == old_tools.update(i, tool);
                assert(self.tools@[i].name@ == name);
            } else {
                assert(self.tools@[old_tools.len() as int].name@ == name);
            }
            assert forall|n: Seq<char>| #[trigger]
                spec_has_tool(self.tools@, n) implies (spec_has_tool(old_tools, n) || n
                == name) by {
                let i = choose|i: int| 0 <= i < self.tools@.len() && self.tools@[i].name@ == n;
                if spec_has_tool(old_tools, name) {
                    let u = choose|u: int|
                        0 <= u < old_tools.len() && old_tools[u].name@ == name && self.tools@
                            == old_tools.update(u, tool);
                    if i != u {
                        assert(old_tools[i].name@ == n);
                    }
                } else {
                    if i < old_tools.len() {
                        assert(old_tools[i].name@ == n);
                    }
                }
            }
            assert forall|n: Seq<char>|
                spec_has_tool(old_tools, n) || n == name implies #[trigger] spec_has_tool(
                self.tools@,
                n,
            ) by {
                if spec_has_tool(old_tools, name) {
                    let u = choose|u: int|
                        0 <= u < old_tools.len() && old_tools[u].name@ == name && self.tools@
                            == old_tools.update(u, tool);
                    if spec_has_tool(old_tools, n) {
                        let i = choose|i: int| 0 <= i < old_tools.len() && old_tools[i].name@ == n;
                        if i == u {
                            assert(self.tools@[u].name@ == name);
                        } else {
                            assert(self.tools@[i].name@ == n);
                        }
                    }
                } else {
                    if spec_has_tool(old_tools, n) {
                        let i = choose|i: int| 0 <= i < old_tools.len() && old_tools[i].name@ == n;
                        assert(self.tools@[i].name@ == n);
                    }
                }
            }
            assert(self.pending_batch@.filter(registered_pred(self.tools@))
                == self.pending_batch@) by {
                reveal(Seq::filter);
            }
            assert(self.pending_batch@.filter(registered_pred(old_tools))
                == self.pending_batch@) by {
                reveal(Seq::filter);
            }
        }
    }

    /// The registered tools, for the caller to lay out in its request.
    pub fn registered_tools(&self) -> (r: Vec<ToolSpec>)
        ensures
            r@ == self.spec_tools(),
    {
        let mut out: Vec<ToolSpec> = Vec::new();
        let mut i: usize = 0;
        while i < self.tools.len()
            invariant
                i <= self.tools@.len(),
                out@ =~= self.tools@.take(i as int),
            decreases self.tools@.len() - i,
        {
            out.push(self.tools[i].clone());
            i = i + 1;
        }
        proof {
            assert(self.tools@.take(self.tools@.len() as int) =~= self.tools@);
        }
        out
    }

    /// The lifecycle state, for the caller to inspect.
    pub fn state(&self) -> (r: &AgentState)
        ensures
            r == self.spec_state(),
    {
        &self.state
    }

    /// Where the current turn stands, for the caller to check before it
    /// hands in an event.
    pub fn phase(&self) -> (r: &TurnPhase)
        ensures
            r == self.spec_phase(),
    {
        &self.phase
    }

    /// The conversation so far, trimmed to a token budget if one is
    /// given.
    pub fn get_context_messages(&self, max_tokens: Option<usize>) -> (r: Vec<Message>)
        ensures
            context_ok(self.spec_history(), max_tokens, messages_view(r@)),
    {
        self.history.get_context_messages(max_tokens)
    }

    /// Reconciles a batch against this agent's registry and the outcomes
    /// the caller observed; see `collect_tool_results`.
    pub fn execute_tool(&self, batch: &ToolCalls, outcomes: &Vec<ToolOutcome>) -> (r:
        ToolExecutionResult)
        requires
            outcomes_match(batch@, self.spec_tools(), outcomes@),
        ensures
            entries_view(r.success_result@) == spec_successes(batch@, self.spec_tools(), outcomes@),
            entries_view(r.failure_result@) == spec_failures(batch@, self.spec_tools(), outcomes@),
            forall|id: Seq<char>|
                crate::tools::has_call_id(batch@, id) <==> (#[trigger] crate::tools::has_entry_id(
                    entries_view(r.success_result@),
                    id,
                ) || crate::tools::has_entry_id(entries_view(r.failure_result@), id)),
            batch_wf(batch@) ==> forall|id: Seq<char>|
                !(crate::tools::has_entry_id(#[trigger] entries_view(r.success_result@), id)
                    && crate::tools::has_entry_id(entries_view(r.failure_result@), id)),
    {
        crate::tools::collect_tool_results(batch, &self.tools, outcomes)
    }

    /// Opens a turn for a user message. Only a `Ready` agent accepts
    /// one: from any other state the call fails with `NotReady` and
    /// changes nothing, the history included. On acceptance the message
    /// joins the history and the caller is asked for the first provider
    /// round.
    fn begin(&mut self, message: String, streaming: bool) -> (r: Result<TurnStep, AgentError>)
        requires
            old(self).wf(),
        ensures
            final(self).wf(),
            !(old(self).spec_state() is Ready) ==> (r matches Err(e) && e == AgentError::NotReady
                && *final(self) == *old(self)),
            old(self).spec_state() is Ready ==> (r matches Ok(step) && (
            step matches TurnStep::AskProvider { context, max_tokens, timeout_ms } && context_ok(
                final(self).spec_history(),
                old(self).spec_config().max_tokens,
                messages_view(context@),
            ) && max_tokens == old(self).spec_config().max_tokens && timeout_ms == old(self).spec_config().timeout_ms) && final(self).spec_history() == old(self).spec_history().push(MessageView::User { content: message@ }) && final(self).spec_state() is Processing && final(self).spec_phase() == (if streaming {
                TurnPhase::Streaming
            } else {
                TurnPhase::AwaitingDecision
            }) && final(self).spec_streaming() == streaming && final(self).spec_retries() == 0
                && final(self).spec_rounds() == 1 && final(self).spec_tools() == old(self).spec_tools() && final(self).spec_config() == old(self).spec_config()),
    {
        if !self.state.is_ready() {
            return Err(AgentError::NotReady);
        }
        self.state = AgentState::Processing;
        self.history.add_message(Message::User { content: message });
        self.retries = 0;
        self.rounds = 1;
        self.streaming = streaming;
        self.phase = if streaming {
            TurnPhase::Streaming
        } else {
            TurnPhase::AwaitingDecision
        };
        self.pending_batch = Vec::new();
        self.pending_runnable = Vec::new();
        self.stream_text = String::new();
        self.stream_calls = None;
        proof {
            reveal(Seq::filter);
        }
        Ok(self.ask_provider_step())
    }

    /// Opens a turn whose reply comes back whole; see `begin` for the
    /// state rules. A finished turn leaves the agent `Ready` again, so
    /// the next message is accepted independently of this one.
    pub fn start_turn(&mut self, message: String) -> (r: Result<TurnStep, AgentError>)
        requires
            old(self).wf(),
        ensures
            final(self).wf(),
            !(old(self).spec_state() is Ready) ==> (r matches Err(e) && e == AgentError::NotReady
                && *final(self) == *old(self)),
            old(self).spec_state() is Ready ==> (r matches Ok(step) && (
            step matches TurnStep::AskProvider { context, max_tokens, timeout_ms } && context_ok(
                final(self).spec_history(),
                old(self).spec_config().max_tokens,
                messages_view(context@),
            ) && max_tokens == old(self).spec_config().max_tokens && timeout_ms == old(self).spec_config().timeout_ms) && final(self).spec_history() == old(self).spec_history().push(MessageView::User { content: message@ }) && final(self).spec_state() is Processing && final(self).spec_phase() is AwaitingDecision && !final(self).spec_streaming() && final(self).spec_retries() == 0 && final(self).spec_rounds() == 1
                && final(self).spec_tools() == old(self).spec_tools() && final(self).spec_config()
                == old(self).spec_config()),
    {
        self.begin(message, false)
    }

    /// Opens a turn whose reply is surfaced fragment by fragment; see
    /// `begin` for the state rules.
    pub fn start_turn_stream(&mut self, message: String) -> (r: Result<TurnStep, AgentError>)
        requires
            old(self).wf(),
        ensures
            final(self).wf(),
            !(old(self).spec_state() is Ready) ==> (r matches Err(e) && e == AgentError::NotReady
                && *final(self) == *old(self)),
            old(self).spec_state() is Ready ==> (r matches Ok(step) && (
            step matches TurnStep::AskProvider { context, max_tokens, timeout_ms } && context_ok(
                final(self).spec_history(),
                old(self).spec_config().max_tokens,
                messages_view(context@),
            ) && max_tokens == old(self).spec_config().max_tokens && timeout_ms == old(self).spec_config().timeout_ms) && final(self).spec_history() == old(self).spec_history().push(MessageView::User { content: message@ }) && final(self).spec_state() is Processing && final(self).spec_phase() is Streaming && final(self).spec_streaming() && final(self).spec_retries() == 0 && final(self).spec_rounds() == 1
                && final(self).spec_tools() == old(self).spec_tools() && final(self).spec_config()
                == old(self).spec_config()),
    {
        self.begin(message, true)
    }

    /// Takes the decision of a provider round. A direct reply closes the
    /// turn: the assistant message joins the history, the state returns
    /// to `Ready`, and the reply is handed back — so a following
    /// `start_turn` is accepted. A tool request appends the assistant
    /// message with its call map and hands the resolvable calls out.
    pub fn on_decision(&mut self, decision: Decision) -> (r: TurnStep)
        requires
            old(self).wf(),
            old(self).spec_state() is Processing,
            old(self).spec_phase() is AwaitingDecision,
            decision matches Decision::ExecuteTool(t, calls) ==> batch_wf(calls@),
        ensures
            final(self).wf(),
            final(self).spec_tools() == old(self).spec_tools(),
            final(self).spec_config() == old(self).spec_config(),
            final(self).spec_rounds() == old(self).spec_rounds(),
            final(self).spec_retries() == old(self).spec_retries(),
            final(self).spec_streaming() == old(self).spec_streaming(),
            decision matches Decision::Respond(text) ==> (r matches TurnStep::Done { reply }
                && reply == text && final(self).spec_history() == old(self).spec_history().push(
                MessageView::Assistant { content: text@, tool_calls: None },
            ) && final(self).spec_state() is Ready && final(self).spec_phase() is Idle),
            decision matches Decision::ExecuteTool(text, calls) ==> (
            r matches TurnStep::RunTools { calls: runnable } && final(self).spec_history() == old(self).spec_history().push(
                MessageView::Assistant {
                    content: text@,
                    tool_calls: Some(tool_calls_view(calls@)),
                },
            ) && final(self).spec_pending_batch() == calls@ && final(self).spec_pending_runnable()
                == calls@.filter(registered_pred(old(self).spec_tools())) && runnable@ == final(self).spec_pending_runnable() && final(self).spec_state() is Processing && final(self).spec_phase() is AwaitingTools),
    {
        match decision {
            Decision::Respond(text) => {
                self.history.add_message(
                    Message::Assistant { content: text.clone(), tool_calls: None },
                );
                self.state = AgentState::Ready;
                self.phase = TurnPhase::Idle;
                TurnStep::Done { reply: text }
            },
            Decision::ExecuteTool(text, calls) => {
                self.history.add_message(
                    Message::Assistant {
                        content: text,
                        tool_calls: Some(clone_tool_calls(&calls)),
                    },
                );
                let runnable = crate::tools::plan_tool_batch(&calls, &self.tools);
                let handed = clone_tool_calls(&runnable);
                self.pending_batch = calls;
                self.pending_runnable = runnable;
                self.phase = TurnPhase::AwaitingTools;
                TurnStep::RunTools { calls: handed }
            },
        }
    }

    /// Takes a round's timeout. While retries remain the round is simply
    /// re-asked — the history does not change, so the retried round sees
    /// the same context. Past the budget the turn fails with `Timeout`
    /// and the agent parks in an `Error` state for the caller to
    /// inspect.
    pub fn on_timeout(&mut self) -> (r: TurnStep)
        requires
            old(self).wf(),
            old(self).spec_state() is Processing,
            old(self).spec_phase() is AwaitingDecision || old(self).spec_phase() is Streaming,
        ensures
            final(self).wf(),
            final(self).spec_history() == old(self).spec_history(),
            final(self).spec_tools() == old(self).spec_tools(),
            final(self).spec_config() == old(self).spec_config(),
            final(self).spec_rounds() == old(self).spec_rounds(),
            final(self).spec_streaming() == old(self).spec_streaming(),
            old(self).spec_retries() < old(self).spec_config().retry_config.max_retries ==> (
            r matches TurnStep::AskProvider { context, max_tokens, timeout_ms } && context_ok(
                old(self).spec_history(),
                old(self).spec_config().max_tokens,
                messages_view(context@),
            ) && max_tokens == old(self).spec_config().max_tokens && timeout_ms == old(self).spec_config().timeout_ms && final(self).spec_retries() == old(self).spec_retries()
                + 1 && final(self).spec_state() is Processing && final(self).spec_phase() == old(self).spec_phase() && final(self).spec_stream_text().len() == 0 && final(self).spec_stream_calls() is None),
            old(self).spec_retries() >= old(self).spec_config().retry_config.max_retries ==> (
            r matches TurnStep::Failed { error } && error == AgentError::Timeout && (
            final(self).spec_state() matches AgentState::Error(m) && m@ == timeout_error_text())
                && final(self).spec_phase() is Idle),
    {
        if self.retries < self.config.retry_config.max_retries {
            self.retries = self.retries + 1;
            self.stream_text = String::new();
            self.stream_calls = None;
            self.ask_provider_step()
        } else {
            self.state = AgentState::Error(
                "the provider round timed out and the retry budget is exhausted".to_owned(),
            );
            self.phase = TurnPhase::Idle;
            TurnStep::Failed { error: AgentError::Timeout }
        }
    }

    /// Takes a provider-level failure. It is not retried: the turn fails
    /// with `TransportFailure` at once, the history untouched, and the
    /// agent parks in an `Error` state carrying the failure's text.
    pub fn on_provider_failure(&mut self, error: String) -> (r: TurnStep)
        requires
            old(self).wf(),
            old(self).spec_state() is Processing,
            old(self).spec_phase() is AwaitingDecision || old(self).spec_phase() is Streaming,
        ensures
            final(self).wf(),
            final(self).spec_history() == old(self).spec_history(),
            final(self).spec_tools() == old(self).spec_tools(),
            final(self).spec_config() == old(self).spec_config(),
            r matches TurnStep::Failed { error: e } && (e matches AgentError::TransportFailure(msg)
                && msg == error),
            final(self).spec_state() matches AgentState::Error(m) && m@ == error@,
            final(self).spec_phase() is Idle,
    {
        self.state = AgentState::Error(error.clone());
        self.phase = TurnPhase::Idle;
        TurnStep::Failed { error: AgentError::TransportFailure(error) }
    }

    /// Takes the outcomes of the handed-out batch, appends every result
    /// to the history — successes as the tool's output, failures as a
    /// notice naming the tool and its error — and either opens the next
    /// round or, when the round limit is reached, fails with
    /// `RetryExhausted`. Tool failures never consume a retry and never
    /// abort the turn.
    pub fn on_tool_outcomes(&mut self, outcomes: Vec<ToolOutcome>) -> (r: TurnStep)
        requires
            old(self).wf(),
            old(self).spec_state() is Processing,
            old(self).spec_phase() is AwaitingTools,
            outcomes@.len() == old(self).spec_pending_runnable().len(),
            forall|k: int|
                0 <= k < outcomes@.len() ==> outcomes@[k].call_id@ == old(self).spec_pending_runnable()[k].call_id@,
        ensures
            final(self).wf(),
            final(self).spec_tools() == old(self).spec_tools(),
            final(self).spec_config() == old(self).spec_config(),
            final(self).spec_retries() == old(self).spec_retries(),
            final(self).spec_streaming() == old(self).spec_streaming(),
            final(self).spec_history() == old(self).spec_history() + tool_success_messages(
                spec_successes(
                    old(self).spec_pending_batch(),
                    old(self).spec_tools(),
                    outcomes@,
                ),
            ) + tool_failure_messages(
                spec_failures(old(self).spec_pending_batch(), old(self).spec_tools(), outcomes@),
                old(self).spec_pending_batch(),
            ),
            final(self).spec_pending_batch().len() == 0,
            old(self).spec_rounds() >= old(self).spec_config().max_turns ==> (
            r matches TurnStep::Failed { error } && error == AgentError::RetryExhausted && (
            final(self).spec_state() matches AgentState::Error(m) && m@ == exhausted_error_text())
                && final(self).spec_phase() is Idle),
            old(self).spec_rounds() < old(self).spec_config().max_turns ==> (
            r matches TurnStep::AskProvider { context, max_tokens, timeout_ms } && context_ok(
                final(self).spec_history(),
                old(self).spec_config().max_tokens,
                messages_view(context@),
            ) && max_tokens == old(self).spec_config().max_tokens && timeout_ms == old(self).spec_config().timeout_ms && final(self).spec_rounds() == old(self).spec_rounds() + 1
                && final(self).spec_state() is Processing && final(self).spec_phase() == (if old(self).spec_streaming() {
                TurnPhase::Streaming
            } else {
                TurnPhase::AwaitingDecision
            })),
    {
        proof {
            assert(outcomes_match(self.pending_batch@, self.tools@, outcomes@));
        }
        let result = crate::tools::collect_tool_results(&self.pending_batch, &self.tools, &outcomes);
        append_tool_results(&mut self.history, &result, &self.pending_batch);
        self.pending_batch = Vec::new();
        self.pending_runnable = Vec::new();
        self.stream_text = String::new();
        self.stream_calls = None;
        proof {
            reveal(Seq::filter);
        }
        if self.rounds >= self.config.max_turns {
            self.state = AgentState::Error(
                "the round limit was reached without a final reply".to_owned(),
            );
            self.phase = TurnPhase::Idle;
            TurnStep::Failed { error: AgentError::RetryExhausted }
        } else {
            self.rounds = self.rounds + 1;
            self.phase = if self.streaming {
                TurnPhase::Streaming
            } else {
                TurnPhase::AwaitingDecision
            };
            self.ask_provider_step()
        }
    }

    /// Takes one fragment of a streamed round: its text joins the
    /// accumulated reply and is handed back to surface to the caller; a
    /// tool-request fragment also records its call map, the last one
    /// seen winning. The history is not touched — it changes only at
    /// the round's end.
    pub fn on_stream_fragment(&mut self, decision: Decision) -> (emit: String)
        requires
            old(self).wf(),
            old(self).spec_state() is Processing,
            old(self).spec_phase() is Streaming,
            decision matches Decision::ExecuteTool(t, calls) ==> batch_wf(calls@),
        ensures
            final(self).wf(),
            final(self).spec_history() == old(self).spec_history(),
            final(self).spec_tools() == old(self).spec_tools(),
            final(self).spec_config() == old(self).spec_config(),
            final(self).spec_state() is Processing,
            final(self).spec_phase() is Streaming,
            final(self).spec_rounds() == old(self).spec_rounds(),
            final(self).spec_retries() == old(self).spec_retries(),
            final(self).spec_streaming() == old(self).spec_streaming(),
            decision matches Decision::Respond(text) ==> (emit == text && final(self).spec_stream_text() == old(self).spec_stream_text() + text@ && final(self).spec_stream_calls() == old(self).spec_stream_calls()),
            decision matches Decision::ExecuteTool(text, calls) ==> (emit == text && final(self).spec_stream_text() == old(self).spec_stream_text() + text@ && final(self).spec_stream_calls() == Some(calls)),
    {
        match decision {
            Decision::Respond(text) => {
                self.stream_text.append(text.as_str());
                text
            },
            Decision::ExecuteTool(text, calls) => {
                self.stream_text.append(text.as_str());
                self.stream_calls = Some(calls);
                text
            },
        }
    }

    /// Closes a streamed round once its fragment sequence ends. If no
    /// call map was observed the accumulated text is the reply and the
    /// turn closes as a `Respond` round does; otherwise the assistant
    /// message with the accumulated text and the call map joins the
    /// history and the resolvable calls are handed out.
    pub fn on_stream_end(&mut self) -> (r: TurnStep)
        requires
            old(self).wf(),
            old(self).spec_state() is Processing,
            old(self).spec_phase() is Streaming,
        ensures
            final(self).wf(),
            final(self).spec_tools() == old(self).spec_tools(),
            final(self).spec_config() == old(self).spec_config(),
            final(self).spec_rounds() == old(self).spec_rounds(),
            final(self).spec_retries() == old(self).spec_retries(),
            final(self).spec_streaming() == old(self).spec_streaming(),
            old(self).spec_stream_calls() is None ==> (r matches TurnStep::Done { reply } && reply@
                == old(self).spec_stream_text() && final(self).spec_history() == old(self).spec_history().push(
                MessageView::Assistant {
                    content: old(self).spec_stream_text(),
                    tool_calls: None,
                },
            ) && final(self).spec_state() is Ready && final(self).spec_phase() is Idle),
            old(self).spec_stream_calls() matches Some(calls) ==> (
            r matches TurnStep::RunTools { calls: runnable } && final(self).spec_history() == old(self).spec_history().push(
                MessageView::Assistant {
                    content: old(self).spec_stream_text(),
                    tool_calls: Some(tool_calls_view(calls@)),
                },
            ) && final(self).spec_pending_batch() == calls@ && final(self).spec_pending_runnable()
                == calls@.filter(registered_pred(old(self).spec_tools())) && runnable@ == final(self).spec_pending_runnable() && final(self).spec_state() is Processing && final(self).spec_phase() is AwaitingTools && final(self).spec_stream_text().len() == 0 && final(self).spec_stream_calls() is None),
    {
        let text = self.stream_text.clone();
        self.stream_text = String::new();
        let calls_opt = self.stream_calls.take();
        match calls_opt {
            None => {
                self.history.add_message(
                    Message::Assistant { content: text.clone(), tool_calls: None },
                );
                self.state = AgentState::Ready;
                self.phase = TurnPhase::Idle;
                TurnStep::Done { reply: text }
            },
            Some(calls) => {
                self.history.add_message(
                    Message::Assistant { content: text, tool_calls: Some(clone_tool_calls(&calls)) },
                );
                let runnable = crate::tools::plan_tool_batch(&calls, &self.tools);
                let handed = clone_tool_calls(&runnable);
                self.pending_batch = calls;
                self.pending_runnable = runnable;
                self.phase = TurnPhase::AwaitingTools;
                TurnStep::RunTools { calls: handed }
            },
        }
    }

    /// Wraps one unreadable streamed frame as the error surfaced for it.
    /// The frame is skipped and the stream goes on; nothing of the agent
    /// changes.
    pub fn on_malformed_frame(&self, detail: String) -> (e: AgentError)
        requires
            self.spec_phase() is Streaming,
        ensures
            e == AgentError::MalformedFrame(detail),
    {
        AgentError::MalformedFrame(detail)
    }

    /// The step that asks the provider for the next decision.
    fn ask_provider_step(&self) -> (s: TurnStep)
        ensures
            s matches TurnStep::AskProvider { context, max_tokens, timeout_ms } && context_ok(
                self.spec_history(),
                self.spec_config().max_tokens,
                messages_view(context@),
            ) && max_tokens == self.spec_config().max_tokens && timeout_ms
                == self.spec_config().timeout_ms,
    {
        TurnStep::AskProvider {
            context: self.history.get_context_messages(self.config.max_tokens),
            max_tokens: self.config.max_tokens,
            timeout_ms: self.config.timeout_ms,
        }
    }
}

} // verus!
