use agent_core::Agent;
use agent_core::TurnStep;
use agent_core::types::AgentConfig;
use agent_core::types::AgentError;
use agent_core::types::AgentState;
use agent_core::types::Decision;
use agent_core::types::Message;
use agent_core::types::RetryConfig;
use agent_core::types::ToolCall;
use agent_core::types::ToolCallArgs;
use agent_core::types::ToolCalls;
use agent_core::tools::ToolOutcome;
use agent_core::tools::ToolSpec;

fn test_config() -> AgentConfig {
    AgentConfig {
        system_prompt: "You are a helpful assistant.".to_string(),
        max_turns: 5,
        max_tokens: Some(1000),
        enable_parallel: false,
        retry_config: RetryConfig {
            max_retries: 2,
            retry_delay_ms: 100,
            should_retry_on_error: true,
        },
        temperature_milli: 700,
        timeout_ms: 5000,
    }
}

fn echo_tool_spec() -> ToolSpec {
    ToolSpec {
        name: "echo".to_string(),
        description: Some("A simple echo tool that returns the input text".to_string()),
        args_schema: Some(
            "{\"type\":\"object\",\"properties\":{\"text\":{\"type\":\"string\"}},\"required\":[\"text\"]}"
                .to_string(),
        ),
    }
}

fn create_test_agent() -> Agent {
    let mut agent = Agent::new().with_config(test_config());
    agent.register_tool(echo_tool_spec());
    agent
}

/// The echo tool's behaviour: hand back the "text" argument, fail when
/// it is missing.
fn run_echo_tool(args: &str) -> Result<String, String> {
    let value: serde_json::Value =
        serde_json::from_str(args).map_err(|e| format!("bad arguments: {}", e))?;
    match value.get("text").and_then(|v| v.as_str()) {
        Some(text) => Ok(text.to_string()),
        None => Err("Missing 'text' argument".to_string()),
    }
}

/// The mock provider: echoes the newest user message.
fn mock_decision(context: &[Message]) -> Decision {
    if let Some(Message::User { content }) = context.last() {
        Decision::Respond(format!("Echo: {}", content))
    } else {
        Decision::Respond("No messages provided".to_string())
    }
}

/// Executes the handed-out calls with the echo tool.
fn run_tools(calls: &ToolCalls) -> Vec<ToolOutcome> {
    calls
        .iter()
        .map(|c| ToolOutcome {
            call_id: c.call_id.clone(),
            outcome: run_echo_tool(&c.args.args),
        })
        .collect()
}

/// Drives one whole turn against the mock provider, as a transport
/// would.
fn handle_message(agent: &mut Agent, message: &str) -> Result<String, AgentError> {
    let mut step = agent.start_turn(message.to_string())?;
    loop {
        step = match step {
            TurnStep::AskProvider { context, .. } => agent.on_decision(mock_decision(&context)),
            TurnStep::RunTools { calls } => agent.on_tool_outcomes(run_tools(&calls)),
            TurnStep::Done { reply } => return Ok(reply),
            TurnStep::Failed { error } => return Err(error),
        };
    }
}

fn call(id: &str, tool: &str, args: &str) -> ToolCall {
    ToolCall {
        call_id: id.to_string(),
        args: ToolCallArgs {
            tool_type: "function".to_string(),
            tool_name: tool.to_string(),
            args: args.to_string(),
        },
    }
}

#[test]
fn test_agent_basic_flow() {
    let mut agent = create_test_agent();

    let response = handle_message(&mut agent, "Hello").unwrap();
    assert_eq!(response, "Echo: Hello");
    assert!(matches!(agent.state(), AgentState::Ready));

    let context = agent.get_context_messages(None);
    assert_eq!(context.len(), 3);
    assert_eq!(
        context[0],
        Message::System {
            content: "You are a helpful assistant.".to_string()
        },
    );
    assert_eq!(
        context[1],
        Message::User {
            content: "Hello".to_string()
        },
    );
    assert_eq!(
        context[2],
        Message::Assistant {
            content: "Echo: Hello".to_string(),
            tool_calls: None,
        },
    );
}

#[test]
fn test_agent_tool_execution() {
    let agent = create_test_agent();
    let tool_call_id = "tool_call_id".to_string();
    let batch = vec![call("tool_call_id", "echo", "{\"text\": \"test message\"}")];

    let outcomes = run_tools(&batch);
    let result = agent.execute_tool(&batch, &outcomes);

    assert_eq!(result.failure_result.len(), 0);
    assert_eq!(result.success_result.len(), 1);
    assert_eq!(result.success_result[0].0, tool_call_id);
    assert_eq!(result.success_result[0].1, "test message");
}

#[test]
fn test_agent_memory_interaction() {
    let mut agent = create_test_agent();

    handle_message(&mut agent, "First message").unwrap();
    handle_message(&mut agent, "Second message").unwrap();

    let context = agent.get_context_messages(None);
    assert_eq!(context.len(), 5);

    let recent_messages = agent.get_context_messages(None);
    assert!(!recent_messages.is_empty());
    assert_eq!(
        *recent_messages.last().unwrap(),
        Message::Assistant {
            content: "Echo: Second message".into(),
            tool_calls: None,
        },
    );
}

#[test]
fn test_agent_error_handling() {
    let mut agent = create_test_agent();

    let batch1 = vec![call("id", "what_tool", "{}")];
    let result = agent.execute_tool(&batch1, &Vec::new());
    assert!(!result.failure_result.is_empty());

    let batch2 = vec![call("id", "echo", "{}")];
    let outcomes = run_tools(&batch2);
    let result = agent.execute_tool(&batch2, &outcomes);
    assert!(!result.failure_result.is_empty());

    // A turn under way refuses the next message.
    agent.start_turn("busy".to_string()).unwrap();
    let result = agent.start_turn("Test".to_string());
    assert!(matches!(result, Err(AgentError::NotReady)));
}

#[test]
fn test_agent_state_transitions() {
    let mut agent = create_test_agent();

    assert!(matches!(agent.state(), AgentState::Ready));

    let reply = handle_message(&mut agent, "Test").unwrap();
    assert_eq!(reply, "Echo: Test");
    assert!(matches!(agent.state(), AgentState::Ready));

    // A provider failure parks the agent in an error state; the next
    // message is refused.
    agent.start_turn("again".to_string()).unwrap();
    let step = agent.on_provider_failure("test error".to_string());
    assert!(matches!(
        step,
        TurnStep::Failed {
            error: AgentError::TransportFailure(_)
        }
    ));
    assert!(matches!(agent.state(), AgentState::Error(_)));
    let result = agent.start_turn("Test".to_string());
    assert!(result.is_err());
}

#[test]
fn test_agent_complex_conversation() {
    let mut agent = create_test_agent();

    let response = handle_message(&mut agent, "Hello").unwrap();
    assert_eq!(response, "Echo: Hello");

    let response = handle_message(&mut agent, "How are you?").unwrap();
    assert_eq!(response, "Echo: How are you?");

    let context = agent.get_context_messages(None);
    assert_eq!(context.len(), 5);

    let trimmed = agent.get_context_messages(Some(50));
    assert!(trimmed.len() <= context.len());

    assert!(matches!(agent.state(), AgentState::Ready));
}

#[test]
fn test_agent_tool_chain() {
    let agent = create_test_agent();

    let batch = vec![call("id1", "echo", "{\"text\": \"first call\"}")];
    let result1 = agent.execute_tool(&batch, &run_tools(&batch));
    assert_eq!(result1.failure_result.is_empty(), true);
    assert_eq!(result1.success_result.len(), 1);

    let output = &result1.success_result[0].1;
    let batch = vec![call(
        "id1",
        "echo",
        &format!("{{\"text\": \"{}\"}}", output),
    )];
    let result2 = agent.execute_tool(&batch, &run_tools(&batch));
    assert_eq!(result2.failure_result.is_empty(), true);
    assert_eq!(result2.success_result.len(), 1);

    let context = agent.get_context_messages(None);
    let tool_messages = context
        .iter()
        .filter(|m| matches!(m, Message::Tool { .. }))
        .count();
    assert_eq!(tool_messages, 0);
}

#[test]
fn test_mock_llm_client() {
    let messages = vec![Message::User {
        content: "Hello".to_string(),
    }];

    match mock_decision(&messages) {
        Decision::Respond(response) => {
            assert_eq!(response, "Echo: Hello");
        }
        _ => panic!("Expected Respond variant"),
    }

    // The streamed variant of the mock yields the same decision as a
    // single fragment.
    let mut fragments = vec![mock_decision(&messages)].into_iter();
    if let Some(decision) = fragments.next() {
        match decision {
            Decision::Respond(response) => {
                assert_eq!(response, "Echo: Hello");
            }
            _ => panic!("Expected Respond variant"),
        }
    } else {
        panic!("Expected a chunk from stream");
    }
}

#[test]
fn test_echo_tool() {
    let tool = echo_tool_spec();

    assert_eq!(tool.name, "echo");
    assert!(!tool.description.is_none());

    let result = run_echo_tool("{\"text\": \"Hello, World!\"}").unwrap();
    assert_eq!(result, "Hello, World!");

    let result = run_echo_tool("{}");
    assert!(result.is_err());
}

#[test]
fn tool_round_appends_output_and_continues() {
    // A requested echo call whose output comes back joins the history as
    // a tool message, and the loop goes on to another round without
    // consuming a retry.
    let mut agent = create_test_agent();
    agent.start_turn("please echo".to_string()).unwrap();

    let batch = vec![call("c1", "echo", "{\"text\": \"x\"}")];
    let step = agent.on_decision(Decision::ExecuteTool("".to_string(), batch));
    let calls = match step {
        TurnStep::RunTools { calls } => calls,
        other => panic!("expected RunTools, got {:?}", other),
    };
    assert_eq!(calls.len(), 1);

    let step = agent.on_tool_outcomes(run_tools(&calls));
    assert!(matches!(step, TurnStep::AskProvider { .. }));

    let context = agent.get_context_messages(None);
    assert_eq!(
        *context.last().unwrap(),
        Message::Tool {
            content: "x".to_string(),
            tool_call_id: "c1".to_string()
        },
    );

    // The round after the tool results still answers normally.
    let step = match step {
        TurnStep::AskProvider { .. } => agent.on_decision(Decision::Respond("done".to_string())),
        _ => unreachable!(),
    };
    assert!(matches!(step, TurnStep::Done { .. }));
    assert!(matches!(agent.state(), AgentState::Ready));
}

#[test]
fn missing_tool_fails_that_call_only() {
    // An unregistered tool name records a failure for its call-id and
    // the turn keeps going; nothing hard-fails.
    let mut agent = create_test_agent();
    agent.start_turn("try a missing tool".to_string()).unwrap();

    let batch = vec![call("c9", "missing", "{}")];
    let result = agent.execute_tool(&batch, &Vec::new());
    assert_eq!(result.success_result.len(), 0);
    assert_eq!(result.failure_result.len(), 1);
    assert_eq!(result.failure_result[0].0, "c9");
    assert!(result.failure_result[0].1.contains("does not exist"));

    let step = agent.on_decision(Decision::ExecuteTool("".to_string(), batch));
    let calls = match step {
        TurnStep::RunTools { calls } => calls,
        other => panic!("expected RunTools, got {:?}", other),
    };
    assert_eq!(calls.len(), 0);

    let step = agent.on_tool_outcomes(Vec::new());
    assert!(matches!(step, TurnStep::AskProvider { .. }));
    let context = agent.get_context_messages(None);
    match context.last().unwrap() {
        Message::Tool {
            content,
            tool_call_id,
        } => {
            assert_eq!(tool_call_id, "c9");
            assert!(content.contains("missing"));
            assert!(content.contains("does not exist"));
            assert!(content.contains("not be retried"));
        }
        other => panic!("expected a tool message, got {:?}", other),
    }
}

#[test]
fn timeout_retries_then_fails() {
    // With max_retries = 2, a round that times out on every attempt is
    // retried exactly twice beyond the first attempt and then fails.
    let mut agent = create_test_agent();
    let history_before;
    agent.start_turn("slow".to_string()).unwrap();
    history_before = agent.get_context_messages(None);

    let step = agent.on_timeout();
    assert!(matches!(step, TurnStep::AskProvider { .. }));
    let step = agent.on_timeout();
    assert!(matches!(step, TurnStep::AskProvider { .. }));
    let step = agent.on_timeout();
    assert!(matches!(
        step,
        TurnStep::Failed {
            error: AgentError::Timeout
        }
    ));
    assert!(matches!(agent.state(), AgentState::Error(_)));
    // Retried rounds never touched the history.
    assert_eq!(agent.get_context_messages(None), history_before);
}

#[test]
fn round_limit_fails_with_retry_exhausted() {
    let mut config = test_config();
    config.max_turns = 1;
    let mut agent = Agent::new().with_config(config);
    agent.register_tool(echo_tool_spec());

    agent.start_turn("loop forever".to_string()).unwrap();
    let step = agent.on_decision(Decision::ExecuteTool(
        "".to_string(),
        vec![call("c1", "echo", "{\"text\": \"x\"}")],
    ));
    let calls = match step {
        TurnStep::RunTools { calls } => calls,
        other => panic!("expected RunTools, got {:?}", other),
    };
    let step = agent.on_tool_outcomes(run_tools(&calls));
    assert!(matches!(
        step,
        TurnStep::Failed {
            error: AgentError::RetryExhausted
        }
    ));
}

#[test]
fn streamed_turn_accumulates_fragments() {
    let mut agent = create_test_agent();
    agent.start_turn_stream("Hello".to_string()).unwrap();

    let emitted = agent.on_stream_fragment(Decision::Respond("Echo: ".to_string()));
    assert_eq!(emitted, "Echo: ");
    let emitted = agent.on_stream_fragment(Decision::Respond("Hello".to_string()));
    assert_eq!(emitted, "Hello");

    let step = agent.on_stream_end();
    match step {
        TurnStep::Done { reply } => assert_eq!(reply, "Echo: Hello"),
        other => panic!("expected Done, got {:?}", other),
    }
    assert!(matches!(agent.state(), AgentState::Ready));
    let context = agent.get_context_messages(None);
    assert_eq!(
        *context.last().unwrap(),
        Message::Assistant {
            content: "Echo: Hello".to_string(),
            tool_calls: None,
        },
    );
}

#[test]
fn streamed_turn_runs_tools_and_finishes() {
    let mut agent = create_test_agent();
    agent.start_turn_stream("use the tool".to_string()).unwrap();

    agent.on_stream_fragment(Decision::ExecuteTool(
        "working".to_string(),
        vec![call("s1", "echo", "{\"text\": \"streamed\"}")],
    ));
    let step = agent.on_stream_end();
    let calls = match step {
        TurnStep::RunTools { calls } => calls,
        other => panic!("expected RunTools, got {:?}", other),
    };
    let step = agent.on_tool_outcomes(run_tools(&calls));
    assert!(matches!(step, TurnStep::AskProvider { .. }));

    agent.on_stream_fragment(Decision::Respond("all done".to_string()));
    let step = agent.on_stream_end();
    match step {
        TurnStep::Done { reply } => assert_eq!(reply, "all done"),
        other => panic!("expected Done, got {:?}", other),
    }
    let context = agent.get_context_messages(None);
    let tool_messages: Vec<_> = context
        .iter()
        .filter(|m| matches!(m, Message::Tool { .. }))
        .collect();
    assert_eq!(
        tool_messages,
        vec![&Message::Tool {
            content: "streamed".to_string(),
            tool_call_id: "s1".to_string()
        }],
    );
}

#[test]
fn malformed_frame_is_not_fatal() {
    let mut agent = create_test_agent();
    agent.start_turn_stream("stream".to_string()).unwrap();

    let e = agent.on_malformed_frame("not json".to_string());
    assert_eq!(e, AgentError::MalformedFrame("not json".to_string()));

    // The stream goes on after the bad frame.
    agent.on_stream_fragment(Decision::Respond("still here".to_string()));
    let step = agent.on_stream_end();
    match step {
        TurnStep::Done { reply } => assert_eq!(reply, "still here"),
        other => panic!("expected Done, got {:?}", other),
    }
}

#[test]
fn partition_covers_every_call_exactly_once() {
    // One successful call, one failing call, one missing tool: the
    // success and failure keys together are exactly the batch's ids and
    // no id is on both sides.
    let agent = create_test_agent();
    let batch = vec![
        call("ok", "echo", "{\"text\": \"fine\"}"),
        call("boom", "echo", "{}"),
        call("lost", "nowhere", "{}"),
    ];
    let runnable: ToolCalls = batch
        .iter()
        .filter(|c| c.args.tool_name == "echo")
        .cloned()
        .collect();
    let result = agent.execute_tool(&batch, &run_tools(&runnable));

    let mut seen: Vec<&str> = Vec::new();
    for (id, _) in result
        .success_result
        .iter()
        .chain(result.failure_result.iter())
    {
        assert!(!seen.contains(&id.as_str()));
        seen.push(id);
    }
    seen.sort();
    assert_eq!(seen, vec!["boom", "lost", "ok"]);
    assert_eq!(result.success_result[0].1, "fine");
}
