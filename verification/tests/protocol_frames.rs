use agent_core::protocol::PayloadMessage;
use agent_core::protocol::PayloadToolCall;
use agent_core::protocol::SseLine;
use agent_core::protocol::WireMessage;
use agent_core::protocol::classify_sse_line;
use agent_core::protocol::decision_of_chunk;
use agent_core::protocol::decision_of_response;
use agent_core::protocol::wire_messages;
use agent_core::types::AgentConfig;
use agent_core::types::Decision;
use agent_core::types::Message;
use agent_core::types::ToolCall;
use agent_core::types::ToolCallArgs;

fn entry(id: &str, name: &str, args: &str) -> PayloadToolCall {
    PayloadToolCall {
        id: Some(id.to_string()),
        name: Some(name.to_string()),
        arguments: Some(args.to_string()),
    }
}

#[test]
fn empty_response_degrades_to_empty_reply() {
    match decision_of_response(Vec::new()) {
        Decision::Respond(text) => assert_eq!(text, ""),
        other => panic!("expected Respond, got {:?}", other),
    }
}

#[test]
fn plain_content_becomes_reply() {
    let d = decision_of_response(vec![PayloadMessage {
        content: Some("hello there".to_string()),
        tool_calls: None,
    }]);
    match d {
        Decision::Respond(text) => assert_eq!(text, "hello there"),
        other => panic!("expected Respond, got {:?}", other),
    }
}

#[test]
fn tool_entries_become_execute_tool() {
    let d = decision_of_response(vec![PayloadMessage {
        content: Some("calling".to_string()),
        tool_calls: Some(vec![entry("a", "echo", "{\"text\": \"hi\"}")]),
    }]);
    match d {
        Decision::ExecuteTool(text, calls) => {
            assert_eq!(text, "calling");
            assert_eq!(calls.len(), 1);
            assert_eq!(
                calls[0],
                ToolCall {
                    call_id: "a".to_string(),
                    args: ToolCallArgs {
                        tool_type: "function".to_string(),
                        tool_name: "echo".to_string(),
                        args: "{\"text\": \"hi\"}".to_string(),
                    },
                },
            );
        }
        other => panic!("expected ExecuteTool, got {:?}", other),
    }
}

#[test]
fn unparseable_arguments_fall_back_to_empty_object() {
    // The JSON check decides: broken argument text is replaced by an
    // empty object, well-formed text is kept as it came.
    let d = decision_of_response(vec![PayloadMessage {
        content: None,
        tool_calls: Some(vec![
            entry("bad", "echo", "{not json"),
            entry("good", "echo", "{\"text\": \"ok\"}"),
        ]),
    }]);
    match d {
        Decision::ExecuteTool(text, calls) => {
            assert_eq!(text, "");
            assert_eq!(calls.len(), 2);
            assert_eq!(calls[0].args.args, "{}");
            assert_eq!(calls[1].args.args, "{\"text\": \"ok\"}");
        }
        other => panic!("expected ExecuteTool, got {:?}", other),
    }
}

#[test]
fn incomplete_entries_are_skipped() {
    let d = decision_of_response(vec![PayloadMessage {
        content: Some("partial".to_string()),
        tool_calls: Some(vec![PayloadToolCall {
            id: Some("x".to_string()),
            name: None,
            arguments: Some("{}".to_string()),
        }]),
    }]);
    // The only entry is incomplete, so no call survives and the text is
    // a plain reply.
    match d {
        Decision::Respond(text) => assert_eq!(text, "partial"),
        other => panic!("expected Respond, got {:?}", other),
    }
}

#[test]
fn duplicate_call_ids_keep_the_last_entry() {
    let d = decision_of_response(vec![PayloadMessage {
        content: None,
        tool_calls: Some(vec![
            entry("dup", "echo", "{\"text\": \"first\"}"),
            entry("dup", "echo", "{\"text\": \"second\"}"),
        ]),
    }]);
    match d {
        Decision::ExecuteTool(_, calls) => {
            assert_eq!(calls.len(), 1);
            assert_eq!(calls[0].call_id, "dup");
            assert_eq!(calls[0].args.args, "{\"text\": \"second\"}");
        }
        other => panic!("expected ExecuteTool, got {:?}", other),
    }
}

#[test]
fn chunk_without_delta_is_empty_fragment() {
    match decision_of_chunk(None) {
        Decision::Respond(text) => assert_eq!(text, ""),
        other => panic!("expected Respond, got {:?}", other),
    }
}

#[test]
fn chunk_delta_translates_like_a_response() {
    let d = decision_of_chunk(Some(PayloadMessage {
        content: Some("frag".to_string()),
        tool_calls: None,
    }));
    match d {
        Decision::Respond(text) => assert_eq!(text, "frag"),
        other => panic!("expected Respond, got {:?}", other),
    }
}

#[test]
fn sse_lines_are_classified() {
    assert_eq!(
        classify_sse_line("data: {\"choices\":[]}"),
        SseLine::Data("{\"choices\":[]}".to_string()),
    );
    assert_eq!(classify_sse_line("data: [DONE]"), SseLine::Done);
    assert_eq!(classify_sse_line("  data:   [DONE]  "), SseLine::Done);
    assert_eq!(classify_sse_line("data:"), SseLine::Ignored);
    assert_eq!(classify_sse_line("data:   "), SseLine::Ignored);
    assert_eq!(classify_sse_line(""), SseLine::Ignored);
    assert_eq!(classify_sse_line("event: ping"), SseLine::Ignored);
    assert_eq!(
        classify_sse_line("  data: {\"x\":1}  "),
        SseLine::Data("{\"x\":1}".to_string()),
    );
}

#[test]
fn wire_form_maps_roles_and_carries_calls() {
    let call = ToolCall {
        call_id: "c".to_string(),
        args: ToolCallArgs {
            tool_type: "function".to_string(),
            tool_name: "echo".to_string(),
            args: "{}".to_string(),
        },
    };
    let messages = vec![
        Message::Developer {
            content: "dev note".to_string(),
        },
        Message::System {
            content: "be helpful".to_string(),
        },
        Message::User {
            content: "hi".to_string(),
        },
        Message::Assistant {
            content: "calling".to_string(),
            tool_calls: Some(vec![call.clone()]),
        },
        Message::Tool {
            content: "output".to_string(),
            tool_call_id: "c".to_string(),
        },
    ];
    let wire = wire_messages(&messages);
    assert_eq!(wire.len(), 5);
    assert_eq!(
        wire[0],
        WireMessage {
            role: "system".to_string(),
            content: "dev note".to_string(),
            tool_calls: None,
            tool_call_id: None,
        },
    );
    assert_eq!(wire[1].role, "system");
    assert_eq!(wire[2].role, "user");
    assert_eq!(
        wire[3],
        WireMessage {
            role: "assistant".to_string(),
            content: "calling".to_string(),
            tool_calls: Some(vec![call]),
            tool_call_id: None,
        },
    );
    assert_eq!(
        wire[4],
        WireMessage {
            role: "tool".to_string(),
            content: "output".to_string(),
            tool_calls: None,
            tool_call_id: Some("c".to_string()),
        },
    );
}

#[test]
fn default_config_matches_documented_values() {
    let config = AgentConfig::default();
    assert_eq!(config.system_prompt, "You are a helpful AI assistant.");
    assert_eq!(config.max_turns, 10);
    assert_eq!(config.max_tokens, Some(2048));
    assert!(!config.enable_parallel);
    assert_eq!(config.retry_config.max_retries, 3);
    assert_eq!(config.retry_config.retry_delay_ms, 1000);
    assert!(config.retry_config.should_retry_on_error);
    assert_eq!(config.temperature_milli, 700);
    assert_eq!(config.timeout_ms, 30000);
}
