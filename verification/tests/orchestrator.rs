use eigen_core::calculator;
use eigen_core::chat::ChatMsg;
use eigen_core::conversation::{build_conversation, ConversationMessage};
use eigen_core::openai::{
    FunctionCallDelta, OpenAIDelta, OpenAIStreamChoice, OpenAIStreamResponse, ToolCallDelta,
};
use eigen_core::orchestrator::{NextStep, TurnState, MAX_TOOL_ITERATIONS};
use eigen_core::tools::{ToolCallRequest, ToolCallResult};

fn event(
    content: Option<&str>,
    reasoning: Option<&str>,
    tool_calls: Option<Vec<ToolCallDelta>>,
) -> OpenAIStreamResponse {
    OpenAIStreamResponse {
        choices: vec![OpenAIStreamChoice {
            delta: OpenAIDelta {
                content: content.map(|s| s.to_string()),
                reasoning_content: reasoning.map(|s| s.to_string()),
                tool_calls,
            },
        }],
    }
}

fn calculator_call_delta(arguments: &str) -> ToolCallDelta {
    ToolCallDelta {
        index: 0,
        id: Some("call_1".to_string()),
        function: Some(FunctionCallDelta {
            name: Some("calculator".to_string()),
            arguments: Some(arguments.to_string()),
        }),
    }
}

#[test]
fn test_tool_loop_stops_at_ten_iterations() {
    // a stream that requests tool calls forever is cut off at the bound,
    // with the accumulated text kept and no error
    let mut st = TurnState::begin_turn("chat1".to_string(), Vec::new());
    let mut streams_opened = 0usize;
    loop {
        match st.start_iteration() {
            NextStep::FinishTurn => break,
            NextStep::OpenStream => {
                streams_opened += 1;
                assert!(streams_opened <= MAX_TOOL_ITERATIONS);
                let _ = st.on_stream_event(&event(
                    Some("thinking..."),
                    None,
                    Some(vec![calculator_call_delta("{\"expression\":\"1+1\"}")]),
                ));
                match st.on_stream_end() {
                    NextStep::OpenStream => {
                        // run the requested call and feed its result back
                        let result =
                            ToolCallResult::success("call_1".to_string(), "2".to_string());
                        let _ = st.on_tool_result(0, &result);
                    }
                    NextStep::FinishTurn => break,
                }
            }
        }
    }
    assert_eq!(streams_opened, MAX_TOOL_ITERATIONS);
    assert!(st.finished);
    assert!(!st.cancelled);
    // the text gathered along the way is the answer
    assert_eq!(st.full_content, "thinking...".repeat(MAX_TOOL_ITERATIONS));
}

#[test]
fn test_calculator_turn_scenario() {
    // prompt "2+2?" with the calculator enabled: one tool-call stream,
    // one calling event, one successful result whose output contains 4,
    // and a final answer with no pending tool calls
    let history = vec![ChatMsg {
        role: "user".to_string(),
        content: "2+2?".to_string(),
        images: Vec::new(),
    }];
    let conversation = build_conversation(&history, "You are a helpful assistant.");
    let mut st = TurnState::begin_turn("chat-calc".to_string(), conversation);

    assert_eq!(st.start_iteration(), NextStep::OpenStream);
    let emitted = st.on_stream_event(&event(
        None,
        None,
        Some(vec![calculator_call_delta("{\"expression\":\"2+2\"}")]),
    ));
    assert!(emitted.is_none());
    assert_eq!(st.on_stream_end(), NextStep::OpenStream);

    // the shell now runs each accumulated call: exactly one
    assert_eq!(st.tool_calls.len(), 1);
    let mut calling_events = 0usize;
    let mut result_events = 0usize;
    let call = &st.tool_calls[0];
    let request = ToolCallRequest {
        tool_id: call.name.clone(),
        call_id: call.id.clone(),
        arguments: call.arguments.clone(),
    };
    calling_events += 1;
    let result = calculator::execute(&request);
    assert!(result.success);
    assert!(result.output.contains("4"));
    let payload = st.on_tool_result(0, &result);
    result_events += 1;
    assert!(payload.success);
    assert!(payload.output.contains("4"));
    assert_eq!(payload.tool_id, "calculator");

    // the next stream returns the final text and no tool calls
    assert_eq!(st.start_iteration(), NextStep::OpenStream);
    let emitted = st.on_stream_event(&event(Some("2 + 2 = 4."), None, None));
    assert!(emitted.is_some());
    assert_eq!(st.on_stream_end(), NextStep::FinishTurn);
    assert_eq!(st.start_iteration(), NextStep::FinishTurn);

    assert_eq!(calling_events, 1);
    assert_eq!(result_events, 1);
    assert!(st.finished);
    // no pending tool calls in the last stream
    assert!(st.tool_calls.is_empty());
    assert_eq!(st.full_content, "2 + 2 = 4.");
}

#[test]
fn test_cancellation_ends_whole_turn() {
    let mut st = TurnState::begin_turn("chat2".to_string(), Vec::new());
    assert_eq!(st.start_iteration(), NextStep::OpenStream);
    let _ = st.on_stream_event(&event(Some("partial"), None, None));
    st.cancel();
    // even with tool calls pending, a cancelled turn is over
    let _ = st.on_stream_event(&event(
        None,
        None,
        Some(vec![calculator_call_delta("{}")]),
    ));
    assert_eq!(st.on_stream_end(), NextStep::FinishTurn);
    assert!(st.finished);
    // whatever text was generated before cancellation is kept
    assert_eq!(st.full_content, "partial");
}

#[test]
fn test_failed_tool_feeds_error_line_back() {
    let mut st = TurnState::begin_turn("chat3".to_string(), Vec::new());
    assert_eq!(st.start_iteration(), NextStep::OpenStream);
    let _ = st.on_stream_event(&event(
        None,
        None,
        Some(vec![calculator_call_delta("{\"expression\":\"2 + + 2\"}")]),
    ));
    assert_eq!(st.on_stream_end(), NextStep::OpenStream);
    let failure = ToolCallResult::error("call_1".to_string(), "bad expression".to_string());
    let payload = st.on_tool_result(0, &failure);
    assert!(!payload.success);
    match st.conversation.last().unwrap() {
        ConversationMessage::ToolResult(tm) => {
            assert_eq!(tm.role, "tool");
            assert_eq!(tm.content, "Error: bad expression");
            assert_eq!(tm.tool_call_id, "call_1");
        }
        _ => panic!("expected a tool result message"),
    }
}

#[test]
fn test_reasoning_deltas_forwarded_and_accumulated() {
    let mut st = TurnState::begin_turn("chat4".to_string(), Vec::new());
    assert_eq!(st.start_iteration(), NextStep::OpenStream);
    let e1 = st.on_stream_event(&event(Some("Hello"), Some("think1"), None)).unwrap();
    assert_eq!(e1.delta, "Hello");
    assert_eq!(e1.reasoning_delta, "think1");
    let e2 = st.on_stream_event(&event(Some(" world"), None, None)).unwrap();
    assert_eq!(e2.delta, " world");
    assert_eq!(e2.reasoning_delta, "");
    // an event with no text and no reasoning is not forwarded
    assert!(st.on_stream_event(&event(None, None, None)).is_none());
    assert_eq!(st.full_content, "Hello world");
    assert_eq!(st.full_thinking, "think1");
}

#[test]
fn test_history_truncated_to_last_twenty() {
    let mut history = Vec::new();
    for i in 0..25 {
        history.push(ChatMsg {
            role: "user".to_string(),
            content: format!("message {}", i),
            images: Vec::new(),
        });
    }
    let conversation = build_conversation(&history, "sys");
    // one system message plus the last twenty history messages
    assert_eq!(conversation.len(), 21);
    match &conversation[1] {
        ConversationMessage::Standard(m) => match &m.content {
            eigen_core::openai::OpenAIContent::Text(t) => assert_eq!(t, "message 5"),
            _ => panic!("expected text content"),
        },
        _ => panic!("expected a standard message"),
    }
}

#[test]
fn test_image_attachments_become_data_urls() {
    let history = vec![ChatMsg {
        role: "user".to_string(),
        content: "look".to_string(),
        images: vec!["BASE64DATA".to_string()],
    }];
    let conversation = build_conversation(&history, "sys");
    match &conversation[1] {
        ConversationMessage::Standard(m) => match &m.content {
            eigen_core::openai::OpenAIContent::Parts(parts) => {
                assert_eq!(parts.len(), 2);
                match &parts[1] {
                    eigen_core::openai::OpenAIContentPart::ImageUrl { image_url } => {
                        assert_eq!(image_url.url, "data:image/jpeg;base64,BASE64DATA");
                    }
                    _ => panic!("expected an image part"),
                }
            }
            _ => panic!("expected multimodal parts"),
        },
        _ => panic!("expected a standard message"),
    }
}
