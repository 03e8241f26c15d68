use chatcore::chat::{Admission, ChatProcessor};
use chatcore::error::Error;
use chatcore::interaction::{Content, History, IdGen, Interaction};
use chatcore::openrouter::{
    recover_response, FunctionCall, IncomingContent, IncomingMessage, ToolCall,
};
use chatcore::tools::ToolPayload;

fn call(id: &str, name: &str) -> ToolCall {
    ToolCall {
        id: id.to_string(),
        kind: "function".to_string(),
        function: FunctionCall { name: name.to_string(), arguments: "{}".to_string() },
    }
}

fn model_message(content: IncomingContent, tool_calls: Option<Vec<ToolCall>>) -> IncomingMessage {
    IncomingMessage { role: "assistant".to_string(), content, tool_calls }
}

fn tool_results(h: &History) -> Vec<(String, String)> {
    h.inner
        .iter()
        .filter_map(|i| match i {
            Interaction::ToolResult { tool_call_id, response, .. } => {
                Some((tool_call_id.clone(), response.clone()))
            }
            _ => None,
        })
        .collect()
}

/// A turn with three tool calls where the second tool fails: all three
/// results land, each addressable by its own call id, and the failure is a
/// stringified error, not an abort.
#[test]
fn three_results_one_failure() {
    let mut proc = ChatProcessor::new(History::new(), IdGen::new());
    let msg = model_message(
        IncomingContent::Absent,
        Some(vec![call("a", "ls"), call("b", "find"), call("c", "extract")]),
    );
    let (calls, _events) = proc.on_model_message(msg);
    let calls = calls.expect("the message carried tool calls");
    assert_eq!(calls.len(), 3);

    let results = vec![
        ("a".to_string(), ToolPayload::from(Ok("[\"x\"]".to_string()))),
        ("b".to_string(), ToolPayload::from(Err(Error::Tool("boom".to_string())))),
        ("c".to_string(), ToolPayload::from(Ok("\"done\"".to_string()))),
    ];
    proc.commit_tool_results(results);

    let got = tool_results(&proc.history);
    assert_eq!(got.len(), 3);
    assert_eq!(got[0], ("a".to_string(), "[\"x\"]".to_string()));
    assert_eq!(got[1], ("b".to_string(), "Tool Error: boom".to_string()));
    assert_eq!(got[2], ("c".to_string(), "\"done\"".to_string()));
}

/// Cancellation with two of three tool tasks still pending: the repair
/// strips the two pending calls, leaving exactly one call/result pair and
/// no orphaned calls.
#[test]
fn cancel_with_pending_tools() {
    let mut proc = ChatProcessor::new(History::new(), IdGen::new());
    let msg = model_message(
        IncomingContent::Absent,
        Some(vec![call("a", "ls"), call("b", "find"), call("c", "extract")]),
    );
    let _ = proc.on_model_message(msg);
    proc.commit_tool_results(vec![(
        "a".to_string(),
        ToolPayload::from(Ok("\"done\"".to_string())),
    )]);
    proc.cancel_repair();

    let mut remaining_calls: Vec<String> = Vec::new();
    for i in proc.history.inner.iter() {
        if let Interaction::LlmResponse { tool_calls: Some(cs), .. } = i {
            for c in cs.iter() {
                remaining_calls.push(c.id.clone());
            }
        }
    }
    assert_eq!(remaining_calls, vec!["a".to_string()]);
    assert_eq!(tool_results(&proc.history).len(), 1);
}

/// A body that is not JSON degrades to a single assistant text message and
/// never enters a tool phase.
#[test]
fn non_json_body_degrades_to_text() {
    let res = recover_response(None, "not json".to_string());
    assert_eq!(res.choices.len(), 1);
    let msg = res.choices.into_iter().next().unwrap().message;
    assert_eq!(msg.role, "assistant");
    match &msg.content {
        IncomingContent::Text(t) => assert_eq!(t, "not json"),
        _ => panic!("expected plain text content"),
    }
    assert!(msg.tool_calls.is_none());

    let mut proc = ChatProcessor::new(History::new(), IdGen::new());
    let (calls, _events) = proc.on_model_message(msg);
    assert!(calls.is_none());
    assert_eq!(proc.history.len(), 1);
    match &proc.history.inner[0] {
        Interaction::LlmResponse { content, tool_calls, .. } => {
            assert!(tool_calls.is_none());
            assert_eq!(content.len(), 1);
            match &content[0] {
                Content::Text { text } => assert_eq!(text, "not json"),
                _ => panic!("expected text content"),
            }
        }
        _ => panic!("expected a model response"),
    }
}

/// A parsed body passes through unchanged.
#[test]
fn parsed_body_passes_through() {
    let parsed = chatcore::openrouter::ChatResponse {
        choices: vec![chatcore::openrouter::Choice {
            message: model_message(IncomingContent::Text("hi".to_string()), None),
        }],
    };
    let res = recover_response(Some(parsed), "ignored".to_string());
    assert_eq!(res.choices.len(), 1);
    match &res.choices[0].message.content {
        IncomingContent::Text(t) => assert_eq!(t, "hi"),
        _ => panic!("expected text content"),
    }
}

/// Starting a turn while one is active is a conflict and mutates nothing;
/// finishing releases the admission lock.
#[test]
fn admission_refuses_second_turn() {
    let mut lock = Admission::new();
    assert!(lock.try_begin().is_ok());
    match lock.try_begin() {
        Err(Error::Conflict(m)) => assert_eq!(m, "more than 1 request"),
        _ => panic!("expected a conflict"),
    }
    lock.finish();
    assert!(lock.try_begin().is_ok());
}

/// An empty user message starts no interaction; a non-empty one is pushed.
#[test]
fn begin_turn_pushes_nonempty_content() {
    let mut proc = ChatProcessor::new(History::new(), IdGen::new());
    let events = proc.begin_turn(Vec::new());
    assert!(events.is_empty());
    assert_eq!(proc.history.len(), 0);
    let events = proc.begin_turn(vec![Content::Text { text: "hello".to_string() }]);
    assert_eq!(events.len(), 1);
    assert_eq!(proc.history.len(), 1);
}
