use chatcore::interaction::{Content, History, IdGen, Interaction, Target};
use chatcore::openrouter::{FunctionCall, Openrouter, ToolCall, WireMessage};
use chatcore::ui_events::{EventPayload, UIEvents};

fn call(id: &str, name: &str) -> ToolCall {
    ToolCall {
        id: id.to_string(),
        kind: "function".to_string(),
        function: FunctionCall { name: name.to_string(), arguments: "{}".to_string() },
    }
}

fn text(t: &str) -> Content {
    Content::Text { text: t.to_string() }
}

#[test]
fn wire_assistant_with_calls_carries_only_calls() {
    let mut gen = IdGen::new();
    let i = Interaction::llm_response(&mut gen, vec![text("thinking")], Some(vec![call("c1", "ls")]));
    let out = Openrouter::convert(&i);
    assert_eq!(out.len(), 1);
    let m = &out[0];
    assert_eq!(m.role, "assistant");
    assert!(m.text.is_none());
    assert!(m.parts.is_none());
    assert_eq!(m.tool_calls.as_ref().unwrap().len(), 1);
    assert_eq!(m.tool_calls.as_ref().unwrap()[0].id, "c1");
}

#[test]
fn wire_tool_result_with_side_channel_adds_user_turn() {
    let mut gen = IdGen::new();
    let i = Interaction::tool_result(
        &mut gen,
        "c1".to_string(),
        "ok".to_string(),
        vec![text("for the model")],
        vec![],
    );
    let out = Openrouter::convert(&i);
    assert_eq!(out.len(), 2);
    assert_eq!(out[0].role, "tool");
    assert_eq!(out[0].text.as_deref(), Some("ok"));
    assert_eq!(out[0].tool_call_id.as_deref(), Some("c1"));
    assert_eq!(out[1].role, "user");
    assert_eq!(out[1].parts.as_ref().unwrap().len(), 1);
}

#[test]
fn wire_tool_result_without_side_channel_is_single() {
    let mut gen = IdGen::new();
    let i = Interaction::tool_result(&mut gen, "c1".to_string(), "ok".to_string(), vec![], vec![]);
    let out = Openrouter::convert(&i);
    assert_eq!(out.len(), 1);
    assert_eq!(out[0].role, "tool");
}

/// The rendered wire stream never shows a tool turn before the assistant
/// turn carrying its call.
#[test]
fn wire_render_orders_tool_after_call() {
    let mut gen = IdGen::new();
    let mut h = History::new();
    h.push(Interaction::user_message(&mut gen, vec![text("q")]));
    h.push(Interaction::llm_response(&mut gen, vec![], Some(vec![call("c1", "ls")])));
    h.push(Interaction::tool_result(&mut gen, "c1".to_string(), "ok".to_string(), vec![], vec![]));
    let out: Vec<WireMessage> = Openrouter::render(&h);
    assert_eq!(out.len(), 3);
    let tool_pos = out.iter().position(|m| m.role == "tool").unwrap();
    let assistant_pos = out
        .iter()
        .position(|m| {
            m.role == "assistant"
                && m.tool_calls.as_ref().map_or(false, |cs| cs.iter().any(|c| c.id == "c1"))
        })
        .unwrap();
    assert!(assistant_pos < tool_pos);
}

#[test]
fn ui_convert_emits_tool_call_events() {
    let mut gen = IdGen::new();
    let i = Interaction::llm_response(
        &mut gen,
        vec![],
        Some(vec![call("c1", "ls"), call("c2", "find")]),
    );
    let id = i.id();
    let out = UIEvents::convert(&i);
    assert_eq!(out.len(), 2);
    match &out[0] {
        EventPayload::ToolCall { id: eid, tool_name, tool_call_id, .. } => {
            assert_eq!(*eid, id);
            assert_eq!(tool_name, "ls");
            assert_eq!(tool_call_id, "c1");
        }
        _ => panic!("expected a tool-call event"),
    }
}

#[test]
fn ui_convert_tool_result_with_user_side_channel() {
    let mut gen = IdGen::new();
    let i = Interaction::tool_result(
        &mut gen,
        "c1".to_string(),
        "ok".to_string(),
        vec![],
        vec![text("download me")],
    );
    let out = UIEvents::convert(&i);
    assert_eq!(out.len(), 2);
    assert!(matches!(&out[0], EventPayload::ToolDone { .. }));
    match &out[1] {
        EventPayload::Message { role, content, .. } => {
            assert_eq!(role, "assistant");
            assert_eq!(content.len(), 1);
        }
        _ => panic!("expected a trailing message"),
    }
}

#[test]
fn ui_convert_user_message() {
    let mut gen = IdGen::new();
    let i = Interaction::user_message(&mut gen, vec![text("hi")]);
    let out = UIEvents::convert(&i);
    assert_eq!(out.len(), 1);
    match &out[0] {
        EventPayload::Message { role, .. } => assert_eq!(role, "user"),
        _ => panic!("expected a message event"),
    }
}
