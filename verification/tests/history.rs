use chatcore::interaction::{Content, History, IdGen, Interaction};
use chatcore::openrouter::{FunctionCall, ToolCall};

fn call(id: &str, name: &str) -> ToolCall {
    ToolCall {
        id: id.to_string(),
        kind: "function".to_string(),
        function: FunctionCall { name: name.to_string(), arguments: "{}".to_string() },
    }
}

fn text(t: &str) -> Content {
    Content::Text { text: t.to_string() }
}

fn result_ids(h: &History) -> Vec<String> {
    h.inner
        .iter()
        .filter_map(|i| match i {
            Interaction::ToolResult { tool_call_id, .. } => Some(tool_call_id.clone()),
            _ => None,
        })
        .collect()
}

fn llm_call_ids(h: &History) -> Vec<String> {
    h.inner
        .iter()
        .flat_map(|i| match i {
            Interaction::LlmResponse { tool_calls: Some(cs), .. } => {
                cs.iter().map(|c| c.id.clone()).collect::<Vec<_>>()
            }
            _ => Vec::new(),
        })
        .collect()
}

#[test]
fn push_and_clear() {
    let mut gen = IdGen::new();
    let mut h = History::new();
    h.push(Interaction::user_message(&mut gen, vec![text("hi")]));
    h.push(Interaction::llm_response(&mut gen, vec![text("hello")], None));
    assert_eq!(h.len(), 2);
    h.clear();
    assert_eq!(h.len(), 0);
}

#[test]
fn interaction_ids_are_unique_and_increasing() {
    let mut gen = IdGen::new();
    let a = Interaction::user_message(&mut gen, vec![text("a")]);
    let b = Interaction::user_message(&mut gen, vec![text("b")]);
    assert_ne!(a.id(), b.id());
    assert!(a.id() < b.id());
}

/// Deleting a model response with two tool calls removes both of its
/// results.
#[test]
fn cascading_delete_removes_all_results() {
    let mut gen = IdGen::new();
    let mut h = History::new();
    h.push(Interaction::user_message(&mut gen, vec![text("q")]));
    let llm = Interaction::llm_response(
        &mut gen,
        vec![],
        Some(vec![call("c1", "ls"), call("c2", "find")]),
    );
    let llm_id = llm.id();
    h.push(llm);
    h.push(Interaction::tool_result(&mut gen, "c1".to_string(), "r1".to_string(), vec![], vec![]));
    h.push(Interaction::tool_result(&mut gen, "c2".to_string(), "r2".to_string(), vec![], vec![]));
    h.delete_by_id(llm_id);
    assert!(result_ids(&h).is_empty());
    assert!(llm_call_ids(&h).is_empty());
    // The user message is untouched.
    assert_eq!(h.len(), 1);
}

/// Deleting one tool result removes only its own pairing; the sibling call
/// and result stay.
#[test]
fn delete_result_keeps_siblings() {
    let mut gen = IdGen::new();
    let mut h = History::new();
    let llm = Interaction::llm_response(
        &mut gen,
        vec![],
        Some(vec![call("c1", "ls"), call("c2", "find")]),
    );
    h.push(llm);
    let r1 = Interaction::tool_result(&mut gen, "c1".to_string(), "r1".to_string(), vec![], vec![]);
    let r1_id = r1.id();
    h.push(r1);
    h.push(Interaction::tool_result(&mut gen, "c2".to_string(), "r2".to_string(), vec![], vec![]));
    h.delete_by_id(r1_id);
    assert_eq!(result_ids(&h), vec!["c2".to_string()]);
    assert_eq!(llm_call_ids(&h), vec!["c2".to_string()]);
}

/// After a delete, no model response with empty content and no tool calls
/// remains.
#[test]
fn delete_prunes_empty_responses() {
    let mut gen = IdGen::new();
    let mut h = History::new();
    let llm = Interaction::llm_response(&mut gen, vec![], Some(vec![call("c1", "ls")]));
    h.push(llm);
    let r1 = Interaction::tool_result(&mut gen, "c1".to_string(), "r1".to_string(), vec![], vec![]);
    let r1_id = r1.id();
    h.push(r1);
    // Deleting the pair leaves the response empty; the repair prunes it.
    h.delete_by_id(r1_id);
    assert_eq!(h.len(), 0);
}

#[test]
fn delete_by_tool_id_strips_call_and_result() {
    let mut gen = IdGen::new();
    let mut h = History::new();
    let llm = Interaction::llm_response(
        &mut gen,
        vec![text("working on it")],
        Some(vec![call("c1", "ls"), call("c2", "find")]),
    );
    let llm_id = llm.id();
    h.push(llm);
    h.push(Interaction::tool_result(&mut gen, "c1".to_string(), "r1".to_string(), vec![], vec![]));
    h.delete_by_tool_id(llm_id, &"c1".to_string());
    assert!(result_ids(&h).is_empty());
    assert_eq!(llm_call_ids(&h), vec!["c2".to_string()]);
    // The response still has content, so it stays.
    assert_eq!(h.len(), 1);
}

/// The cancellation repair strips exactly the calls of the latest response
/// that have no result yet.
#[test]
fn clean_unfinished_strips_pending_calls() {
    let mut gen = IdGen::new();
    let mut h = History::new();
    let llm = Interaction::llm_response(
        &mut gen,
        vec![],
        Some(vec![call("c1", "ls"), call("c2", "find"), call("c3", "extract")]),
    );
    h.push(llm);
    h.push(Interaction::tool_result(&mut gen, "c2".to_string(), "r2".to_string(), vec![], vec![]));
    h.clean_unfinished_tool_calls();
    assert_eq!(llm_call_ids(&h), vec!["c2".to_string()]);
    assert_eq!(result_ids(&h), vec!["c2".to_string()]);
}

/// Cancellation before any tool finished: stripping every call empties the
/// response, and the repair prunes it.
#[test]
fn clean_unfinished_prunes_emptied_response() {
    let mut gen = IdGen::new();
    let mut h = History::new();
    h.push(Interaction::user_message(&mut gen, vec![text("q")]));
    h.push(Interaction::llm_response(
        &mut gen,
        vec![],
        Some(vec![call("c1", "ls"), call("c2", "find")]),
    ));
    h.clean_unfinished_tool_calls();
    assert_eq!(h.len(), 1);
    assert!(matches!(h.inner[0], Interaction::UserMessage { .. }));
}

#[test]
fn content_is_empty_only_for_empty_text() {
    assert!(text("").is_empty());
    assert!(!text("x").is_empty());
    let img = Content::ImageUrl {
        image_url: chatcore::interaction::ImageUrl { url: String::new() },
    };
    assert!(!img.is_empty());
}
