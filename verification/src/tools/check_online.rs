//! The web-search tool: the messages it sends to the search model and its
//! catalog entry. The network call happens in the surrounding runtime.

use vstd::prelude::*;
use vstd::string::{StrSliceExecFns, StringExecFns};

use crate::error::Error;
use crate::interaction::{Content, ContentV};
use crate::openrouter::{parts_wire_message, WireMessage, WireMessageV};
use crate::tools::{Function, Tool};

verus! {

/// The arguments of the `check_online` tool.
#[derive(Debug)]
pub struct CheckOnlineArgs {
    pub query: String,
    pub broader_context: String,
}

/// The structured answer the search model is asked for.
#[derive(Debug)]
pub struct CheckOnlineResult {
    pub content: String,
    pub citations: Vec<String>,
}

/// An online search needs a configured key; an empty key is refused before
/// any call is made.
pub fn require_api_key(api_key: &str) -> (r: Result<(), Error>)
    ensures
        r is Ok <==> api_key@.len() > 0,
        r matches Err(e) ==> e matches Error::Tool(m) && m@
            == "Error: OpenRouter API key is not set."@,
{
    if api_key.is_empty() {
        Err(Error::Tool(String::from_str("Error: OpenRouter API key is not set.")))
    } else {
        Ok(())
    }
}

/// The single user message sent to the search model: the research
/// instruction, the broader context, and the query, as three text parts.
pub fn check_online_messages(query: &str, broader_context: &str) -> (r: Vec<WireMessage>)
    ensures
        r.deep_view() =~~= seq![
            WireMessageV {
                role: "user"@,
                text: None,
                parts: Some(
                    seq![
                        (ContentV::Text {
                            text: "Research user query on the internet. take the broader context in consideration. Give both answer and citations."@,
                        }),
                        (ContentV::Text { text: "Broader context:\n"@ + broader_context@ }),
                        (ContentV::Text { text: "Query:\n"@ + query@ }),
                    ],
                ),
                tool_calls: None,
                tool_call_id: None,
            },
        ],
{
    let mut ctx = String::from_str("Broader context:\n");
    ctx.append(broader_context);
    let mut q = String::from_str("Query:\n");
    q.append(query);
    let parts = vec![
        Content::Text {
            text: String::from_str(
                "Research user query on the internet. take the broader context in consideration. Give both answer and citations.",
            ),
        },
        Content::Text { text: ctx },
        Content::Text { text: q },
    ];
    let r = vec![parts_wire_message(String::from_str("user"), parts)];
    proof {
        assert(r.deep_view().len() == 1);
    }
    r
}

/// The catalog entry of the `check_online` tool.
pub fn get_tool() -> (r: Tool)
    ensures
        r.function.name@ == "check_online"@,
{
    Tool {
        kind: String::from_str("function"),
        function: Function {
            name: String::from_str("check_online"),
            description: String::from_str(
                "Performs an internet search using Perplexity Sonar to find facts and answer queries. It's best for getting up-to-date information or answers to general knowledge questions.",
            ),
            parameters: String::from_str(
                "{\"type\":\"object\",\"properties\":{\"query\":{\"type\":\"string\",\"description\":\"The query to search for.\"},\"broader_context\":{\"type\":\"string\",\"description\":\"Optional broader context for the query.\"}},\"required\":[\"query\"]}",
            ),
        },
    }
}

} // verus!
