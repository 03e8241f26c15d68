//! The tool dispatch boundary: tool descriptors advertised to the model,
//! the payload a tool execution produces, and its conversion into a tool
//! result interaction.

pub mod ask_files;
pub mod check_online;
pub mod extract;
pub mod find;
pub mod load_file;
pub mod ls;
pub mod make_file;
pub mod notes;
pub mod roll_dice;

use vstd::prelude::*;
use vstd::string::{StrSliceExecFns, StringExecFns};

use crate::error::{error_chars, Error};
use crate::interaction::{Content, IdGen, Interaction, InteractionV};
use crate::textfmt::str_eq;

verus! {

/// One entry of the tool catalog advertised to the model.
#[derive(Debug)]
pub struct Tool {
    /// Always `"function"` on the wire.
    pub kind: String,
    pub function: Function,
}

/// The function a catalog entry describes; `parameters` holds its JSON
/// schema as text.
#[derive(Debug)]
pub struct Function {
    pub name: String,
    pub description: String,
    pub parameters: String,
}

/// What executing one tool produced: its primary response — a JSON value as
/// text, or an error — and side-channel content directed at only one
/// consumer.
#[derive(Debug)]
pub struct ToolPayload {
    pub response: Result<String, Error>,
    pub for_llm: Vec<Content>,
    pub for_user: Vec<Content>,
}

/// The text a payload's response becomes for the model: a success is its
/// JSON value as it stands, a failure its plain error text.
pub open spec fn response_wire_text(r: Result<String, Error>) -> Seq<char> {
    match r {
        Ok(s) => s@,
        Err(e) => error_chars(e),
    }
}

impl ToolPayload {
    /// A payload with no side-channel content.
    pub fn from(response: Result<String, Error>) -> (r: ToolPayload)
        ensures
            r.response == response,
            r.for_llm.deep_view() =~= Seq::<crate::interaction::ContentV>::empty(),
            r.for_user.deep_view() =~= Seq::<crate::interaction::ContentV>::empty(),
    {
        ToolPayload { response, for_llm: Vec::new(), for_user: Vec::new() }
    }

    /// Attaches content destined only for the model.
    pub fn llm(self, for_llm: Vec<Content>) -> (r: ToolPayload)
        ensures
            r.response == self.response,
            r.for_llm == for_llm,
            r.for_user == self.for_user,
    {
        ToolPayload { for_llm, ..self }
    }

    /// Attaches content destined only for the user.
    pub fn user(self, for_user: Vec<Content>) -> (r: ToolPayload)
        ensures
            r.response == self.response,
            r.for_llm == self.for_llm,
            r.for_user == for_user,
    {
        ToolPayload { for_user, ..self }
    }

    /// Converts the payload into a tool-result interaction answering
    /// `tool_call_id`: the string sent back to the model is the successful
    /// value's JSON, or the error's text.
    pub fn finalize(self, gen: &mut IdGen, tool_call_id: String) -> (r: Interaction)
        requires
            old(gen).next < usize::MAX,
        ensures
            r@ == (InteractionV::ToolResult {
                interaction_id: old(gen).next,
                tool_call_id: tool_call_id@,
                response: response_wire_text(self.response),
                for_llm: self.for_llm.deep_view(),
                for_user: self.for_user.deep_view(),
            }),
            final(gen).next == old(gen).next + 1,
    {
        let response: String = match self.response {
            Ok(s) => s,
            Err(e) => e.message(),
        };
        Interaction::tool_result(gen, tool_call_id, response, self.for_llm, self.for_user)
    }
}

/// The kinds of tool invocations the dispatcher recognises.
#[derive(Debug, PartialEq, Eq, Structural)]
pub enum ToolRoute {
    Ls,
    RollDice,
    Find,
    ReadNotes,
    AppendNotes,
    AskFiles,
    Extract,
    LoadFile,
    MakeFile,
    CheckOnline,
    Unknown,
}

/// The route a tool name resolves to.
pub open spec fn spec_route(name: Seq<char>) -> ToolRoute {
    if name == "ls"@ {
        ToolRoute::Ls
    } else if name == "roll_dice"@ {
        ToolRoute::RollDice
    } else if name == "find"@ {
        ToolRoute::Find
    } else if name == "read_notes"@ {
        ToolRoute::ReadNotes
    } else if name == "append_notes"@ {
        ToolRoute::AppendNotes
    } else if name == "ask_files"@ {
        ToolRoute::AskFiles
    } else if name == "extract"@ {
        ToolRoute::Extract
    } else if name == "load_file"@ {
        ToolRoute::LoadFile
    } else if name == "make_file"@ {
        ToolRoute::MakeFile
    } else if name == "check_online"@ {
        ToolRoute::CheckOnline
    } else {
        ToolRoute::Unknown
    }
}

/// Resolves a tool name to the tool it names; anything unknown routes to
/// the error payload below.
pub fn route_tool(name: &str) -> (r: ToolRoute)
    ensures
        r == spec_route(name@),
{
    if str_eq(name, "ls") {
        ToolRoute::Ls
    } else if str_eq(name, "roll_dice") {
        ToolRoute::RollDice
    } else if str_eq(name, "find") {
        ToolRoute::Find
    } else if str_eq(name, "read_notes") {
        ToolRoute::ReadNotes
    } else if str_eq(name, "append_notes") {
        ToolRoute::AppendNotes
    } else if str_eq(name, "ask_files") {
        ToolRoute::AskFiles
    } else if str_eq(name, "extract") {
        ToolRoute::Extract
    } else if str_eq(name, "load_file") {
        ToolRoute::LoadFile
    } else if str_eq(name, "make_file") {
        ToolRoute::MakeFile
    } else if str_eq(name, "check_online") {
        ToolRoute::CheckOnline
    } else {
        ToolRoute::Unknown
    }
}

/// The payload a dispatch to an unknown tool name yields.
pub fn unknown_tool_payload() -> (r: ToolPayload)
    ensures
        r.response matches Err(e) && error_chars(e) == "Tool Error: "@ + "no such tool"@,
        r.for_llm.deep_view() =~= Seq::<crate::interaction::ContentV>::empty(),
        r.for_user.deep_view() =~= Seq::<crate::interaction::ContentV>::empty(),
    {
    ToolPayload::from(Err(Error::Tool(String::from_str("no such tool"))))
}

/// The argument string a tool receives: an empty string stands for the
/// empty JSON object.
pub fn normalize_arguments(arguments: &str) -> (r: &str)
    ensures
        arguments@.len() == 0 ==> r@ == "{}"@,
        arguments@.len() > 0 ==> r@ == arguments@,
{
    if arguments.unicode_len() == 0 {
        "{}"
    } else {
        arguments
    }
}

/// The payload used when a tool's arguments fail to deserialize: the
/// failure text becomes an ordinary tool error, never a turn failure.
pub fn argument_error_payload(detail: String) -> (r: ToolPayload)
    ensures
        r.response matches Err(e) && error_chars(e) == "Tool Error: "@ + detail@,
        r.for_llm.deep_view() =~= Seq::<crate::interaction::ContentV>::empty(),
        r.for_user.deep_view() =~= Seq::<crate::interaction::ContentV>::empty(),
{
    ToolPayload::from(Err(Error::Tool(detail)))
}

/// Refuses a request that found more files than its limit allows, with the
/// count and the limit spelled out.
pub fn check_limit(found: usize, limit: usize) -> (r: Result<(), Error>)
    ensures
        found <= limit <==> r is Ok,
        found > limit ==> (r matches Err(e) && e is Tool),
{
    if found > limit {
        let mut msg = String::from_str("Error: Found more files (");
        let a = crate::textfmt::usize_to_string(found);
        msg.append(a.as_str());
        msg.append(") than limit (");
        let b = crate::textfmt::usize_to_string(limit);
        msg.append(b.as_str());
        msg.append("). Consider up the limit or take different approach.");
        Err(Error::Tool(msg))
    } else {
        Ok(())
    }
}

} // verus!
