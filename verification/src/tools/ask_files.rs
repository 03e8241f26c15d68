//! The per-file query tools: the messages one file query sends to the map
//! model, and all four catalog entries. The fan-out over files, the file
//! reads and the network calls happen in the surrounding runtime.

use vstd::prelude::*;
use vstd::string::{StrSliceExecFns, StringExecFns};

use crate::error::Error;
use crate::interaction::Content;
use crate::openrouter::{parts_wire_message, text_wire_message, WireMessage, WireMessageV};
use crate::tools::{check_limit, Function, Tool};

verus! {

/// The arguments of the `ask_files` tool.
#[derive(Debug)]
pub struct AskFilesArgs {
    pub query: String,
    pub filenames: Vec<String>,
}

/// The arguments of the `ask_files_glob` tool.
#[derive(Debug)]
pub struct AskFilesGlobArgs {
    pub query: String,
    pub pattern: String,
    pub max_results: usize,
}

/// The arguments of the `ask_files_selected` tool.
#[derive(Debug)]
pub struct AskFilesSearchedArgs {
    pub query: String,
    pub max_results: usize,
}

/// The arguments of the `list_user_selected` tool.
#[derive(Debug)]
pub struct UserSelectedArgs {
    pub max_results: usize,
}

/// The structured answer the map model is asked for, per file.
#[derive(Debug)]
pub struct AskFileResults {
    pub answer: String,
    pub extracts: Vec<String>,
}

/// The two user messages of one per-file query: the file name with the
/// query, then the file's content.
pub fn ask_file_messages(filename: &str, query: &str, file_content: Vec<Content>) -> (r: Vec<
    WireMessage,
>)
    ensures
        r.deep_view() =~~= seq![
            WireMessageV {
                role: "user"@,
                text: Some("File: "@ + filename@ + "\n\nQuery: "@ + query@),
                parts: None,
                tool_calls: None,
                tool_call_id: None,
            },
            WireMessageV {
                role: "user"@,
                text: None,
                parts: Some(file_content.deep_view()),
                tool_calls: None,
                tool_call_id: None,
            },
        ],
{
    let mut head = String::from_str("File: ");
    head.append(filename);
    head.append("\n\nQuery: ");
    head.append(query);
    let r = vec![
        text_wire_message(String::from_str("user"), head),
        parts_wire_message(String::from_str("user"), file_content),
    ];
    proof {
        assert(r.deep_view().len() == 2);
    }
    r
}

/// The catalog entry of the `ask_files` tool.
pub fn ask_files_tool() -> (r: Tool)
    ensures
        r.function.name@ == "ask_files"@,
{
    Tool {
        kind: String::from_str("function"),
        function: Function {
            name: String::from_str("ask_files"),
            description: String::from_str(
                "Queries a specific, user-provided list of files in parallel, making it efficient for targeted analysis of known files. Expects to be given the query and a broader_context. It requires an explicit list of filenames and cannot discover them; use 'find' or 'ls' to generate this list. Works best for simple fact-finding queries.",
            ),
            parameters: String::from_str(
                "{\"type\":\"object\",\"properties\":{\"query\":{\"type\":\"string\",\"description\":\"The query to run against each file.\"},\"filenames\":{\"type\":\"array\",\"items\":{\"type\":\"string\"},\"description\":\"A list of filenames to run the query against.\"}},\"required\":[\"query\",\"filenames\"]}",
            ),
        },
    }
}

/// The catalog entry of the `ask_files_glob` tool.
pub fn ask_files_glob_tool() -> (r: Tool)
    ensures
        r.function.name@ == "ask_files_glob"@,
{
    Tool {
        kind: String::from_str("function"),
        function: Function {
            name: String::from_str("ask_files_glob"),
            description: String::from_str(
                "Same as ask_files, but accepts a glob pattern to match more than 1 file. Must specify max_results",
            ),
            parameters: String::from_str(
                "{\"type\":\"object\",\"properties\":{\"query\":{\"type\":\"string\",\"description\":\"The query to run against each file.\"},\"pattern\":{\"type\":\"string\",\"description\":\"Pattern used to match files. Same logic as the `find` tool pattern\"},\"max_results\":{\"type\":\"number\",\"description\":\"Maximum results. If glob matches more than this, the tool will return an error to avoid overwhelming the user. Start with 100 and adjust up if the task really requires understanding more files.\"}},\"required\":[\"query\",\"pattern\",\"max_results\"]}",
            ),
        },
    }
}

/// The catalog entry of the `ask_files` tool (the user-selection variant).
pub fn ask_files_selected_tool(selected: usize, searched: usize) -> (r: Tool)
    ensures
        r.function.name@ == "ask_files_selected"@,
{
    let mut description = String::from_str(
        "Same as ask_files, but applies directly to a set of user specified files in the App interface. User has selected ",
    );
    let a = crate::textfmt::usize_to_string(selected);
    description.append(a.as_str());
    description.append(
        " items. If user has not selected anything actively, this tool will query all files returned by an active user search, which currently has ",
    );
    let b = crate::textfmt::usize_to_string(searched);
    description.append(b.as_str());
    description.append(" items");
    Tool {
        kind: String::from_str("function"),
        function: Function {
            name: String::from_str("ask_files_selected"),
            description,
            parameters: String::from_str(
                "{\"type\":\"object\",\"properties\":{\"query\":{\"type\":\"string\",\"description\":\"The query to run against each file.\"},\"max_results\":{\"type\":\"number\",\"description\":\"Maximum results. If user selected more than this, the tool will return an error to avoid overwhelming the user. Start with 100 and adjust up if the task really requires understanding more files.\"}},\"required\":[\"query\",\"max_results\"]}",
            ),
        },
    }
}

/// The set of files the selection-driven tools operate on: the explicit
/// selection when it is non-empty, else the last search result.
pub fn selection_or_search(selection: Vec<String>, search_result: Vec<String>) -> (r: Vec<String>)
    ensures
        selection@.len() > 0 ==> r == selection,
        selection@.len() == 0 ==> r == search_result,
{
    if selection.len() > 0 {
        selection
    } else {
        search_result
    }
}

/// Lists the files the user has selected — or, when nothing is actively
/// selected, the files of the last search — refusing a set larger than the
/// given limit.
pub fn list_user_selected(
    selection: Vec<String>,
    search_result: Vec<String>,
    max_results: usize,
) -> (r: Result<Vec<String>, Error>)
    ensures
        ({
            let chosen = if selection@.len() > 0 {
                selection@
            } else {
                search_result@
            };
            &&& r is Ok <==> chosen.len() <= max_results
            &&& match r {
                Ok(files) => files@ == chosen,
                Err(e) => e is Tool,
            }
        }),
{
    let files = selection_or_search(selection, search_result);
    match check_limit(files.len(), max_results) {
        Ok(()) => Ok(files),
        Err(e) => Err(e),
    }
}

/// The catalog entry of the `list_user_selected` tool.
pub fn list_user_selected_tool(selected: usize, searched: usize) -> (r: Tool)
    ensures
        r.function.name@ == "list_user_selected"@,
{
    let mut description = String::from_str("List the ");
    let a = crate::textfmt::usize_to_string(selected);
    description.append(a.as_str());
    description.append(
        " files that that user has selected, or the ",
    );
    let b = crate::textfmt::usize_to_string(searched);
    description.append(b.as_str());
    description.append(
        " files that the user has in the search results if nothing is selected actively.",
    );
    Tool {
        kind: String::from_str("function"),
        function: Function {
            name: String::from_str("list_user_selected"),
            description,
            parameters: String::from_str(
                "{\"type\":\"object\",\"properties\":{\"max_results\":{\"type\":\"number\",\"description\":\"Maximum results. If user selected more than this, the tool will return an error to avoid overwhelming the user. Start with 100 and adjust up if the task really requires understanding more files.\"}},\"required\":[\"max_results\"]}",
            ),
        },
    }
}

} // verus!
