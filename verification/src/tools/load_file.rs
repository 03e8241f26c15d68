//! The file-loading tool: the shaping of its payload. Reading and
//! converting the file happens in the surrounding runtime and in
//! [`crate::file_handler`]; this module decides what the model receives.

use vstd::prelude::*;
use vstd::string::{StrSliceExecFns, StringExecFns};

use crate::interaction::{Content, ContentV};
use crate::tools::{Function, Tool, ToolPayload};

verus! {

/// The arguments of the `load_file` tool.
#[derive(Debug)]
pub struct LoadFileArgs {
    pub filename: String,
}

/// The instructional text placed before a loaded file's content.
pub open spec fn load_file_note_chars(filename: Seq<char>) -> Seq<char> {
    "The content of the file '"@ + filename
        + "' has been loaded. Here is the full content for your context. Please use this content to answer any subsequent questions."@
}

/// The payload of a successful load: a short acknowledgement as the
/// response, with the instructional note and the file's content attached
/// for the model alone.
pub fn load_file_payload(filename: &str, file_content: Vec<Content>) -> (r: ToolPayload)
    ensures
        r.response matches Ok(s) && s@ == "\"file_loaded\""@,
        r.for_llm.deep_view() =~= seq![
            ContentV::Text { text: load_file_note_chars(filename@) },
        ] + file_content.deep_view(),
        r.for_user.deep_view() =~= Seq::<ContentV>::empty(),
{
    let mut note = String::from_str("The content of the file '");
    note.append(filename);
    note.append(
        "' has been loaded. Here is the full content for your context. Please use this content to answer any subsequent questions.",
    );
    let mut for_llm: Vec<Content> = vec![Content::Text { text: note }];
    let ghost head = for_llm.deep_view();
    let mut rest = file_content;
    let ghost rest_v = rest.deep_view();
    for_llm.append(&mut rest);
    proof {
        assert(for_llm.deep_view() =~= head + rest_v);
    }
    ToolPayload::from(Ok(String::from_str("\"file_loaded\""))).llm(for_llm)
}

/// The catalog entry of the `load_file` tool.
pub fn get_tool() -> (r: Tool)
    ensures
        r.function.name@ == "load_file"@,
{
    Tool {
        kind: String::from_str("function"),
        function: Function {
            name: String::from_str("load_file"),
            description: String::from_str(
                "Loads a file's entire content into the active context, enabling a comprehensive, holistic review. This is the only way to analyze how different parts of a document relate to each other and uncover nuanced insights.\n\n**Trade-off:** This method is more thorough and may take more processing time than a simple `ask_files` query. It is the required tool for strategic analysis, root cause investigation, and any task that requires understanding the full story behind the numbers.",
            ),
            parameters: String::from_str(
                "{\"type\":\"object\",\"properties\":{\"filename\":{\"type\":\"string\",\"description\":\"The path to the file to load.\"}},\"required\":[\"filename\"]}",
            ),
        },
    }
}

} // verus!
