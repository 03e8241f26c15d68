//! The notes tools: the entry format appended to the notes file, and both
//! catalog entries. Reading and writing the file is the surrounding
//! runtime's work; the timestamp comes from it as plain text.

use vstd::prelude::*;
use vstd::string::{StrSliceExecFns, StringExecFns};

use crate::tools::{Function, Tool};

verus! {

/// The arguments of the `append_notes` tool.
#[derive(Debug)]
pub struct AppendNotesArgs {
    pub markdown_content: String,
}

/// The text appended to the notes file for one entry.
pub open spec fn note_entry_chars(timestamp: Seq<char>, content: Seq<char>) -> Seq<char> {
    "<note date=\""@ + timestamp + "\">\n"@ + content + "\n</note>\n\n"@
}

/// One timestamped note entry, framed for the notes file.
pub fn note_entry(timestamp: &str, markdown_content: &str) -> (r: String)
    ensures
        r@ == note_entry_chars(timestamp@, markdown_content@),
{
    let mut s = String::from_str("<note date=\"");
    s.append(timestamp);
    s.append("\">\n");
    s.append(markdown_content);
    s.append("\n</note>\n\n");
    s
}

/// The catalog entry of the `read_notes` tool.
pub fn read_notes_tool() -> (r: Tool)
    ensures
        r.function.name@ == "read_notes"@,
{
    Tool {
        kind: String::from_str("function"),
        function: Function {
            name: String::from_str("read_notes"),
            description: String::from_str(
                "Reads the content of the `_NOTES.txt` file from the root directory. Use this to recall previous findings or context. Do NOT rely on read_notes for factuality or comprehensiveness. Only treat it as additional pools of direction to explore. This is because notes maybe stale (as the knowledge pool was updated) or that the notes are simplified for current user query. Everything that you answer users MUST be coming from querying primary documents, and NOT solely from your previous notes.",
            ),
            parameters: String::from_str(
                "{\"type\":\"object\",\"properties\":{},\"required\":[]}",
            ),
        },
    }
}

/// The catalog entry of the `append_notes` tool.
pub fn append_notes_tool() -> (r: Tool)
    ensures
        r.function.name@ == "append_notes"@,
{
    Tool {
        kind: String::from_str("function"),
        function: Function {
            name: String::from_str("append_notes"),
            description: String::from_str(
                "Appends a new markdown entry to the `_NOTES.md` file. Use this to record significant learnings, complex file structures, interrelations between files, or user instructions for future reference. Each entry is automatically timestamped. Rule of thumb: if it takes more than 4 tool calls for your to discover something, it's worth noting down.",
            ),
            parameters: String::from_str(
                "{\"type\":\"object\",\"properties\":{\"markdown_content\":{\"type\":\"string\",\"description\":\"The markdown content to append to the notes.\"}},\"required\":[\"markdown_content\"]}",
            ),
        },
    }
}

} // verus!
