//! The file-finding tool: its catalog entry and argument shape. The search
//! over the filesystem index happens in the surrounding runtime; the limit
//! rule lives in [`crate::tools::check_limit`].

use vstd::prelude::*;
use vstd::string::StringExecFns;

use crate::tools::{Function, Tool};

verus! {

/// The arguments of the `find` tool.
#[derive(Debug)]
pub struct FindArgs {
    pub pattern: String,
    pub max_results: usize,
}

/// The catalog entry of the `find` tool.
pub fn get_tool() -> (r: Tool)
    ensures
        r.function.name@ == "find"@,
{
    Tool {
        kind: String::from_str("function"),
        function: Function {
            name: String::from_str("find"),
            description: String::from_str(
                "Locates files by glob, returning up to 'list_max_files' matches. If more files match, it returns an error and the total count, prompting you to refine the glob. Excellent for targeted searches when you expect a manageable number of results. Use 'ls' to confirm existence or explore a directory before crafting a glob.",
            ),
            parameters: String::from_str(
                "{\"type\":\"object\",\"properties\":{\"pattern\":{\"type\":\"string\",\"description\":\"The pattern to match against. This is similar style to many desktop apps. the pattern is first shell-lexed into individual terms. each term is treated like a glob pattern. and terms are considered to be related by AND.\"},\"max_results\":{\"type\":\"number\",\"description\":\"Maximum results. If glob matches more than this, the tool will return an error to avoid overwhelming the user. Start with 200 and adjust approach if required.\"}},\"required\":[\"pattern\",\"max_results\"]}",
            ),
        },
    }
}

} // verus!
