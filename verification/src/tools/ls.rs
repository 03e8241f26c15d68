//! The directory-listing tool: its catalog entry and argument shape. The
//! filesystem walk itself is the surrounding runtime's work.

use vstd::prelude::*;
use vstd::string::StringExecFns;

use crate::tools::{Function, Tool};

verus! {

/// The arguments of the `ls` tool.
#[derive(Debug)]
pub struct LsArgs {
    pub relative_path: String,
}

/// The catalog entry of the `ls` tool.
pub fn get_tool() -> (r: Tool)
    ensures
        r.function.name@ == "ls"@,
{
    Tool {
        kind: String::from_str("function"),
        function: Function {
            name: String::from_str("ls"),
            description: String::from_str(
                "Lists contents of a specific directory level without sampling, good for iterative exploration",
            ),
            parameters: String::from_str(
                "{\"type\":\"object\",\"properties\":{\"relative_path\":{\"type\":\"string\",\"description\":\"The path relative to the root directory\"}},\"required\":[\"relative_path\"]}",
            ),
        },
    }
}

} // verus!
