//! The file-creation tool: wraps the given text into a downloadable data
//! URL and hands it to the user through the side channel.

use vstd::prelude::*;
use vstd::string::StringExecFns;

use crate::file_handler::{b64_encode, base64_of};
use crate::interaction::{Content, ContentV, FileData};
use crate::tools::{Function, Tool, ToolPayload};

verus! {

/// The arguments of the `make_file` tool.
#[derive(Debug)]
pub struct MakeFileArgs {
    pub content: String,
}

/// Builds a plain-text file from the given content and attaches it for the
/// user: the response is a short acknowledgement, and the side channel
/// carries `file.txt` as a base64 data URL.
pub fn make_file(args: MakeFileArgs) -> (r: ToolPayload)
    ensures
        r.response matches Ok(s) && s@ == "\"Created file\""@,
        r.for_user.deep_view() =~= seq![
            ContentV::File {
                filename: "file.txt"@,
                file_data: "data:text/plain;base64,"@ + base64_of(
                    vstd::utf8::encode_utf8(args.content@),
                ),
            },
        ],
        r.for_llm.deep_view() =~= Seq::<ContentV>::empty(),
{
    let encoded = b64_encode(args.content.as_str().as_bytes());
    let mut data_url = String::from_str("data:text/plain;base64,");
    data_url.append(encoded.as_str());
    let content = vec![
        Content::File {
            file: FileData { filename: String::from_str("file.txt"), file_data: data_url },
        },
    ];
    let r = ToolPayload::from(Ok(String::from_str("\"Created file\""))).user(content);
    r
}

/// The catalog entry of the `make_file` tool.
pub fn get_tool() -> (r: Tool)
    ensures
        r.function.name@ == "make_file"@,
{
    Tool {
        kind: String::from_str("function"),
        function: Function {
            name: String::from_str("make_file"),
            description: String::from_str(
                "Creates a file which is then made available to user",
            ),
            parameters: String::from_str(
                "{\"type\":\"object\",\"properties\":{\"content\":{\"type\":\"string\",\"description\":\"The content to be included in the file\"}},\"required\":[\"content\"]}",
            ),
        },
    }
}

} // verus!
