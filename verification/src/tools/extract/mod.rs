//! The archive/email extraction tool: which extractor a file routes to, how
//! the extraction folder is named, and the result shape. The filesystem work
//! happens in the surrounding runtime.

pub mod extract_msg;

use vstd::prelude::*;
use vstd::string::{StrSliceExecFns, StringExecFns};

use crate::error::Error;
use crate::file_handler::{ascii_lower, ext_of};
use crate::tools::{Function, Tool};

verus! {

/// The arguments of the `extract` tool.
#[derive(Debug)]
pub struct ExtractArgs {
    pub filename: String,
}

/// What a successful extraction reports.
#[derive(Debug)]
pub struct ExtractResult {
    pub status: String,
    pub extraction_folder: String,
    pub extracted_files: Vec<String>,
    pub total_files: usize,
}

/// The extractors the tool knows.
#[derive(Debug, PartialEq, Eq, Structural)]
pub enum ExtractKind {
    Zip,
    Eml,
    Msg,
}

/// The extractor a lowercased extension selects, if any.
pub open spec fn spec_extract_kind(e: Seq<char>) -> Option<ExtractKind> {
    if e == "zip"@ {
        Some(ExtractKind::Zip)
    } else if e == "eml"@ {
        Some(ExtractKind::Eml)
    } else if e == "msg"@ {
        Some(ExtractKind::Msg)
    } else {
        None
    }
}

/// Decides how a file is extracted: which extractor its extension selects,
/// and the folder, named after the file, the contents go to. A file whose
/// extension no extractor claims is refused; a file without an extension is
/// refused as corrupted.
pub fn extract_route(filename: &str) -> (r: Result<(ExtractKind, String), Error>)
    ensures
        match r {
            Ok((kind, folder)) => {
                &&& spec_extract_kind(ascii_lower(ext_of(filename@))) == Some(kind)
                &&& folder@ == filename@ + ".extracted"@
                &&& ext_of(filename@).len() > 0
            },
            Err(e) => {
                &&& e is Tool
                &&& ext_of(filename@).len() == 0 ==> crate::error::error_chars(e) == "Tool Error: "@
                    + "Extraction error, corrupted filename"@
                &&& ext_of(filename@).len() > 0 ==> spec_extract_kind(
                    ascii_lower(ext_of(filename@)),
                ) is None && crate::error::error_chars(e) == "Tool Error: "@
                    + "Unsupported file type"@
            },
        },
        ext_of(filename@).len() > 0 && spec_extract_kind(ascii_lower(ext_of(filename@))) is Some
            ==> r is Ok,
{
    let ext = crate::file_handler::ext_of_exec(filename);
    if ext.as_str().unicode_len() == 0 {
        return Err(Error::Tool(String::from_str("Extraction error, corrupted filename")));
    }
    let lowered = crate::file_handler::ascii_lowercase(ext.as_str());
    let s = lowered.as_str();
    let kind = if crate::textfmt::str_eq(s, "zip") {
        Some(ExtractKind::Zip)
    } else if crate::textfmt::str_eq(s, "eml") {
        Some(ExtractKind::Eml)
    } else if crate::textfmt::str_eq(s, "msg") {
        Some(ExtractKind::Msg)
    } else {
        None
    };
    match kind {
        Some(kind) => {
            let mut folder = filename.to_string();
            folder.append(".extracted");
            Ok((kind, folder))
        },
        None => Err(Error::Tool(String::from_str("Unsupported file type"))),
    }
}

/// The catalog entry of the `extract` tool.
pub fn get_tool() -> (r: Tool)
    ensures
        r.function.name@ == "extract"@,
{
    Tool {
        kind: String::from_str("function"),
        function: Function {
            name: String::from_str("extract"),
            description: String::from_str(
                "Extract content from email files (.msg, .eml) and zip archives (.zip).",
            ),
            parameters: String::from_str(
                "{\"type\":\"object\",\"properties\":{\"filename\":{\"type\":\"string\",\"description\":\"The path to the file to extract.\"}},\"required\":[\"filename\"]}",
            ),
        },
    }
}

} // verus!
