//! The error taxonomy of the orchestration core.
//!
//! Tool errors are recovered locally (they become the textual response of a
//! tool result), conflicts are surfaced immediately without mutating state,
//! and transport errors are fatal to the turn in progress.

use vstd::prelude::*;
use vstd::string::StringExecFns;

use crate::textfmt::{dec_chars, usize_to_string};

verus! {

/// An error of the orchestration core.
#[derive(Debug)]
pub enum Error {
    /// A filesystem, transport or store failure, reported by the
    /// surrounding runtime as text.
    Io(String),
    /// A glob pattern that could not be compiled, with the reason as text.
    Glob(String),
    /// A failure inside a tool, or a malformed tool invocation.
    Tool(String),
    /// A second turn was started while one was already in flight.
    Conflict(String),
    /// A request asked for more items than the configured limit allows.
    Limit { item: String, requested: usize, limit: usize },
    /// A failure with no further detail.
    Other,
}

/// The text an error renders to.
pub open spec fn error_chars(e: Error) -> Seq<char> {
    match e {
        Error::Io(m) => m@,
        Error::Glob(m) => m@,
        Error::Tool(m) => "Tool Error: "@ + m@,
        Error::Conflict(m) => "State Conflict: "@ + m@,
        Error::Limit { item, requested, limit } => "Limit exceeded. Requested "@ + dec_chars(
            requested as nat,
        ) + " of "@ + item@ + ". Limited to "@ + dec_chars(limit as nat),
        Error::Other => "Unknown Error"@,
    }
}

impl Clone for Error {
    fn clone(&self) -> (res: Self)
        ensures
            error_chars(res) == error_chars(*self),
    {
        let res = match self {
            Error::Io(m) => Error::Io(m.clone()),
            Error::Glob(m) => Error::Glob(m.clone()),
            Error::Tool(m) => Error::Tool(m.clone()),
            Error::Conflict(m) => Error::Conflict(m.clone()),
            Error::Limit { item, requested, limit } => Error::Limit {
                item: item.clone(),
                requested: *requested,
                limit: *limit,
            },
            Error::Other => Error::Other,
        };
        res
    }
}

impl Error {
    /// The error as text, for tool responses and the UI.
    pub fn message(&self) -> (r: String)
        ensures
            r@ == error_chars(*self),
    {
        match self {
            Error::Io(m) => m.clone(),
            Error::Glob(m) => m.clone(),
            Error::Tool(m) => {
                let mut s = String::from_str("Tool Error: ");
                s.append(m.as_str());
                s
            },
            Error::Conflict(m) => {
                let mut s = String::from_str("State Conflict: ");
                s.append(m.as_str());
                s
            },
            Error::Limit { item, requested, limit } => {
                let mut s = String::from_str("Limit exceeded. Requested ");
                let req = usize_to_string(*requested);
                s.append(req.as_str());
                s.append(" of ");
                s.append(item.as_str());
                s.append(". Limited to ");
                let lim = usize_to_string(*limit);
                s.append(lim.as_str());
                s
            },
            Error::Other => String::from_str("Unknown Error"),
        }
    }
}

} // verus!
