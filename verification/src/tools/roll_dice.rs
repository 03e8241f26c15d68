//! The dice tool: a single draw of a six-sided die.

use rand::RngExt;
use vstd::prelude::*;
use vstd::string::StringExecFns;

use crate::error::Error;
use crate::tools::{Function, Tool};

verus! {

/// The arguments of the `roll_dice` tool: none.
#[derive(Debug)]
pub struct RollDiceArgs {}

/// Relies on rand: `rng().random_range(1..=6)` returns a value inside the
/// requested range.
#[verifier::external_body]
fn roll_d6() -> (r: u8)
    ensures
        1 <= r <= 6,
{
    rand::rng().random_range(1..=6)
}

/// Rolls a six-sided die: the result is always between one and six.
pub fn execute(_args: RollDiceArgs) -> (r: Result<u8, Error>)
    ensures
        r matches Ok(v) && 1 <= v <= 6,
{
    Ok(roll_d6())
}

/// The catalog entry of the `roll_dice` tool.
pub fn get_tool() -> (r: Tool)
    ensures
        r.function.name@ == "roll_dice"@,
{
    Tool {
        kind: String::from_str("function"),
        function: Function {
            name: String::from_str("roll_dice"),
            description: String::from_str("Roll a 6-sided die"),
            parameters: String::from_str(
                "{\"type\":\"object\",\"properties\":{},\"required\":[]}",
            ),
        },
    }
}

} // verus!
