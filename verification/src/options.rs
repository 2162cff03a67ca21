//! What the two main commands are asked for.

use vstd::prelude::*;

verus! {

/// What the explain command is asked for.
#[derive(Debug)]
pub struct ExplainOptions {
    /// The words of the command to explain; read from the input where empty.
    pub command: Vec<String>,
}

/// What the suggest command is asked for.
#[derive(Debug)]
pub struct SuggestOptions {
    /// Send the output of the previous command along as context.
    pub ctx: bool,
    /// The words of the request.
    pub prompt: Vec<String>,
}

} // verus!
