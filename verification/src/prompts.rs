//! The fixed prompt texts handed to the remote completion service.

use vstd::prelude::*;

verus! {

/// The shared context prompt.
pub open spec fn spec_base_context_prompt() -> Seq<char> {
    "# General Context\nYou are a git and GitHub search assistant. The specific task to complete is explained below. You must follow the instructions.\n"@
}

/// The shared context prompt.
pub fn base_context_prompt() -> (r: &'static str)
    ensures
        r@ == spec_base_context_prompt(),
{
    "# General Context\nYou are a git and GitHub search assistant. The specific task to complete is explained below. You must follow the instructions.\n"
}

/// The task prompt for binary classification.
pub open spec fn spec_binary_classification_system_prompt() -> Seq<char> {
    "# Task\nYou will be given a user query, an instruction, and a tool call output format to follow.\n\nYour job is to read the relevant context, submit your answer to the instruction in the tool call format."@
}

/// The task prompt for binary classification.
pub fn binary_classification_system_prompt() -> (r: &'static str)
    ensures
        r@ == spec_binary_classification_system_prompt(),
{
    "# Task\nYou will be given a user query, an instruction, and a tool call output format to follow.\n\nYour job is to read the relevant context, submit your answer to the instruction in the tool call format."
}

} // verus!
