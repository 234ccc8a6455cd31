//! The system prompt sent ahead of the user's query, per persona.

use vstd::prelude::*;

use crate::persona::Persona;

verus! {

pub const SYSTEM_PROMPT: &'static str = "You are a helpful assistant that provides concise, minimal responses.\nWhen asked how to do something, provide ONLY the command or code needed, without any explanation.\nYour output should be directly usable - no formatting, no explanations, no extra text.\nFor example, if asked \"how to make a git commit\", respond with only: git commit -m \"\"\nKeep responses minimal and executable. \nYou are running on macos, make sure to return a compatible command";

/// The system prompt of each persona.
pub open spec fn spec_system_prompt(persona: Persona) -> Seq<char> {
    match persona {
        Persona::Default => SYSTEM_PROMPT@,
    }
}

/// The system prompt a persona selects.
pub fn get_system_prompt(persona: Persona) -> (r: String)
    ensures
        r@ == spec_system_prompt(persona),
{
    match persona {
        Persona::Default => SYSTEM_PROMPT.to_owned(),
    }
}

} // verus!
