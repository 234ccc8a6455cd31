//! Personas: named variants of the system prompt sent ahead of the user's
//! query.

use vstd::prelude::*;

verus! {

/// A named system-prompt variant.  The set is closed and enumerated at
/// compile time.
#[derive(Debug, Clone, Copy, PartialEq, Eq, Structural)]
pub enum Persona {
    Default,
}

impl Persona {
    /// The identifier under which this persona appears in the persisted
    /// configuration document.
    pub fn name(&self) -> (r: &'static str)
        ensures
            r@ == spec_persona_name(*self),
    {
        match self {
            Persona::Default => "default",
        }
    }
}

/// The identifier of each persona, as written in the document.
pub open spec fn spec_persona_name(p: Persona) -> Seq<char> {
    match p {
        Persona::Default => "default"@,
    }
}

/// The persona a document identifier names, if any; identifiers outside the
/// closed set are a parse error.
pub open spec fn spec_persona_of_name(s: Seq<char>) -> Option<Persona> {
    if s == spec_persona_name(Persona::Default) {
        Some(Persona::Default)
    } else {
        None
    }
}

} // verus!
