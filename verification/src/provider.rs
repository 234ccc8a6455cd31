//! The closed set of LLM backends a configuration can select.

use vstd::prelude::*;

verus! {

/// A named LLM backend.  The set is closed and enumerated at compile time;
/// selecting a backend is a pure mapping from this identifier to a
/// constructor, never a registry lookup.
#[derive(Debug, Clone, Copy, PartialEq, Eq, Hash, Structural)]
pub enum Provider {
    OpenRouter,
    OpenAI,
}

impl Provider {
    /// The identifier under which this provider appears in the persisted
    /// configuration document.
    pub fn name(&self) -> (r: &'static str)
        ensures
            r@ == spec_provider_name(*self),
    {
        match self {
            Provider::OpenRouter => "openrouter",
            Provider::OpenAI => "openai",
        }
    }
}

/// The identifier of each provider, as written in the document.
pub open spec fn spec_provider_name(p: Provider) -> Seq<char> {
    match p {
        Provider::OpenRouter => "openrouter"@,
        Provider::OpenAI => "openai"@,
    }
}

/// The provider a document identifier names, if any; identifiers outside the
/// closed set are a parse error.
pub open spec fn spec_provider_of_name(s: Seq<char>) -> Option<Provider> {
    if s == spec_provider_name(Provider::OpenRouter) {
        Some(Provider::OpenRouter)
    } else if s == spec_provider_name(Provider::OpenAI) {
        Some(Provider::OpenAI)
    } else {
        None
    }
}

/// Distinct providers have distinct document identifiers, and parsing a
/// provider's identifier gives that provider back.
pub proof fn lemma_provider_names_injective()
    ensures
        forall|p: Provider| spec_provider_of_name(spec_provider_name(p)) == Some(p),
{
    reveal_strlit("openrouter");
    reveal_strlit("openai");
    assert(spec_provider_name(Provider::OpenRouter).len() == 10);
    assert(spec_provider_name(Provider::OpenAI).len() == 6);
    assert forall|p: Provider| spec_provider_of_name(spec_provider_name(p)) == Some(p) by {
        match p {
            Provider::OpenRouter => {},
            Provider::OpenAI => {},
        }
    }
}

} // verus!
