//! The OpenAI backend: constructed from the resolved credential and model,
//! against the service's default endpoint.  The HTTP round trip itself
//! happens outside the library.

use vstd::prelude::*;

use crate::providers::helpers::{build_openai_request, ChatRequest};

verus! {

/// An OpenAI backend.
#[derive(Debug)]
pub struct OpenAI {
    pub api_key: String,
    pub model: String,
}

/// What an [`OpenAI`] holds.
#[verifier::ext_equal]
pub ghost struct OpenAIView {
    pub api_key: Seq<char>,
    pub model: Seq<char>,
}

impl View for OpenAI {
    type V = OpenAIView;

    open spec fn view(&self) -> OpenAIView {
        OpenAIView { api_key: self.api_key@, model: self.model@ }
    }
}

impl OpenAI {
    pub fn new(api_key: &str, model: &str) -> (r: OpenAI)
        ensures
            r@.api_key == api_key@,
            r@.model == model@,
    {
        OpenAI { api_key: api_key.to_owned(), model: model.to_owned() }
    }

    /// The request this backend sends: the configured model and exactly the
    /// system and user messages.
    pub fn build_request(&self, system_prompt: &str, user_prompt: &str) -> (r: ChatRequest)
        ensures
            r@.model == self.model@,
            r@.messages.len() == 2,
            r@.messages[0].content == system_prompt@,
            r@.messages[1].content == user_prompt@,
            r@.messages[0].role is System,
            r@.messages[1].role is User,
    {
        build_openai_request(self.model.as_str(), system_prompt, user_prompt)
    }
}

} // verus!
