//! The OpenRouter backend: its endpoint, client headers, and the request it
//! sends.  The HTTP round trip itself happens outside the library.

use vstd::prelude::*;

use crate::configs::config::Config;
use crate::provider::Provider;
use crate::providers::helpers::{build_openai_request, ChatRequest, ProviderError};

verus! {

pub const OPEN_ROUTER_API_BASE: &'static str = "https://openrouter.ai/api/v1";

/// An OpenRouter backend, constructed from the resolved credential and
/// model.
#[derive(Debug)]
pub struct OpenRouter {
    pub api_key: String,
    pub model: String,
    pub base_url: String,
}

/// What an [`OpenRouter`] holds.
#[verifier::ext_equal]
pub ghost struct OpenRouterView {
    pub api_key: Seq<char>,
    pub model: Seq<char>,
    pub base_url: Seq<char>,
}

impl View for OpenRouter {
    type V = OpenRouterView;

    open spec fn view(&self) -> OpenRouterView {
        OpenRouterView { api_key: self.api_key@, model: self.model@, base_url: self.base_url@ }
    }
}

impl OpenRouter {
    /// A backend against the production endpoint.
    pub fn new(api_key: &str, model: &str) -> (r: OpenRouter)
        ensures
            r@.api_key == api_key@,
            r@.model == model@,
            r@.base_url == OPEN_ROUTER_API_BASE@,
    {
        Self::with_base_url(api_key, model, OPEN_ROUTER_API_BASE)
    }

    fn with_base_url(api_key: &str, model: &str, base_url: &str) -> (r: OpenRouter)
        ensures
            r@.api_key == api_key@,
            r@.model == model@,
            r@.base_url == base_url@,
    {
        OpenRouter {
            api_key: api_key.to_owned(),
            model: model.to_owned(),
            base_url: base_url.to_owned(),
        }
    }

    /// The two fixed non-authentication headers that identify this client to
    /// the upstream service.
    pub fn get_headers() -> (r: Vec<(String, String)>)
        ensures
            r@.len() == 2,
            r@[0].0@ == "http-referer"@,
            r@[0].1@ == "https://github.com/grantmegrabyan/qq"@,
            r@[1].0@ == "x-title"@,
            r@[1].1@ == "qq"@,
    {
        let mut headers: Vec<(String, String)> = Vec::new();
        headers.push(
            ("http-referer".to_owned(), "https://github.com/grantmegrabyan/qq".to_owned()),
        );
        headers.push(("x-title".to_owned(), "qq".to_owned()));
        headers
    }

    /// The request this backend sends: the configured model and exactly the
    /// system and user messages.
    pub fn build_request(&self, system_prompt: &str, user_prompt: &str) -> (r: ChatRequest)
        ensures
            r@.model == self.model@,
            r@.messages.len() == 2,
            r@.messages[0].content == system_prompt@,
            r@.messages[1].content == user_prompt@,
            r@.messages[0].role is System,
            r@.messages[1].role is User,
    {
        build_openai_request(self.model.as_str(), system_prompt, user_prompt)
    }
}

/// The backend a resolved configuration selects: a closed mapping from the
/// provider identifier to a constructor, with an error for identifiers
/// outside the supported set.
pub fn select_backend(config: &Config) -> (r: Result<OpenRouter, ProviderError>)
    ensures
        (match r {
            Ok(b) => config.provider == Provider::OpenRouter && b@.api_key == config.api_key@
                && b@.model == config.model@,
            Err(e) => config.provider != Provider::OpenRouter && (e@ matches
                crate::providers::helpers::ProviderErrorView::Unsupported { provider } && provider
                == config.provider),
        }),
{
    match config.provider {
        Provider::OpenRouter => Ok(
            OpenRouter::new(config.api_key.as_str(), config.model.as_str()),
        ),
        Provider::OpenAI => Err(ProviderError::Unsupported { provider: config.provider }),
    }
}

} // verus!
