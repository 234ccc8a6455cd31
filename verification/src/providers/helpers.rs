//! The chat-completion request and response, as plain values shared by every
//! backend.

use vstd::prelude::*;

use crate::provider::Provider;

verus! {

/// Who a chat message is from.
#[derive(Debug, Clone, Copy, PartialEq, Eq, Structural)]
pub enum ChatRole {
    System,
    User,
}

/// One message of a chat-completion request.
#[derive(Debug, Clone)]
pub struct ChatMessage {
    pub role: ChatRole,
    pub content: String,
}

/// What a [`ChatMessage`] holds.
#[verifier::ext_equal]
pub ghost struct ChatMessageView {
    pub role: ChatRole,
    pub content: Seq<char>,
}

impl View for ChatMessage {
    type V = ChatMessageView;

    open spec fn view(&self) -> ChatMessageView {
        ChatMessageView { role: self.role, content: self.content@ }
    }
}

/// A chat-completion request: the configured model and the messages, in
/// order.
#[derive(Debug)]
pub struct ChatRequest {
    pub model: String,
    pub messages: Vec<ChatMessage>,
}

/// What a [`ChatRequest`] holds.
#[verifier::ext_equal]
pub ghost struct ChatRequestView {
    pub model: Seq<char>,
    pub messages: Seq<ChatMessageView>,
}

impl View for ChatRequest {
    type V = ChatRequestView;

    open spec fn view(&self) -> ChatRequestView {
        ChatRequestView {
            model: self.model@,
            messages: self.messages@.map_values(|m: ChatMessage| m@),
        }
    }
}

/// One choice of a chat-completion response: the text content of its
/// message, if the message has any.
#[derive(Debug)]
pub struct ChatChoice {
    pub content: Option<String>,
}

/// What a [`ChatChoice`] holds.
#[verifier::ext_equal]
pub ghost struct ChatChoiceView {
    pub content: Option<Seq<char>>,
}

impl View for ChatChoice {
    type V = ChatChoiceView;

    open spec fn view(&self) -> ChatChoiceView {
        ChatChoiceView {
            content: match self.content {
                Some(c) => Some(c@),
                None => None,
            },
        }
    }
}

/// A provider-side failure.  An empty response is distinct from a transport
/// failure so the two can be logged differently.
#[derive(Debug)]
pub enum ProviderError {
    /// The configured identifier names no supported backend.
    Unsupported { provider: Provider },
    /// The request never produced a response: a network failure or a
    /// non-success status.
    Transport { detail: String },
    /// The response is empty or contains no content.
    EmptyResponse,
}

/// What a [`ProviderError`] holds.
#[verifier::ext_equal]
pub ghost enum ProviderErrorView {
    Unsupported { provider: Provider },
    Transport { detail: Seq<char> },
    EmptyResponse,
}

impl View for ProviderError {
    type V = ProviderErrorView;

    open spec fn view(&self) -> ProviderErrorView {
        match self {
            ProviderError::Unsupported { provider } => ProviderErrorView::Unsupported {
                provider: *provider,
            },
            ProviderError::Transport { detail } => ProviderErrorView::Transport {
                detail: detail@,
            },
            ProviderError::EmptyResponse => ProviderErrorView::EmptyResponse,
        }
    }
}

/// Builds the request every backend sends: exactly two messages, the system
/// prompt and the user prompt, verbatim and in that order, with the
/// configured model.
pub fn build_openai_request(model: &str, system_prompt: &str, user_prompt: &str) -> (r:
    ChatRequest)
    ensures
        r@.model == model@,
        r@.messages.len() == 2,
        (r@.messages[0] == ChatMessageView { role: ChatRole::System, content: system_prompt@ }),
        (r@.messages[1] == ChatMessageView { role: ChatRole::User, content: user_prompt@ }),
{
    let mut messages: Vec<ChatMessage> = Vec::new();
    messages.push(ChatMessage { role: ChatRole::System, content: system_prompt.to_owned() });
    messages.push(ChatMessage { role: ChatRole::User, content: user_prompt.to_owned() });
    let r = ChatRequest { model: model.to_owned(), messages };
    proof {
        assert(r@.messages[0] =~= ChatMessageView {
            role: ChatRole::System,
            content: system_prompt@,
        });
        assert(r@.messages[1] =~= ChatMessageView {
            role: ChatRole::User,
            content: user_prompt@,
        });
    }
    r
}

/// The text of a response: the content of the first choice.  A response with
/// zero choices, or whose first choice has no text content, is the empty
/// response, never a transport failure.
pub fn first_choice_content(choices: &Vec<ChatChoice>) -> (r: Result<String, ProviderError>)
    ensures
        (match r {
            Ok(s) => choices@.len() > 0 && (choices@[0]@.content matches Some(c) && s@ == c),
            Err(e) => (choices@.len() == 0 || choices@[0]@.content is None) && e@
                == ProviderErrorView::EmptyResponse,
        }),
{
    if choices.len() == 0 {
        return Err(ProviderError::EmptyResponse);
    }
    match &choices[0].content {
        Some(c) => Ok(c.clone()),
        None => Err(ProviderError::EmptyResponse),
    }
}

} // verus!
