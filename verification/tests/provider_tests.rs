//! The provider abstraction: request building, backend selection, and
//! response extraction.

use qq::args::join_args;
use qq::configs::config::ConfigBuilder;
use qq::logging::ConfigForLogging;
use qq::persona::Persona;
use qq::prompts::get_system_prompt;
use qq::provider::Provider;
use qq::providers::helpers::{
    build_openai_request, first_choice_content, ChatChoice, ChatRole, ProviderError,
};
use qq::providers::open_router::{select_backend, OpenRouter};

#[test]
fn test_build_openai_request() {
    let model = "gpt-3.5-turbo";
    let system_prompt = "You are a helpful assistant";
    let user_prompt = "What is 2+2?";

    let request = build_openai_request(model, system_prompt, user_prompt);

    assert_eq!(request.model, "gpt-3.5-turbo");
    assert_eq!(request.messages.len(), 2);

    match request.messages[0].role {
        ChatRole::System => assert_eq!(request.messages[0].content, system_prompt),
        _ => panic!("First message should be a system message"),
    }
    match request.messages[1].role {
        ChatRole::User => assert_eq!(request.messages[1].content, user_prompt),
        _ => panic!("Second message should be a user message"),
    }
}

#[test]
fn test_get_headers() {
    let headers = OpenRouter::get_headers();
    assert_eq!(headers.len(), 2);
    assert_eq!(headers[0].0, "http-referer");
    assert_eq!(headers[0].1, "https://github.com/grantmegrabyan/qq");
    assert_eq!(headers[1].0, "x-title");
    assert_eq!(headers[1].1, "qq");
}

#[test]
fn test_build_request() {
    let provider = OpenRouter::new("test-api-key", "mistralai/mixtral-8x7b");
    let system_prompt = "You are a helpful assistant";
    let user_prompt = "What is 2+2?";

    let request = provider.build_request(system_prompt, user_prompt);

    assert_eq!(request.model, "mistralai/mixtral-8x7b");
    assert_eq!(request.messages.len(), 2);

    match request.messages[0].role {
        ChatRole::System => assert_eq!(request.messages[0].content, system_prompt),
        _ => panic!("First message should be a system message"),
    }
    match request.messages[1].role {
        ChatRole::User => assert_eq!(request.messages[1].content, user_prompt),
        _ => panic!("Second message should be a user message"),
    }
}

#[test]
fn test_zero_choices_is_empty_response() {
    let choices: Vec<ChatChoice> = vec![];
    match first_choice_content(&choices) {
        Err(ProviderError::EmptyResponse) => {}
        other => panic!("expected EmptyResponse, got {:?}", other),
    }
}

#[test]
fn test_choice_without_content_is_empty_response() {
    let choices = vec![ChatChoice { content: None }];
    match first_choice_content(&choices) {
        Err(ProviderError::EmptyResponse) => {}
        other => panic!("expected EmptyResponse, got {:?}", other),
    }
}

#[test]
fn test_first_choice_content_is_returned() {
    let choices = vec![
        ChatChoice { content: Some("first".to_string()) },
        ChatChoice { content: Some("second".to_string()) },
    ];
    assert_eq!(first_choice_content(&choices).unwrap(), "first");
}

fn resolved(provider: Provider) -> qq::configs::config::Config {
    let mut builder = ConfigBuilder::new();
    builder.provider(provider);
    builder.model("m".to_string());
    builder.api_key("k".to_string());
    builder.build().unwrap()
}

#[test]
fn test_select_backend() {
    let backend = select_backend(&resolved(Provider::OpenRouter)).unwrap();
    assert_eq!(backend.api_key, "k");
    assert_eq!(backend.model, "m");
    assert_eq!(backend.base_url, "https://openrouter.ai/api/v1");

    match select_backend(&resolved(Provider::OpenAI)) {
        Err(ProviderError::Unsupported { provider }) => {
            assert_eq!(provider, Provider::OpenAI);
        }
        other => panic!("expected Unsupported, got {:?}", other),
    }
}

#[test]
fn test_get_system_prompt_default() {
    let prompt = get_system_prompt(Persona::Default);
    assert!(prompt.starts_with("You are a helpful assistant"));
    assert!(prompt.contains("Keep responses minimal and executable."));
}

#[test]
fn test_join_args_single_spaces() {
    assert_eq!(join_args(&vec![]), "");
    assert_eq!(join_args(&vec!["one".to_string()]), "one");
    assert_eq!(
        join_args(&vec!["how".to_string(), "to".to_string(), "commit".to_string()]),
        "how to commit"
    );
}

#[test]
fn test_config_for_logging_omits_api_key() {
    let config = resolved(Provider::OpenRouter);
    let logged = ConfigForLogging::from_config(&config);
    assert_eq!(logged.provider, "openrouter");
    assert_eq!(logged.model, "m");
    assert_eq!(logged.persona, None);
    assert!(!logged.auto_copy);
}
