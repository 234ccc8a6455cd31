//! The document's update operations.

use qq::configs::config_file::{table_lookup, ConfigFile};
use qq::configs::types::{ConfigError, ProviderConfig};
use qq::persona::Persona;
use qq::provider::Provider;

fn create_config_file() -> ConfigFile {
    ConfigFile {
        providers: Some(vec![
            (
                Provider::OpenRouter,
                ProviderConfig {
                    api_key: "openrouter-key".to_string(),
                    model: "gpt-4".to_string(),
                },
            ),
            (
                Provider::OpenAI,
                ProviderConfig {
                    api_key: "openai-key".to_string(),
                    model: "gpt-3.5".to_string(),
                },
            ),
        ]),
        provider: Some(Provider::OpenRouter),
        persona: Some(Persona::Default),
        auto_copy: true,
        log_file: None,
    }
}

#[test]
fn test_update_model() -> Result<(), ConfigError> {
    let mut config = create_config_file();
    config.update_model("gpt-5")?;
    let providers = config.providers.unwrap();
    assert_eq!(
        table_lookup(&providers, Provider::OpenRouter).unwrap().model,
        "gpt-5"
    );
    Ok(())
}

#[test]
fn test_update_model_no_provider_selected() -> Result<(), ConfigError> {
    let mut config = create_config_file();
    config.provider = None;
    let result = config.update_model("gpt-5");
    assert!(result.is_err());
    Ok(())
}

#[test]
fn test_update_api_key() -> Result<(), ConfigError> {
    let mut config = create_config_file();
    config.update_api_key("new-api-key")?;
    let providers = config.providers.unwrap();
    assert_eq!(
        table_lookup(&providers, Provider::OpenRouter).unwrap().api_key,
        "new-api-key"
    );
    Ok(())
}

#[test]
fn test_update_provider() -> Result<(), ConfigError> {
    let mut config = create_config_file();
    config.update_provider(&Provider::OpenAI)?;
    assert_eq!(config.provider.unwrap(), Provider::OpenAI);
    Ok(())
}

#[test]
fn test_update_provider_to_non_existing() -> Result<(), ConfigError> {
    let mut config = create_config_file();
    config.providers.as_mut().unwrap().retain(|e| e.0 != Provider::OpenAI);
    let result = config.update_provider(&Provider::OpenAI);
    assert!(result.is_err());
    Ok(())
}

#[test]
fn test_update_provider_when_no_providers() -> Result<(), ConfigError> {
    let mut config = create_config_file();
    config.providers = None;
    let result = config.update_provider(&Provider::OpenRouter);
    assert!(result.is_err());
    Ok(())
}

#[test]
fn test_update_model_keeps_other_entries() -> Result<(), ConfigError> {
    let mut config = create_config_file();
    config.update_model("gpt-5")?;
    let providers = config.providers.unwrap();
    let untouched = table_lookup(&providers, Provider::OpenAI).unwrap();
    assert_eq!(untouched.model, "gpt-3.5");
    assert_eq!(untouched.api_key, "openai-key");
    let updated = table_lookup(&providers, Provider::OpenRouter).unwrap();
    assert_eq!(updated.api_key, "openrouter-key");
    assert_eq!(config.provider, Some(Provider::OpenRouter));
    assert_eq!(config.persona, Some(Persona::Default));
    assert!(config.auto_copy);
    Ok(())
}

#[test]
fn test_update_provider_failure_lists_available() {
    let mut config = create_config_file();
    config.providers.as_mut().unwrap().retain(|e| e.0 != Provider::OpenAI);
    match config.update_provider(&Provider::OpenAI) {
        Err(ConfigError::UnknownProvider { provider, available }) => {
            assert_eq!(provider, Provider::OpenAI);
            assert_eq!(available, vec![Provider::OpenRouter]);
        }
        other => panic!("expected UnknownProvider, got {:?}", other),
    }
    assert_eq!(config.provider, Some(Provider::OpenRouter));
}
