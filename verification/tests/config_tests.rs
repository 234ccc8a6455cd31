//! Resolution: merging the document with command-line overrides.

use qq::args::Args;
use qq::configs::config::{Config, ConfigBuilder};
use qq::configs::config_file::ConfigFile;
use qq::configs::types::{ConfigError, ProviderConfig};
use qq::persona::Persona;
use qq::provider::Provider;

fn create_test_args() -> Args {
    Args { command: None, model: None, persona: None, api_key: None, args: vec![] }
}

fn create_test_config_file() -> ConfigFile {
    ConfigFile {
        provider: Some(Provider::OpenRouter),
        providers: Some(vec![(
            Provider::OpenRouter,
            ProviderConfig {
                api_key: "test-api-key".to_string(),
                model: "mistralai/mixtral-8x7b".to_string(),
            },
        )]),
        persona: Some(Persona::Default),
        auto_copy: false,
        log_file: None,
    }
}

#[test]
fn test_from_config_file_success() {
    let config_file = create_test_config_file();
    let args = create_test_args();

    let result = Config::from_config_file(&config_file, &args);
    assert!(result.is_ok());

    let config = result.unwrap();
    assert_eq!(config.provider, Provider::OpenRouter);
    assert_eq!(config.model, "mistralai/mixtral-8x7b");
    assert_eq!(config.api_key, "test-api-key");
    assert_eq!(config.persona, Some(Persona::Default));
    assert!(!config.auto_copy);
}

#[test]
fn test_cli_args_override_model() {
    let config_file = create_test_config_file();
    let mut args = create_test_args();
    args.model = Some("gpt-4".to_string());

    let config = Config::from_config_file(&config_file, &args)
        .expect("config should be created successfully");
    assert_eq!(config.model, "gpt-4");
}

#[test]
fn test_cli_args_override_api_key() {
    let config_file = create_test_config_file();
    let mut args = create_test_args();
    args.api_key = Some("override-key".to_string());

    let config = Config::from_config_file(&config_file, &args)
        .expect("config should be created successfully");
    assert_eq!(config.api_key, "override-key");
}

#[test]
fn test_missing_provider_error() {
    let mut config_file = create_test_config_file();
    config_file.provider = None;
    let args = create_test_args();

    let result = Config::from_config_file(&config_file, &args);
    assert!(result.is_err());
}

#[test]
fn test_missing_api_key_error() {
    let mut config_file = create_test_config_file();
    if let Some(providers) = &mut config_file.providers {
        providers[0].1.api_key = "".to_string();
    }
    let args = create_test_args();

    let result = Config::from_config_file(&config_file, &args);
    assert!(result.is_err());
}

#[test]
fn test_missing_api_key_but_cli_override() {
    let mut config_file = create_test_config_file();
    if let Some(providers) = &mut config_file.providers {
        providers[0].1.api_key = "".to_string();
    }
    let mut args = create_test_args();
    args.api_key = Some("cli-key".to_string());

    let result = Config::from_config_file(&config_file, &args);
    assert!(result.is_ok());
    let config = result.expect("config should be created successfully");
    assert_eq!(config.api_key, "cli-key");
}

#[test]
fn test_provider_not_in_providers_map() {
    let mut config_file = create_test_config_file();
    config_file.provider = Some(Provider::OpenAI);
    let args = create_test_args();

    let result = Config::from_config_file(&config_file, &args);
    assert!(result.is_err());
}

#[test]
fn test_unknown_provider_error_enumerates_available() {
    let mut config_file = create_test_config_file();
    config_file.provider = Some(Provider::OpenAI);
    let args = create_test_args();

    match Config::from_config_file(&config_file, &args) {
        Err(ConfigError::UnknownProvider { provider, available }) => {
            assert_eq!(provider, Provider::OpenAI);
            assert_eq!(available, vec![Provider::OpenRouter]);
        }
        other => panic!("expected UnknownProvider, got {:?}", other),
    }
}

#[test]
fn test_whitespace_api_key_is_missing() {
    let mut config_file = create_test_config_file();
    if let Some(providers) = &mut config_file.providers {
        providers[0].1.api_key = " \t ".to_string();
    }
    let args = create_test_args();

    match Config::from_config_file(&config_file, &args) {
        Err(ConfigError::MissingApiKey { provider }) => {
            assert_eq!(provider, Provider::OpenRouter);
        }
        other => panic!("expected MissingApiKey, got {:?}", other),
    }
}

#[test]
fn test_no_providers_configured_error() {
    let mut config_file = create_test_config_file();
    config_file.providers = None;
    let args = create_test_args();
    assert!(matches!(
        Config::from_config_file(&config_file, &args),
        Err(ConfigError::NoProvidersConfigured)
    ));

    let mut config_file = create_test_config_file();
    config_file.providers = Some(vec![]);
    assert!(matches!(
        Config::from_config_file(&config_file, &args),
        Err(ConfigError::NoProvidersConfigured)
    ));
}

#[test]
fn test_builder_requires_all_fields() {
    let builder = ConfigBuilder::new();
    assert!(matches!(builder.build(), Err(ConfigError::BuildValidationFailed)));

    let mut builder = ConfigBuilder::new();
    builder.provider(Provider::OpenRouter);
    builder.model("m".to_string());
    builder.api_key("k".to_string());
    let config = builder.build().expect("all required fields were set");
    assert_eq!(config.provider, Provider::OpenRouter);
    assert_eq!(config.model, "m");
    assert_eq!(config.api_key, "k");
    assert_eq!(config.persona, None);
    assert!(!config.auto_copy);
    assert_eq!(config.log_file, None);
}

#[test]
fn test_persona_override_wins() {
    let mut config_file = create_test_config_file();
    config_file.persona = None;
    let mut args = create_test_args();
    args.persona = Some(Persona::Default);

    let config = Config::from_config_file(&config_file, &args)
        .expect("config should be created successfully");
    assert_eq!(config.persona, Some(Persona::Default));
}

#[test]
fn test_empty_stored_model_fails_validation() {
    let mut config_file = create_test_config_file();
    if let Some(providers) = &mut config_file.providers {
        providers[0].1.model = "".to_string();
    }
    let args = create_test_args();
    assert!(matches!(
        Config::from_config_file(&config_file, &args),
        Err(ConfigError::BuildValidationFailed)
    ));
}

#[test]
fn test_empty_override_api_key_fails_validation() {
    let config_file = create_test_config_file();
    let mut args = create_test_args();
    args.api_key = Some("".to_string());
    assert!(matches!(
        Config::from_config_file(&config_file, &args),
        Err(ConfigError::BuildValidationFailed)
    ));
}

#[test]
fn test_builder_rejects_empty_model_and_key() {
    let mut builder = ConfigBuilder::new();
    builder.provider(Provider::OpenRouter);
    builder.model("".to_string());
    builder.api_key("k".to_string());
    assert!(matches!(builder.build(), Err(ConfigError::BuildValidationFailed)));

    let mut builder = ConfigBuilder::new();
    builder.provider(Provider::OpenRouter);
    builder.model("m".to_string());
    builder.api_key("".to_string());
    assert!(matches!(builder.build(), Err(ConfigError::BuildValidationFailed)));
}

#[test]
fn test_config_error_messages() {
    let mut config_file = create_test_config_file();
    config_file.provider = Some(Provider::OpenAI);
    let args = create_test_args();
    let err = Config::from_config_file(&config_file, &args).unwrap_err();
    assert_eq!(
        err.message(),
        "Provider 'openai' not found in config\n\nAvailable providers: openrouter\nAdd a [providers.openai] section to your config"
    );

    assert_eq!(
        ConfigError::NoProviderSelected.message(),
        "No provider selected in config\nSet 'provider = \"openrouter\"' first"
    );
}
