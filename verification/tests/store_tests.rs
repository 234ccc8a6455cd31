//! The persisted store on the in-memory filesystem and environment.

use qq::args::Args;
use qq::configs::codec::{parse_document, render_document};
use qq::configs::config_file::{table_lookup, ConfigFile};
use qq::configs::config_service::{ConfigService, StoreError};
use qq::configs::types::{
    ConfigError, FileSystem, MemEnvironment, MemFileSystem, ProviderConfig,
};
use qq::persona::Persona;
use qq::provider::Provider;

fn no_args() -> Args {
    Args { command: None, model: None, persona: None, api_key: None, args: vec![] }
}

fn mem_service() -> ConfigService<MemFileSystem, MemEnvironment> {
    ConfigService::new(MemFileSystem::new(), MemEnvironment::new())
}

fn two_provider_doc() -> ConfigFile {
    ConfigFile {
        provider: Some(Provider::OpenRouter),
        providers: Some(vec![
            (
                Provider::OpenRouter,
                ProviderConfig {
                    api_key: "openrouter-key".to_string(),
                    model: "openrouter-model".to_string(),
                },
            ),
            (
                Provider::OpenAI,
                ProviderConfig {
                    api_key: "openai-key".to_string(),
                    model: "openai-model".to_string(),
                },
            ),
        ]),
        persona: Some(Persona::Default),
        auto_copy: false,
        log_file: Some("./log.jsonl".to_string()),
    }
}

#[test]
fn test_config_path_resolution() {
    let svc = mem_service();
    assert_eq!(svc.get_config_path(), "./.qq/config.toml");

    let mut env = MemEnvironment::new();
    env.set_home("/home/someone");
    let svc = ConfigService::new(MemFileSystem::new(), env);
    assert_eq!(svc.get_config_path(), "/home/someone/.qq/config.toml");

    let mut env = MemEnvironment::new();
    env.set_home("/home/someone");
    env.set_var("QQ_HOME_PATH", "/tmp/qqhome");
    let svc = ConfigService::new(MemFileSystem::new(), env);
    assert_eq!(svc.get_config_path(), "/tmp/qqhome/config.toml");
}

#[test]
fn test_empty_store_synthesizes_default_and_needs_key() {
    let mut svc = mem_service();
    match svc.load(&no_args()) {
        Err(StoreError::Validation { path, error: ConfigError::MissingApiKey { provider } }) => {
            assert_eq!(provider, Provider::OpenRouter);
            assert_eq!(path, "./.qq/config.toml");
        }
        other => panic!("expected MissingApiKey, got {:?}", other),
    }
    let path = svc.get_config_path();
    assert!(svc.fs.file_exists(path.as_str()));

    let mut args = no_args();
    args.api_key = Some("sk-test".to_string());
    let config = svc.load(&args).expect("override supplies the key");
    assert_eq!(config.provider, Provider::OpenRouter);
    assert_eq!(config.api_key, "sk-test");
    assert_eq!(config.model, "kwaipilot/kat-coder-pro:free");
    assert_eq!(config.persona, Some(Persona::Default));
    assert!(config.auto_copy);
    assert_eq!(config.log_file, Some("./.qq.jsonl".to_string()));
}

#[test]
fn test_update_model_then_load_round_trip() {
    let mut svc = mem_service();
    let _ = svc.load(&no_args());
    svc.update_api_key("sk-local").expect("default document has a provider");
    svc.update_model("some/other-model").expect("default document has a provider");

    let config = svc.load(&no_args()).expect("stored key is now set");
    assert_eq!(config.model, "some/other-model");
    assert_eq!(config.api_key, "sk-local");
    assert_eq!(config.provider, Provider::OpenRouter);
    assert!(config.auto_copy);
    assert_eq!(config.persona, Some(Persona::Default));
    assert_eq!(config.log_file, Some("./.qq.jsonl".to_string()));
}

#[test]
fn test_update_provider_switches_backend() {
    let mut svc = mem_service();
    let path = svc.get_config_path();
    let text = render_document(&two_provider_doc());
    svc.fs.write(path.as_str(), text.as_str()).expect("in-memory write");

    svc.update_provider("openai").expect("openai has an entry");
    let config = svc.load(&no_args()).expect("openai's stored key is non-blank");
    assert_eq!(config.provider, Provider::OpenAI);
    assert_eq!(config.model, "openai-model");
    assert_eq!(config.api_key, "openai-key");
}

#[test]
fn test_update_provider_unknown_name() {
    let mut svc = mem_service();
    let _ = svc.load(&no_args());
    match svc.update_provider("bogus") {
        Err(StoreError::UnknownProviderName { name, available }) => {
            assert_eq!(name, "bogus");
            assert_eq!(available, vec![Provider::OpenRouter]);
        }
        other => panic!("expected UnknownProviderName, got {:?}", other),
    }
}

#[test]
fn test_update_on_empty_store_fails_to_read() {
    let mut svc = mem_service();
    match svc.update_model("m") {
        Err(StoreError::ReadFailed { path }) => assert_eq!(path, "./.qq/config.toml"),
        other => panic!("expected ReadFailed, got {:?}", other),
    }
}

#[test]
fn test_load_reports_parse_failure_with_path() {
    let mut svc = mem_service();
    let path = svc.get_config_path();
    svc.fs.write(path.as_str(), "this is not a config").expect("in-memory write");
    match svc.load(&no_args()) {
        Err(StoreError::ParseFailed { path: p, line }) => {
            assert_eq!(p, "./.qq/config.toml");
            assert_eq!(line, 1);
        }
        other => panic!("expected ParseFailed, got {:?}", other),
    }
}

#[test]
fn test_render_parse_round_trip() {
    let doc = two_provider_doc();
    let text = render_document(&doc);
    let parsed = parse_document(text.as_str()).expect("rendered documents parse");
    assert_eq!(parsed.provider, Some(Provider::OpenRouter));
    assert_eq!(parsed.persona, Some(Persona::Default));
    assert!(!parsed.auto_copy);
    assert_eq!(parsed.log_file, Some("./log.jsonl".to_string()));
    let providers = parsed.providers.unwrap();
    assert_eq!(providers.len(), 2);
    let or = table_lookup(&providers, Provider::OpenRouter).unwrap();
    assert_eq!(or.api_key, "openrouter-key");
    assert_eq!(or.model, "openrouter-model");
    let oa = table_lookup(&providers, Provider::OpenAI).unwrap();
    assert_eq!(oa.api_key, "openai-key");
    assert_eq!(oa.model, "openai-model");
}

#[test]
fn test_render_parse_round_trip_with_special_characters() {
    let mut doc = two_provider_doc();
    if let Some(providers) = &mut doc.providers {
        providers[0].1.api_key = "key \"with\" quotes\\and\\slashes".to_string();
        providers[0].1.model = "model\nwith\tbreaks\r".to_string();
    }
    let text = render_document(&doc);
    let parsed = parse_document(text.as_str()).expect("escaped values parse back");
    let or = table_lookup(&parsed.providers.unwrap(), Provider::OpenRouter).unwrap();
    assert_eq!(or.api_key, "key \"with\" quotes\\and\\slashes");
    assert_eq!(or.model, "model\nwith\tbreaks\r");
}

#[test]
fn test_parse_accepts_comments_and_blank_lines() {
    let text = "# Persona to use\npersona = \"default\"\n\n# Automatically copy\nauto_copy = true\n\nlog_file = \"./.qq.jsonl\"\nprovider = \"openrouter\"\n\n# OpenRouter Provider\n[providers.openrouter]\napi_key = \"\"\nmodel = \"kwaipilot/kat-coder-pro:free\"\n";
    let parsed = parse_document(text).expect("a hand-written document parses");
    assert_eq!(parsed.provider, Some(Provider::OpenRouter));
    assert!(parsed.auto_copy);
    let or = table_lookup(&parsed.providers.unwrap(), Provider::OpenRouter).unwrap();
    assert_eq!(or.api_key, "");
    assert_eq!(or.model, "kwaipilot/kat-coder-pro:free");
}

#[test]
fn test_parse_rejects_malformed_documents() {
    assert_eq!(parse_document("nonsense").unwrap_err(), 1);
    assert_eq!(parse_document("provider = openrouter\n").unwrap_err(), 1);
    assert_eq!(parse_document("provider = \"nobody\"\n").unwrap_err(), 1);
    assert_eq!(parse_document("auto_copy = true\nauto_copy = false\n").unwrap_err(), 2);
    assert_eq!(parse_document("[providers.openrouter]\napi_key = \"\"\n").unwrap_err(), 2);
    assert_eq!(parse_document("model = \"unterminated\n").unwrap_err(), 1);
}

#[test]
fn test_store_error_messages() {
    let mut svc = mem_service();
    let err = svc.load(&no_args()).unwrap_err();
    assert_eq!(
        err.message(),
        "API key not set for provider 'openrouter'\n\nSet your API key with: qq use key YOUR_API_KEY\nOr edit your config\nConfig file: ./.qq/config.toml"
    );

    let path = svc.get_config_path();
    svc.fs.write(path.as_str(), "first line\nbad line").expect("in-memory write");
    let err = svc.load(&no_args()).unwrap_err();
    assert_eq!(
        err.message(),
        "Failed to parse config file ./.qq/config.toml at line 1"
    );

    let text = render_document(&two_provider_doc());
    svc.fs.write(path.as_str(), text.as_str()).expect("in-memory write");
    let err = svc.update_provider("bogus").unwrap_err();
    assert_eq!(
        err.message(),
        "Provider 'bogus' not found in config\n\nAvailable providers: openrouter, openai"
    );
}

#[test]
fn test_mem_filesystem_round_trip() {
    let mut fs = MemFileSystem::new();
    assert!(!fs.file_exists("/a/b.txt"));
    assert!(fs.read_to_string("/a/b.txt").is_err());

    fs.write("/a/b.txt", "first").expect("in-memory write");
    assert!(fs.file_exists("/a/b.txt"));
    assert_eq!(fs.read_to_string("/a/b.txt").unwrap(), "first");

    fs.write("/a/b.txt", "second").expect("in-memory write");
    assert_eq!(fs.read_to_string("/a/b.txt").unwrap(), "second");

    fs.create_dir_all("/a").expect("no-op on files");
    assert_eq!(fs.read_to_string("/a/b.txt").unwrap(), "second");
    assert!(!fs.file_exists("/other"));
}
