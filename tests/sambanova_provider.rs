use sambanova::message::{ModelConfig, ProviderError};
use sambanova::provider::{
    ConfigValues, SambanovaProvider, SAMBANOVA_DEFAULT_MODEL, SAMBANOVA_KNOWN_MODELS,
};

fn config_with_key() -> ConfigValues {
    ConfigValues {
        api_key: Some("test-key".to_string()),
        host: None,
        base_path: None,
        custom_headers: None,
        timeout_secs: None,
    }
}

#[test]
fn test_sambanova_model_config() {
    // The provider built for the default model reports that model.
    let provider = SambanovaProvider::from_env_default_model(config_with_key()).unwrap();
    assert_eq!(provider.get_model_config().model_name, SAMBANOVA_DEFAULT_MODEL);
}

#[test]
fn test_sambanova_known_models() {
    assert!(SAMBANOVA_KNOWN_MODELS.contains(&"Meta-Llama-3.1-405B-Instruct"));
    assert!(SAMBANOVA_KNOWN_MODELS.contains(&"Meta-Llama-3.3-70B-Instruct"));
    assert_eq!(SAMBANOVA_KNOWN_MODELS.len(), 2);
}

#[test]
fn test_sambanova_custom_model() {
    let model_name = "Meta-Llama-3.3-70B-Instruct";
    let model_config = ModelConfig::new(model_name.to_string());
    let provider = SambanovaProvider::from_env(model_config, config_with_key()).unwrap();
    assert_eq!(provider.get_model_config().model_name, model_name);
}

#[test]
fn metadata_lists_known_models_in_order() {
    let m = SambanovaProvider::metadata();
    assert_eq!(m.name, "sambanova");
    assert_eq!(m.display_name, "SambaNova");
    assert_eq!(m.default_model, SAMBANOVA_DEFAULT_MODEL);
    assert_eq!(
        m.known_models,
        vec![
            "Meta-Llama-3.1-405B-Instruct".to_string(),
            "Meta-Llama-3.3-70B-Instruct".to_string()
        ]
    );
    assert_eq!(m.model_doc_link, "https://api.sambanova.ai");
}

#[test]
fn metadata_config_keys() {
    let m = SambanovaProvider::metadata();
    let keys: Vec<(String, bool, bool, Option<String>)> = m
        .config_keys
        .iter()
        .map(|k| (k.name.clone(), k.required, k.secret, k.default.clone()))
        .collect();
    assert_eq!(
        keys,
        vec![
            ("SAMBANOVA_API_KEY".to_string(), true, true, None),
            (
                "SAMBANOVA_HOST".to_string(),
                false,
                false,
                Some("https://api.sambanova.ai".to_string())
            ),
            ("SAMBANOVA_BASE_PATH".to_string(), false, false, Some("v1".to_string())),
            ("SAMBANOVA_CUSTOM_HEADERS".to_string(), false, true, None),
            ("SAMBANOVA_TIMEOUT".to_string(), false, false, Some("600".to_string())),
        ]
    );
}

#[test]
fn missing_api_key_is_missing_credential() {
    let mut config = config_with_key();
    config.api_key = None;
    config.host = Some("https://example.com".to_string());
    let r = SambanovaProvider::from_env(ModelConfig::new("m".to_string()), config);
    match r {
        Err(ProviderError::MissingCredential(k)) => assert_eq!(k, "SAMBANOVA_API_KEY"),
        _ => panic!("expected MissingCredential"),
    }
    let r = SambanovaProvider::from_env_default_model(ConfigValues {
        api_key: None,
        host: None,
        base_path: None,
        custom_headers: None,
        timeout_secs: None,
    });
    assert!(matches!(r, Err(ProviderError::MissingCredential(_))));
}

#[test]
fn defaults_apply_when_unset() {
    let provider = SambanovaProvider::from_env_default_model(config_with_key()).unwrap();
    assert_eq!(provider.host(), "https://api.sambanova.ai");
    assert_eq!(provider.base_path(), "v1");
    assert_eq!(provider.timeout_secs(), 600);
    assert!(provider.custom_headers().is_none());
}

#[test]
fn configured_values_are_used() {
    let config = ConfigValues {
        api_key: Some("k".to_string()),
        host: Some("https://example.com".to_string()),
        base_path: Some("api/v2".to_string()),
        custom_headers: Some("x-a = 1, x-b=2".to_string()),
        timeout_secs: Some(30),
    };
    let provider = SambanovaProvider::from_env(ModelConfig::new("m".to_string()), config).unwrap();
    assert_eq!(provider.host(), "https://example.com");
    assert_eq!(provider.base_path(), "api/v2");
    assert_eq!(provider.timeout_secs(), 30);
    let h = provider.custom_headers().unwrap();
    assert_eq!(h.len(), 2);
    assert_eq!(h.get("x-a").unwrap(), "1");
    assert_eq!(h.get("x-b").unwrap(), "2");
}

#[test]
fn request_headers_start_with_bearer_token() {
    let config = ConfigValues {
        api_key: Some("secret".to_string()),
        host: None,
        base_path: None,
        custom_headers: Some("a=1,b=2".to_string()),
        timeout_secs: None,
    };
    let provider = SambanovaProvider::from_env(ModelConfig::new("m".to_string()), config).unwrap();
    assert_eq!(
        provider.request_headers(),
        vec![
            ("Authorization".to_string(), "Bearer secret".to_string()),
            ("a".to_string(), "1".to_string()),
            ("b".to_string(), "2".to_string()),
        ]
    );
}

#[test]
fn endpoint_joins_host_and_base_path() {
    let provider = SambanovaProvider::from_env_default_model(config_with_key()).unwrap();
    let url = provider.endpoint().unwrap();
    assert_eq!(url, "https://api.sambanova.ai/v1");
}

#[test]
fn endpoint_joins_a_nested_base_path() {
    let mut config = config_with_key();
    config.host = Some("https://example.com/a/".to_string());
    config.base_path = Some("v2/chat".to_string());
    let provider = SambanovaProvider::from_env(ModelConfig::new("m".to_string()), config).unwrap();
    assert_eq!(provider.endpoint().unwrap(), "https://example.com/a/v2/chat");
}

#[test]
fn missing_key_wins_over_client_failure() {
    let mut config = config_with_key();
    config.api_key = None;
    let r = SambanovaProvider::from_config(
        ModelConfig::new("m".to_string()),
        config,
        Err("no TLS backend".to_string()),
    );
    assert!(matches!(r, Err(ProviderError::MissingCredential(_))));
}

#[test]
fn client_failure_is_config_error() {
    let r = SambanovaProvider::from_config(
        ModelConfig::new("m".to_string()),
        config_with_key(),
        Err("no TLS backend".to_string()),
    );
    assert_eq!(r.err(), Some(ProviderError::ConfigError("no TLS backend".to_string())));
}

#[test]
fn malformed_custom_headers_never_fail() {
    let mut config = config_with_key();
    config.custom_headers = Some("bad,,x".to_string());
    let provider = SambanovaProvider::from_env(ModelConfig::new("m".to_string()), config).unwrap();
    assert_eq!(provider.custom_headers().unwrap().len(), 0);
    assert_eq!(provider.request_headers().len(), 1);
}

#[test]
fn endpoint_rejects_a_host_that_is_no_url() {
    let mut config = config_with_key();
    config.host = Some("not a url".to_string());
    let provider = SambanovaProvider::from_env(ModelConfig::new("m".to_string()), config).unwrap();
    assert!(matches!(provider.endpoint(), Err(ProviderError::ConfigError(_))));
}
