use chat_gateway::client::{LLMClient, RawConfig};
use chat_gateway::entities::{GenericConfig, Provider, Providers};
use chat_gateway::errors::{ConfigError, ListError, TransportError};
use chat_gateway::models::{ListModelsRequestExecutor, RemoteModel};
use chat_gateway::providers::custom::{CustomConfig, RawCustomConfig};
use chat_gateway::providers::ollama::{
    OllamaConfig, OllamaListModelsResponse, OllamaModel, RawOllamaConfig,
};

fn stored(provider: &str, config: &str) -> GenericConfig {
    GenericConfig { provider: provider.to_string(), config: config.to_string() }
}

#[test]
fn local_configuration_resolves_to_address_and_model() {
    let client =
        LLMClient::new(stored("ollama", r#"{"model":"llama3","api_base":"http://box:11434"}"#));
    assert_eq!(
        client,
        Ok(LLMClient::OllamaClient(
            OllamaConfig { api_base: "http://box:11434".to_string() },
            Some("llama3".to_string())
        ))
    );
    assert_eq!(client.unwrap().kind(), Providers::Ollama);
}

#[test]
fn local_configuration_without_address_uses_the_default() {
    for payload in ["{}", r#"{"model":null,"api_base":null}"#, r#"{"other":[1,2]}"#] {
        assert_eq!(
            LLMClient::new(stored("ollama", payload)),
            Ok(LLMClient::OllamaClient(
                OllamaConfig { api_base: "http://localhost:11434".to_string() },
                None
            ))
        );
    }
}

#[test]
fn compatible_configuration_resolves_to_address_credential_and_model() {
    let client = LLMClient::new(stored(
        "custom",
        r#"{"model":"gpt","api_base":"https://example.test","api_key":"opaque-key"}"#,
    ));
    assert_eq!(
        client,
        Ok(LLMClient::CustomClient(
            CustomConfig {
                api_base: "https://example.test".to_string(),
                api_key: Some("opaque-key".to_string())
            },
            Some("gpt".to_string())
        ))
    );
    assert_eq!(client.unwrap().kind(), Providers::Custom);
}

#[test]
fn unknown_provider_is_refused() {
    for tag in ["openai", "Ollama", "", "ollama ", "customs"] {
        assert_eq!(
            LLMClient::new(stored(tag, "{}")),
            Err(ConfigError::UnsupportedProvider),
            "tag {:?}",
            tag
        );
    }
    assert_eq!(ConfigError::UnsupportedProvider.message(), "Unsupported provider");
}

#[test]
fn unknown_provider_is_refused_before_the_payload_is_looked_at() {
    assert_eq!(LLMClient::new(stored("nope", "not json")), Err(ConfigError::UnsupportedProvider));
    assert_eq!(
        LLMClient::resolve(
            stored("nope", "{}"),
            Some(RawConfig::Ollama(RawOllamaConfig { model: None, api_base: None }))
        ),
        Err(ConfigError::UnsupportedProvider)
    );
}

#[test]
fn unreadable_payload_is_refused_with_the_payload() {
    let client = LLMClient::new(stored("ollama", "not json"));
    assert_eq!(client, Err(ConfigError::MalformedConfig("not json".to_string())));
    assert_eq!(client.unwrap_err().message(), "Failed to parse model config: not json");
    for payload in ["[1]", "\"x\"", "", r#"{"model":7}"#, r#"{"api_base":["http://x"]}"#, "{"] {
        assert_eq!(
            LLMClient::new(stored("ollama", payload)),
            Err(ConfigError::MalformedConfig(payload.to_string())),
            "{:?}",
            payload
        );
        assert_eq!(
            LLMClient::new(stored("custom", payload)),
            Err(ConfigError::MalformedConfig(payload.to_string())),
            "{:?}",
            payload
        );
    }
    assert_eq!(
        LLMClient::new(stored("custom", r#"{"api_base":"x","api_key":false}"#)),
        Err(ConfigError::MalformedConfig(r#"{"api_base":"x","api_key":false}"#.to_string()))
    );
}

#[test]
fn payload_of_another_shape_is_refused() {
    let client = LLMClient::resolve(
        stored("custom", "{}"),
        Some(RawConfig::Ollama(RawOllamaConfig { model: None, api_base: None })),
    );
    assert_eq!(client, Err(ConfigError::MalformedConfig("{}".to_string())));
    let client = LLMClient::resolve(
        stored("ollama", "{}"),
        Some(RawConfig::Custom(RawCustomConfig {
            model: None,
            api_base: Some("x".to_string()),
            api_key: None,
        })),
    );
    assert_eq!(client, Err(ConfigError::MalformedConfig("{}".to_string())));
    assert_eq!(
        LLMClient::resolve(stored("ollama", "{}"), None),
        Err(ConfigError::MalformedConfig("{}".to_string()))
    );
}

#[test]
fn compatible_configuration_without_address_is_refused() {
    let client = LLMClient::new(stored("custom", r#"{"model":"gpt"}"#));
    assert_eq!(client, Err(ConfigError::MalformedConfig(r#"{"model":"gpt"}"#.to_string())));
}

#[test]
fn configuration_payloads_are_read_in_the_shape_of_the_kind() {
    assert_eq!(
        RawConfig::read(Providers::Ollama, r#"{"model":"m","api_key":"k"}"#),
        Some(RawConfig::Ollama(RawOllamaConfig { model: Some("m".to_string()), api_base: None }))
    );
    assert_eq!(
        RawConfig::read(Providers::Custom, r#"{"model":"m","api_key":"k"}"#),
        Some(RawConfig::Custom(RawCustomConfig {
            model: Some("m".to_string()),
            api_base: None,
            api_key: Some("k".to_string())
        }))
    );
    assert_eq!(RawConfig::read(Providers::Ollama, "[]"), None);
}

#[test]
fn provider_tags_read_back() {
    assert_eq!(Providers::Ollama.as_str(), "ollama");
    assert_eq!(Providers::Custom.as_str(), "custom");
    for kind in [Providers::Ollama, Providers::Custom] {
        assert_eq!(Providers::from_tag(kind.as_str()), Some(kind));
    }
    assert_eq!(Providers::from_tag("OLLAMA"), None);
}

#[test]
fn providers_on_offer() {
    assert_eq!(
        Provider::all(),
        vec![
            Provider { id: "ollama".to_string(), name: "Ollama".to_string() },
            Provider { id: "custom".to_string(), name: "Custom".to_string() },
        ]
    );
    for provider in Provider::all() {
        assert!(Providers::from_tag(&provider.id).is_some());
    }
}

const CATALOG: &str = r#"{"models":[
    {"name":"llama3:8b","modified_at":"2024-05-01T10:00:00Z","size":4661224676,"digest":"abc"},
    {"name":"qwen:7b","modified_at":"2024-04-01T10:00:00Z","size":3},
    {"name":"llama3:8b","modified_at":"","size":0,"details":{"family":"llama"}}
]}"#;

#[test]
fn catalog_is_listed_by_name_and_in_order() {
    let client =
        LLMClient::OllamaClient(OllamaConfig { api_base: "http://box:1".to_string() }, None);
    let executor = client.models().expect("a local chat backend has a catalog");
    assert_eq!(
        executor,
        ListModelsRequestExecutor::ollama(&OllamaConfig { api_base: "http://box:1".to_string() })
    );
    assert_eq!(executor.endpoint(), "http://box:1/api/tags");
    assert_eq!(
        executor.execute(Ok(CATALOG.to_string())),
        Ok(vec![
            RemoteModel { id: "llama3:8b".to_string() },
            RemoteModel { id: "qwen:7b".to_string() },
            RemoteModel { id: "llama3:8b".to_string() },
        ])
    );
    assert_eq!(executor.execute(Ok(r#"{"models":[]}"#.to_string())), Ok(vec![]));
}

#[test]
fn catalog_is_read_entry_by_entry() {
    assert_eq!(
        OllamaListModelsResponse::read(CATALOG.as_bytes()),
        Some(OllamaListModelsResponse {
            models: vec![
                OllamaModel {
                    name: "llama3:8b".to_string(),
                    modified_at: "2024-05-01T10:00:00Z".to_string(),
                    size: 4661224676
                },
                OllamaModel {
                    name: "qwen:7b".to_string(),
                    modified_at: "2024-04-01T10:00:00Z".to_string(),
                    size: 3
                },
                OllamaModel { name: "llama3:8b".to_string(), modified_at: "".to_string(), size: 0 },
            ],
        })
    );
    let twelve: Vec<String> = (0..12)
        .map(|i| format!("{{\"name\":\"m{}\",\"modified_at\":\"t\",\"size\":{}}}", i, i))
        .collect();
    let catalog =
        OllamaListModelsResponse::read(format!("{{\"models\":[{}]}}", twelve.join(",")).as_bytes())
            .unwrap();
    assert_eq!(catalog.models.len(), 12);
    for (i, model) in catalog.models.iter().enumerate() {
        assert_eq!(model.name, format!("m{}", i));
        assert_eq!(model.size, i as u64);
    }
    assert_eq!(
        ListModelsRequestExecutor::list(catalog).last(),
        Some(&RemoteModel { id: "m11".to_string() })
    );
}

#[test]
fn body_without_a_readable_catalog_is_refused() {
    let executor = ListModelsRequestExecutor::ollama(&OllamaConfig::default());
    for body in [
        "",
        "not json",
        "[]",
        "{}",
        r#"{"models":null}"#,
        r#"{"models":{}}"#,
        r#"{"models":[7]}"#,
        r#"{"models":[{"name":"a","modified_at":"t"}]}"#,
        r#"{"models":[{"name":"a","modified_at":"t","size":-1}]}"#,
        r#"{"models":[{"name":"a","modified_at":"t","size":1},{"modified_at":"t","size":1}]}"#,
        r#"{"models":[{"name":7,"modified_at":"t","size":1}]}"#,
    ] {
        assert_eq!(
            executor.execute(Ok(body.to_string())),
            Err(ListError::MalformedCatalog),
            "{:?}",
            body
        );
    }
    assert_eq!(ListError::MalformedCatalog.message(), "Failed to list models");
}

#[test]
fn failed_listing_surfaces() {
    let executor = ListModelsRequestExecutor::ollama(&OllamaConfig::default());
    assert_eq!(executor.endpoint(), "http://localhost:11434/api/tags");
    let listed = executor.execute(Err(TransportError::Http(404, "no".to_string())));
    assert_eq!(listed, Err(ListError::Transport(TransportError::Http(404, "no".to_string()))));
    assert_eq!(listed.unwrap_err().message(), "Failed to list models");
}

#[test]
fn compatible_backend_has_no_catalog() {
    let client = LLMClient::CustomClient(
        CustomConfig { api_base: "https://example.test".to_string(), api_key: None },
        Some("gpt".to_string()),
    );
    assert_eq!(client.models(), Err(ListError::Unsupported));
    assert_eq!(
        ListError::Unsupported.message(),
        "Model listing is not supported by this provider"
    );
}
