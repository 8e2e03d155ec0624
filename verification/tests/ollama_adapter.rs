use vertex_ai::ollama::{
    check_status, health_from_probe, model_storage_path, pull_step, runtime_status_outcome, state_not_reached,
    state_reached, take_line, OllamaChatReply, OllamaModelDetails, OllamaModelEntry, OllamaProvider,
    OllamaProviderConfig, OllamaPullUpdate, OllamaRunningEntry, RuntimeHostFacts,
};
use vertex_ai::provider::{ProviderError, ProviderHealth};
use vertex_ai::runtime::{RuntimeError, RuntimeModelStateKind};
use vertex_ai::types::{
    GenerationParameters, GenerationRequest, HealthState, Message, MessageRole, ModelId, ModelRef, ProviderId,
    VertexContext,
};

fn provider() -> OllamaProvider {
    OllamaProvider::new(OllamaProviderConfig::default()).expect("provider")
}

fn local_request() -> GenerationRequest {
    let mut context = VertexContext::default_context();
    context.privacy_policy.local_only = true;
    context.privacy_policy.cloud_allowed = false;
    GenerationRequest {
        model: ModelRef::new(ProviderId::new("ollama").unwrap(), ModelId::new("qwen3:8b").unwrap()),
        messages: vec![Message::user("こんにちは".to_owned())],
        context,
        parameters: GenerationParameters::default(),
    }
}

fn tag(name: &str, digest: &str, details: Option<OllamaModelDetails>) -> OllamaModelEntry {
    OllamaModelEntry { name: name.to_owned(), size: 123, digest: digest.to_owned(), modified_at: None, details }
}

fn qwen_details() -> OllamaModelDetails {
    OllamaModelDetails {
        format: Some("gguf".to_owned()),
        family: Some("qwen3".to_owned()),
        parameter_size: Some("8B".to_owned()),
        quantization_level: Some("Q4_K_M".to_owned()),
        context_length: None,
    }
}

#[test]
fn rejects_non_loopback_endpoints() {
    let result = OllamaProvider::new(OllamaProviderConfig {
        base_url: "http://example.com:11434".to_owned(),
        ..OllamaProviderConfig::default()
    });
    assert!(matches!(result, Err(ProviderError::InvalidRequest(_))));
}

#[test]
fn endpoint_rules_accept_loopback_http_only() {
    let config = |url: &str| OllamaProviderConfig { base_url: url.to_owned(), ..OllamaProviderConfig::default() };
    let trimmed = OllamaProvider::new(config("http://localhost:11434//")).expect("localhost");
    assert_eq!(trimmed.endpoint("/api/tags"), "http://localhost:11434/api/tags");
    assert_eq!(provider().endpoint("api/version"), "http://127.0.0.1:11434/api/version");
    match OllamaProvider::new(config("https://127.0.0.1:11434")) {
        Err(ProviderError::InvalidRequest(m)) => {
            assert_eq!(m, "Ollama endpoint must use HTTP on the loopback interface")
        }
        other => panic!("unexpected {other:?}"),
    }
    match OllamaProvider::new(config("not a url")) {
        Err(ProviderError::InvalidRequest(m)) => assert_eq!(m, "invalid Ollama base URL"),
        other => panic!("unexpected {other:?}"),
    }
    assert_eq!(provider().id().as_str(), "ollama");
    assert!(provider().capabilities().cost_estimation);
    assert!(!provider().capabilities().streaming);
}

#[test]
fn requests_must_be_local_only_and_for_this_provider() {
    let provider = provider();
    assert!(provider.validate_request(&local_request()).is_ok());
    let mut cloud = local_request();
    cloud.context.privacy_policy.cloud_allowed = true;
    match provider.validate_request(&cloud) {
        Err(ProviderError::InvalidRequest(m)) => assert_eq!(m, "Ollama requests require a local-only context"),
        other => panic!("unexpected {other:?}"),
    }
    let mut foreign = local_request();
    foreign.model.provider_id = ProviderId::new("openai").unwrap();
    match provider.validate_request(&foreign) {
        Err(ProviderError::InvalidRequest(m)) => assert_eq!(m, "request model belongs to a different provider"),
        other => panic!("unexpected {other:?}"),
    }
}

#[test]
fn chat_request_carries_context_then_conversation() {
    let provider = provider();
    let wire = provider.chat_request(&local_request(), "{\"task\":\"t\"}").expect("wire");
    assert_eq!(wire.model, "qwen3:8b");
    assert!(!wire.stream);
    assert!(!wire.think);
    assert_eq!(wire.messages.len(), 2);
    assert_eq!(wire.messages[0].role, "system");
    assert_eq!(wire.messages[0].content, "Vertex Context Protocol JSON:\n{\"task\":\"t\"}");
    assert_eq!(wire.messages[1].role, "user");
    assert_eq!(wire.messages[1].content, "こんにちは");
    let mut with_tool = local_request();
    with_tool.messages.push(Message { role: MessageRole::Tool, content: "x".to_owned() });
    assert!(matches!(provider.chat_request(&with_tool, "{}"), Err(ProviderError::Unsupported(_))));
}

#[test]
fn chat_reply_becomes_a_response_unless_blank() {
    let provider = provider();
    let request = local_request();
    let reply = OllamaChatReply {
        content: "応答".to_owned(),
        done_reason: Some("stop".to_owned()),
        prompt_eval_count: Some(7),
        eval_count: None,
    };
    let response = provider.chat_response(request.model.clone(), reply, 9, 100).expect("response");
    assert_eq!(response.text, "応答");
    assert_eq!(response.usage.input_tokens, 7);
    assert_eq!(response.usage.output_tokens, 0);
    assert_eq!(response.response_id, 9);
    let blank = OllamaChatReply { content: "  \n".to_owned(), done_reason: None, prompt_eval_count: None, eval_count: None };
    assert!(matches!(provider.chat_response(request.model, blank, 1, 1), Err(ProviderError::Failed(_))));
}

#[test]
fn listed_models_carry_sorted_json_metadata() {
    let provider = provider();
    let models = provider.descriptors_of(&vec![tag("qwen3:8b", "sha256:abc", Some(qwen_details()))]).expect("models");
    assert_eq!(models.len(), 1);
    assert!(models[0].local);
    assert_eq!(models[0].reference.model_id.as_str(), "qwen3:8b");
    assert!(models[0].capabilities.structured_output);
    let keys: Vec<&str> = models[0].metadata.iter().map(|(k, _)| k.as_str()).collect();
    assert_eq!(keys, vec!["digest", "family", "format", "parameter_size", "quantization_level", "size_bytes"]);
    assert_eq!(models[0].metadata[0].1, "\"sha256:abc\"");
    assert_eq!(models[0].metadata[5].1, "123");
    let bare = provider.descriptors_of(&vec![tag("tiny", "", None)]).expect("bare");
    assert_eq!(bare[0].metadata.len(), 2);
    assert!(matches!(provider.descriptors_of(&vec![tag(" ", "", None)]), Err(ProviderError::Failed(_))));
}

#[test]
fn snapshots_and_model_states_follow_the_inventory() {
    let provider = provider();
    let facts = RuntimeHostFacts {
        executable_path: None,
        model_storage_path: Some("/m".to_owned()),
        storage_total_bytes: Some(10),
        storage_available_bytes: Some(5),
    };
    let running = vec![OllamaRunningEntry {
        name: "qwen3:8b".to_owned(),
        size: 6_000_000_000,
        size_vram: 5_100_000_000,
        context_length: Some(4096),
        expires_at: None,
    }];
    let tags = vec![tag("qwen3:8b", "sha256:abc", Some(qwen_details())), tag("llama3:8b", " ", None)];
    let snapshot = provider.ready_snapshot(facts.clone(), "0.32.9".to_owned(), &tags, &running, 50).expect("snapshot");
    assert_eq!(snapshot.version.as_deref(), Some("0.32.9"));
    assert_eq!(snapshot.installed_models.len(), 2);
    assert_eq!(snapshot.installed_models[1].digest, None);
    assert_eq!(snapshot.loaded_models[0].size_vram_bytes, 5_100_000_000);
    let qwen = ModelId::new("qwen3:8b").unwrap();
    let llama = ModelId::new("llama3:8b").unwrap();
    let other = ModelId::new("phi").unwrap();
    assert_eq!(provider.model_state_in(&snapshot, &qwen, 60).state, RuntimeModelStateKind::Loaded);
    assert_eq!(provider.model_state_in(&snapshot, &llama, 60).state, RuntimeModelStateKind::Unloaded);
    let missing = provider.model_state_in(&snapshot, &other, 60);
    assert_eq!(missing.state, RuntimeModelStateKind::Unavailable);
    assert_eq!(missing.detail, "Model is not installed in Ollama");
    let offline = provider.offline_snapshot(facts, 70);
    assert_eq!(offline.health, HealthState::Offline);
    let state = provider.model_state_in(&offline, &qwen, 80);
    assert_eq!(state.detail, "Ollama runtime is unavailable");
    assert!(state.observed);
    assert!(state_reached(RuntimeModelStateKind::Unloaded, RuntimeModelStateKind::Unavailable));
    assert!(!state_reached(RuntimeModelStateKind::Loaded, RuntimeModelStateKind::Unavailable));
    assert_eq!(state_not_reached(RuntimeModelStateKind::Loaded), RuntimeError::Failed("Ollama model state did not reach Loaded".to_owned()));
    let preload = provider.residency_request(&qwen, true);
    assert_eq!((preload.keep_alive, preload.prompt.as_str(), preload.stream), (-1, "", false));
    assert_eq!(provider.residency_request(&qwen, false).keep_alive, 0);
}

#[test]
fn reply_statuses_map_to_errors() {
    assert!(check_status("generation", 200).is_ok());
    assert_eq!(check_status("generation", 503), Err(ProviderError::Unavailable("Ollama generation returned HTTP 503".to_owned())));
    assert!(matches!(check_status("generation", 429), Err(ProviderError::Unavailable(_))));
    assert_eq!(check_status("model discovery", 404), Err(ProviderError::InvalidRequest("Ollama model discovery returned HTTP 404".to_owned())));
    assert_eq!(health_from_probe(Some(200)), ProviderHealth::Healthy);
    assert_eq!(health_from_probe(Some(500)), ProviderHealth::Degraded("Ollama returned HTTP 500".to_owned()));
    assert_eq!(health_from_probe(None), ProviderHealth::Unavailable("Ollama is not reachable".to_owned()));
    assert_eq!(runtime_status_outcome("unload", 500), Err(RuntimeError::Failed("Ollama unload returned HTTP 500".to_owned())));
}

#[test]
fn pull_stream_lines_report_progress_until_success() {
    let mut buffer = "{\"a\":1}\n  second  \npartial".to_owned();
    assert_eq!(take_line(&mut buffer).as_deref(), Some("{\"a\":1}"));
    assert_eq!(take_line(&mut buffer).as_deref(), Some("second"));
    assert_eq!(take_line(&mut buffer), None);
    assert_eq!(buffer, "partial");
    let update = |status: &str, error: Option<&str>| OllamaPullUpdate {
        status: status.to_owned(),
        completed: Some(50),
        total: Some(100),
        error: error.map(str::to_owned),
    };
    let (progress, done) = pull_step(Some(update("downloading", None))).unwrap();
    assert_eq!((progress.completed_bytes, progress.total_bytes, done), (50, Some(100), false));
    assert!(pull_step(Some(update("success", None))).unwrap().1);
    assert_eq!(pull_step(Some(update("x", Some("disk full")))), Err(RuntimeError::Failed("disk full".to_owned())));
    assert!(matches!(pull_step(None), Err(RuntimeError::Failed(_))));
}

#[test]
fn model_storage_prefers_the_explicit_directory() {
    assert_eq!(model_storage_path(Some("/data".to_owned()), Some("/home/u".to_owned())).as_deref(), Some("/data"));
    let derived = model_storage_path(None, Some("/home/u".to_owned())).unwrap();
    assert!(derived.ends_with("models"));
    assert!(derived.contains(".ollama"));
    assert_eq!(model_storage_path(None, None), None);
}
