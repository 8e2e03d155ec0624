use vertex_ai::provider::{MockProvider, ModelRegistry, ProviderError, ProviderRegistry, RegistryError};
use vertex_ai::types::{GenerationParameters, GenerationRequest, Message, ModelId, ModelRef, ProviderId, VertexContext};

fn model_ref() -> ModelRef {
    ModelRef::new(ProviderId::new("mock").unwrap(), ModelId::new("mock-1").unwrap())
}

#[test]
fn mock_provider_discovers_and_generates() {
    let reference = model_ref();
    let provider = MockProvider::new(reference.provider_id.clone(), vec![reference.model_id.clone()]);
    assert_eq!(provider.list_models().unwrap().len(), 1);
    let response = provider
        .generate(GenerationRequest {
            model: reference,
            messages: vec![Message::user("hello".to_owned())],
            context: VertexContext::default_context(),
            parameters: GenerationParameters::default(),
        })
        .unwrap();
    assert_eq!(response.text, "mock:hello");
    assert_eq!(response.usage.input_tokens, 1);
    assert_eq!(response.finish_reason.as_deref(), Some("stop"));
}

#[test]
fn mock_provider_refuses_unknown_models() {
    let provider = MockProvider::new(ProviderId::new("mock").unwrap(), Vec::new());
    let result = provider.generate_at(
        GenerationRequest {
            model: model_ref(),
            messages: vec![Message::user("two  words ".to_owned())],
            context: VertexContext::default_context(),
            parameters: GenerationParameters::default(),
        },
        1,
        2,
    );
    match result {
        Err(ProviderError::InvalidRequest(m)) => assert_eq!(m, "unknown model mock/mock-1"),
        other => panic!("unexpected {other:?}"),
    }
}

#[test]
fn registry_rejects_duplicate_provider() {
    let mut registry: ProviderRegistry<MockProvider> = ProviderRegistry::new();
    let id = ProviderId::new("mock").unwrap();
    registry.register(MockProvider::new(id.clone(), Vec::new())).unwrap();
    let error = registry.register(MockProvider::new(id.clone(), Vec::new())).unwrap_err();
    assert!(matches!(error, RegistryError::DuplicateProvider(_)));
}

#[test]
fn registered_providers_come_in_identifier_order() {
    let mut registry: ProviderRegistry<MockProvider> = ProviderRegistry::new();
    let id = ProviderId::new("mock").unwrap();
    registry.register(MockProvider::new(id.clone(), vec![ModelId::new("m").unwrap()])).unwrap();
    registry.register(MockProvider::new(ProviderId::new("alpha").unwrap(), Vec::new())).unwrap();
    assert_eq!(registry.get(&id).unwrap().id(), &id);
    let ids: Vec<String> = registry.ids().iter().map(|i| i.as_str().to_owned()).collect();
    assert_eq!(ids, vec!["alpha", "mock"]);
    assert!(matches!(registry.get(&ProviderId::new("none").unwrap()), Err(RegistryError::ProviderNotFound(_))));
}

#[test]
fn model_registry_replaces_one_providers_models() {
    let mut registry = ModelRegistry::new();
    let a = ProviderId::new("a").unwrap();
    let b = ProviderId::new("b").unwrap();
    let mock_a = MockProvider::new(a.clone(), vec![ModelId::new("m2").unwrap(), ModelId::new("m1").unwrap()]);
    let mock_b = MockProvider::new(b.clone(), vec![ModelId::new("x").unwrap()]);
    registry.replace_provider_models(&a, mock_a.list_models().unwrap());
    registry.replace_provider_models(&b, mock_b.list_models().unwrap());
    let all: Vec<String> = registry.list(None).iter().map(|d| d.reference.model_id.as_str().to_owned()).collect();
    assert_eq!(all, vec!["m1", "m2", "x"]);
    registry.replace_provider_models(&a, Vec::new());
    assert!(registry.list(Some(&a)).is_empty());
    assert_eq!(registry.list(Some(&b)).len(), 1);
    let missing = ModelRef::new(a, ModelId::new("m1").unwrap());
    assert!(matches!(registry.get(&missing), Err(RegistryError::ModelNotFound(_, _))));
}
