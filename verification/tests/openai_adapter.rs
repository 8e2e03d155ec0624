use vertex_ai::openai::{
    api_key_from, check_reply, health_from_listing, OpenAiModelEntry, OpenAiOutputContent, OpenAiProvider,
    OpenAiProviderConfig, OpenAiResponseReply,
};
use vertex_ai::provider::{ProviderError, ProviderHealth};
use vertex_ai::secrets::{SecretStoreError, SecretValue};
use vertex_ai::types::{
    GenerationParameters, GenerationRequest, Message, ModelId, ModelRef, ProviderId, TokenUsage, VertexContext,
};

fn provider() -> OpenAiProvider {
    OpenAiProvider::new(OpenAiProviderConfig::default()).expect("provider")
}

fn cloud_request() -> GenerationRequest {
    let mut context = VertexContext::default_context();
    context.privacy_policy.local_only = false;
    context.privacy_policy.cloud_allowed = true;
    GenerationRequest {
        model: ModelRef::new(ProviderId::new("openai").unwrap(), ModelId::new("gpt-test").unwrap()),
        messages: vec![Message::user("hello".to_owned())],
        context,
        parameters: GenerationParameters::default(),
    }
}

#[test]
fn rejects_context_that_forbids_cloud_processing_before_http() {
    let mut request = cloud_request();
    request.context.privacy_policy.cloud_allowed = false;
    let error = provider().build_response_request(&request, "{}").unwrap_err();
    assert!(matches!(error, ProviderError::InvalidRequest(_)));
}

#[test]
fn response_requests_are_never_stored() {
    let provider = provider();
    assert_eq!(provider.endpoint("/responses"), "https://api.openai.com/v1/responses");
    let wire = provider.build_response_request(&cloud_request(), "{\"a\":1}").expect("wire");
    assert_eq!(wire.model, "gpt-test");
    assert!(!wire.store);
    assert_eq!(wire.input[0].role, "developer");
    assert_eq!(wire.input[0].content, "Vertex Context Protocol JSON:\n{\"a\":1}");
    assert_eq!(wire.input[1].role, "user");
    let mut structured = cloud_request();
    structured.parameters.structured_output_schema = Some("{}".to_owned());
    assert!(matches!(provider.build_response_request(&structured, "{}"), Err(ProviderError::Unsupported(_))));
    let mut local = cloud_request();
    local.context.privacy_policy.local_only = true;
    assert!(matches!(provider.build_response_request(&local, "{}"), Err(ProviderError::InvalidRequest(_))));
}

#[test]
fn endpoint_must_parse_as_a_url() {
    let bad = OpenAiProvider::new(OpenAiProviderConfig { base_url: "::not a url".to_owned(), request_timeout_ms: 1 });
    assert_eq!(bad.unwrap_err(), ProviderError::InvalidRequest("invalid OpenAI base URL".to_owned()));
    let trimmed = OpenAiProvider::new(OpenAiProviderConfig { base_url: "http://127.0.0.1:9/v1/".to_owned(), request_timeout_ms: 1 })
        .expect("provider");
    assert_eq!(trimmed.endpoint("models"), "http://127.0.0.1:9/v1/models");
    assert_eq!(trimmed.id().as_str(), "openai");
    assert!(!trimmed.capabilities().cost_estimation);
}

#[test]
fn replies_join_output_text_and_keep_usage() {
    let provider = provider();
    let part = |kind: &str, text: Option<&str>| OpenAiOutputContent { kind: kind.to_owned(), text: text.map(str::to_owned) };
    let reply = OpenAiResponseReply {
        created_at: 1,
        output: vec![vec![part("output_text", Some("ans")), part("refusal", Some("no"))], vec![part("output_text", Some("wer")), part("output_text", None)]],
        status: "completed".to_owned(),
        usage: Some(TokenUsage { input_tokens: 5, output_tokens: 2 }),
    };
    let response = provider.response_from(cloud_request().model, reply, 3, 99).expect("response");
    assert_eq!(response.text, "answer");
    assert_eq!(response.usage.input_tokens, 5);
    assert_eq!(response.finish_reason.as_deref(), Some("completed"));
    assert_eq!(response.created_at, 1000);
    let empty = OpenAiResponseReply { created_at: 1, output: vec![], status: "completed".to_owned(), usage: None };
    assert_eq!(
        provider.response_from(cloud_request().model, empty, 3, 99).unwrap_err(),
        ProviderError::Failed("OpenAI response contained no text output".to_owned())
    );
}

#[test]
fn listed_models_are_cloud_models() {
    let provider = provider();
    let models = provider
        .descriptors_of(&vec![OpenAiModelEntry { id: "gpt-test".to_owned(), created: 1, owned_by: "openai".to_owned() }])
        .expect("models");
    assert_eq!(models[0].reference.model_id.as_str(), "gpt-test");
    assert!(!models[0].local);
    assert_eq!(models[0].metadata, vec![("created".to_owned(), "1".to_owned()), ("owned_by".to_owned(), "\"openai\"".to_owned())]);
    let blank = provider.descriptors_of(&vec![OpenAiModelEntry { id: "".to_owned(), created: 1, owned_by: "x".to_owned() }]);
    assert!(matches!(blank, Err(ProviderError::Failed(_))));
    assert_eq!(health_from_listing(&Ok(models)), ProviderHealth::Healthy);
}

#[test]
fn keys_and_statuses_map_to_provider_errors() {
    let key = SecretValue::new("test-key".to_owned()).unwrap();
    assert_eq!(api_key_from(Ok(Some(key))).unwrap().expose(), "test-key");
    match api_key_from(Ok(None)) {
        Err(e) => assert_eq!(e, ProviderError::Unavailable("OpenAI API key is not configured".to_owned())),
        Ok(_) => panic!("a missing key was accepted"),
    }
    assert!(matches!(api_key_from(Err(SecretStoreError::Unavailable("x".to_owned()))), Err(ProviderError::Unavailable(_))));
    assert!(check_reply(200, None).is_ok());
    assert_eq!(check_reply(401, Some("invalid_api_key".to_owned())), Err(ProviderError::InvalidRequest("OpenAI returned HTTP 401 (invalid_api_key)".to_owned())));
    assert_eq!(check_reply(500, None), Err(ProviderError::Unavailable("OpenAI returned HTTP 500 (unknown_error)".to_owned())));
}
