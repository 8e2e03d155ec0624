use vertex_ai::context::TargetLocation;
use vertex_ai::core_service::{require_configured, Command, CoreConfig, CoreError, CoreState, RuntimeEnvironment};
use vertex_ai::provider::MockProvider;
use vertex_ai::types::{ModelId, ModelRef, ProviderId};

fn mock_ref() -> ModelRef {
    ModelRef::new(ProviderId::new("mock").unwrap(), ModelId::new("mock-1").unwrap())
}

fn core_with_mock() -> CoreState {
    let mut core = CoreState::new(CoreConfig::default());
    let reference = mock_ref();
    let mock = MockProvider::new(reference.provider_id.clone(), vec![reference.model_id.clone()]);
    core.refresh_provider_models(&reference.provider_id, mock.list_models().unwrap());
    core
}

#[test]
fn configuration_defaults_and_environment_names() {
    let config = CoreConfig::default();
    assert_eq!(config.service_name, "vertex-ai-core");
    assert_eq!(config.environment, RuntimeEnvironment::Development);
    assert_eq!(config.log_filter, "info");
    let production = CoreConfig::from_env_values(Some("production"), Some("svc".to_owned()), None);
    assert_eq!(production.environment, RuntimeEnvironment::Production);
    assert_eq!(production.service_name, "svc");
    assert_eq!(CoreConfig::from_env_values(Some("other"), None, None).environment, RuntimeEnvironment::Development);
}

#[test]
fn commands_are_named_for_traces() {
    assert_eq!(Command::GetAiEnvironment.name(), "get_ai_environment");
    assert_eq!(Command::ListModelDownloads.name(), "list_model_downloads");
    assert_eq!(Command::ScanEnvironment { path_override: None }.name(), "scan_environment");
}

#[test]
fn memory_remains_available_after_model_switch() {
    let mut core = core_with_mock();
    assert!(matches!(core.resolve_generation(None, TargetLocation::Local), Err(CoreError::ModelNotSelected)));
    core.select_model(mock_ref()).unwrap();
    let (model, local) = core.resolve_generation(None, TargetLocation::Local).unwrap();
    assert_eq!(model.model_id.as_str(), "mock-1");
    assert!(local);
    let unknown = ModelRef::new(ProviderId::new("mock").unwrap(), ModelId::new("other").unwrap());
    assert!(core.select_model(unknown).is_err());
    assert_eq!(core.selected_model().unwrap().model_id.as_str(), "mock-1");
}

#[test]
fn prepared_context_cannot_be_used_with_a_different_model_location() {
    let core = core_with_mock();
    match core.resolve_generation(Some(mock_ref()), TargetLocation::Cloud) {
        Err(CoreError::Context(e)) => assert_eq!(
            e.to_text(),
            "invalid context request: prepared context target does not match selected model location"
        ),
        other => panic!("unexpected {:?}", other.map(|(m, l)| (m.model_id.as_str().to_owned(), l))),
    }
}

#[test]
fn missing_parts_are_reported() {
    assert!(require_configured(true, CoreError::MemoryNotConfigured).is_ok());
    let error = require_configured(false, CoreError::DownloadCoordinatorNotConfigured).unwrap_err();
    assert_eq!(error.to_text(), "model download coordinator is not configured");
}
