use vertex_ai::memory::MemoryScope;
use vertex_ai::context::{ContextBuildRequest, ContextError};
use vertex_ai::context::{PreparedContext, TargetLocation};
use vertex_ai::core_service::{
    complete_command, outcome_answers, plan_command, Command, CommandOutcome, CommandPlan, CommandResponse, CoreConfig,
    CoreError, CoreParts, CoreState, ProviderModels,
};
use vertex_ai::provider::{MockProvider, RegistryError};
use vertex_ai::secrets::SecretValue;
use vertex_ai::types::{GenerationParameters, Message, ModelId, ModelRef, ProviderId, VertexContext};

fn mock_ref() -> ModelRef {
    ModelRef::new(ProviderId::new("mock").unwrap(), ModelId::new("mock-1").unwrap())
}

fn parts(all: bool) -> CoreParts {
    CoreParts { environment_index: all, memory: all, context: all, downloads: all }
}

#[test]
fn missing_parts_refuse_their_commands() {
    let state = CoreState::new(CoreConfig::default());
    assert!(matches!(
        plan_command(&state, &Command::ListModelDownloads, parts(false)),
        CommandPlan::Refuse(CoreError::DownloadCoordinatorNotConfigured)
    ));
    assert!(matches!(plan_command(&state, &Command::ListModelDownloads, parts(true)), CommandPlan::ListDownloads));
    assert!(matches!(plan_command(&state, &Command::GetEnvironmentSnapshot, parts(false)), CommandPlan::Local));
    assert!(matches!(plan_command(&state, &Command::GetEnvironmentSnapshot, parts(true)), CommandPlan::ReadEnvironmentIndex));
}

#[test]
fn secrets_are_kept_under_the_provider_key() {
    let state = CoreState::new(CoreConfig::default());
    let command = Command::StoreProviderSecret {
        provider_id: ProviderId::new("openai").unwrap(),
        value: SecretValue::new("SECRET-REDACTED".to_owned()).unwrap(),
    };
    match plan_command(&state, &command, parts(false)) {
        CommandPlan::PutSecret { id } => assert_eq!(id.as_str(), "provider/openai/api-key"),
        _ => panic!("a secret is stored"),
    }
}

#[test]
fn generation_needs_a_known_model_where_the_context_was_prepared() {
    let mut state = CoreState::new(CoreConfig::default());
    let command = |model: Option<ModelRef>| Command::Generate {
        model,
        messages: vec![Message::user("hi".to_owned())],
        context: Box::new(PreparedContext::local(VertexContext::default_context())),
        parameters: GenerationParameters::default(),
    };
    assert!(matches!(plan_command(&state, &command(None), parts(true)), CommandPlan::Refuse(CoreError::ModelNotSelected)));
    assert!(matches!(
        plan_command(&state, &command(Some(mock_ref())), parts(true)),
        CommandPlan::Refuse(CoreError::Registry(RegistryError::ModelNotFound(_, _)))
    ));
    let reference = mock_ref();
    let mock = MockProvider::new(reference.provider_id.clone(), vec![reference.model_id.clone()]);
    let refresh = Command::GetModels { provider_id: None, refresh: true };
    assert!(matches!(plan_command(&state, &refresh, parts(true)), CommandPlan::RefreshModels));
    let outcome = CommandOutcome::ProviderModels(vec![ProviderModels {
        provider_id: reference.provider_id.clone(),
        models: mock.list_models().unwrap(),
    }]);
    assert!(outcome_answers(&refresh, &outcome));
    match complete_command(&mut state, &refresh, outcome).unwrap() {
        CommandResponse::Models(models) => assert_eq!(models.len(), 1),
        _ => panic!("models are listed"),
    }
    match plan_command(&state, &command(Some(mock_ref())), parts(true)) {
        CommandPlan::Generate { model, local } => {
            assert_eq!(model, mock_ref());
            assert!(local);
        }
        _ => panic!("the mock model runs locally"),
    }
    let _ = TargetLocation::Local;
}

#[test]
fn selecting_is_done_by_the_core_and_failures_pass_through() {
    let mut state = CoreState::new(CoreConfig::default());
    let select = Command::SelectModel { model: mock_ref() };
    assert!(matches!(plan_command(&state, &select, parts(true)), CommandPlan::Local));
    assert!(matches!(
        complete_command(&mut state, &select, CommandOutcome::Nothing),
        Err(CoreError::Registry(RegistryError::ModelNotFound(_, _)))
    ));
    assert!(!outcome_answers(&select, &CommandOutcome::Done(CommandResponse::SecretStored)));
    let failed = complete_command(&mut state, &Command::GetAiEnvironment, CommandOutcome::Failed(CoreError::ContextNotConfigured));
    assert!(matches!(failed, Err(CoreError::ContextNotConfigured)));
    assert!(matches!(
        complete_command(&mut state, &Command::GetEnvironmentSnapshot, CommandOutcome::Nothing),
        Ok(CommandResponse::EnvironmentSnapshot(None))
    ));
}

#[test]
fn a_context_request_is_checked_before_memory_is_read() {
    let state = CoreState::new(CoreConfig::default());
    let mut base = VertexContext::default_context();
    base.project = "{\"private\":\"local project state\"}".to_owned();
    let request = ContextBuildRequest {
        base,
        scope: MemoryScope::project(1, 2),
        query: "PostgreSQL".to_owned(),
        target_location: TargetLocation::Cloud,
        allow_sensitive: false,
        max_context_tokens: 2_000,
        reserved_output_tokens: 500,
        memory_candidate_limit: 10,
    };
    let command = Command::BuildContext { request: Box::new(request) };
    assert!(matches!(
        plan_command(&state, &command, parts(true)),
        CommandPlan::Refuse(CoreError::Context(ContextError::Invalid(_)))
    ));
}
