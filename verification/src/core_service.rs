//! The transport-neutral core: its configuration, the commands it takes and
//! answers it gives, and the decisions it makes between the calls into
//! providers, runtimes, memory and the environment scanner.

use crate::context::{BuiltContext, ContextBuildReport, ContextBuildRequest, ContextError, PreparedContext, TargetLocation};
use crate::environment::{EnvironmentError, EnvironmentSnapshot, IndexedEnvironmentSnapshot};
use crate::memory::{MemoryError, MemoryProposal, MemoryQuery, MemoryRecord, MemoryWritePermit};
use crate::provider::{ModelRegistry, ProviderError, ProviderHealth, RegistryError};
use crate::runtime::{ModelDownloadJob, RuntimeError, RuntimeRegistryError};
use crate::secrets::{SecretId, SecretStoreError, SecretValue};
use crate::text::owned;
use crate::types::{
    AiEnvironmentSummary, GenerationParameters, GenerationResponse, LocalRuntimeSnapshot, Message,
    ModelDescriptor, ModelId, ModelRef, ProviderId, RuntimeJobId,
};
use vstd::prelude::*;

verus! {

#[derive(Debug, Clone, Copy, PartialEq, Eq, Structural)]
pub enum RuntimeEnvironment {
    Development,
    Test,
    Production,
}

#[derive(Debug, Clone, PartialEq, Eq)]
pub struct CoreConfig {
    pub service_name: String,
    pub environment: RuntimeEnvironment,
    pub log_filter: String,
}

impl Default for CoreConfig {
    fn default() -> (c: CoreConfig)
        ensures
            c.service_name@ == "vertex-ai-core"@,
            c.environment == RuntimeEnvironment::Development,
            c.log_filter@ == "info"@,
    {
        CoreConfig {
            service_name: owned("vertex-ai-core"),
            environment: RuntimeEnvironment::Development,
            log_filter: owned("info"),
        }
    }
}

impl CoreConfig {
    /// The configuration the environment variables `VERTEX_AI_ENV`,
    /// `VERTEX_AI_SERVICE_NAME` and `VERTEX_AI_LOG` describe (each `None`
    /// when unset): "production" and "test" name their environments and
    /// anything else is development; unset names fall back to the defaults.
    pub fn from_env_values(
        environment: Option<&str>,
        service_name: Option<String>,
        log_filter: Option<String>,
    ) -> (c: CoreConfig)
        ensures
            c.environment == match environment {
                Some(e) => if e@ == "production"@ {
                    RuntimeEnvironment::Production
                } else if e@ == "test"@ {
                    RuntimeEnvironment::Test
                } else {
                    RuntimeEnvironment::Development
                },
                None => RuntimeEnvironment::Development,
            },
            c.service_name@ == match service_name {
                Some(s) => s@,
                None => "vertex-ai-core"@,
            },
            c.log_filter@ == match log_filter {
                Some(s) => s@,
                None => "info"@,
            },
    {
        let environment = match environment {
            Some(e) => if crate::text::str_eq(e, "production") {
                RuntimeEnvironment::Production
            } else if crate::text::str_eq(e, "test") {
                RuntimeEnvironment::Test
            } else {
                RuntimeEnvironment::Development
            },
            None => RuntimeEnvironment::Development,
        };
        CoreConfig {
            service_name: match service_name {
                Some(s) => s,
                None => owned("vertex-ai-core"),
            },
            environment,
            log_filter: match log_filter {
                Some(s) => s,
                None => owned("info"),
            },
        }
    }
}

/// What the core is asked to do. Transport adapters map their requests into
/// these values.
pub enum Command {
    ScanEnvironment { path_override: Option<String> },
    GetEnvironmentSnapshot,
    GetModels { provider_id: Option<ProviderId>, refresh: bool },
    GetProviderHealth { provider_id: ProviderId },
    GetAiEnvironment,
    UnloadLocalModel { provider_id: ProviderId, model_id: ModelId },
    StartModelDownload { provider_id: ProviderId, model_id: ModelId },
    CancelModelDownload { job_id: RuntimeJobId },
    ListModelDownloads,
    SelectModel { model: ModelRef },
    Generate {
        model: Option<ModelRef>,
        messages: Vec<Message>,
        context: Box<PreparedContext>,
        parameters: GenerationParameters,
    },
    StoreProviderSecret { provider_id: ProviderId, value: SecretValue },
    DeleteProviderSecret { provider_id: ProviderId },
    ProposeMemory { proposal: Box<MemoryProposal>, permit: Box<MemoryWritePermit> },
    RecallMemory { query: Box<MemoryQuery> },
    BuildContext { request: Box<ContextBuildRequest> },
    Reason {
        model: Option<ModelRef>,
        messages: Vec<Message>,
        context_request: Box<ContextBuildRequest>,
        parameters: GenerationParameters,
    },
}

pub open spec fn command_name(c: Command) -> Seq<char> {
    match c {
        Command::ScanEnvironment { .. } => "scan_environment"@,
        Command::GetEnvironmentSnapshot => "get_environment_snapshot"@,
        Command::GetModels { .. } => "get_models"@,
        Command::GetProviderHealth { .. } => "get_provider_health"@,
        Command::GetAiEnvironment => "get_ai_environment"@,
        Command::UnloadLocalModel { .. } => "unload_local_model"@,
        Command::StartModelDownload { .. } => "start_model_download"@,
        Command::CancelModelDownload { .. } => "cancel_model_download"@,
        Command::ListModelDownloads => "list_model_downloads"@,
        Command::SelectModel { .. } => "select_model"@,
        Command::Generate { .. } => "generate"@,
        Command::StoreProviderSecret { .. } => "store_provider_secret"@,
        Command::DeleteProviderSecret { .. } => "delete_provider_secret"@,
        Command::ProposeMemory { .. } => "propose_memory"@,
        Command::RecallMemory { .. } => "recall_memory"@,
        Command::BuildContext { .. } => "build_context"@,
        Command::Reason { .. } => "reason"@,
    }
}

impl Command {
    /// The command's name, as logs and traces show it.
    pub fn name(&self) -> (r: &'static str)
        ensures
            r@ == command_name(*self),
    {
        match self {
            Command::ScanEnvironment { .. } => "scan_environment",
            Command::GetEnvironmentSnapshot => "get_environment_snapshot",
            Command::GetModels { .. } => "get_models",
            Command::GetProviderHealth { .. } => "get_provider_health",
            Command::GetAiEnvironment => "get_ai_environment",
            Command::UnloadLocalModel { .. } => "unload_local_model",
            Command::StartModelDownload { .. } => "start_model_download",
            Command::CancelModelDownload { .. } => "cancel_model_download",
            Command::ListModelDownloads => "list_model_downloads",
            Command::SelectModel { .. } => "select_model",
            Command::Generate { .. } => "generate",
            Command::StoreProviderSecret { .. } => "store_provider_secret",
            Command::DeleteProviderSecret { .. } => "delete_provider_secret",
            Command::ProposeMemory { .. } => "propose_memory",
            Command::RecallMemory { .. } => "recall_memory",
            Command::BuildContext { .. } => "build_context",
            Command::Reason { .. } => "reason",
        }
    }
}

/// What the core answers.
pub enum CommandResponse {
    EnvironmentScanned(IndexedEnvironmentSnapshot),
    EnvironmentSnapshot(Option<EnvironmentSnapshot>),
    Models(Vec<ModelDescriptor>),
    ProviderHealth(ProviderHealth),
    AiEnvironment(AiEnvironmentSummary),
    LocalModelUnloaded(LocalRuntimeSnapshot),
    ModelDownloadStarted(ModelDownloadJob),
    ModelDownloadCancelled(ModelDownloadJob),
    ModelDownloads(Vec<ModelDownloadJob>),
    ModelSelected(ModelRef),
    Generated(GenerationResponse),
    SecretStored,
    SecretDeleted(bool),
    MemoryStored(MemoryRecord),
    Memories(Vec<MemoryRecord>),
    ContextBuilt(BuiltContext),
    Reasoned { response: GenerationResponse, context_report: ContextBuildReport },
}

#[derive(Debug, Clone, PartialEq, Eq)]
pub enum CoreError {
    Environment(EnvironmentError),
    Registry(RegistryError),
    Provider(ProviderError),
    Runtime(RuntimeError),
    RuntimeRegistry(RuntimeRegistryError),
    SecretStore(SecretStoreError),
    Memory(MemoryError),
    MemoryNotConfigured,
    Context(ContextError),
    ContextNotConfigured,
    ModelNotSelected,
    DownloadCoordinatorNotConfigured,
}

pub open spec fn core_error_text(e: CoreError) -> Seq<char> {
    match e {
        CoreError::Environment(x) => crate::environment::environment_error_text(x),
        CoreError::Registry(x) => crate::provider::registry_error_text(x),
        CoreError::Provider(x) => crate::provider::provider_error_text(x),
        CoreError::Runtime(x) => crate::runtime::runtime_error_text(x),
        CoreError::RuntimeRegistry(x) => crate::runtime::runtime_registry_error_text(x),
        CoreError::SecretStore(x) => crate::secrets::secret_error_text(x),
        CoreError::Memory(x) => crate::memory::memory_error_text(x),
        CoreError::MemoryNotConfigured => "memory service is not configured"@,
        CoreError::Context(x) => crate::context::context_error_text(x),
        CoreError::ContextNotConfigured => "context builder is not configured"@,
        CoreError::ModelNotSelected => "no model has been selected"@,
        CoreError::DownloadCoordinatorNotConfigured => "model download coordinator is not configured"@,
    }
}

impl CoreError {
    /// The message this error displays: a wrapped error shows its own.
    pub fn to_text(&self) -> (r: String)
        ensures
            r@ == core_error_text(*self),
    {
        match self {
            CoreError::Environment(x) => x.to_text(),
            CoreError::Registry(x) => x.to_text(),
            CoreError::Provider(x) => x.to_text(),
            CoreError::Runtime(x) => x.to_text(),
            CoreError::RuntimeRegistry(x) => x.to_text(),
            CoreError::SecretStore(x) => x.to_text(),
            CoreError::Memory(x) => x.to_text(),
            CoreError::MemoryNotConfigured => owned("memory service is not configured"),
            CoreError::Context(x) => x.to_text(),
            CoreError::ContextNotConfigured => owned("context builder is not configured"),
            CoreError::ModelNotSelected => owned("no model has been selected"),
            CoreError::DownloadCoordinatorNotConfigured => owned(
                "model download coordinator is not configured",
            ),
        }
    }
}

/// The model a generation uses: the one asked for, else the selected one.
pub open spec fn chosen_model(requested: Option<ModelRef>, selected: Option<ModelRef>) -> Option<ModelRef> {
    match requested {
        Some(m) => Some(m),
        None => selected,
    }
}

/// Where a model runs.
pub open spec fn location_of(local: bool) -> TargetLocation {
    if local {
        TargetLocation::Local
    } else {
        TargetLocation::Cloud
    }
}

/// The core's own state: its configuration, the models its providers offer
/// and the model selected for generation. The providers, runtimes, stores
/// and scanner it calls are held by the application.
pub struct CoreState {
    config: CoreConfig,
    models: ModelRegistry,
    selected_model: Option<ModelRef>,
}

/// Selecting `model` in `before` leaves `after` and answers `r`.
pub open spec fn selection_post(before: CoreState, after: CoreState, model: ModelRef, r: Result<ModelRef, CoreError>) -> bool {
    let p = crate::seqs::first_pos(
        crate::provider::descriptor_keys(before.registry().descriptors()),
        crate::provider::ref_is(crate::provider::ref_key(model)),
    );
    &&& p < 0 ==> r == Err::<ModelRef, CoreError>(
        CoreError::Registry(RegistryError::ModelNotFound(model.provider_id, model.model_id)),
    ) && after.selected() == before.selected()
    &&& p >= 0 ==> r == Ok::<ModelRef, CoreError>(model) && after.selected() == Some(model)
    &&& after.registry() == before.registry()
    &&& after.conf() == before.conf()
}

/// Which model a generation asked for `requested`, with a context prepared for `target`, uses in `s`.
pub open spec fn resolution(s: CoreState, requested: Option<ModelRef>, target: TargetLocation, r: Result<(ModelRef, bool), CoreError>) -> bool {
    let chosen = chosen_model(requested, s.selected());
    let p = crate::seqs::first_pos(
        crate::provider::descriptor_keys(s.registry().descriptors()),
        crate::provider::ref_is(crate::provider::ref_key(chosen->Some_0)),
    );
    let d = s.registry().descriptors()[p];
    if chosen is None {
        r == Err::<(ModelRef, bool), CoreError>(CoreError::ModelNotSelected)
    } else if p < 0 {
        r == Err::<(ModelRef, bool), CoreError>(
            CoreError::Registry(
                RegistryError::ModelNotFound(
                    chosen->Some_0.provider_id,
                    chosen->Some_0.model_id,
                ),
            ),
        )
    } else if location_of(d.local) != target {
        r matches Err(CoreError::Context(ContextError::Invalid(m))) && m@
            == "prepared context target does not match selected model location"@
    } else {
        r == Ok::<(ModelRef, bool), CoreError>((chosen->Some_0, d.local))
    }
}

impl CoreState {
    pub closed spec fn selected(&self) -> Option<ModelRef> {
        self.selected_model
    }

    pub closed spec fn conf(&self) -> CoreConfig {
        self.config
    }

    pub closed spec fn registry(&self) -> ModelRegistry {
        self.models
    }

    /// The models the providers offer.
    pub fn models(&self) -> (r: &ModelRegistry)
        ensures
            *r == self.registry(),
    {
        &self.models
    }

    pub fn new(config: CoreConfig) -> (s: CoreState)
        ensures
            s.conf() == config,
            s.registry().descriptors().len() == 0,
            s.selected() is None,
    {
        CoreState { config, models: ModelRegistry::new(), selected_model: None }
    }

    pub fn config(&self) -> (c: &CoreConfig)
        ensures
            *c == self.conf(),
    {
        &self.config
    }

    /// The selected model.
    pub fn selected_model(&self) -> (r: Option<ModelRef>)
        ensures
            r == self.selected(),
    {
        match &self.selected_model {
            Some(m) => Some(ModelRef::new(m.provider_id.clone(), m.model_id.clone())),
            None => None,
        }
    }

    /// Selects a model the registry knows; an unknown model is refused and
    /// the selection stays.
    pub fn select_model(&mut self, model: ModelRef) -> (r: Result<ModelRef, CoreError>)
        ensures
            selection_post(*old(self), *final(self), model, r),
    {
        match self.models.get(&model) {
            Err(e) => Err(CoreError::Registry(e)),
            Ok(_) => {
                self.selected_model = Some(ModelRef::new(model.provider_id.clone(), model.model_id.clone()));
                Ok(model)
            },
        }
    }

    /// Decides which model a generation with a prepared context uses: the
    /// one asked for or else the selected one, known to the registry, and
    /// running where the context was prepared for. Returns the model and
    /// whether it is local.
    pub fn resolve_generation(&self, requested: Option<ModelRef>, target: TargetLocation) -> (r: Result<
        (ModelRef, bool),
        CoreError,
    >)
        ensures
            resolution(*self, requested, target, r),
    {
        let model = match requested {
            Some(m) => m,
            None => match self.selected_model() {
                Some(m) => m,
                None => {
                    return Err(CoreError::ModelNotSelected);
                },
            },
        };
        let descriptor = match self.models.get(&model) {
            Ok(d) => d,
            Err(e) => {
                return Err(CoreError::Registry(e));
            },
        };
        let expected = if descriptor.local {
            TargetLocation::Local
        } else {
            TargetLocation::Cloud
        };
        if expected != target {
            return Err(
                CoreError::Context(
                    ContextError::Invalid(
                        owned("prepared context target does not match selected model location"),
                    ),
                ),
            );
        }
        Ok((model, descriptor.local))
    }

    /// Replaces the models a provider offers with those it just listed.
    pub fn refresh_provider_models(&mut self, provider_id: &ProviderId, models: Vec<ModelDescriptor>)
        ensures
            final(self).registry().descriptors() == crate::provider::store_descriptors(
                crate::provider::other_providers(old(self).registry().descriptors(), provider_id@),
                models@,
            ),
            final(self).selected() == old(self).selected(),
            final(self).conf() == old(self).conf(),
    {
        self.models.replace_provider_models(provider_id, models);
    }
}

/// A part the core needs but was started without.
pub fn require_configured(configured: bool, missing: CoreError) -> (r: Result<(), CoreError>)
    ensures
        configured ==> r is Ok,
        !configured ==> r == Err::<(), CoreError>(missing),
{
    if configured {
        Ok(())
    } else {
        Err(missing)
    }
}

} // verus!

verus! {

/// The optional parts the application started the core with.
#[derive(Debug, Clone, Copy, PartialEq, Eq, Structural)]
pub struct CoreParts {
    pub environment_index: bool,
    pub memory: bool,
    pub context: bool,
    pub downloads: bool,
}

/// What a command needs done outside the core, as the core decides it. The
/// application performs the work, reading the command's own values, and
/// hands the result to `complete_command`.
pub enum CommandPlan {
    /// The command is refused with this error before anything is called.
    Refuse(CoreError),
    /// The core answers by itself: complete with `CommandOutcome::Nothing`.
    Local,
    /// Scan the environment, and update the index when there is one.
    ScanEnvironment { update_index: bool },
    /// Read the current snapshot from the environment index.
    ReadEnvironmentIndex,
    /// List the models of the command's provider, or of every registered one.
    RefreshModels,
    CheckProviderHealth,
    /// Inspect every registered runtime and summarize them.
    InspectRuntimes,
    UnloadModel,
    StartDownload,
    CancelDownload,
    ListDownloads,
    /// Generate with this model, local or not, on the prepared context.
    Generate { model: ModelRef, local: bool },
    /// Store the command's secret value under this identifier.
    PutSecret { id: SecretId },
    DeleteSecret { id: SecretId },
    StoreMemory,
    SearchMemory,
    BuildContext,
    /// Build the context, resolve the model for it, then generate.
    BuildContextAndReason,
}

/// The models one provider listed.
pub struct ProviderModels {
    pub provider_id: ProviderId,
    pub models: Vec<ModelDescriptor>,
}

/// What the outside work of a plan came to.
pub enum CommandOutcome {
    /// No outside work was done (the plan was `Local`).
    Nothing,
    /// The outside work failed with this error.
    Failed(CoreError),
    /// The outside work produced the answer itself.
    Done(CommandResponse),
    /// The providers' model lists, for a refreshing model listing.
    ProviderModels(Vec<ProviderModels>),
}

/// The plan for a command in state `s` with the parts `parts`.
pub open spec fn plan_post(s: CoreState, c: Command, parts: CoreParts, a: CommandPlan) -> bool {
    match c {
        Command::ScanEnvironment { .. } => a == CommandPlan::ScanEnvironment {
            update_index: parts.environment_index,
        },
        Command::GetEnvironmentSnapshot => a == if parts.environment_index {
            CommandPlan::ReadEnvironmentIndex
        } else {
            CommandPlan::Local
        },
        Command::GetModels { refresh, .. } => a == if refresh {
            CommandPlan::RefreshModels
        } else {
            CommandPlan::Local
        },
        Command::GetProviderHealth { .. } => a == CommandPlan::CheckProviderHealth,
        Command::GetAiEnvironment => a == CommandPlan::InspectRuntimes,
        Command::UnloadLocalModel { .. } => a == CommandPlan::UnloadModel,
        Command::StartModelDownload { .. } => a == if parts.downloads {
            CommandPlan::StartDownload
        } else {
            CommandPlan::Refuse(CoreError::DownloadCoordinatorNotConfigured)
        },
        Command::CancelModelDownload { .. } => a == if parts.downloads {
            CommandPlan::CancelDownload
        } else {
            CommandPlan::Refuse(CoreError::DownloadCoordinatorNotConfigured)
        },
        Command::ListModelDownloads => a == if parts.downloads {
            CommandPlan::ListDownloads
        } else {
            CommandPlan::Refuse(CoreError::DownloadCoordinatorNotConfigured)
        },
        Command::SelectModel { .. } => a == CommandPlan::Local,
        Command::Generate { model, context, .. } => match a {
            CommandPlan::Generate { model: m, local } => resolution(
                s,
                model,
                context.target(),
                Ok((m, local)),
            ),
            CommandPlan::Refuse(e) => resolution(s, model, context.target(), Err(e)),
            _ => false,
        },
        Command::StoreProviderSecret { provider_id, .. } => a matches CommandPlan::PutSecret { id }
            && id@ == "provider/"@ + provider_id@ + "/api-key"@,
        Command::DeleteProviderSecret { provider_id } => a matches CommandPlan::DeleteSecret { id }
            && id@ == "provider/"@ + provider_id@ + "/api-key"@,
        Command::ProposeMemory { .. } => a == if parts.memory {
            CommandPlan::StoreMemory
        } else {
            CommandPlan::Refuse(CoreError::MemoryNotConfigured)
        },
        Command::RecallMemory { .. } => a == if parts.memory {
            CommandPlan::SearchMemory
        } else {
            CommandPlan::Refuse(CoreError::MemoryNotConfigured)
        },
        Command::BuildContext { request } => context_plan(parts, *request, a, CommandPlan::BuildContext),
        Command::Reason { context_request, .. } => context_plan(
            parts,
            *context_request,
            a,
            CommandPlan::BuildContextAndReason,
        ),
    }
}

/// The plan for a command that builds a context: refused when the core has
/// no context builder, or when the request is refused before any memory is
/// read (an invalid request, or a base context over its budget); else `go`.
pub open spec fn context_plan(parts: CoreParts, r: ContextBuildRequest, a: CommandPlan, go: CommandPlan) -> bool {
    if !parts.context {
        a == CommandPlan::Refuse(CoreError::ContextNotConfigured)
    } else if crate::context::request_refusal(r) is Some {
        a matches CommandPlan::Refuse(CoreError::Context(ContextError::Invalid(m))) && m@
            == crate::context::request_refusal(r)->Some_0
    } else if crate::context::base_tokens_of(r.base) > crate::context::available_tokens(r) {
        a == CommandPlan::Refuse(CoreError::Context(ContextError::BudgetExceeded))
    } else {
        a == go
    }
}

/// Checks a context request before any memory is read; see `context_plan`.
fn plan_context(parts: CoreParts, r: &ContextBuildRequest, go: CommandPlan) -> (a: CommandPlan)
    ensures
        context_plan(parts, *r, a, go),
{
    if !parts.context {
        return CommandPlan::Refuse(CoreError::ContextNotConfigured);
    }
    match r.check() {
        Err(e) => {
            return CommandPlan::Refuse(CoreError::Context(e));
        },
        Ok(()) => {},
    }
    let available: u32 = if r.reserved_output_tokens <= r.max_context_tokens {
        r.max_context_tokens - r.reserved_output_tokens
    } else {
        0
    };
    if crate::context::base_context_tokens(&r.base) > available {
        return CommandPlan::Refuse(CoreError::Context(ContextError::BudgetExceeded));
    }
    go
}

/// Decides what a command needs done outside the core.
pub fn plan_command(state: &CoreState, command: &Command, parts: CoreParts) -> (a: CommandPlan)
    ensures
        plan_post(*state, *command, parts, a),
{
    match command {
        Command::ScanEnvironment { .. } => CommandPlan::ScanEnvironment {
            update_index: parts.environment_index,
        },
        Command::GetEnvironmentSnapshot => if parts.environment_index {
            CommandPlan::ReadEnvironmentIndex
        } else {
            CommandPlan::Local
        },
        Command::GetModels { refresh, .. } => if *refresh {
            CommandPlan::RefreshModels
        } else {
            CommandPlan::Local
        },
        Command::GetProviderHealth { .. } => CommandPlan::CheckProviderHealth,
        Command::GetAiEnvironment => CommandPlan::InspectRuntimes,
        Command::UnloadLocalModel { .. } => CommandPlan::UnloadModel,
        Command::StartModelDownload { .. } => if parts.downloads {
            CommandPlan::StartDownload
        } else {
            CommandPlan::Refuse(CoreError::DownloadCoordinatorNotConfigured)
        },
        Command::CancelModelDownload { .. } => if parts.downloads {
            CommandPlan::CancelDownload
        } else {
            CommandPlan::Refuse(CoreError::DownloadCoordinatorNotConfigured)
        },
        Command::ListModelDownloads => if parts.downloads {
            CommandPlan::ListDownloads
        } else {
            CommandPlan::Refuse(CoreError::DownloadCoordinatorNotConfigured)
        },
        Command::SelectModel { .. } => CommandPlan::Local,
        Command::Generate { model, context, .. } => {
            let requested = match model {
                Some(m) => Some(ModelRef::new(m.provider_id.clone(), m.model_id.clone())),
                None => None,
            };
            match state.resolve_generation(requested, context.target_location()) {
                Ok((m, local)) => CommandPlan::Generate { model: m, local },
                Err(e) => CommandPlan::Refuse(e),
            }
        },
        Command::StoreProviderSecret { provider_id, .. } => CommandPlan::PutSecret {
            id: SecretId::provider_api_key(provider_id),
        },
        Command::DeleteProviderSecret { provider_id } => CommandPlan::DeleteSecret {
            id: SecretId::provider_api_key(provider_id),
        },
        Command::ProposeMemory { .. } => if parts.memory {
            CommandPlan::StoreMemory
        } else {
            CommandPlan::Refuse(CoreError::MemoryNotConfigured)
        },
        Command::RecallMemory { .. } => if parts.memory {
            CommandPlan::SearchMemory
        } else {
            CommandPlan::Refuse(CoreError::MemoryNotConfigured)
        },
        Command::BuildContext { request } => plan_context(parts, request, CommandPlan::BuildContext),
        Command::Reason { context_request, .. } => plan_context(
            parts,
            context_request,
            CommandPlan::BuildContextAndReason,
        ),
    }
}

/// The answer a command's outside work may produce by itself: the response
/// variant that belongs to the command.
pub open spec fn response_fits(c: Command, r: CommandResponse) -> bool {
    match c {
        Command::ScanEnvironment { .. } => r is EnvironmentScanned,
        Command::GetEnvironmentSnapshot => r is EnvironmentSnapshot,
        Command::GetProviderHealth { .. } => r is ProviderHealth,
        Command::GetAiEnvironment => r is AiEnvironment,
        Command::UnloadLocalModel { .. } => r is LocalModelUnloaded,
        Command::StartModelDownload { .. } => r is ModelDownloadStarted,
        Command::CancelModelDownload { .. } => r is ModelDownloadCancelled,
        Command::ListModelDownloads => r is ModelDownloads,
        Command::Generate { .. } => r is Generated,
        Command::StoreProviderSecret { .. } => r is SecretStored,
        Command::DeleteProviderSecret { .. } => r is SecretDeleted,
        Command::ProposeMemory { .. } => r is MemoryStored,
        Command::RecallMemory { .. } => r is Memories,
        Command::BuildContext { .. } => r is ContextBuilt,
        Command::Reason { .. } => r is Reasoned,
        Command::GetModels { .. } => false,
        Command::SelectModel { .. } => false,
    }
}

/// Whether an outcome can answer a command: a failure always can; no work
/// answers a selection, a listing without refresh, or a snapshot request
/// without an index; provider lists answer a refreshing listing; any other
/// command takes the response its work produced.
pub open spec fn answers(c: Command, o: CommandOutcome) -> bool {
    match o {
        CommandOutcome::Failed(_) => true,
        CommandOutcome::Nothing => c is SelectModel || (c matches Command::GetModels { refresh, .. }
            && !refresh) || c is GetEnvironmentSnapshot,
        CommandOutcome::ProviderModels(_) => c matches Command::GetModels { refresh, .. } && refresh,
        CommandOutcome::Done(r) => response_fits(c, r),
    }
}

/// Tells whether an outcome can answer a command; see `answers`.
pub fn outcome_answers(command: &Command, outcome: &CommandOutcome) -> (b: bool)
    ensures
        b == answers(*command, *outcome),
{
    match outcome {
        CommandOutcome::Failed(_) => true,
        CommandOutcome::Nothing => match command {
            Command::SelectModel { .. } => true,
            Command::GetModels { refresh, .. } => !*refresh,
            Command::GetEnvironmentSnapshot => true,
            _ => false,
        },
        CommandOutcome::ProviderModels(_) => match command {
            Command::GetModels { refresh, .. } => *refresh,
            _ => false,
        },
        CommandOutcome::Done(r) => match command {
            Command::ScanEnvironment { .. } => matches!(r, CommandResponse::EnvironmentScanned(..)),
            Command::GetEnvironmentSnapshot => matches!(r, CommandResponse::EnvironmentSnapshot(..)),
            Command::GetProviderHealth { .. } => matches!(r, CommandResponse::ProviderHealth(..)),
            Command::GetAiEnvironment => matches!(r, CommandResponse::AiEnvironment(..)),
            Command::UnloadLocalModel { .. } => matches!(r, CommandResponse::LocalModelUnloaded(..)),
            Command::StartModelDownload { .. } => matches!(r, CommandResponse::ModelDownloadStarted(..)),
            Command::CancelModelDownload { .. } => matches!(r, CommandResponse::ModelDownloadCancelled(..)),
            Command::ListModelDownloads => matches!(r, CommandResponse::ModelDownloads(..)),
            Command::Generate { .. } => matches!(r, CommandResponse::Generated(..)),
            Command::StoreProviderSecret { .. } => matches!(r, CommandResponse::SecretStored),
            Command::DeleteProviderSecret { .. } => matches!(r, CommandResponse::SecretDeleted(..)),
            Command::ProposeMemory { .. } => matches!(r, CommandResponse::MemoryStored(..)),
            Command::RecallMemory { .. } => matches!(r, CommandResponse::Memories(..)),
            Command::BuildContext { .. } => matches!(r, CommandResponse::ContextBuilt(..)),
            Command::Reason { .. } => matches!(r, CommandResponse::Reasoned { .. }),
            Command::GetModels { .. } => false,
            Command::SelectModel { .. } => false,
        },
    }
}

/// The descriptors after replacing, provider by provider in order, the
/// models of each listed provider.
pub open spec fn refreshed(d: Seq<ModelDescriptor>, lists: Seq<ProviderModels>) -> Seq<ModelDescriptor>
    decreases lists.len(),
{
    if lists.len() == 0 {
        d
    } else {
        let before = refreshed(d, lists.drop_last());
        crate::provider::store_descriptors(
            crate::provider::other_providers(before, lists.last().provider_id@),
            lists.last().models@,
        )
    }
}

/// `v` copies the registry's descriptors of one provider, or of all.
pub open spec fn models_answer(reg: ModelRegistry, provider_id: Option<ProviderId>, v: Seq<ModelDescriptor>) -> bool {
    let want = crate::provider::of_provider(
        reg.descriptors(),
        match provider_id {
            Some(p) => Some(p@),
            None => None,
        },
    );
    &&& v.len() == want.len()
    &&& forall|i: int| 0 <= i < v.len() ==> crate::provider::descriptor_copied(#[trigger] v[i], want[i])
}

/// How completing command `c` with outcome `o` changes the state `before`
/// into `after` and what it answers.
pub open spec fn complete_post(
    before: CoreState,
    after: CoreState,
    c: Command,
    o: CommandOutcome,
    r: Result<CommandResponse, CoreError>,
) -> bool {
    match o {
        CommandOutcome::Failed(e) => r == Err::<CommandResponse, CoreError>(e) && after == before,
        CommandOutcome::Done(x) => r == Ok::<CommandResponse, CoreError>(x) && after == before,
        CommandOutcome::Nothing => match c {
            Command::SelectModel { model } => match r {
                Ok(CommandResponse::ModelSelected(m)) => selection_post(before, after, model, Ok(m)),
                Err(e) => selection_post(before, after, model, Err(e)),
                _ => false,
            },
            Command::GetModels { provider_id, .. } => after == before && (r matches Ok(
                CommandResponse::Models(v),
            ) && models_answer(before.registry(), provider_id, v@)),
            Command::GetEnvironmentSnapshot => after == before && (r matches Ok(
                CommandResponse::EnvironmentSnapshot(None),
            )),
            _ => false,
        },
        CommandOutcome::ProviderModels(lists) => match c {
            Command::GetModels { provider_id, .. } => {
                &&& after.registry().descriptors() == refreshed(before.registry().descriptors(), lists@)
                &&& after.selected() == before.selected()
                &&& after.conf() == before.conf()
                &&& (r matches Ok(CommandResponse::Models(v)) && models_answer(after.registry(), provider_id, v@))
            },
            _ => false,
        },
    }
}

/// Completes a command with the outcome of its outside work: a failure is
/// passed on, a produced answer is returned, a selection or a listing is
/// made here, and a refreshing listing first replaces the listed providers'
/// models.
pub fn complete_command(state: &mut CoreState, command: &Command, outcome: CommandOutcome) -> (r: Result<
    CommandResponse,
    CoreError,
>)
    requires
        answers(*command, outcome),
    ensures
        complete_post(*old(state), *final(state), *command, outcome, r),
{
    match outcome {
        CommandOutcome::Failed(e) => Err(e),
        CommandOutcome::Done(x) => Ok(x),
        CommandOutcome::Nothing => match command {
            Command::SelectModel { model } => {
                match state.select_model(ModelRef::new(model.provider_id.clone(), model.model_id.clone())) {
                    Ok(m) => Ok(CommandResponse::ModelSelected(m)),
                    Err(e) => Err(e),
                }
            },
            Command::GetModels { provider_id, .. } => {
                let wanted = match provider_id {
                    Some(p) => Some(p),
                    None => None,
                };
                Ok(CommandResponse::Models(state.models().list(wanted)))
            },
            Command::GetEnvironmentSnapshot => Ok(CommandResponse::EnvironmentSnapshot(None)),
            _ => {
                proof {
                    assert(false);
                }
                Err(CoreError::ModelNotSelected)
            },
        },
        CommandOutcome::ProviderModels(lists) => {
            let ghost all = lists@;
            let ghost d0 = state.registry().descriptors();
            let n = lists.len();
            let mut rest = lists;
            let mut i: usize = 0;
            assert(all.take(0) =~= Seq::<ProviderModels>::empty());
            while i < n
                invariant
                    i <= n == all.len(),
                    rest@ == all.subrange(i as int, n as int),
                    state.registry().descriptors() == refreshed(d0, all.take(i as int)),
                    state.selected() == old(state).selected(),
                    state.conf() == old(state).conf(),
                    d0 == old(state).registry().descriptors(),
                decreases n - i,
            {
                let x = rest.remove(0);
                assert(x == all[i as int]);
                assert(rest@ =~= all.subrange(i + 1, n as int));
                assert(all.take(i + 1).drop_last() =~= all.take(i as int));
                state.refresh_provider_models(&x.provider_id, x.models);
                i += 1;
            }
            assert(all.take(n as int) =~= all);
            match command {
                Command::GetModels { provider_id, .. } => {
                    let wanted = match provider_id {
                        Some(p) => Some(p),
                        None => None,
                    };
                    Ok(CommandResponse::Models(state.models().list(wanted)))
                },
                _ => {
                    proof {
                        assert(false);
                    }
                    Err(CoreError::ModelNotSelected)
                },
            }
        },
    }
}

} // verus!
