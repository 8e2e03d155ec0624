//! Provider-neutral domain types shared across Vertex AI boundaries.

use crate::text::{is_blank, is_blank_seq, owned};
use vstd::prelude::*;

verus! {

/// The version of the Vertex Context Protocol spoken by this library.
pub const VERTEX_CONTEXT_VERSION: &'static str = "0.1";

/// The error of an identifier constructor: the identifier's kind was blank.
#[derive(Debug, Clone, PartialEq, Eq)]
pub struct IdentifierError {
    pub kind: &'static str,
}

impl IdentifierError {
    /// The human-readable message: "`kind` cannot be empty".
    pub fn message(&self) -> (r: String)
        ensures
            r@ == self.kind@ + " cannot be empty"@,
    {
        crate::text::concat2(self.kind, " cannot be empty")
    }
}

/// A non-blank provider id.
#[derive(Debug, PartialEq, Eq, PartialOrd, Ord, Hash)]
pub struct ProviderId(String);

impl Clone for ProviderId {
    fn clone(&self) -> (r: Self)
        ensures
            r == *self,
    {
        proof {
            use_type_invariant(self);
        }
        ProviderId(self.0.clone())
    }
}

impl View for ProviderId {
    type V = Seq<char>;

    closed spec fn view(&self) -> Seq<char> {
        self.0@
    }
}

impl ProviderId {
    #[verifier::type_invariant]
    closed spec fn non_blank(self) -> bool {
        !is_blank_seq(self.0@)
    }

    /// Accepts `value` exactly when it is not blank; the error names the kind.
    pub fn new(value: &str) -> (r: Result<ProviderId, IdentifierError>)
        ensures
            r is Ok <==> !is_blank_seq(value@),
            r matches Ok(id) ==> id@ == value@,
            r matches Err(e) ==> e.kind@ == "provider id"@,
    {
        if is_blank(value) {
            return Err(IdentifierError { kind: "provider id" });
        }
        Ok(ProviderId(owned(value)))
    }

    pub fn as_str(&self) -> (r: &str)
        ensures
            r@ == self@,
            !is_blank_seq(r@),
    {
        proof {
            use_type_invariant(self);
        }
        self.0.as_str()
    }

    /// The identifier as an owned string (its `Display` form).
    pub fn to_text(&self) -> (r: String)
        ensures
            r@ == self@,
    {
        self.0.clone()
    }
}

/// A non-blank model id.
#[derive(Debug, PartialEq, Eq, PartialOrd, Ord, Hash)]
pub struct ModelId(String);

impl Clone for ModelId {
    fn clone(&self) -> (r: Self)
        ensures
            r == *self,
    {
        proof {
            use_type_invariant(self);
        }
        ModelId(self.0.clone())
    }
}

impl View for ModelId {
    type V = Seq<char>;

    closed spec fn view(&self) -> Seq<char> {
        self.0@
    }
}

impl ModelId {
    #[verifier::type_invariant]
    closed spec fn non_blank(self) -> bool {
        !is_blank_seq(self.0@)
    }

    /// Accepts `value` exactly when it is not blank; the error names the kind.
    pub fn new(value: &str) -> (r: Result<ModelId, IdentifierError>)
        ensures
            r is Ok <==> !is_blank_seq(value@),
            r matches Ok(id) ==> id@ == value@,
            r matches Err(e) ==> e.kind@ == "model id"@,
    {
        if is_blank(value) {
            return Err(IdentifierError { kind: "model id" });
        }
        Ok(ModelId(owned(value)))
    }

    pub fn as_str(&self) -> (r: &str)
        ensures
            r@ == self@,
            !is_blank_seq(r@),
    {
        proof {
            use_type_invariant(self);
        }
        self.0.as_str()
    }

    /// The identifier as an owned string (its `Display` form).
    pub fn to_text(&self) -> (r: String)
        ensures
            r@ == self@,
    {
        self.0.clone()
    }
}

/// A non-blank system asset id.
#[derive(Debug, PartialEq, Eq, PartialOrd, Ord, Hash)]
pub struct SystemAssetId(String);

impl Clone for SystemAssetId {
    fn clone(&self) -> (r: Self)
        ensures
            r == *self,
    {
        proof {
            use_type_invariant(self);
        }
        SystemAssetId(self.0.clone())
    }
}

impl View for SystemAssetId {
    type V = Seq<char>;

    closed spec fn view(&self) -> Seq<char> {
        self.0@
    }
}

impl SystemAssetId {
    #[verifier::type_invariant]
    closed spec fn non_blank(self) -> bool {
        !is_blank_seq(self.0@)
    }

    /// Accepts `value` exactly when it is not blank; the error names the kind.
    pub fn new(value: &str) -> (r: Result<SystemAssetId, IdentifierError>)
        ensures
            r is Ok <==> !is_blank_seq(value@),
            r matches Ok(id) ==> id@ == value@,
            r matches Err(e) ==> e.kind@ == "system asset id"@,
    {
        if is_blank(value) {
            return Err(IdentifierError { kind: "system asset id" });
        }
        Ok(SystemAssetId(owned(value)))
    }

    pub fn as_str(&self) -> (r: &str)
        ensures
            r@ == self@,
            !is_blank_seq(r@),
    {
        proof {
            use_type_invariant(self);
        }
        self.0.as_str()
    }

    /// The identifier as an owned string (its `Display` form).
    pub fn to_text(&self) -> (r: String)
        ensures
            r@ == self@,
    {
        self.0.clone()
    }
}

/// A non-blank finding id.
#[derive(Debug, PartialEq, Eq, PartialOrd, Ord, Hash)]
pub struct FindingId(String);

impl Clone for FindingId {
    fn clone(&self) -> (r: Self)
        ensures
            r == *self,
    {
        proof {
            use_type_invariant(self);
        }
        FindingId(self.0.clone())
    }
}

impl View for FindingId {
    type V = Seq<char>;

    closed spec fn view(&self) -> Seq<char> {
        self.0@
    }
}

impl FindingId {
    #[verifier::type_invariant]
    closed spec fn non_blank(self) -> bool {
        !is_blank_seq(self.0@)
    }

    /// Accepts `value` exactly when it is not blank; the error names the kind.
    pub fn new(value: &str) -> (r: Result<FindingId, IdentifierError>)
        ensures
            r is Ok <==> !is_blank_seq(value@),
            r matches Ok(id) ==> id@ == value@,
            r matches Err(e) ==> e.kind@ == "finding id"@,
    {
        if is_blank(value) {
            return Err(IdentifierError { kind: "finding id" });
        }
        Ok(FindingId(owned(value)))
    }

    pub fn as_str(&self) -> (r: &str)
        ensures
            r@ == self@,
            !is_blank_seq(r@),
    {
        proof {
            use_type_invariant(self);
        }
        self.0.as_str()
    }

    /// The identifier as an owned string (its `Display` form).
    pub fn to_text(&self) -> (r: String)
        ensures
            r@ == self@,
    {
        self.0.clone()
    }
}

/// A non-blank health check id.
#[derive(Debug, PartialEq, Eq, PartialOrd, Ord, Hash)]
pub struct HealthCheckId(String);

impl Clone for HealthCheckId {
    fn clone(&self) -> (r: Self)
        ensures
            r == *self,
    {
        proof {
            use_type_invariant(self);
        }
        HealthCheckId(self.0.clone())
    }
}

impl View for HealthCheckId {
    type V = Seq<char>;

    closed spec fn view(&self) -> Seq<char> {
        self.0@
    }
}

impl HealthCheckId {
    #[verifier::type_invariant]
    closed spec fn non_blank(self) -> bool {
        !is_blank_seq(self.0@)
    }

    /// Accepts `value` exactly when it is not blank; the error names the kind.
    pub fn new(value: &str) -> (r: Result<HealthCheckId, IdentifierError>)
        ensures
            r is Ok <==> !is_blank_seq(value@),
            r matches Ok(id) ==> id@ == value@,
            r matches Err(e) ==> e.kind@ == "health check id"@,
    {
        if is_blank(value) {
            return Err(IdentifierError { kind: "health check id" });
        }
        Ok(HealthCheckId(owned(value)))
    }

    pub fn as_str(&self) -> (r: &str)
        ensures
            r@ == self@,
            !is_blank_seq(r@),
    {
        proof {
            use_type_invariant(self);
        }
        self.0.as_str()
    }

    /// The identifier as an owned string (its `Display` form).
    pub fn to_text(&self) -> (r: String)
        ensures
            r@ == self@,
    {
        self.0.clone()
    }
}

/// A non-blank error id.
#[derive(Debug, PartialEq, Eq, PartialOrd, Ord, Hash)]
pub struct ErrorId(String);

impl Clone for ErrorId {
    fn clone(&self) -> (r: Self)
        ensures
            r == *self,
    {
        proof {
            use_type_invariant(self);
        }
        ErrorId(self.0.clone())
    }
}

impl View for ErrorId {
    type V = Seq<char>;

    closed spec fn view(&self) -> Seq<char> {
        self.0@
    }
}

impl ErrorId {
    #[verifier::type_invariant]
    closed spec fn non_blank(self) -> bool {
        !is_blank_seq(self.0@)
    }

    /// Accepts `value` exactly when it is not blank; the error names the kind.
    pub fn new(value: &str) -> (r: Result<ErrorId, IdentifierError>)
        ensures
            r is Ok <==> !is_blank_seq(value@),
            r matches Ok(id) ==> id@ == value@,
            r matches Err(e) ==> e.kind@ == "error id"@,
    {
        if is_blank(value) {
            return Err(IdentifierError { kind: "error id" });
        }
        Ok(ErrorId(owned(value)))
    }

    pub fn as_str(&self) -> (r: &str)
        ensures
            r@ == self@,
            !is_blank_seq(r@),
    {
        proof {
            use_type_invariant(self);
        }
        self.0.as_str()
    }

    /// The identifier as an owned string (its `Display` form).
    pub fn to_text(&self) -> (r: String)
        ensures
            r@ == self@,
    {
        self.0.clone()
    }
}

/// A non-blank repair plan id.
#[derive(Debug, PartialEq, Eq, PartialOrd, Ord, Hash)]
pub struct RepairPlanId(String);

impl Clone for RepairPlanId {
    fn clone(&self) -> (r: Self)
        ensures
            r == *self,
    {
        proof {
            use_type_invariant(self);
        }
        RepairPlanId(self.0.clone())
    }
}

impl View for RepairPlanId {
    type V = Seq<char>;

    closed spec fn view(&self) -> Seq<char> {
        self.0@
    }
}

impl RepairPlanId {
    #[verifier::type_invariant]
    closed spec fn non_blank(self) -> bool {
        !is_blank_seq(self.0@)
    }

    /// Accepts `value` exactly when it is not blank; the error names the kind.
    pub fn new(value: &str) -> (r: Result<RepairPlanId, IdentifierError>)
        ensures
            r is Ok <==> !is_blank_seq(value@),
            r matches Ok(id) ==> id@ == value@,
            r matches Err(e) ==> e.kind@ == "repair plan id"@,
    {
        if is_blank(value) {
            return Err(IdentifierError { kind: "repair plan id" });
        }
        Ok(RepairPlanId(owned(value)))
    }

    pub fn as_str(&self) -> (r: &str)
        ensures
            r@ == self@,
            !is_blank_seq(r@),
    {
        proof {
            use_type_invariant(self);
        }
        self.0.as_str()
    }

    /// The identifier as an owned string (its `Display` form).
    pub fn to_text(&self) -> (r: String)
        ensures
            r@ == self@,
    {
        self.0.clone()
    }
}

/// A non-blank audit event id.
#[derive(Debug, PartialEq, Eq, PartialOrd, Ord, Hash)]
pub struct AuditEventId(String);

impl Clone for AuditEventId {
    fn clone(&self) -> (r: Self)
        ensures
            r == *self,
    {
        proof {
            use_type_invariant(self);
        }
        AuditEventId(self.0.clone())
    }
}

impl View for AuditEventId {
    type V = Seq<char>;

    closed spec fn view(&self) -> Seq<char> {
        self.0@
    }
}

impl AuditEventId {
    #[verifier::type_invariant]
    closed spec fn non_blank(self) -> bool {
        !is_blank_seq(self.0@)
    }

    /// Accepts `value` exactly when it is not blank; the error names the kind.
    pub fn new(value: &str) -> (r: Result<AuditEventId, IdentifierError>)
        ensures
            r is Ok <==> !is_blank_seq(value@),
            r matches Ok(id) ==> id@ == value@,
            r matches Err(e) ==> e.kind@ == "audit event id"@,
    {
        if is_blank(value) {
            return Err(IdentifierError { kind: "audit event id" });
        }
        Ok(AuditEventId(owned(value)))
    }

    pub fn as_str(&self) -> (r: &str)
        ensures
            r@ == self@,
            !is_blank_seq(r@),
    {
        proof {
            use_type_invariant(self);
        }
        self.0.as_str()
    }

    /// The identifier as an owned string (its `Display` form).
    pub fn to_text(&self) -> (r: String)
        ensures
            r@ == self@,
    {
        self.0.clone()
    }
}

/// A non-blank runtime job id.
#[derive(Debug, PartialEq, Eq, PartialOrd, Ord, Hash)]
pub struct RuntimeJobId(String);

impl Clone for RuntimeJobId {
    fn clone(&self) -> (r: Self)
        ensures
            r == *self,
    {
        proof {
            use_type_invariant(self);
        }
        RuntimeJobId(self.0.clone())
    }
}

impl View for RuntimeJobId {
    type V = Seq<char>;

    closed spec fn view(&self) -> Seq<char> {
        self.0@
    }
}

impl RuntimeJobId {
    #[verifier::type_invariant]
    closed spec fn non_blank(self) -> bool {
        !is_blank_seq(self.0@)
    }

    /// Accepts `value` exactly when it is not blank; the error names the kind.
    pub fn new(value: &str) -> (r: Result<RuntimeJobId, IdentifierError>)
        ensures
            r is Ok <==> !is_blank_seq(value@),
            r matches Ok(id) ==> id@ == value@,
            r matches Err(e) ==> e.kind@ == "runtime job id"@,
    {
        if is_blank(value) {
            return Err(IdentifierError { kind: "runtime job id" });
        }
        Ok(RuntimeJobId(owned(value)))
    }

    pub fn as_str(&self) -> (r: &str)
        ensures
            r@ == self@,
            !is_blank_seq(r@),
    {
        proof {
            use_type_invariant(self);
        }
        self.0.as_str()
    }

    /// The identifier as an owned string (its `Display` form).
    pub fn to_text(&self) -> (r: String)
        ensures
            r@ == self@,
    {
        self.0.clone()
    }
}

/// A model as offered by one provider.
#[derive(Debug, Clone, PartialEq, Eq, PartialOrd, Ord, Hash)]
pub struct ModelRef {
    pub provider_id: ProviderId,
    pub model_id: ModelId,
}

impl ModelRef {
    pub fn new(provider_id: ProviderId, model_id: ModelId) -> (r: ModelRef)
        ensures
            r.provider_id == provider_id,
            r.model_id == model_id,
    {
        ModelRef { provider_id, model_id }
    }
}

#[derive(Debug, Clone, Copy, PartialEq, Eq, Default)]
pub struct ModelCapabilities {
    pub tools: bool,
    pub vision: bool,
    pub structured_output: bool,
    pub streaming: bool,
}

#[derive(Debug, Clone, Copy, PartialEq, Eq, Structural)]
pub enum MessageRole {
    System,
    User,
    Assistant,
    Tool,
}

#[derive(Debug, Clone, PartialEq, Eq)]
pub struct Message {
    pub role: MessageRole,
    pub content: String,
}

impl Message {
    /// A message written by the user.
    pub fn user(content: String) -> (r: Message)
        ensures
            r.role == MessageRole::User,
            r.content == content,
    {
        Message { role: MessageRole::User, content }
    }
}

/// Where a context may be processed and how it may be shared.
#[derive(Debug, Clone, PartialEq, Eq, Default)]
pub struct PrivacyPolicy {
    pub local_only: bool,
    pub cloud_allowed: bool,
    pub sensitive: bool,
    pub share_scope: Option<String>,
}

#[derive(Debug, Clone, Copy, PartialEq, Eq, Default)]
pub struct TokenUsage {
    pub input_tokens: u64,
    pub output_tokens: u64,
}

#[derive(Debug, Clone, PartialEq, Eq)]
pub struct StreamChunk {
    pub text: String,
    pub finished: bool,
}

#[derive(Debug, Clone, Copy, PartialEq, Eq, Structural)]
pub enum ModelSelectionMode {
    Manual,
    Auto,
    Council,
}

#[derive(Debug, Clone, Copy, PartialEq, Eq, Structural)]
pub enum AssetCategory {
    Ai,
    Developer,
    Creator,
    Runtime,
    Database,
    Server,
    System,
    Hardware,
    Storage,
}

#[derive(Debug, Clone, Copy, PartialEq, Eq, Structural)]
pub enum AssetKind {
    Application,
    Executable,
    Runtime,
    Service,
    Process,
    Dependency,
    Sdk,
    Driver,
    StorageDevice,
    Configuration,
}

#[derive(Debug, Clone, Copy, PartialEq, Eq, Structural)]
pub enum HealthState {
    Ready,
    Warning,
    Offline,
    Misconfigured,
    MissingDependency,
    ConflictDetected,
    OrphanDetected,
    RepairAvailable,
    Unknown,
}

#[derive(Debug, Clone, Copy, PartialEq, Eq, Structural)]
pub enum RelationshipKind {
    InstalledAt,
    Executes,
    DependsOn,
    Provides,
    References,
    Stores,
    Launches,
    ListensOn,
    CompatibleWith,
    Duplicates,
    Supersedes,
    OrphanedFrom,
}

#[derive(Debug, Clone, PartialEq, Eq)]
pub struct SystemRelationship {
    pub source_id: String,
    pub target_id: String,
    pub kind: RelationshipKind,
    pub verified: bool,
}

#[derive(Debug, Clone, Copy, PartialEq, Eq, Structural)]
pub enum FindingConfidence {
    Verified,
    High,
    Medium,
    Low,
    Unknown,
}

#[derive(Debug, Clone, Copy, PartialEq, Eq, Structural)]
pub enum Severity {
    Info,
    Warning,
    Error,
    Critical,
}

#[derive(Debug, Clone, Copy, PartialEq, Eq, Structural)]
pub enum RepairRisk {
    Low,
    Medium,
    High,
    Critical,
}

/// A typed repair operation. There is deliberately no variant that carries an
/// arbitrary shell command.
#[derive(Debug, Clone, PartialEq, Eq)]
pub enum RepairAction {
    SetEnvironmentVariable { name: String, value: String },
    RemoveEnvironmentVariable { name: String },
    UpdateProviderEndpoint { provider_id: ProviderId, endpoint: String },
    MovePath { source: String, destination: String, expected_hash: Option<String> },
    DeletePath { path: String, expected_hash: String },
    StartService { service_name: String },
    StopService { service_name: String },
}

impl RepairAction {
    /// The operation tag under which the action is exchanged ("move_path", ...).
    pub fn operation(&self) -> (r: &'static str)
        ensures
            r@ == repair_operation_name(*self),
    {
        match self {
            RepairAction::SetEnvironmentVariable { .. } => "set_environment_variable",
            RepairAction::RemoveEnvironmentVariable { .. } => "remove_environment_variable",
            RepairAction::UpdateProviderEndpoint { .. } => "update_provider_endpoint",
            RepairAction::MovePath { .. } => "move_path",
            RepairAction::DeletePath { .. } => "delete_path",
            RepairAction::StartService { .. } => "start_service",
            RepairAction::StopService { .. } => "stop_service",
        }
    }
}

pub open spec fn repair_operation_name(a: RepairAction) -> Seq<char> {
    match a {
        RepairAction::SetEnvironmentVariable { .. } => "set_environment_variable"@,
        RepairAction::RemoveEnvironmentVariable { .. } => "remove_environment_variable"@,
        RepairAction::UpdateProviderEndpoint { .. } => "update_provider_endpoint"@,
        RepairAction::MovePath { .. } => "move_path"@,
        RepairAction::DeletePath { .. } => "delete_path"@,
        RepairAction::StartService { .. } => "start_service"@,
        RepairAction::StopService { .. } => "stop_service"@,
    }
}

#[derive(Debug, Clone, PartialEq, Eq)]
pub struct RepairPlan {
    pub repair_plan_id: RepairPlanId,
    pub finding_ids: Vec<FindingId>,
    pub summary: String,
    pub risk: RepairRisk,
    pub requires_elevation: bool,
    pub requires_restart: bool,
    pub reversible: bool,
    pub backup_strategy: Option<String>,
    pub actions: Vec<RepairAction>,
    pub verification_steps: Vec<String>,
    pub rollback_actions: Vec<RepairAction>,
}

#[derive(Debug, Clone, Copy, PartialEq, Eq, Structural)]
pub enum AuditOutcome {
    Succeeded,
    Failed,
    Rejected,
    RolledBack,
}

#[derive(Debug, Clone, Copy, PartialEq, Eq, Structural)]
pub enum ModelDownloadState {
    Queued,
    Running,
    Cancelling,
    Succeeded,
    Failed,
    Cancelled,
    Interrupted,
}

#[derive(Debug, Clone, PartialEq, Eq)]
pub struct ModelDownloadProgress {
    pub status: String,
    pub completed_bytes: u64,
    pub total_bytes: Option<u64>,
}

} // verus!

verus! {

/// The provider-neutral context given to a model. Its free-form parts are
/// JSON text as `serde_json` writes it compactly (an empty object is `{}`).
#[derive(Debug, Clone, PartialEq, Eq)]
pub struct VertexContext {
    pub vertex_context: String,
    pub task: String,
    pub application: String,
    pub project: String,
    pub user_context: String,
    pub memories: Vec<String>,
    pub decisions: Vec<String>,
    pub constraints: Vec<String>,
    pub schema: String,
    pub tools: Vec<String>,
    pub permissions: String,
    pub runtime: String,
    pub privacy_policy: PrivacyPolicy,
}

impl VertexContext {
    /// The current protocol version with empty objects and lists and the
    /// default privacy policy.
    pub fn default_context() -> (c: VertexContext)
        ensures
            c.vertex_context@ == VERTEX_CONTEXT_VERSION@,
            c.task@ == "{}"@ && c.application@ == "{}"@ && c.project@ == "{}"@ && c.user_context@
                == "{}"@ && c.schema@ == "{}"@ && c.permissions@ == "{}"@ && c.runtime@ == "{}"@,
            c.memories@.len() == 0 && c.decisions@.len() == 0 && c.constraints@.len() == 0
                && c.tools@.len() == 0,
            !c.privacy_policy.local_only && !c.privacy_policy.cloud_allowed
                && !c.privacy_policy.sensitive && c.privacy_policy.share_scope is None,
    {
        VertexContext {
            vertex_context: crate::text::owned(VERTEX_CONTEXT_VERSION),
            task: crate::text::owned("{}"),
            application: crate::text::owned("{}"),
            project: crate::text::owned("{}"),
            user_context: crate::text::owned("{}"),
            memories: Vec::new(),
            decisions: Vec::new(),
            constraints: Vec::new(),
            schema: crate::text::owned("{}"),
            tools: Vec::new(),
            permissions: crate::text::owned("{}"),
            runtime: crate::text::owned("{}"),
            privacy_policy: PrivacyPolicy {
                local_only: false,
                cloud_allowed: false,
                sensitive: false,
                share_scope: None,
            },
        }
    }
}

} // verus!

verus! {

/// A model as the registry of a provider lists it. Costs are `f64` bit
/// patterns; metadata values are JSON text, keyed by name.
#[derive(Debug, Clone, PartialEq, Eq)]
pub struct ModelDescriptor {
    pub reference: ModelRef,
    pub display_name: String,
    pub capabilities: ModelCapabilities,
    pub context_size: Option<u32>,
    pub local: bool,
    pub input_cost_per_million: Option<u64>,
    pub output_cost_per_million: Option<u64>,
    pub available: bool,
    pub metadata: Vec<(String, String)>,
}

/// How to generate. The temperature is an `f32` bit pattern; the schema is
/// JSON text.
#[derive(Debug, Clone, PartialEq, Eq, Default)]
pub struct GenerationParameters {
    pub temperature: Option<u32>,
    pub max_output_tokens: Option<u32>,
    pub stop: Vec<String>,
    pub structured_output_schema: Option<String>,
}

#[derive(Debug, Clone, PartialEq, Eq)]
pub struct GenerationRequest {
    pub model: ModelRef,
    pub messages: Vec<Message>,
    pub context: VertexContext,
    pub parameters: GenerationParameters,
}

#[derive(Debug, Clone, PartialEq, Eq)]
pub struct GenerationResponse {
    pub response_id: u128,
    pub model: ModelRef,
    pub text: String,
    pub usage: TokenUsage,
    pub finish_reason: Option<String>,
    pub created_at: crate::developer::Timestamp,
}

/// Where an observation came from. Metadata values are JSON text.
#[derive(Debug, Clone, PartialEq, Eq)]
pub struct EvidenceRef {
    pub source: String,
    pub locator: String,
    pub observed_at: crate::developer::Timestamp,
    pub content_hash: Option<String>,
    pub metadata: Vec<(String, String)>,
}

/// Something found on the machine, with the evidence it was found by.
#[derive(Debug, Clone, PartialEq, Eq)]
pub struct SystemAsset {
    pub id: SystemAssetId,
    pub name: String,
    pub category: AssetCategory,
    pub kind: AssetKind,
    pub location: Option<String>,
    pub version: Option<String>,
    pub architecture: Option<String>,
    pub health: HealthState,
    pub capabilities: Vec<String>,
    pub evidence: Vec<EvidenceRef>,
    pub observed_at: crate::developer::Timestamp,
    pub metadata: Vec<(String, String)>,
}

#[derive(Debug, Clone, PartialEq, Eq)]
pub struct EnvironmentFinding {
    pub id: FindingId,
    pub title: String,
    pub observed_fact: String,
    pub inference: Option<String>,
    pub recommendation: Option<String>,
    pub confidence: FindingConfidence,
    pub severity: Severity,
    pub evidence: Vec<EvidenceRef>,
    pub created_at: crate::developer::Timestamp,
}

#[derive(Debug, Clone, PartialEq, Eq)]
pub struct HealthCheck {
    pub id: HealthCheckId,
    pub subject_id: String,
    pub state: HealthState,
    pub summary: String,
    pub evidence: Vec<EvidenceRef>,
    pub checked_at: crate::developer::Timestamp,
}

/// An error as it crosses to the user interface: a code for machines, a
/// message for people, and the technical detail.
#[derive(Debug, Clone, PartialEq, Eq)]
pub struct ErrorEnvelope {
    pub error_id: ErrorId,
    pub timestamp: crate::developer::Timestamp,
    pub component: String,
    pub operation: String,
    pub severity: Severity,
    pub machine_readable_code: String,
    pub human_fallback_message: String,
    pub technical_message: String,
    pub causes: Vec<String>,
    pub evidence_refs: Vec<String>,
    pub suggested_check_ids: Vec<HealthCheckId>,
    pub recoverable: bool,
    pub retryable: bool,
}

/// One audited operation. Detail values are JSON text, keyed by name.
#[derive(Debug, Clone, PartialEq, Eq)]
pub struct AuditEvent {
    pub id: AuditEventId,
    pub occurred_at: crate::developer::Timestamp,
    pub actor: String,
    pub operation: String,
    pub target_ids: Vec<String>,
    pub outcome: AuditOutcome,
    pub elevated: bool,
    pub details: Vec<(String, String)>,
}

/// A model installed in a local runtime.
#[derive(Debug, Clone, PartialEq, Eq)]
pub struct InstalledLocalModel {
    pub reference: ModelRef,
    pub display_name: String,
    pub size_bytes: u64,
    pub digest: Option<String>,
    pub format: Option<String>,
    pub family: Option<String>,
    pub parameter_size: Option<String>,
    pub quantization_level: Option<String>,
    pub context_length: Option<u64>,
    pub modified_at: Option<crate::developer::Timestamp>,
}

/// A model a local runtime holds in memory.
#[derive(Debug, Clone, PartialEq, Eq)]
pub struct LoadedLocalModel {
    pub reference: ModelRef,
    pub size_bytes: u64,
    pub size_vram_bytes: u64,
    pub context_length: Option<u64>,
    pub expires_at: Option<crate::developer::Timestamp>,
}

/// What a local runtime reported when it was inspected.
#[derive(Debug, Clone, PartialEq, Eq)]
pub struct LocalRuntimeSnapshot {
    pub provider_id: ProviderId,
    pub display_name: String,
    pub endpoint: String,
    pub health: HealthState,
    pub version: Option<String>,
    pub executable_path: Option<String>,
    pub model_storage_path: Option<String>,
    pub storage_total_bytes: Option<u64>,
    pub storage_available_bytes: Option<u64>,
    pub installed_models: Vec<InstalledLocalModel>,
    pub loaded_models: Vec<LoadedLocalModel>,
    pub checked_at: crate::developer::Timestamp,
}

/// The local AI environment at a glance.
#[derive(Debug, Clone, PartialEq, Eq)]
pub struct AiEnvironmentSummary {
    pub runtimes: Vec<LocalRuntimeSnapshot>,
    pub runtime_count: usize,
    pub ready_runtime_count: usize,
    pub installed_model_count: usize,
    pub loaded_model_count: usize,
    pub total_model_bytes: u64,
    pub total_vram_bytes: u64,
    pub local_inference_ready: bool,
    pub observed_at: crate::developer::Timestamp,
}

/// The runtimes that report ready.
pub open spec fn ready_count(r: Seq<LocalRuntimeSnapshot>) -> nat
    decreases r.len(),
{
    if r.len() == 0 {
        0
    } else {
        ready_count(r.drop_last()) + if r.last().health == HealthState::Ready {
            1nat
        } else {
            0nat
        }
    }
}

/// The installed models over all runtimes.
pub open spec fn installed_count(r: Seq<LocalRuntimeSnapshot>) -> nat
    decreases r.len(),
{
    if r.len() == 0 {
        0
    } else {
        installed_count(r.drop_last()) + r.last().installed_models@.len()
    }
}

/// The loaded models over all runtimes.
pub open spec fn loaded_count(r: Seq<LocalRuntimeSnapshot>) -> nat
    decreases r.len(),
{
    if r.len() == 0 {
        0
    } else {
        loaded_count(r.drop_last()) + r.last().loaded_models@.len()
    }
}

pub open spec fn installed_bytes_of(m: Seq<InstalledLocalModel>) -> nat
    decreases m.len(),
{
    if m.len() == 0 {
        0
    } else {
        installed_bytes_of(m.drop_last()) + (m.last().size_bytes as nat)
    }
}

pub open spec fn vram_bytes_of(m: Seq<LoadedLocalModel>) -> nat
    decreases m.len(),
{
    if m.len() == 0 {
        0
    } else {
        vram_bytes_of(m.drop_last()) + (m.last().size_vram_bytes as nat)
    }
}

/// The bytes of all installed models over all runtimes.
pub open spec fn model_bytes(r: Seq<LocalRuntimeSnapshot>) -> nat
    decreases r.len(),
{
    if r.len() == 0 {
        0
    } else {
        model_bytes(r.drop_last()) + installed_bytes_of(r.last().installed_models@)
    }
}

/// The video memory all loaded models take over all runtimes.
pub open spec fn vram_bytes(r: Seq<LocalRuntimeSnapshot>) -> nat
    decreases r.len(),
{
    if r.len() == 0 {
        0
    } else {
        vram_bytes(r.drop_last()) + vram_bytes_of(r.last().loaded_models@)
    }
}

proof fn lemma_counts_bounded(r: Seq<LocalRuntimeSnapshot>)
    ensures
        ready_count(r) <= r.len(),
    decreases r.len(),
{
    if r.len() > 0 {
        lemma_counts_bounded(r.drop_last());
    }
}

fn installed_bytes(m: &Vec<InstalledLocalModel>) -> (n: u64)
    requires
        installed_bytes_of(m@) <= u64::MAX,
    ensures
        n == installed_bytes_of(m@),
{
    let mut n: u64 = 0;
    let mut i: usize = 0;
    while i < m.len()
        invariant
            i <= m@.len(),
            installed_bytes_of(m@) <= u64::MAX,
            n == installed_bytes_of(m@.take(i as int)),
        decreases m.len() - i,
    {
        proof {
            assert(m@.take(i + 1).drop_last() =~= m@.take(i as int));
            lemma_installed_prefix(m@, i + 1);
        }
        n = n + m[i].size_bytes;
        i += 1;
    }
    assert(m@.take(m@.len() as int) =~= m@);
    n
}

proof fn lemma_installed_prefix(m: Seq<InstalledLocalModel>, k: int)
    requires
        0 <= k <= m.len(),
    ensures
        installed_bytes_of(m.take(k)) <= installed_bytes_of(m),
    decreases m.len() - k,
{
    if k < m.len() {
        lemma_installed_prefix(m, k + 1);
        assert(m.take(k + 1).drop_last() =~= m.take(k));
    } else {
        assert(m.take(k) =~= m);
    }
}

fn vram_of(m: &Vec<LoadedLocalModel>) -> (n: u64)
    requires
        vram_bytes_of(m@) <= u64::MAX,
    ensures
        n == vram_bytes_of(m@),
{
    let mut n: u64 = 0;
    let mut i: usize = 0;
    while i < m.len()
        invariant
            i <= m@.len(),
            vram_bytes_of(m@) <= u64::MAX,
            n == vram_bytes_of(m@.take(i as int)),
        decreases m.len() - i,
    {
        proof {
            assert(m@.take(i + 1).drop_last() =~= m@.take(i as int));
            lemma_vram_prefix(m@, i + 1);
        }
        n = n + m[i].size_vram_bytes;
        i += 1;
    }
    assert(m@.take(m@.len() as int) =~= m@);
    n
}

proof fn lemma_vram_prefix(m: Seq<LoadedLocalModel>, k: int)
    requires
        0 <= k <= m.len(),
    ensures
        vram_bytes_of(m.take(k)) <= vram_bytes_of(m),
    decreases m.len() - k,
{
    if k < m.len() {
        lemma_vram_prefix(m, k + 1);
        assert(m.take(k + 1).drop_last() =~= m.take(k));
    } else {
        assert(m.take(k) =~= m);
    }
}

proof fn lemma_totals_prefix(r: Seq<LocalRuntimeSnapshot>, k: int)
    requires
        0 <= k <= r.len(),
    ensures
        model_bytes(r.take(k)) <= model_bytes(r),
        vram_bytes(r.take(k)) <= vram_bytes(r),
        installed_count(r.take(k)) <= installed_count(r),
        loaded_count(r.take(k)) <= loaded_count(r),
    decreases r.len() - k,
{
    if k < r.len() {
        lemma_totals_prefix(r, k + 1);
        assert(r.take(k + 1).drop_last() =~= r.take(k));
    } else {
        assert(r.take(k) =~= r);
    }
}

/// The video memory the loaded models of all runtimes take.
pub fn total_vram(runtimes: &Vec<LocalRuntimeSnapshot>) -> (n: u64)
    requires
        vram_bytes(runtimes@) <= u64::MAX,
    ensures
        n == vram_bytes(runtimes@),
{
    let mut n: u64 = 0;
    let mut i: usize = 0;
    while i < runtimes.len()
        invariant
            i <= runtimes@.len(),
            vram_bytes(runtimes@) <= u64::MAX,
            n == vram_bytes(runtimes@.take(i as int)),
        decreases runtimes.len() - i,
    {
        proof {
            assert(runtimes@.take(i + 1).drop_last() =~= runtimes@.take(i as int));
            lemma_totals_prefix(runtimes@, i + 1);
        }
        n = n + vram_of(&runtimes[i].loaded_models);
        i += 1;
    }
    assert(runtimes@.take(runtimes@.len() as int) =~= runtimes@);
    n
}

/// The totals of what the runtimes reported at `now`. The byte totals must
/// fit in `u64` (the sums of the original would overflow otherwise).
pub fn summarize_ai_environment(runtimes: Vec<LocalRuntimeSnapshot>, now: crate::developer::Timestamp) -> (s:
    AiEnvironmentSummary)
    requires
        model_bytes(runtimes@) <= u64::MAX,
        vram_bytes(runtimes@) <= u64::MAX,
        installed_count(runtimes@) <= usize::MAX,
        loaded_count(runtimes@) <= usize::MAX,
    ensures
        s.runtimes@ == runtimes@,
        s.runtime_count == runtimes@.len(),
        s.ready_runtime_count == ready_count(runtimes@),
        s.installed_model_count == installed_count(runtimes@),
        s.loaded_model_count == loaded_count(runtimes@),
        s.total_model_bytes == model_bytes(runtimes@),
        s.total_vram_bytes == vram_bytes(runtimes@),
        s.local_inference_ready == (ready_count(runtimes@) > 0 && installed_count(runtimes@) > 0),
        s.observed_at == now,
{
    let mut ready: usize = 0;
    let mut installed: usize = 0;
    let mut loaded: usize = 0;
    let mut bytes: u64 = 0;
    let mut vram: u64 = 0;
    let mut i: usize = 0;
    while i < runtimes.len()
        invariant
            i <= runtimes@.len(),
            model_bytes(runtimes@) <= u64::MAX,
            vram_bytes(runtimes@) <= u64::MAX,
            installed_count(runtimes@) <= usize::MAX,
            loaded_count(runtimes@) <= usize::MAX,
            ready == ready_count(runtimes@.take(i as int)),
            installed == installed_count(runtimes@.take(i as int)),
            loaded == loaded_count(runtimes@.take(i as int)),
            bytes == model_bytes(runtimes@.take(i as int)),
            vram == vram_bytes(runtimes@.take(i as int)),
        decreases runtimes.len() - i,
    {
        let r = &runtimes[i];
        proof {
            assert(runtimes@.take(i + 1).drop_last() =~= runtimes@.take(i as int));
            lemma_totals_prefix(runtimes@, i + 1);
            lemma_counts_bounded(runtimes@.take(i + 1));
        }
        if r.health == HealthState::Ready {
            ready = ready + 1;
        }
        installed = installed + r.installed_models.len();
        loaded = loaded + r.loaded_models.len();
        bytes = bytes + installed_bytes(&r.installed_models);
        vram = vram + vram_of(&r.loaded_models);
        i += 1;
    }
    assert(runtimes@.take(runtimes@.len() as int) =~= runtimes@);
    let runtime_count = runtimes.len();
    AiEnvironmentSummary {
        runtimes,
        runtime_count,
        ready_runtime_count: ready,
        installed_model_count: installed,
        loaded_model_count: loaded,
        total_model_bytes: bytes,
        total_vram_bytes: vram,
        local_inference_ready: ready > 0 && installed > 0,
        observed_at: now,
    }
}

} // verus!
