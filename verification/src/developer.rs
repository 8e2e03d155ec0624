//! The developer-agent domain: modes, task states, risk levels and the typed
//! tool calls that a model may request.

use crate::text::{
    ascii_lowercase, contains, join, join_seq, lower_seq, seq_contains, str_eq, views_of,
};
use vstd::prelude::*;

verus! {

/// Identifiers are 128-bit UUID values.
pub type WorkspaceId = u128;

pub type DeveloperTaskId = u128;

pub type CommandExecutionId = u128;

/// Milliseconds since the Unix epoch.
pub type Timestamp = i64;

/// The kinds of developer failure (the variants of `DeveloperError`).
#[derive(Debug, Clone, Copy, PartialEq, Eq, Structural)]
pub enum DeveloperErrorKind {
    Invalid,
    Sandbox,
    Permission,
    NotFound,
    Io,
    Serialization,
    Terminal,
    Model,
    Store,
    Limit,
}

/// A developer failure with its detail text. I/O and serialization failures
/// carry the outside error's rendered message.
#[derive(Debug, Clone, PartialEq, Eq)]
pub enum DeveloperError {
    Invalid(String),
    Sandbox(String),
    Permission(String),
    NotFound(String),
    Io(String),
    Serialization(String),
    Terminal(String),
    Model(String),
    Store(String),
    Limit(String),
}

pub open spec fn error_kind(e: DeveloperError) -> DeveloperErrorKind {
    match e {
        DeveloperError::Invalid(_) => DeveloperErrorKind::Invalid,
        DeveloperError::Sandbox(_) => DeveloperErrorKind::Sandbox,
        DeveloperError::Permission(_) => DeveloperErrorKind::Permission,
        DeveloperError::NotFound(_) => DeveloperErrorKind::NotFound,
        DeveloperError::Io(_) => DeveloperErrorKind::Io,
        DeveloperError::Serialization(_) => DeveloperErrorKind::Serialization,
        DeveloperError::Terminal(_) => DeveloperErrorKind::Terminal,
        DeveloperError::Model(_) => DeveloperErrorKind::Model,
        DeveloperError::Store(_) => DeveloperErrorKind::Store,
        DeveloperError::Limit(_) => DeveloperErrorKind::Limit,
    }
}

pub open spec fn error_detail(e: DeveloperError) -> Seq<char> {
    match e {
        DeveloperError::Invalid(m) => m@,
        DeveloperError::Sandbox(m) => m@,
        DeveloperError::Permission(m) => m@,
        DeveloperError::NotFound(m) => m@,
        DeveloperError::Io(m) => m@,
        DeveloperError::Serialization(m) => m@,
        DeveloperError::Terminal(m) => m@,
        DeveloperError::Model(m) => m@,
        DeveloperError::Store(m) => m@,
        DeveloperError::Limit(m) => m@,
    }
}

/// The error of the given kind carrying `detail`.
pub fn developer_error(kind: DeveloperErrorKind, detail: String) -> (e: DeveloperError)
    ensures
        error_kind(e) == kind,
        error_detail(e) == detail@,
{
    match kind {
        DeveloperErrorKind::Invalid => DeveloperError::Invalid(detail),
        DeveloperErrorKind::Sandbox => DeveloperError::Sandbox(detail),
        DeveloperErrorKind::Permission => DeveloperError::Permission(detail),
        DeveloperErrorKind::NotFound => DeveloperError::NotFound(detail),
        DeveloperErrorKind::Io => DeveloperError::Io(detail),
        DeveloperErrorKind::Serialization => DeveloperError::Serialization(detail),
        DeveloperErrorKind::Terminal => DeveloperError::Terminal(detail),
        DeveloperErrorKind::Model => DeveloperError::Model(detail),
        DeveloperErrorKind::Store => DeveloperError::Store(detail),
        DeveloperErrorKind::Limit => DeveloperError::Limit(detail),
    }
}

/// The error of the given kind whose detail is the literal `detail`.
pub fn developer_error_lit(kind: DeveloperErrorKind, detail: &str) -> (e: DeveloperError)
    ensures
        error_kind(e) == kind,
        error_detail(e) == detail@,
{
    developer_error(kind, crate::text::owned(detail))
}

/// The I/O failure reported when the clock or the random source could not be read.
pub open spec fn platform_failure(e: DeveloperError) -> bool {
    &&& error_kind(e) == DeveloperErrorKind::Io
    &&& (error_detail(e) == crate::platform::CLOCK_UNAVAILABLE@ || error_detail(e) == crate::platform::RANDOM_UNAVAILABLE@)
}

/// The failure for an unreadable clock.
pub fn clock_failure() -> (e: DeveloperError)
    ensures
        platform_failure(e),
        error_detail(e) == crate::platform::CLOCK_UNAVAILABLE@,
{
    developer_error_lit(DeveloperErrorKind::Io, crate::platform::CLOCK_UNAVAILABLE)
}

/// The failure for a random source that reported an error.
pub fn random_failure() -> (e: DeveloperError)
    ensures
        platform_failure(e),
        error_detail(e) == crate::platform::RANDOM_UNAVAILABLE@,
{
    developer_error_lit(DeveloperErrorKind::Io, crate::platform::RANDOM_UNAVAILABLE)
}

#[derive(Debug, Clone, Copy, PartialEq, Eq, Structural)]
pub enum DeveloperMode {
    Ask,
    ReadOnly,
    Edit,
    Execute,
    Auto,
}

#[derive(Debug, Clone, Copy, PartialEq, Eq, Structural)]
pub enum DeveloperTaskState {
    Queued,
    Analyzing,
    Planning,
    Implementing,
    Building,
    Testing,
    Fixing,
    Reviewing,
    WaitingApproval,
    Completed,
    Failed,
    Cancelled,
}

impl DeveloperTaskState {
    /// Completed, failed and cancelled tasks never run again.
    pub fn is_terminal(self) -> (b: bool)
        ensures
            b <==> (self == DeveloperTaskState::Completed || self == DeveloperTaskState::Failed
                || self == DeveloperTaskState::Cancelled),
    {
        match self {
            DeveloperTaskState::Completed | DeveloperTaskState::Failed
            | DeveloperTaskState::Cancelled => true,
            _ => false,
        }
    }
}

/// Risk, ordered `Low < Medium < High < Critical`.
#[derive(Debug, Clone, Copy, PartialEq, Eq, PartialOrd, Ord, Structural)]
pub enum RiskLevel {
    Low,
    Medium,
    High,
    Critical,
}

/// The position of a risk level in the order `Low < Medium < High < Critical`.
pub open spec fn risk_rank(r: RiskLevel) -> nat {
    match r {
        RiskLevel::Low => 0,
        RiskLevel::Medium => 1,
        RiskLevel::High => 2,
        RiskLevel::Critical => 3,
    }
}

/// The greater of two risk levels.
pub open spec fn risk_max(a: RiskLevel, b: RiskLevel) -> RiskLevel {
    if risk_rank(a) >= risk_rank(b) {
        a
    } else {
        b
    }
}

impl RiskLevel {
    pub fn rank(self) -> (r: u8)
        ensures
            r == risk_rank(self),
    {
        match self {
            RiskLevel::Low => 0,
            RiskLevel::Medium => 1,
            RiskLevel::High => 2,
            RiskLevel::Critical => 3,
        }
    }

    /// The greater of `self` and `other`.
    pub fn max_with(self, other: RiskLevel) -> (r: RiskLevel)
        ensures
            r == risk_max(self, other),
    {
        if self.rank() >= other.rank() {
            self
        } else {
            other
        }
    }
}

/// Bounds on one agent run.
#[derive(Debug, Clone, Copy, PartialEq, Eq)]
pub struct AgentLimits {
    pub max_steps: u32,
    pub max_tool_calls: u32,
    pub max_runtime_seconds: u64,
    pub max_failed_attempts: u32,
    pub max_consecutive_errors: u32,
    pub max_context_chars: usize,
}

impl AgentLimits {
    /// 40 steps, 60 tool calls, 30 minutes, 8 failed attempts, 3 consecutive
    /// errors and 60 000 characters of context.
    pub fn default_limits() -> (r: AgentLimits)
        ensures
            r.max_steps == 40,
            r.max_tool_calls == 60,
            r.max_runtime_seconds == 1800,
            r.max_failed_attempts == 8,
            r.max_consecutive_errors == 3,
            r.max_context_chars == 60_000,
    {
        AgentLimits {
            max_steps: 40,
            max_tool_calls: 60,
            max_runtime_seconds: 30 * 60,
            max_failed_attempts: 8,
            max_consecutive_errors: 3,
            max_context_chars: 60_000,
        }
    }
}

impl Default for AgentLimits {
    fn default() -> (r: AgentLimits)
        ensures
            r.max_steps == 40,
            r.max_tool_calls == 60,
            r.max_runtime_seconds == 1800,
            r.max_failed_attempts == 8,
            r.max_consecutive_errors == 3,
            r.max_context_chars == 60_000,
    {
        AgentLimits::default_limits()
    }
}

#[derive(Debug, Clone, PartialEq, Eq)]
pub struct PlanStep {
    pub id: u32,
    pub description: String,
    pub state: PlanStepState,
}

#[derive(Debug, Clone, Copy, PartialEq, Eq, Structural)]
pub enum PlanStepState {
    Pending,
    InProgress,
    Completed,
    Failed,
}

#[derive(Debug, Clone, PartialEq, Eq)]
pub struct FileChange {
    pub path: String,
    pub kind: FileChangeKind,
    pub additions: usize,
    pub deletions: usize,
    pub reason: String,
}

#[derive(Debug, Clone, Copy, PartialEq, Eq, Structural)]
pub enum FileChangeKind {
    Created,
    Modified,
    Deleted,
}

#[derive(Debug, Clone, Copy, PartialEq, Eq, Structural)]
pub enum CommandStatus {
    Running,
    Completed,
    Failed,
    Cancelled,
    Timeout,
}

/// One finished (or running) terminal command.
#[derive(Debug, Clone, PartialEq, Eq)]
pub struct CommandExecution {
    pub id: CommandExecutionId,
    pub executable: String,
    pub args: Vec<String>,
    pub working_directory: String,
    pub process_id: Option<u32>,
    pub started_at: Timestamp,
    pub finished_at: Option<Timestamp>,
    pub timeout_ms: u64,
    pub exit_code: Option<i32>,
    pub stdout: String,
    pub stderr: String,
    pub status: CommandStatus,
}

#[derive(Debug, Clone, Copy, PartialEq, Eq, Default)]
pub struct StructuredTestResult {
    pub total: u32,
    pub passed: u32,
    pub failed: u32,
    pub skipped: u32,
    pub duration_ms: u64,
}

#[derive(Debug, Clone, PartialEq, Eq)]
pub struct DeveloperErrorEvent {
    pub error_type: String,
    pub language: Option<String>,
    pub code: Option<String>,
    pub file: Option<String>,
    pub line: Option<u32>,
    pub message: String,
}

#[derive(Debug, Clone, PartialEq, Eq)]
pub struct TextReplacement {
    pub path: String,
    pub expected: String,
    pub replacement: String,
    pub replace_all: bool,
}

/// One typed tool request. Commands always carry an executable and separate
/// arguments; there is no shell string.
#[derive(Debug, Clone, PartialEq, Eq)]
pub enum ToolCall {
    ListDirectory { path: String },
    ReadFile { path: String },
    ReadFileRange { path: String, start_line: usize, end_line: usize },
    SearchFiles { query: String, extension: Option<String>, directory: Option<String> },
    SearchText { query: String, extension: Option<String>, directory: Option<String> },
    GetFileMetadata { path: String },
    GetProjectTree { depth: usize },
    CreateFile { path: String, content: String, reason: String },
    WriteFile { path: String, content: String, reason: String },
    ApplyPatch { replacements: Vec<TextReplacement>, reason: String },
    DeleteFile { path: String, reason: String },
    RunCommand {
        executable: String,
        args: Vec<String>,
        working_directory: String,
        timeout_ms: u64,
        purpose: String,
    },
    GetDiff,
}

/// The wire name of a tool.
pub open spec fn tool_name(call: ToolCall) -> Seq<char> {
    match call {
        ToolCall::ListDirectory { .. } => "list_directory"@,
        ToolCall::ReadFile { .. } => "read_file"@,
        ToolCall::ReadFileRange { .. } => "read_file_range"@,
        ToolCall::SearchFiles { .. } => "search_files"@,
        ToolCall::SearchText { .. } => "search_text"@,
        ToolCall::GetFileMetadata { .. } => "get_file_metadata"@,
        ToolCall::GetProjectTree { .. } => "get_project_tree"@,
        ToolCall::CreateFile { .. } => "create_file"@,
        ToolCall::WriteFile { .. } => "write_file"@,
        ToolCall::ApplyPatch { .. } => "apply_patch"@,
        ToolCall::DeleteFile { .. } => "delete_file"@,
        ToolCall::RunCommand { .. } => "run_command"@,
        ToolCall::GetDiff => "get_diff"@,
    }
}

/// Tools that change workspace files.
pub open spec fn is_write_tool(call: ToolCall) -> bool {
    call is CreateFile || call is WriteFile || call is ApplyPatch || call is DeleteFile
}

/// The risk of a terminal command: shells, and Git history rewriting or
/// publishing, are high risk.
pub open spec fn command_risk_spec(executable: Seq<char>, args: Seq<Seq<char>>) -> RiskLevel {
    let e = lower_seq(executable);
    let joined = lower_seq(join_seq(args, " "@));
    if seq_contains(e, "powershell"@) || seq_contains(e, "cmd"@) || (e == "git"@ && (
    seq_contains(joined, "reset"@) || seq_contains(joined, "clean"@) || seq_contains(
        joined,
        "push"@,
    ) || seq_contains(joined, "commit"@))) {
        RiskLevel::High
    } else {
        RiskLevel::Low
    }
}

/// The risk of a tool call.
pub open spec fn tool_risk(call: ToolCall) -> RiskLevel {
    match call {
        ToolCall::DeleteFile { .. } => RiskLevel::High,
        ToolCall::RunCommand { executable, args, .. } => command_risk_spec(
            executable@,
            views_of(args@),
        ),
        ToolCall::CreateFile { .. } | ToolCall::WriteFile { .. } | ToolCall::ApplyPatch {
            ..
        } => RiskLevel::Medium,
        _ => RiskLevel::Low,
    }
}

/// The least mode in which a tool call may run.
pub open spec fn tool_required_mode(call: ToolCall) -> DeveloperMode {
    if is_write_tool(call) {
        DeveloperMode::Edit
    } else if call is RunCommand {
        DeveloperMode::Execute
    } else {
        DeveloperMode::ReadOnly
    }
}

impl ToolCall {
    pub fn name(&self) -> (r: &'static str)
        ensures
            r@ == tool_name(*self),
    {
        match self {
            ToolCall::ListDirectory { .. } => "list_directory",
            ToolCall::ReadFile { .. } => "read_file",
            ToolCall::ReadFileRange { .. } => "read_file_range",
            ToolCall::SearchFiles { .. } => "search_files",
            ToolCall::SearchText { .. } => "search_text",
            ToolCall::GetFileMetadata { .. } => "get_file_metadata",
            ToolCall::GetProjectTree { .. } => "get_project_tree",
            ToolCall::CreateFile { .. } => "create_file",
            ToolCall::WriteFile { .. } => "write_file",
            ToolCall::ApplyPatch { .. } => "apply_patch",
            ToolCall::DeleteFile { .. } => "delete_file",
            ToolCall::RunCommand { .. } => "run_command",
            ToolCall::GetDiff => "get_diff",
        }
    }

    pub fn risk(&self) -> (r: RiskLevel)
        ensures
            r == tool_risk(*self),
    {
        match self {
            ToolCall::DeleteFile { .. } => RiskLevel::High,
            ToolCall::RunCommand { executable, args, .. } => command_risk(executable, args),
            ToolCall::CreateFile { .. } | ToolCall::WriteFile { .. } | ToolCall::ApplyPatch {
                ..
            } => RiskLevel::Medium,
            _ => RiskLevel::Low,
        }
    }

    pub fn required_mode(&self) -> (r: DeveloperMode)
        ensures
            r == tool_required_mode(*self),
    {
        match self {
            ToolCall::CreateFile { .. } | ToolCall::WriteFile { .. } | ToolCall::ApplyPatch {
                ..
            }
            | ToolCall::DeleteFile { .. } => DeveloperMode::Edit,
            ToolCall::RunCommand { .. } => DeveloperMode::Execute,
            _ => DeveloperMode::ReadOnly,
        }
    }

    /// Whether the call changes workspace files.
    pub fn is_write(&self) -> (b: bool)
        ensures
            b == is_write_tool(*self),
    {
        match self {
            ToolCall::CreateFile { .. } | ToolCall::WriteFile { .. } | ToolCall::ApplyPatch {
                ..
            }
            | ToolCall::DeleteFile { .. } => true,
            _ => false,
        }
    }
}

/// The risk of running `executable` with `args`.
pub fn command_risk(executable: &str, args: &Vec<String>) -> (r: RiskLevel)
    ensures
        r == command_risk_spec(executable@, views_of(args@)),
{
    let e = ascii_lowercase(executable);
    let joined = ascii_lowercase(join(args, " ").as_str());
    let shell = contains(e.as_str(), "powershell") || contains(e.as_str(), "cmd");
    let git_history = str_eq(e.as_str(), "git") && (contains(joined.as_str(), "reset")
        || contains(joined.as_str(), "clean") || contains(joined.as_str(), "push") || contains(
        joined.as_str(),
        "commit",
    ));
    if shell || git_history {
        RiskLevel::High
    } else {
        RiskLevel::Low
    }
}

} // verus!

verus! {

/// A confidence is carried as the bit pattern of an IEEE-754 single-precision
/// value (`f32::to_bits`); the library never computes with it as a number.
pub type ConfidenceBits = u32;

/// The bit pattern of `1.0_f32`.
pub const ONE_BITS: u32 = 0x3F80_0000;

/// The bit pattern of `-0.0_f32`.
pub const NEGATIVE_ZERO_BITS: u32 = 0x8000_0000;

/// The bits of a NaN: all exponent bits set and a non-zero mantissa.
pub open spec fn is_nan_bits(b: u32) -> bool {
    (0x7F80_0000 < b && b <= 0x7FFF_FFFF) || 0xFF80_0000 < b
}

/// `(0.0..=1.0).contains(&x)` for the value `x` with bit pattern `b`:
/// `+0.0 ..= 1.0` are the patterns `0 ..= 0x3F80_0000`, and `-0.0` compares
/// equal to `0.0`.
pub open spec fn in_unit_interval(b: u32) -> bool {
    b <= ONE_BITS || b == NEGATIVE_ZERO_BITS
}

/// `x.clamp(0.0, 1.0)` on bit patterns: negative values become `+0.0`, values
/// above one become `1.0`, and NaN and `-0.0` are returned unchanged.
pub open spec fn clamp_unit_bits(b: u32) -> u32 {
    if is_nan_bits(b) {
        b
    } else if b > NEGATIVE_ZERO_BITS {
        0
    } else if ONE_BITS < b && b <= 0x7F80_0000 {
        ONE_BITS
    } else {
        b
    }
}

pub fn confidence_in_unit_interval(b: ConfidenceBits) -> (r: bool)
    ensures
        r == in_unit_interval(b),
{
    b <= ONE_BITS || b == NEGATIVE_ZERO_BITS
}

pub fn clamp_confidence(b: ConfidenceBits) -> (r: ConfidenceBits)
    ensures
        r == clamp_unit_bits(b),
        !is_nan_bits(b) ==> in_unit_interval(r),
{
    if (0x7F80_0000 < b && b <= 0x7FFF_FFFF) || 0xFF80_0000 < b {
        b
    } else if b > NEGATIVE_ZERO_BITS {
        0
    } else if ONE_BITS < b && b <= 0x7F80_0000 {
        ONE_BITS
    } else {
        b
    }
}

} // verus!

verus! {

/// A registered workspace (its root is where every tool is confined).
#[derive(Debug, Clone, PartialEq, Eq)]
pub struct Workspace {
    pub id: WorkspaceId,
    pub name: String,
    pub root: String,
    pub git_enabled: bool,
    pub branch: Option<String>,
    pub registered_at: Timestamp,
    pub last_opened_at: Timestamp,
}

#[derive(Debug, Clone, PartialEq, Eq)]
pub struct PlanRevision {
    pub version: u32,
    pub reason: String,
    pub steps: Vec<PlanStep>,
    pub created_at: Timestamp,
}

#[derive(Debug, Clone, PartialEq, Eq)]
pub struct DeveloperActivity {
    pub sequence: u64,
    pub occurred_at: Timestamp,
    pub kind: String,
    pub message: String,
    pub detail: Option<String>,
    pub risk: RiskLevel,
}

/// One developer-agent task and everything it did.
#[derive(Debug, Clone, PartialEq, Eq)]
pub struct DeveloperTask {
    pub id: DeveloperTaskId,
    pub workspace_id: WorkspaceId,
    pub request: String,
    pub mode: DeveloperMode,
    pub model: String,
    pub soft_policy: Option<String>,
    pub hard_permission: Option<crate::ard::HardPermission>,
    pub state: DeveloperTaskState,
    pub risk: RiskLevel,
    pub confidence: ConfidenceBits,
    pub confidence_reason: String,
    pub plan_revisions: Vec<PlanRevision>,
    pub activities: Vec<DeveloperActivity>,
    pub files_read: Vec<String>,
    pub files_changed: Vec<FileChange>,
    pub commands: Vec<CommandExecution>,
    pub errors: Vec<DeveloperErrorEvent>,
    pub unified_diff: String,
    pub result_summary: Option<String>,
    pub knowledge_saved: bool,
    pub steps_completed: u32,
    pub tool_calls: u32,
    pub failed_attempts: u32,
    pub created_at: Timestamp,
    pub updated_at: Timestamp,
    pub completed_at: Option<Timestamp>,
}

impl DeveloperTask {
    /// A queued task with nothing done yet, created at `now` under `id`.
    pub fn new_at(
        id: DeveloperTaskId,
        workspace_id: WorkspaceId,
        request: String,
        mode: DeveloperMode,
        model: String,
        now: Timestamp,
    ) -> (t: DeveloperTask)
        ensures
            t.id == id && t.workspace_id == workspace_id && t.request == request && t.mode == mode
                && t.model == model,
            t.soft_policy is None && t.hard_permission is None,
            t.state == DeveloperTaskState::Queued && t.risk == RiskLevel::Low,
            t.confidence == 0 && t.confidence_reason@ == "not evaluated"@,
            t.plan_revisions@.len() == 0 && t.activities@.len() == 0 && t.files_read@.len() == 0
                && t.files_changed@.len() == 0 && t.commands@.len() == 0 && t.errors@.len() == 0,
            t.unified_diff@.len() == 0 && t.result_summary is None && !t.knowledge_saved,
            t.steps_completed == 0 && t.tool_calls == 0 && t.failed_attempts == 0,
            t.created_at == now && t.updated_at == now && t.completed_at is None,
    {
        DeveloperTask {
            id,
            workspace_id,
            request,
            mode,
            model,
            soft_policy: None,
            hard_permission: None,
            state: DeveloperTaskState::Queued,
            risk: RiskLevel::Low,
            confidence: 0,
            confidence_reason: crate::text::owned("not evaluated"),
            plan_revisions: Vec::new(),
            activities: Vec::new(),
            files_read: Vec::new(),
            files_changed: Vec::new(),
            commands: Vec::new(),
            errors: Vec::new(),
            unified_diff: String::new(),
            result_summary: None,
            knowledge_saved: false,
            steps_completed: 0,
            tool_calls: 0,
            failed_attempts: 0,
            created_at: now,
            updated_at: now,
            completed_at: None,
        }
    }

    /// A queued task created now under a fresh identifier; fails only when
    /// the clock or the random source cannot be read.
    pub fn new(workspace_id: WorkspaceId, request: String, mode: DeveloperMode, model: String) -> (r:
        Result<DeveloperTask, DeveloperError>)
        ensures
            match r {
                Ok(t) => t.workspace_id == workspace_id && t.request == request && t.mode == mode
                    && t.model == model && t.state == DeveloperTaskState::Queued
                    && t.plan_revisions@.len() == 0 && t.activities@.len() == 0
                    && t.steps_completed == 0 && t.tool_calls == 0 && t.created_at == t.updated_at,
                Err(e) => platform_failure(e),
            },
    {
        let id = match crate::platform::fresh_id() {
            Some(v) => v,
            None => {
                return Err(crate::developer::random_failure());
            },
        };
        let now = match crate::platform::now_millis() {
            Some(t) => t,
            None => {
                return Err(crate::developer::clock_failure());
            },
        };
        Ok(DeveloperTask::new_at(id, workspace_id, request, mode, model, now))
    }
}

/// A tool offered to the model. The input schema is JSON text.
#[derive(Debug, Clone, PartialEq, Eq)]
pub struct ToolDefinition {
    pub name: String,
    pub description: String,
    pub input_schema: String,
    pub required_mode: DeveloperMode,
    pub risk_level: RiskLevel,
}

/// What a tool reported. Metadata values are JSON text, keyed by name.
#[derive(Debug, Clone, PartialEq, Eq)]
pub struct ToolResult {
    pub success: bool,
    pub output: String,
    pub error: Option<String>,
    pub duration_ms: u64,
    pub metadata: Vec<(String, String)>,
}

/// The one action a model picks per turn.
#[derive(Debug, Clone, PartialEq, Eq)]
pub enum AgentAction {
    Plan { steps: Vec<String>, reason: String },
    Tool { call: ToolCall, rationale: String },
    Complete { summary: String, confidence: ConfidenceBits, reason: String },
    RequireApproval { summary: String, risk: RiskLevel },
    Fail { reason: String },
}

/// What is needed to start a task.
#[derive(Debug, Clone, PartialEq, Eq)]
pub struct StartDeveloperTask {
    pub workspace_id: WorkspaceId,
    pub request: String,
    pub mode: DeveloperMode,
    pub provider_id: String,
    pub model_id: String,
    pub soft_policy: Option<String>,
    pub hard_permission: Option<crate::ard::HardPermission>,
    pub limits: Option<AgentLimits>,
}

} // verus!

verus! {

/// The message an error displays: its kind's prefix and its detail.
pub open spec fn error_text(e: DeveloperError) -> Seq<char> {
    match e {
        DeveloperError::Invalid(m) => "invalid developer request: "@ + m@,
        DeveloperError::Sandbox(m) => "workspace sandbox rejected access: "@ + m@,
        DeveloperError::Permission(m) => "developer permission denied: "@ + m@,
        DeveloperError::NotFound(m) => "developer item was not found: "@ + m@,
        DeveloperError::Io(m) => "developer I/O failed: "@ + m@,
        DeveloperError::Serialization(m) => "developer serialization failed: "@ + m@,
        DeveloperError::Terminal(m) => "developer terminal failed: "@ + m@,
        DeveloperError::Model(m) => "developer model failed: "@ + m@,
        DeveloperError::Store(m) => "developer store failed: "@ + m@,
        DeveloperError::Limit(m) => "developer agent limit reached: "@ + m@,
    }
}

impl DeveloperError {
    /// The message this error displays.
    pub fn to_text(&self) -> (r: String)
        ensures
            r@ == error_text(*self),
    {
        let (prefix, m) = match self {
            DeveloperError::Invalid(m) => ("invalid developer request: ", m),
            DeveloperError::Sandbox(m) => ("workspace sandbox rejected access: ", m),
            DeveloperError::Permission(m) => ("developer permission denied: ", m),
            DeveloperError::NotFound(m) => ("developer item was not found: ", m),
            DeveloperError::Io(m) => ("developer I/O failed: ", m),
            DeveloperError::Serialization(m) => ("developer serialization failed: ", m),
            DeveloperError::Terminal(m) => ("developer terminal failed: ", m),
            DeveloperError::Model(m) => ("developer model failed: ", m),
            DeveloperError::Store(m) => ("developer store failed: ", m),
            DeveloperError::Limit(m) => ("developer agent limit reached: ", m),
        };
        crate::text::concat2(prefix, m.as_str())
    }
}

} // verus!
