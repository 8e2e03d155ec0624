//! The bridge between the ARD relay and the developer agent: brain
//! resolution records, model rotation plans, and the deterministic mapping of
//! agent results into structured handoffs.

use crate::developer::{CommandExecution, CommandStatus, Timestamp};
use crate::numtext::{dec, dec_signed, i64_text, u64_text};
use crate::text::{
    ascii_lowercase, contains, join, join_seq, lower_seq, owned, seq_contains, str_eq,
    strip_suffixes, take_chars, trim, trim_end_matches, trim_seq, truncate_chars, views_of,
};
use vstd::prelude::*;
use vstd::string::StringExecFns;

verus! {

#[derive(Debug, Clone, PartialEq, Eq)]
pub struct ResolvedBrain {
    pub provider_id: String,
    pub model_id: String,
    pub runtime_id: Option<String>,
    pub temporary_auto_fallback: bool,
}

impl ResolvedBrain {
    /// "provider/model".
    pub fn label(&self) -> (r: String)
        ensures
            r@ == self.provider_id@ + "/"@ + self.model_id@,
    {
        crate::text::concat3(self.provider_id.as_str(), "/", self.model_id.as_str())
    }
}

#[derive(Debug, Clone, Copy, PartialEq, Eq, Structural)]
pub enum ResourcePolicy {
    PreferSpeed,
    PreferQuality,
    PreferLocal,
    MinimizeVram,
    Balanced,
}

#[derive(Debug, Clone, Copy, PartialEq, Eq, Structural)]
pub enum FallbackPolicy {
    Disabled,
    AutoAlternative,
}

#[derive(Debug, Clone, PartialEq, Eq)]
pub struct BrainResolutionContext {
    pub resource_policy: ResourcePolicy,
    pub fallback_policy: FallbackPolicy,
    /// Model identifiers the resolver must not pick (a set).
    pub excluded_model_ids: Vec<String>,
}

impl BrainResolutionContext {
    /// Balanced resources, automatic alternatives, nothing excluded.
    pub fn default_context() -> (r: BrainResolutionContext)
        ensures
            r.resource_policy == ResourcePolicy::Balanced,
            r.fallback_policy == FallbackPolicy::AutoAlternative,
            r.excluded_model_ids@.len() == 0,
    {
        BrainResolutionContext {
            resource_policy: ResourcePolicy::Balanced,
            fallback_policy: FallbackPolicy::AutoAlternative,
            excluded_model_ids: Vec::new(),
        }
    }
}

#[derive(Debug, Clone, PartialEq, Eq)]
pub struct BrainResolution {
    pub requested: String,
    pub resolved_brain: ResolvedBrain,
    pub reason: String,
    pub compatibility: String,
    pub fallback_used: bool,
    pub required_capabilities: Vec<String>,
    pub score: u32,
    pub resource_policy: ResourcePolicy,
}

#[derive(Debug, Clone, PartialEq, Eq)]
pub struct ModelRotationPlan {
    pub current_model: Option<String>,
    pub next_model: String,
    pub current_runtime: Option<String>,
    pub next_runtime: String,
    pub reuse_possible: bool,
    pub rotation_required: bool,
    pub resource_policy: ResourcePolicy,
}

#[derive(Debug, Clone, Copy, PartialEq, Eq, Structural)]
pub enum ModelRotationEventKind {
    ModelRotationStarted,
    ModelUnloading,
    ModelLoading,
    ModelReused,
    ModelRotationCompleted,
    ModelRotationFailed,
}

#[derive(Debug, Clone, PartialEq, Eq)]
pub struct ModelRotationEvent {
    pub kind: ModelRotationEventKind,
    pub message: String,
}

#[derive(Debug, Clone, PartialEq, Eq)]
pub struct ModelRotationResult {
    pub plan: ModelRotationPlan,
    pub attempts: u32,
    pub reused: bool,
    pub actual_model_state: String,
    pub events: Vec<ModelRotationEvent>,
}

#[derive(Debug, Clone, Copy, PartialEq, Eq, Structural)]
pub enum RotationControl {
    Continue,
    Pause,
    Cancel,
}

} // verus!

verus! {

/// A command as the next member sees it.
#[derive(Debug, Clone, PartialEq, Eq)]
pub struct CommandFact {
    pub command: String,
    pub exit_code: Option<i32>,
    pub stdout: String,
    pub stderr: String,
    pub duration_ms: u64,
    pub status: CommandStatus,
}

/// The command line: the executable and its arguments, space separated and trimmed.
pub open spec fn command_line(c: CommandExecution) -> Seq<char> {
    trim_seq(c.executable@ + " "@ + join_seq(views_of(c.args@), " "@))
}

/// How long a finished command ran, in milliseconds (0 when unfinished or
/// when the clock went backwards).
pub open spec fn command_duration(c: CommandExecution) -> u64 {
    match c.finished_at {
        Some(f) => if f - c.started_at > 0 {
            (f - c.started_at) as u64
        } else {
            0
        },
        None => 0,
    }
}

/// `f` is the fact of command `c`: its line, exit code, status, duration and
/// the first 32 000 characters of each output.
pub open spec fn fact_of(f: CommandFact, c: CommandExecution) -> bool {
    &&& f.command@ == command_line(c)
    &&& f.exit_code == c.exit_code
    &&& f.stdout@ == take_chars(c.stdout@, 32_000)
    &&& f.stderr@ == take_chars(c.stderr@, 32_000)
    &&& f.duration_ms == command_duration(c)
    &&& f.status == c.status
}

pub fn command_fact(c: &CommandExecution) -> (f: CommandFact)
    ensures
        fact_of(f, *c),
{
    let duration_ms: u64 = match c.finished_at {
        Some(finished) => {
            let d: i128 = (finished as i128) - (c.started_at as i128);
            if d > 0 {
                d as u64
            } else {
                0
            }
        },
        None => 0,
    };
    let mut line = owned(c.executable.as_str());
    line.append(" ");
    line.append(join(&c.args, " ").as_str());
    CommandFact {
        command: trim(line.as_str()),
        exit_code: c.exit_code,
        stdout: truncate_chars(c.stdout.as_str(), 32_000),
        stderr: truncate_chars(c.stderr.as_str(), 32_000),
        duration_ms,
        status: c.status,
    }
}

pub open spec fn debug_status(s: CommandStatus) -> Seq<char> {
    match s {
        CommandStatus::Running => "Running"@,
        CommandStatus::Completed => "Completed"@,
        CommandStatus::Failed => "Failed"@,
        CommandStatus::Cancelled => "Cancelled"@,
        CommandStatus::Timeout => "Timeout"@,
    }
}

pub fn status_name(s: CommandStatus) -> (r: &'static str)
    ensures
        r@ == debug_status(s),
{
    match s {
        CommandStatus::Running => "Running",
        CommandStatus::Completed => "Completed",
        CommandStatus::Failed => "Failed",
        CommandStatus::Cancelled => "Cancelled",
        CommandStatus::Timeout => "Timeout",
    }
}

/// `Option<i32>` as `Debug` writes it.
pub open spec fn debug_exit(e: Option<i32>) -> Seq<char> {
    match e {
        Some(x) => "Some("@ + dec_signed(x as int) + ")"@,
        None => "None"@,
    }
}

pub fn exit_text(e: Option<i32>) -> (r: String)
    ensures
        r@ == debug_exit(e),
{
    match e {
        Some(x) => {
            let mut r = owned("Some(");
            r.append(i64_text(x as i64).as_str());
            r.append(")");
            r
        },
        None => owned("None"),
    }
}

/// "command: status=…, exit=…, duration_ms=…".
pub open spec fn fact_line(f: CommandFact) -> Seq<char> {
    f.command@ + ": status="@ + debug_status(f.status) + ", exit="@ + debug_exit(f.exit_code)
        + ", duration_ms="@ + dec(f.duration_ms as nat)
}

pub fn format_command_fact(f: &CommandFact) -> (r: String)
    ensures
        r@ == fact_line(*f),
{
    let mut r = f.command.clone();
    r.append(": status=");
    r.append(status_name(f.status));
    r.append(", exit=");
    r.append(exit_text(f.exit_code).as_str());
    r.append(", duration_ms=");
    r.append(u64_text(f.duration_ms).as_str());
    r
}

/// A test command is `pytest` (ignoring a trailing ".exe" and ASCII case)
/// or has a first argument that mentions "test" in any ASCII case.
pub open spec fn is_test_cmd(c: CommandExecution) -> bool {
    lower_seq(strip_suffixes(c.executable@, ".exe"@)) == "pytest"@ || (c.args@.len() > 0
        && seq_contains(lower_seq(c.args@[0]@), "test"@))
}

pub fn is_test_command(c: &CommandExecution) -> (b: bool)
    ensures
        b == is_test_cmd(*c),
{
    proof {
        reveal_strlit(".exe");
    }
    let exe = ascii_lowercase(trim_end_matches(c.executable.as_str(), ".exe").as_str());
    if str_eq(exe.as_str(), "pytest") {
        return true;
    }
    c.args.len() > 0 && contains(ascii_lowercase(c.args[0].as_str()).as_str(), "test")
}

/// An architect role mentions "architect" (in any ASCII case) or "アーキテクト".
pub open spec fn is_architect_role(role: Seq<char>) -> bool {
    seq_contains(lower_seq(role), "architect"@) || seq_contains(lower_seq(role), "アーキテクト"@)
}

pub fn architect_role(role: &str) -> (b: bool)
    ensures
        b == is_architect_role(role@),
{
    let lower = ascii_lowercase(role);
    contains(lower.as_str(), "architect") || contains(lower.as_str(), "アーキテクト")
}

} // verus!

verus! {

#[derive(Debug, Clone, Copy, PartialEq, Eq, Structural)]
pub enum AgentExecutionStatus {
    Completed,
    Failed,
    Cancelled,
    WaitingApproval,
}

/// A test command with its parsed summary.
#[derive(Debug, Clone, PartialEq, Eq)]
pub struct TestFact {
    pub command: CommandFact,
    pub result: crate::developer::StructuredTestResult,
}

/// What a developer task produced, as the relay reads it.
#[derive(Debug, Clone, PartialEq, Eq)]
pub struct AgentExecutionResult {
    pub developer_task_id: crate::developer::DeveloperTaskId,
    pub status: AgentExecutionStatus,
    pub summary: String,
    pub files_read: Vec<String>,
    pub files_changed: Vec<crate::developer::FileChange>,
    pub tool_calls: u32,
    pub build_results: Vec<CommandFact>,
    pub test_results: Vec<TestFact>,
    pub errors: Vec<crate::developer::DeveloperErrorEvent>,
    pub cancelled: bool,
    pub timed_out: bool,
    pub needs_human_decision: bool,
    pub confidence: crate::developer::ConfidenceBits,
    pub confidence_reason: String,
    pub unified_diff: String,
}

/// The verdict of an inspecting member, as its summary states it in JSON.
#[derive(Debug, Clone, PartialEq, Eq)]
pub struct ReviewResult {
    pub approved: bool,
    pub issues: Vec<String>,
    pub severity: String,
    pub required_changes: Vec<String>,
    pub reason: String,
}

/// The commands of a task that are not tests, in order.
pub open spec fn build_commands(s: Seq<CommandExecution>) -> Seq<CommandExecution>
    decreases s.len(),
{
    if s.len() == 0 {
        Seq::empty()
    } else if is_test_cmd(s.last()) {
        build_commands(s.drop_last())
    } else {
        build_commands(s.drop_last()).push(s.last())
    }
}

/// The test commands of a task, in order.
pub open spec fn test_commands(s: Seq<CommandExecution>) -> Seq<CommandExecution>
    decreases s.len(),
{
    if s.len() == 0 {
        Seq::empty()
    } else if is_test_cmd(s.last()) {
        test_commands(s.drop_last()).push(s.last())
    } else {
        test_commands(s.drop_last())
    }
}

/// The output a test summary is read from: stdout, a newline, stderr.
pub open spec fn test_output(c: CommandExecution) -> Seq<char> {
    c.stdout@ + "\n"@ + c.stderr@
}

pub open spec fn execution_status_of(s: crate::developer::DeveloperTaskState) -> AgentExecutionStatus {
    match s {
        crate::developer::DeveloperTaskState::Completed => AgentExecutionStatus::Completed,
        crate::developer::DeveloperTaskState::Cancelled => AgentExecutionStatus::Cancelled,
        crate::developer::DeveloperTaskState::WaitingApproval => AgentExecutionStatus::WaitingApproval,
        _ => AgentExecutionStatus::Failed,
    }
}

pub open spec fn debug_task_state(s: crate::developer::DeveloperTaskState) -> Seq<char> {
    match s {
        crate::developer::DeveloperTaskState::Queued => "Queued"@,
        crate::developer::DeveloperTaskState::Analyzing => "Analyzing"@,
        crate::developer::DeveloperTaskState::Planning => "Planning"@,
        crate::developer::DeveloperTaskState::Implementing => "Implementing"@,
        crate::developer::DeveloperTaskState::Building => "Building"@,
        crate::developer::DeveloperTaskState::Testing => "Testing"@,
        crate::developer::DeveloperTaskState::Fixing => "Fixing"@,
        crate::developer::DeveloperTaskState::Reviewing => "Reviewing"@,
        crate::developer::DeveloperTaskState::WaitingApproval => "WaitingApproval"@,
        crate::developer::DeveloperTaskState::Completed => "Completed"@,
        crate::developer::DeveloperTaskState::Failed => "Failed"@,
        crate::developer::DeveloperTaskState::Cancelled => "Cancelled"@,
    }
}

pub fn task_state_name(s: crate::developer::DeveloperTaskState) -> (r: &'static str)
    ensures
        r@ == debug_task_state(s),
{
    match s {
        crate::developer::DeveloperTaskState::Queued => "Queued",
        crate::developer::DeveloperTaskState::Analyzing => "Analyzing",
        crate::developer::DeveloperTaskState::Planning => "Planning",
        crate::developer::DeveloperTaskState::Implementing => "Implementing",
        crate::developer::DeveloperTaskState::Building => "Building",
        crate::developer::DeveloperTaskState::Testing => "Testing",
        crate::developer::DeveloperTaskState::Fixing => "Fixing",
        crate::developer::DeveloperTaskState::Reviewing => "Reviewing",
        crate::developer::DeveloperTaskState::WaitingApproval => "WaitingApproval",
        crate::developer::DeveloperTaskState::Completed => "Completed",
        crate::developer::DeveloperTaskState::Failed => "Failed",
        crate::developer::DeveloperTaskState::Cancelled => "Cancelled",
    }
}

/// A task timed out when a command timed out or its summary mentions
/// "runtime exceeded" in any ASCII case.
pub open spec fn task_timed_out(t: crate::developer::DeveloperTask) -> bool {
    (exists|i: int|
        0 <= i < t.commands@.len() && (#[trigger] t.commands@[i]).status == CommandStatus::Timeout)
        || (t.result_summary matches Some(s) && seq_contains(lower_seq(s@), "runtime exceeded"@))
}

/// The summary the relay reports: the task's own, or a note of how it ended.
pub open spec fn result_summary_text(t: crate::developer::DeveloperTask) -> Seq<char> {
    match t.result_summary {
        Some(s) => s@,
        None => if execution_status_of(t.state) == AgentExecutionStatus::Completed {
            "Stage completed"@
        } else {
            "Developer Task ended in "@ + debug_task_state(t.state)
        },
    }
}

/// `r` is the relay's reading of task `t`.
pub open spec fn execution_result_of(t: crate::developer::DeveloperTask, r: AgentExecutionResult) -> bool {
    let status = execution_status_of(t.state);
    let builds = build_commands(t.commands@);
    let tests = test_commands(t.commands@);
    &&& r.developer_task_id == t.id
    &&& r.status == status
    &&& r.summary@ == result_summary_text(t)
    &&& r.files_read@ == t.files_read@
    &&& r.files_changed@ == t.files_changed@
    &&& r.tool_calls == t.tool_calls
    &&& r.build_results@.len() == builds.len()
    &&& forall|i: int| 0 <= i < builds.len() ==> fact_of(#[trigger] r.build_results@[i], builds[i])
    &&& r.test_results@.len() == tests.len()
    &&& forall|i: int|
        0 <= i < tests.len() ==> fact_of((#[trigger] r.test_results@[i]).command, tests[i])
            && r.test_results@[i].result == crate::agent::test_result_of(
            crate::agent::test_summary_matches(test_output(tests[i])),
        )
    &&& r.errors@ == t.errors@
    &&& r.cancelled == (status == AgentExecutionStatus::Cancelled)
    &&& r.timed_out == task_timed_out(t)
    &&& r.needs_human_decision == (status == AgentExecutionStatus::WaitingApproval)
    &&& r.confidence == t.confidence
    &&& r.confidence_reason == t.confidence_reason
    &&& r.unified_diff == t.unified_diff
}

fn copy_changes(v: &Vec<crate::developer::FileChange>) -> (r: Vec<crate::developer::FileChange>)
    ensures
        r@ == v@,
{
    let mut r: Vec<crate::developer::FileChange> = Vec::new();
    let mut i: usize = 0;
    while i < v.len()
        invariant
            i <= v.len(),
            r@ == v@.take(i as int),
        decreases v.len() - i,
    {
        let c = &v[i];
        r.push(
            crate::developer::FileChange {
                path: c.path.clone(),
                kind: c.kind,
                additions: c.additions,
                deletions: c.deletions,
                reason: c.reason.clone(),
            },
        );
        assert(v@.take(i + 1) =~= v@.take(i as int).push(v@[i as int]));
        i += 1;
    }
    assert(v@.take(v.len() as int) =~= v@);
    r
}

fn copy_opt(s: &Option<String>) -> (r: Option<String>)
    ensures
        r == *s,
{
    match s {
        Some(x) => Some(x.clone()),
        None => None,
    }
}

fn copy_errors(v: &Vec<crate::developer::DeveloperErrorEvent>) -> (r: Vec<crate::developer::DeveloperErrorEvent>)
    ensures
        r@ == v@,
{
    let mut r: Vec<crate::developer::DeveloperErrorEvent> = Vec::new();
    let mut i: usize = 0;
    while i < v.len()
        invariant
            i <= v.len(),
            r@ == v@.take(i as int),
        decreases v.len() - i,
    {
        let e = &v[i];
        r.push(
            crate::developer::DeveloperErrorEvent {
                error_type: e.error_type.clone(),
                language: copy_opt(&e.language),
                code: copy_opt(&e.code),
                file: copy_opt(&e.file),
                line: e.line,
                message: e.message.clone(),
            },
        );
        assert(v@.take(i + 1) =~= v@.take(i as int).push(v@[i as int]));
        i += 1;
    }
    assert(v@.take(v.len() as int) =~= v@);
    r
}

/// Reads a finished developer task for the relay.
pub fn map_execution_result(task: &crate::developer::DeveloperTask) -> (r: AgentExecutionResult)
    ensures
        execution_result_of(*task, r),
{
    let status = match task.state {
        crate::developer::DeveloperTaskState::Completed => AgentExecutionStatus::Completed,
        crate::developer::DeveloperTaskState::Cancelled => AgentExecutionStatus::Cancelled,
        crate::developer::DeveloperTaskState::WaitingApproval => AgentExecutionStatus::WaitingApproval,
        _ => AgentExecutionStatus::Failed,
    };
    let cmds = &task.commands;
    let mut build_results: Vec<CommandFact> = Vec::new();
    let mut test_results: Vec<TestFact> = Vec::new();
    let mut timed_out = false;
    let mut i: usize = 0;
    while i < cmds.len()
        invariant
            i <= cmds@.len(),
            build_results@.len() == build_commands(cmds@.take(i as int)).len(),
            forall|j: int|
                0 <= j < build_results@.len() ==> fact_of(
                    #[trigger] build_results@[j],
                    build_commands(cmds@.take(i as int))[j],
                ),
            test_results@.len() == test_commands(cmds@.take(i as int)).len(),
            forall|j: int|
                0 <= j < test_results@.len() ==> fact_of(
                    (#[trigger] test_results@[j]).command,
                    test_commands(cmds@.take(i as int))[j],
                ) && test_results@[j].result == crate::agent::test_result_of(
                    crate::agent::test_summary_matches(
                        test_output(test_commands(cmds@.take(i as int))[j]),
                    ),
                ),
            timed_out == exists|j: int|
                0 <= j < i && (#[trigger] cmds@[j]).status == CommandStatus::Timeout,
        decreases cmds.len() - i,
    {
        let ghost prev = cmds@.take(i as int);
        assert(cmds@.take(i + 1).drop_last() =~= prev);
        assert(cmds@.take(i + 1).last() == cmds@[i as int]);
        let c = &cmds[i];
        if c.status == CommandStatus::Timeout {
            timed_out = true;
        }
        let fact = command_fact(c);
        if is_test_command(c) {
            let mut output = c.stdout.clone();
            output.append("\n");
            output.append(c.stderr.as_str());
            proof {
                reveal_strlit("\n");
            }
            assert(output@ =~= test_output(*c));
            test_results.push(TestFact { result: crate::agent::parse_test_result(output.as_str()), command: fact });
        } else {
            build_results.push(fact);
        }
        i += 1;
    }
    assert(cmds@.take(cmds.len() as int) =~= cmds@);
    let summary_timed_out = match &task.result_summary {
        Some(s) => contains(ascii_lowercase(s.as_str()).as_str(), "runtime exceeded"),
        None => false,
    };
    let summary = match &task.result_summary {
        Some(s) => s.clone(),
        None => match status {
            AgentExecutionStatus::Completed => owned("Stage completed"),
            _ => crate::text::concat2("Developer Task ended in ", task_state_name(task.state)),
        },
    };
    AgentExecutionResult {
        developer_task_id: task.id,
        status,
        summary,
        files_read: crate::relay::clone_strings(&task.files_read),
        files_changed: copy_changes(&task.files_changed),
        tool_calls: task.tool_calls,
        build_results,
        test_results,
        errors: copy_errors(&task.errors),
        cancelled: status == AgentExecutionStatus::Cancelled,
        timed_out: timed_out || summary_timed_out,
        needs_human_decision: status == AgentExecutionStatus::WaitingApproval,
        confidence: task.confidence,
        confidence_reason: task.confidence_reason.clone(),
        unified_diff: task.unified_diff.clone(),
    }
}

} // verus!

verus! {

/// The review that counts: only an inspecting member's summary is read as one.
pub open spec fn effective_review(role: Seq<char>, review: Option<ReviewResult>) -> Option<ReviewResult> {
    if crate::relay::is_reviewer_role(role) {
        review
    } else {
        None
    }
}

pub open spec fn handoff_decision(
    role: Seq<char>,
    status: AgentExecutionStatus,
    review: Option<ReviewResult>,
) -> crate::ard::HandoffDecision {
    if status != AgentExecutionStatus::Completed {
        crate::ard::HandoffDecision::Blocked
    } else {
        match effective_review(role, review) {
            Some(r) => if r.approved {
                crate::ard::HandoffDecision::Accepted
            } else {
                crate::ard::HandoffDecision::Rework
            },
            None => if crate::relay::is_reviewer_role(role) {
                crate::ard::HandoffDecision::Blocked
            } else {
                crate::ard::HandoffDecision::Accepted
            },
        }
    }
}

/// The failed-test total over test facts, with wrapping `u32` addition.
pub open spec fn failed_tests(t: Seq<TestFact>) -> u32
    decreases t.len(),
{
    if t.len() == 0 {
        0
    } else {
        crate::agent::wrap32(failed_tests(t.drop_last()), t.last().result.failed)
    }
}

pub open spec fn verified_facts_text(r: AgentExecutionResult) -> Seq<char> {
    "Verified stage facts: files_changed="@ + dec(r.files_changed@.len()) + ", build_commands="@
        + dec(r.build_results@.len()) + ", test_commands="@ + dec(r.test_results@.len())
        + ", failed_tests="@ + dec(failed_tests(r.test_results@) as nat)
}

/// "command: exit=…, passed=…, failed=…, skipped=…".
pub open spec fn test_line(t: TestFact) -> Seq<char> {
    t.command.command@ + ": exit="@ + debug_exit(t.command.exit_code) + ", passed="@ + dec(
        t.result.passed as nat,
    ) + ", failed="@ + dec(t.result.failed as nat) + ", skipped="@ + dec(t.result.skipped as nat)
}

/// `h` is the handoff built from the stage result: the decision, the known
/// issues (the task's errors, then the review's issues), the next action, the
/// facts of files, builds and tests, and the clamped confidence.
pub open spec fn handoff_built(
    a: crate::ard::ArdAssignment,
    r: AgentExecutionResult,
    review: Option<ReviewResult>,
    h: crate::ard::CompleteArdStage,
) -> bool {
    let role = a.member.role@;
    let rv = effective_review(role, review);
    let decision = handoff_decision(role, r.status, review);
    let issues = Seq::new(r.errors@.len(), |i: int| r.errors@[i].message@) + match rv {
        Some(x) => views_of(x.issues@),
        None => Seq::empty(),
    };
    let required = match rv {
        Some(x) => join_seq(views_of(x.required_changes@), "\n"@),
        None => Seq::empty(),
    };
    &&& h.decision == decision
    &&& h.task_result@ == if !crate::relay::is_reviewer_role(role) && (r.build_results@.len() > 0
        || r.test_results@.len() > 0 || r.files_changed@.len() > 0) {
        verified_facts_text(r)
    } else {
        r.summary@
    }
    &&& views_of(h.decisions@) == match rv {
        Some(x) => seq![x.reason@],
        None => seq![r.confidence_reason@],
    }
    &&& h.files_read@ == r.files_read@
    &&& views_of(h.files_changed@) == Seq::new(r.files_changed@.len(), |i: int| r.files_changed@[i].path@)
    &&& views_of(h.build_results@) == Seq::new(r.build_results@.len(), |i: int| fact_line(r.build_results@[i]))
    &&& views_of(h.tests_run@) == Seq::new(r.test_results@.len(), |i: int| r.test_results@[i].command.command@)
    &&& views_of(h.test_results@) == Seq::new(r.test_results@.len(), |i: int| test_line(r.test_results@[i]))
    &&& views_of(h.known_issues@) == issues
    &&& h.unresolved_questions@.len() == 0
    &&& h.next_action@ == if rv is Some && !rv->Some_0.approved && required.len() > 0 {
        required
    } else if decision == crate::ard::HandoffDecision::Blocked {
        "Human Decision Required"@
    } else {
        "Continue to the next ARD stage"@
    }
    &&& h.confidence == crate::developer::clamp_unit_bits(r.confidence)
}

fn strings_views_eq(a: &Vec<String>) -> (r: Vec<String>)
    ensures
        views_of(r@) == views_of(a@),
        r@ == a@,
{
    crate::relay::clone_strings(a)
}

/// Builds the handoff of a stage from its execution result and, for an
/// inspecting member, the verdict read from its summary.
pub fn build_handoff(
    assignment: &crate::ard::ArdAssignment,
    result: &AgentExecutionResult,
    review: Option<ReviewResult>,
) -> (h: crate::ard::CompleteArdStage)
    ensures
        handoff_built(*assignment, *result, review, h),
{
    let inspector = crate::relay::reviewer_role(assignment.member.role.as_str());
    let rv = if inspector {
        review
    } else {
        None
    };
    let decision = if result.status != AgentExecutionStatus::Completed {
        crate::ard::HandoffDecision::Blocked
    } else {
        match &rv {
            Some(x) => if x.approved {
                crate::ard::HandoffDecision::Accepted
            } else {
                crate::ard::HandoffDecision::Rework
            },
            None => if inspector {
                crate::ard::HandoffDecision::Blocked
            } else {
                crate::ard::HandoffDecision::Accepted
            },
        }
    };
    // Known issues: the task's error messages, then the review's issues.
    let mut known_issues: Vec<String> = Vec::new();
    let mut i: usize = 0;
    while i < result.errors.len()
        invariant
            i <= result.errors@.len(),
            views_of(known_issues@) == Seq::new(i as nat, |k: int| result.errors@[k].message@),
        decreases result.errors.len() - i,
    {
        let ghost before_push = known_issues@;
        known_issues.push(result.errors[i].message.clone());
        proof { crate::text::lemma_views_push(before_push, known_issues@[known_issues@.len() - 1]); assert(known_issues@ == before_push.push(known_issues@[known_issues@.len() - 1])); }
        assert(views_of(known_issues@) =~= Seq::new((i + 1) as nat, |k: int| result.errors@[k].message@));
        i += 1;
    }
    let ghost base = views_of(known_issues@);
    match &rv {
        Some(x) => {
            let mut j: usize = 0;
            while j < x.issues.len()
                invariant
                    j <= x.issues@.len(),
                    views_of(known_issues@) == base + views_of(x.issues@).take(j as int),
                decreases x.issues.len() - j,
            {
                let ghost before_push = known_issues@;
                known_issues.push(x.issues[j].clone());
                proof {
                    crate::text::lemma_views_push(before_push, x.issues@[j as int]);
                    assert(known_issues@ == before_push.push(x.issues@[j as int]));
                    assert(views_of(x.issues@).take(j + 1) =~= views_of(x.issues@).take(j as int).push(x.issues@[j as int]@));
                }
                assert(views_of(known_issues@) =~= base + views_of(x.issues@).take(j + 1));
                j += 1;
            }
            assert(views_of(x.issues@).take(x.issues@.len() as int) =~= views_of(x.issues@));
        },
        None => {
            assert(base + Seq::<Seq<char>>::empty() =~= base);
        },
    }
    let required = match &rv {
        Some(x) => join(&x.required_changes, "\n"),
        None => String::new(),
    };
    let next_action = match &rv {
        Some(x) => if !x.approved && crate::text::char_count(required.as_str()) > 0 {
            required
        } else if decision == crate::ard::HandoffDecision::Blocked {
            owned("Human Decision Required")
        } else {
            owned("Continue to the next ARD stage")
        },
        None => if decision == crate::ard::HandoffDecision::Blocked {
            owned("Human Decision Required")
        } else {
            owned("Continue to the next ARD stage")
        },
    };
    proof {
        if rv is Some {
            assert(required@ == join_seq(views_of(rv->Some_0.required_changes@), "\n"@));
        }
    }
    // Facts of files, builds and tests.
    let mut failed: u32 = 0;
    let mut tests_run: Vec<String> = Vec::new();
    let mut test_lines: Vec<String> = Vec::new();
    let mut t: usize = 0;
    while t < result.test_results.len()
        invariant
            t <= result.test_results@.len(),
            failed == failed_tests(result.test_results@.take(t as int)),
            views_of(tests_run@) == Seq::new(t as nat, |k: int| result.test_results@[k].command.command@),
            views_of(test_lines@) == Seq::new(t as nat, |k: int| test_line(result.test_results@[k])),
        decreases result.test_results.len() - t,
    {
        let f = &result.test_results[t];
        assert(result.test_results@.take(t + 1).drop_last() =~= result.test_results@.take(t as int));
        failed = failed.wrapping_add(f.result.failed);
        let ghost before_push = tests_run@;
        tests_run.push(f.command.command.clone());
        proof { crate::text::lemma_views_push(before_push, tests_run@[tests_run@.len() - 1]); assert(tests_run@ == before_push.push(tests_run@[tests_run@.len() - 1])); }
        let mut line = f.command.command.clone();
        line.append(": exit=");
        line.append(exit_text(f.command.exit_code).as_str());
        line.append(", passed=");
        line.append(u64_text(f.result.passed as u64).as_str());
        line.append(", failed=");
        line.append(u64_text(f.result.failed as u64).as_str());
        line.append(", skipped=");
        line.append(u64_text(f.result.skipped as u64).as_str());
        let ghost before_push = test_lines@;
        test_lines.push(line);
        proof { crate::text::lemma_views_push(before_push, test_lines@[test_lines@.len() - 1]); assert(test_lines@ == before_push.push(test_lines@[test_lines@.len() - 1])); }
        assert(views_of(tests_run@) =~= Seq::new((t + 1) as nat, |k: int| result.test_results@[k].command.command@));
        assert(views_of(test_lines@) =~= Seq::new((t + 1) as nat, |k: int| test_line(result.test_results@[k])));
        t += 1;
    }
    assert(result.test_results@.take(result.test_results.len() as int) =~= result.test_results@);
    let mut build_lines: Vec<String> = Vec::new();
    let mut b: usize = 0;
    while b < result.build_results.len()
        invariant
            b <= result.build_results@.len(),
            views_of(build_lines@) == Seq::new(b as nat, |k: int| fact_line(result.build_results@[k])),
        decreases result.build_results.len() - b,
    {
        let ghost before_push = build_lines@;
        build_lines.push(format_command_fact(&result.build_results[b]));
        proof { crate::text::lemma_views_push(before_push, build_lines@[build_lines@.len() - 1]); assert(build_lines@ == before_push.push(build_lines@[build_lines@.len() - 1])); }
        assert(views_of(build_lines@) =~= Seq::new((b + 1) as nat, |k: int| fact_line(result.build_results@[k])));
        b += 1;
    }
    let mut paths: Vec<String> = Vec::new();
    let mut p: usize = 0;
    while p < result.files_changed.len()
        invariant
            p <= result.files_changed@.len(),
            views_of(paths@) == Seq::new(p as nat, |k: int| result.files_changed@[k].path@),
        decreases result.files_changed.len() - p,
    {
        let ghost before_push = paths@;
        paths.push(result.files_changed[p].path.clone());
        proof { crate::text::lemma_views_push(before_push, paths@[paths@.len() - 1]); assert(paths@ == before_push.push(paths@[paths@.len() - 1])); }
        assert(views_of(paths@) =~= Seq::new((p + 1) as nat, |k: int| result.files_changed@[k].path@));
        p += 1;
    }
    let task_result = if !inspector && (result.build_results.len() > 0 || result.test_results.len()
        > 0 || result.files_changed.len() > 0) {
        let mut s = owned("Verified stage facts: files_changed=");
        s.append(u64_text(result.files_changed.len() as u64).as_str());
        s.append(", build_commands=");
        s.append(u64_text(result.build_results.len() as u64).as_str());
        s.append(", test_commands=");
        s.append(u64_text(result.test_results.len() as u64).as_str());
        s.append(", failed_tests=");
        s.append(u64_text(failed as u64).as_str());
        s
    } else {
        result.summary.clone()
    };
    let mut decisions: Vec<String> = Vec::new();
    match &rv {
        Some(x) => decisions.push(x.reason.clone()),
        None => decisions.push(result.confidence_reason.clone()),
    }
    assert(views_of(decisions@) =~= match rv {
        Some(x) => seq![x.reason@],
        None => seq![result.confidence_reason@],
    });
    crate::ard::CompleteArdStage {
        decision,
        task_result,
        decisions,
        files_read: crate::relay::clone_strings(&result.files_read),
        files_changed: paths,
        build_results: build_lines,
        tests_run,
        test_results: test_lines,
        known_issues,
        unresolved_questions: Vec::new(),
        next_action,
        confidence: crate::developer::clamp_confidence(result.confidence),
    }
}

} // verus!

verus! {

/// The agent mode a member's permission allows: `Auto` with both file
/// writes and the terminal, `Edit` or `Execute` with one of them, `ReadOnly`
/// with neither.
pub open spec fn mode_for(p: crate::ard::HardPermission) -> crate::developer::DeveloperMode {
    let write = p.allowed@.contains(crate::ard::ToolCapability::WriteFiles);
    let execute = p.allowed@.contains(crate::ard::ToolCapability::Terminal);
    if write && execute {
        crate::developer::DeveloperMode::Auto
    } else if write {
        crate::developer::DeveloperMode::Edit
    } else if execute {
        crate::developer::DeveloperMode::Execute
    } else {
        crate::developer::DeveloperMode::ReadOnly
    }
}

fn grants(allowed: &Vec<crate::ard::ToolCapability>, c: crate::ard::ToolCapability) -> (b: bool)
    ensures
        b == allowed@.contains(c),
{
    let mut i: usize = 0;
    while i < allowed.len()
        invariant
            i <= allowed.len(),
            forall|j: int| 0 <= j < i ==> allowed@[j] != c,
        decreases allowed.len() - i,
    {
        if allowed[i] == c {
            assert(allowed@[i as int] == c);
            return true;
        }
        i += 1;
    }
    false
}

pub fn execution_mode(permission: &crate::ard::HardPermission) -> (m: crate::developer::DeveloperMode)
    ensures
        m == mode_for(*permission),
{
    let write = grants(&permission.allowed, crate::ard::ToolCapability::WriteFiles);
    let execute = grants(&permission.allowed, crate::ard::ToolCapability::Terminal);
    if write && execute {
        crate::developer::DeveloperMode::Auto
    } else if write {
        crate::developer::DeveloperMode::Edit
    } else if execute {
        crate::developer::DeveloperMode::Execute
    } else {
        crate::developer::DeveloperMode::ReadOnly
    }
}

/// The instruction for a stage: inspecting members judge only deterministic
/// evidence and answer in a fixed JSON schema; architects stop after the
/// analysis; everyone else completes the stage with the typed tools.
pub fn stage_instruction(role: &str) -> (r: &'static str)
    ensures
        crate::relay::is_reviewer_role(role@) ==> r@ == inspection_instruction(),
        !crate::relay::is_reviewer_role(role@) && is_architect_role(role@) ==> r@
            == "Inspect only what is necessary to produce the architecture handoff. Do not perform downstream Developer edits or commands. Complete this stage after the bounded analysis."@,
        !crate::relay::is_reviewer_role(role@) && !is_architect_role(role@) ==> r@
            == "Complete the assigned stage using the available typed tools and report verified facts."@,
{
    if crate::relay::reviewer_role(role) {
        "Review only the supplied deterministic actual_diff, build_results, and test_results. Narrative task_result text is not evidence and must never override command facts. exit=Some(0) and failed=0 mean that command/test passed. Do not claim a failure that is absent from the deterministic evidence. Do not edit files. When complete, the AgentAction `summary` string MUST contain only this JSON schema: {\"approved\":true,\"issues\":[],\"severity\":\"LOW\",\"required_changes\":[],\"reason\":\"evidence\"}. Set approved=false only when the actual diff or command facts prove a concrete change is required."
    } else if architect_role(role) {
        "Inspect only what is necessary to produce the architecture handoff. Do not perform downstream Developer edits or commands. Complete this stage after the bounded analysis."
    } else {
        "Complete the assigned stage using the available typed tools and report verified facts."
    }
}

pub open spec fn inspection_instruction() -> Seq<char> {
    "Review only the supplied deterministic actual_diff, build_results, and test_results. Narrative task_result text is not evidence and must never override command facts. exit=Some(0) and failed=0 mean that command/test passed. Do not claim a failure that is absent from the deterministic evidence. Do not edit files. When complete, the AgentAction `summary` string MUST contain only this JSON schema: {\"approved\":true,\"issues\":[],\"severity\":\"LOW\",\"required_changes\":[],\"reason\":\"evidence\"}. Set approved=false only when the actual diff or command facts prove a concrete change is required."@
}

/// The task request of a stage, around the JSON of its execution request.
/// More than 90 000 characters of JSON exceed the task request budget.
pub fn execution_prompt(role: &str, payload: &str) -> (r: Result<String, crate::developer::DeveloperError>)
    ensures
        payload@.len() > 90_000 <==> r is Err,
        r matches Err(e) ==> crate::developer::error_kind(e)
            == crate::developer::DeveloperErrorKind::Limit && crate::developer::error_detail(e)
            == "ARD execution context exceeds the safe task request budget"@,
        r matches Ok(s) ==> s@ == "ARD Stage Execution\n"@ + stage_instruction_text(role@)
            + "\nBuild/test claims must come only from actual Tool results.\n\nAGENT_EXECUTION_REQUEST_JSON:\n"@
            + payload@,
{
    if crate::text::char_count(payload) > 90_000 {
        return Err(
            crate::developer::developer_error_lit(
                crate::developer::DeveloperErrorKind::Limit,
                "ARD execution context exceeds the safe task request budget",
            ),
        );
    }
    let instruction = stage_instruction(role);
    let mut s = owned("ARD Stage Execution\n");
    s.append(instruction);
    s.append("\nBuild/test claims must come only from actual Tool results.\n\nAGENT_EXECUTION_REQUEST_JSON:\n");
    s.append(payload);
    Ok(s)
}

/// The instruction text for a role (see `stage_instruction`).
pub open spec fn stage_instruction_text(role: Seq<char>) -> Seq<char> {
    if crate::relay::is_reviewer_role(role) {
        inspection_instruction()
    } else if is_architect_role(role) {
        "Inspect only what is necessary to produce the architecture handoff. Do not perform downstream Developer edits or commands. Complete this stage after the bounded analysis."@
    } else {
        "Complete the assigned stage using the available typed tools and report verified facts."@
    }
}

/// The handoff of a stage whose brain could not be prepared: blocked, with
/// the reason as its result and only known issue.
pub fn blocked_handoff(member_name: &str, reason: &str) -> (h: crate::ard::CompleteArdStage)
    ensures
        h.decision == crate::ard::HandoffDecision::Blocked,
        h.task_result@ == reason@,
        h.decisions@.len() == 0 && h.files_read@.len() == 0 && h.files_changed@.len() == 0
            && h.build_results@.len() == 0 && h.tests_run@.len() == 0 && h.test_results@.len()
            == 0 && h.unresolved_questions@.len() == 0,
        h.known_issues@.len() == 1 && h.known_issues@[0]@ == reason@,
        h.next_action@ == member_name@ + "のBrain設定を確認してください"@,
        h.confidence == 0,
{
    let mut known_issues: Vec<String> = Vec::new();
    known_issues.push(owned(reason));
    crate::ard::CompleteArdStage {
        decision: crate::ard::HandoffDecision::Blocked,
        task_result: owned(reason),
        decisions: Vec::new(),
        files_read: Vec::new(),
        files_changed: Vec::new(),
        build_results: Vec::new(),
        tests_run: Vec::new(),
        test_results: Vec::new(),
        known_issues,
        unresolved_questions: Vec::new(),
        next_action: crate::text::concat2(member_name, "のBrain設定を確認してください"),
        confidence: 0,
    }
}

} // verus!

verus! {

/// What a member is asked to run, with everything its agent may rely on.
#[derive(Debug, Clone, PartialEq, Eq)]
pub struct AgentExecutionRequest {
    pub ard_session_id: crate::ard::ArdSessionId,
    pub stage_id: crate::ard::ArdStageId,
    pub member_id: crate::ard::ArdMemberId,
    pub role: String,
    pub resolved_brain: ResolvedBrain,
    pub workspace_id: crate::developer::WorkspaceId,
    pub task: String,
    pub soft_policy: String,
    pub hard_permissions: crate::ard::HardPermission,
    pub context: Vec<crate::ard::StructuredHandoff>,
    pub actual_diff: String,
    pub user_interrupts: Vec<crate::ard::ArdIntervention>,
    pub execution_mode: crate::developer::DeveloperMode,
}

/// The request for an assignment run by `brain`, with the diff of the
/// session's last execution.
pub fn execution_request(
    a: &crate::ard::ArdAssignment,
    brain: ResolvedBrain,
    actual_diff: String,
) -> (r: AgentExecutionRequest)
    ensures
        r.ard_session_id == a.session_id,
        r.stage_id == a.stage.id,
        r.member_id == a.member.id,
        r.role == a.member.role,
        r.resolved_brain == brain,
        r.workspace_id == a.member.workspace_id,
        r.task@ == a.goal@ + "\n\nStage objective: "@ + a.stage.objective@,
        r.soft_policy == a.role_policy,
        r.hard_permissions.allowed@ == a.member.permission.allowed@,
        r.hard_permissions.maximum_risk == a.member.permission.maximum_risk,
        r.context@.len() == a.relevant_handoffs@.len(),
        forall|i: int|
            0 <= i < r.context@.len() ==> crate::relay::handoff_copied(
                #[trigger] r.context@[i],
                a.relevant_handoffs@[i],
            ),
        r.actual_diff == actual_diff,
        r.user_interrupts@.len() == a.interventions@.len(),
        forall|i: int|
            0 <= i < r.user_interrupts@.len() ==> crate::relay::intervention_copied(
                #[trigger] r.user_interrupts@[i],
                a.interventions@[i],
            ),
        r.execution_mode == mode_for(a.member.permission),
{
    let mut context: Vec<crate::ard::StructuredHandoff> = Vec::new();
    let mut i: usize = 0;
    while i < a.relevant_handoffs.len()
        invariant
            i <= a.relevant_handoffs@.len(),
            context@.len() == i,
            forall|j: int|
                0 <= j < i ==> crate::relay::handoff_copied(
                    #[trigger] context@[j],
                    a.relevant_handoffs@[j],
                ),
        decreases a.relevant_handoffs.len() - i,
    {
        context.push(crate::relay::copy_handoff(&a.relevant_handoffs[i]));
        i += 1;
    }
    let mut notes: Vec<crate::ard::ArdIntervention> = Vec::new();
    let mut j: usize = 0;
    while j < a.interventions.len()
        invariant
            j <= a.interventions@.len(),
            notes@.len() == j,
            forall|k: int|
                0 <= k < j ==> crate::relay::intervention_copied(#[trigger] notes@[k], a.interventions@[k]),
        decreases a.interventions.len() - j,
    {
        notes.push(crate::relay::copy_intervention(&a.interventions[j]));
        j += 1;
    }
    AgentExecutionRequest {
        ard_session_id: a.session_id,
        stage_id: a.stage.id,
        member_id: a.member.id,
        role: a.member.role.clone(),
        resolved_brain: brain,
        workspace_id: a.member.workspace_id,
        task: crate::text::concat3(a.goal.as_str(), "\n\nStage objective: ", a.stage.objective.as_str()),
        soft_policy: a.role_policy.clone(),
        hard_permissions: a.member.permission.copy(),
        context,
        actual_diff,
        user_interrupts: notes,
        execution_mode: execution_mode(&a.member.permission),
    }
}

/// The context a brain is first resolved in: balanced resources, and an
/// automatic alternative only for members whose brain is chosen automatically.
pub fn initial_resolution_context(brain: &crate::ard::BrainAssignment) -> (c: BrainResolutionContext)
    ensures
        c.resource_policy == ResourcePolicy::Balanced,
        c.fallback_policy == if brain is Auto {
            FallbackPolicy::AutoAlternative
        } else {
            FallbackPolicy::Disabled
        },
        c.excluded_model_ids@.len() == 0,
{
    BrainResolutionContext {
        resource_policy: ResourcePolicy::Balanced,
        fallback_policy: match brain {
            crate::ard::BrainAssignment::Auto => FallbackPolicy::AutoAlternative,
            _ => FallbackPolicy::Disabled,
        },
        excluded_model_ids: Vec::new(),
    }
}

/// The rotation that brings `brain` up after the session's active model and
/// runtime: a reuse when both already match, a switch otherwise. The
/// runtime of a brain without one is its provider.
pub open spec fn rotation_planned(
    active_model: Option<String>,
    active_runtime: Option<String>,
    brain: ResolvedBrain,
    policy: ResourcePolicy,
    p: ModelRotationPlan,
) -> bool {
    let next_runtime = match brain.runtime_id {
        Some(r) => r@,
        None => brain.provider_id@,
    };
    let next_model = brain.provider_id@ + "/"@ + brain.model_id@;
    let reuse = (active_model matches Some(m) && m@ == next_model) && (active_runtime matches Some(
        r,
    ) && r@ == next_runtime);
    &&& p.current_model == active_model
    &&& p.next_model@ == next_model
    &&& p.current_runtime == active_runtime
    &&& p.next_runtime@ == next_runtime
    &&& p.reuse_possible == reuse
    &&& p.rotation_required == !reuse
    &&& p.resource_policy == policy
}

pub fn rotation_plan(
    active_model: &Option<String>,
    active_runtime: &Option<String>,
    brain: &ResolvedBrain,
    policy: ResourcePolicy,
) -> (p: ModelRotationPlan)
    ensures
        rotation_planned(*active_model, *active_runtime, *brain, policy, p),
{
    let next_runtime = match &brain.runtime_id {
        Some(r) => r.clone(),
        None => brain.provider_id.clone(),
    };
    let next_model = brain.label();
    let same_model = match active_model {
        Some(m) => str_eq(m.as_str(), next_model.as_str()),
        None => false,
    };
    let same_runtime = match active_runtime {
        Some(r) => str_eq(r.as_str(), next_runtime.as_str()),
        None => false,
    };
    let reuse = same_model && same_runtime;
    ModelRotationPlan {
        current_model: crate::relay::copy_opt_string(active_model),
        next_model,
        current_runtime: crate::relay::copy_opt_string(active_runtime),
        next_runtime,
        reuse_possible: reuse,
        rotation_required: !reuse,
        resource_policy: policy,
    }
}

/// A paused or cancelled session stops what the relay is doing for it.
pub open spec fn halted(s: crate::ard::ArdSessionState) -> bool {
    s == crate::ard::ArdSessionState::Paused || s == crate::ard::ArdSessionState::Cancelled
}

pub fn is_halted(s: crate::ard::ArdSessionState) -> (b: bool)
    ensures
        b == halted(s),
{
    s == crate::ard::ArdSessionState::Paused || s == crate::ard::ArdSessionState::Cancelled
}

/// After a failed rotation, the context of the one permitted second
/// resolution: only for an automatic brain not yet given an alternative, and
/// not once the session halted; the failed model is excluded.
pub fn fallback_context(
    context: &BrainResolutionContext,
    fallback_used: bool,
    failed_model: &str,
    session_state: crate::ard::ArdSessionState,
) -> (r: Option<BrainResolutionContext>)
    ensures
        r is Some <==> !halted(session_state) && context.fallback_policy
            == FallbackPolicy::AutoAlternative && !fallback_used,
        r matches Some(c) ==> c.resource_policy == context.resource_policy && c.fallback_policy
            == context.fallback_policy && views_of(c.excluded_model_ids@).to_set() == views_of(
            context.excluded_model_ids@,
        ).to_set().insert(failed_model@),
{
    if is_halted(session_state) || context.fallback_policy != FallbackPolicy::AutoAlternative
        || fallback_used {
        return None;
    }
    let mut excluded = crate::relay::clone_strings(&context.excluded_model_ids);
    let present = {
        let mut found = false;
        let mut i: usize = 0;
        while i < excluded.len()
            invariant
                i <= excluded.len(),
                found <==> exists|j: int| 0 <= j < i && (#[trigger] excluded@[j])@ == failed_model@,
            decreases excluded.len() - i,
        {
            if str_eq(excluded[i].as_str(), failed_model) {
                found = true;
            }
            i += 1;
        }
        found
    };
    let ghost before = excluded@;
    if !present {
        excluded.push(owned(failed_model));
        proof {
            crate::text::lemma_views_push(before, excluded@[before.len() as int]);
        }
    }
    proof {
        let a = views_of(excluded@).to_set();
        let b = views_of(context.excluded_model_ids@).to_set().insert(failed_model@);
        assert forall|x: Seq<char>| a.contains(x) <==> b.contains(x) by {
            if a.contains(x) {
                let k = choose|k: int| 0 <= k < views_of(excluded@).len() && views_of(excluded@)[k] == x;
                if k < before.len() {
                    assert(views_of(context.excluded_model_ids@)[k] == x);
                }
            }
            if b.contains(x) {
                if x == failed_model@ {
                    if present {
                        let k = choose|k: int| 0 <= k < excluded@.len() && (#[trigger] excluded@[k])@ == failed_model@;
                        assert(views_of(excluded@)[k] == x);
                    } else {
                        assert(views_of(excluded@)[before.len() as int] == x);
                    }
                } else {
                    let k = choose|k: int| 0 <= k < views_of(context.excluded_model_ids@).len() && views_of(context.excluded_model_ids@)[k] == x;
                    assert(views_of(excluded@)[k] == x);
                }
            }
        }
        assert(a =~= b);
    }
    Some(
        BrainResolutionContext {
            resource_policy: context.resource_policy,
            fallback_policy: context.fallback_policy,
            excluded_model_ids: excluded,
        },
    )
}

} // verus!

verus! {

/// What one rotation attempt on the runtime gave.
#[derive(Debug, Clone, PartialEq, Eq)]
pub enum RotationAttempt {
    Ready { reused: bool, next_model: String, actual_model_state: String },
    Failed { error: crate::developer::DeveloperError },
}

/// What the relay does after a rotation attempt.
#[derive(Debug, Clone, PartialEq, Eq)]
pub enum RotationStep {
    /// Close the rotation as successful after `attempts` attempts.
    Finish { attempts: u32, reused: bool, detail: String },
    /// Log a retry and try once more.
    Retry,
    /// Log the failure event and close the rotation as failed.
    GiveUp { attempts: u32, message: String },
}

/// The longest a rotation is tried.
pub const ROTATION_ATTEMPTS: u32 = 2;

/// The decision after attempt `attempt` (counting from one): a ready model
/// finishes the rotation; a failure is retried once unless the session
/// halted, and otherwise ends it.
pub open spec fn rotation_step_of(
    attempt: u32,
    outcome: RotationAttempt,
    session_state: crate::ard::ArdSessionState,
    step: RotationStep,
) -> bool {
    match outcome {
        RotationAttempt::Ready { reused, next_model, actual_model_state } => step
            matches RotationStep::Finish { attempts, reused: r, detail } && attempts == attempt
            && r == reused && detail@ == "Model準備完了: "@ + next_model@ + " ("@
            + actual_model_state@ + ")"@,
        RotationAttempt::Failed { error } => if !halted(session_state) && attempt
            < ROTATION_ATTEMPTS {
            step is Retry
        } else {
            step matches RotationStep::GiveUp { attempts, message } && attempts == attempt
                && message@ == "Model rotation failed: "@ + crate::developer::error_text(error)
        },
    }
}

pub fn rotation_step(
    attempt: u32,
    outcome: &RotationAttempt,
    session_state: crate::ard::ArdSessionState,
) -> (step: RotationStep)
    ensures
        rotation_step_of(attempt, *outcome, session_state, step),
{
    match outcome {
        RotationAttempt::Ready { reused, next_model, actual_model_state } => {
            let mut detail = owned("Model準備完了: ");
            detail.append(next_model.as_str());
            detail.append(" (");
            detail.append(actual_model_state.as_str());
            detail.append(")");
            RotationStep::Finish { attempts: attempt, reused: *reused, detail }
        },
        RotationAttempt::Failed { error } => {
            if !is_halted(session_state) && attempt < ROTATION_ATTEMPTS {
                RotationStep::Retry
            } else {
                RotationStep::GiveUp {
                    attempts: attempt,
                    message: crate::text::concat2("Model rotation failed: ", error.to_text().as_str()),
                }
            }
        },
    }
}

/// "name / role started", logged when a stage's execution begins.
pub fn stage_started_message(member: &crate::ard::ArdTeamMember) -> (r: String)
    ensures
        r@ == member.name@ + " / "@ + member.role@ + " started"@,
{
    let mut r = member.name.clone();
    r.append(" / ");
    r.append(member.role.as_str());
    r.append(" started");
    r
}

pub fn execution_status_for(s: AgentExecutionStatus) -> (r: crate::ard::ArdExecutionStatus)
    ensures
        r == match s {
            AgentExecutionStatus::Completed => crate::ard::ArdExecutionStatus::Completed,
            AgentExecutionStatus::Failed => crate::ard::ArdExecutionStatus::Failed,
            AgentExecutionStatus::Cancelled => crate::ard::ArdExecutionStatus::Cancelled,
            AgentExecutionStatus::WaitingApproval => crate::ard::ArdExecutionStatus::WaitingApproval,
        },
{
    match s {
        AgentExecutionStatus::Completed => crate::ard::ArdExecutionStatus::Completed,
        AgentExecutionStatus::Failed => crate::ard::ArdExecutionStatus::Failed,
        AgentExecutionStatus::Cancelled => crate::ard::ArdExecutionStatus::Cancelled,
        AgentExecutionStatus::WaitingApproval => crate::ard::ArdExecutionStatus::WaitingApproval,
    }
}

/// What the relay does once a stage's task has ended.
#[derive(Debug, Clone, Copy, PartialEq, Eq, Structural)]
pub enum AfterExecution {
    /// The session halted: stop driving it.
    Return,
    /// The task was cancelled under a running session: run the stage again.
    Restart,
    /// Hand the result to the next member.
    Handoff,
}

pub fn after_execution(session_state: crate::ard::ArdSessionState, result_cancelled: bool) -> (r:
    AfterExecution)
    ensures
        r == if halted(session_state) {
            AfterExecution::Return
        } else if result_cancelled && session_state == crate::ard::ArdSessionState::Running {
            AfterExecution::Restart
        } else {
            AfterExecution::Handoff
        },
{
    if is_halted(session_state) {
        AfterExecution::Return
    } else if result_cancelled && session_state == crate::ard::ArdSessionState::Running {
        AfterExecution::Restart
    } else {
        AfterExecution::Handoff
    }
}

/// A task the relay waits for is settled once it ended or waits for approval.
pub fn task_settled(s: crate::developer::DeveloperTaskState) -> (b: bool)
    ensures
        b == (s == crate::developer::DeveloperTaskState::Completed || s
            == crate::developer::DeveloperTaskState::Failed || s
            == crate::developer::DeveloperTaskState::Cancelled || s
            == crate::developer::DeveloperTaskState::WaitingApproval),
{
    s.is_terminal() || s == crate::developer::DeveloperTaskState::WaitingApproval
}

/// The relay logs a task's activity under "agent_" and the activity's kind.
pub fn forwarded_kind(kind: &str) -> (r: String)
    ensures
        r@ == "agent_"@ + kind@,
{
    crate::text::concat2("agent_", kind)
}

/// The activity logged when the relay stops on an error.
pub fn bridge_error_message(error: &crate::developer::DeveloperError) -> (r: String)
    ensures
        r@ == "ARD Execution Bridgeが停止しました: "@ + crate::developer::error_text(*error),
{
    crate::text::concat2("ARD Execution Bridgeが停止しました: ", error.to_text().as_str())
}

} // verus!
