//! One developer-agent run as a state machine. The caller drives the loop:
//! it checks the gates, asks the model for an action, hands the action over,
//! runs the tool or gathers the completion facts when told to, and reports
//! the outcome back. Every decision the run makes is taken here.

use crate::agent::{
    debug_mode, mode_permits, step_marked, tool_error, tool_state, tool_success,
    trim_tool_result, validation_command,
};
use crate::developer::{
    clamp_unit_bits, is_write_tool, risk_max, risk_rank, tool_name, tool_required_mode,
    tool_risk, AgentAction, AgentLimits, CommandExecution, CommandStatus, ConfidenceBits,
    DeveloperActivity, DeveloperMode, DeveloperTask, DeveloperTaskState, FileChange, PlanRevision,
    PlanStep, PlanStepState, RiskLevel, Timestamp, ToolCall, ToolResult,
};
use crate::text::{concat2, concat3, owned, str_eq, take_chars};
use vstd::prelude::*;
use vstd::string::StringExecFns;

verus! {

/// `t` is `s` with one activity appended at `now` and `updated_at` set to `now`.
pub open spec fn task_logged(
    s: DeveloperTask,
    t: DeveloperTask,
    kind: Seq<char>,
    message: Seq<char>,
    detail: Option<Seq<char>>,
    risk: RiskLevel,
    now: Timestamp,
) -> bool {
    let a = t.activities@.last();
    &&& t == DeveloperTask { activities: t.activities, updated_at: now, ..s }
    &&& t.activities@.len() == s.activities@.len() + 1
    &&& t.activities@.drop_last() == s.activities@
    &&& a.sequence == crate::ard::activity_number(s.activities@.len())
    &&& a.occurred_at == now
    &&& a.kind@ == kind
    &&& a.message@ == message
    &&& match detail {
        Some(d) => a.detail matches Some(x) && x@ == d,
        None => a.detail is None,
    }
    &&& a.risk == risk
}

pub open spec fn opt_view(o: Option<String>) -> Option<Seq<char>> {
    match o {
        Some(s) => Some(s@),
        None => None,
    }
}

/// Appends an activity to the task's log.
pub fn log_activity(
    task: &mut DeveloperTask,
    kind: &str,
    message: &str,
    detail: Option<String>,
    risk: RiskLevel,
    now: Timestamp,
)
    ensures
        task_logged(*old(task), *final(task), kind@, message@, opt_view(detail), risk, now),
{
    let len = task.activities.len();
    let sequence: u64 = if (len as u64) < u64::MAX {
        len as u64 + 1
    } else {
        u64::MAX
    };
    let ghost before = task.activities@;
    task.activities.push(
        DeveloperActivity {
            sequence,
            occurred_at: now,
            kind: owned(kind),
            message: owned(message),
            detail,
            risk,
        },
    );
    assert(task.activities@.drop_last() =~= before);
    task.updated_at = now;
}

/// `t` is `s` failed at `now` for `reason`.
pub open spec fn task_failed(s: DeveloperTask, t: DeveloperTask, reason: Seq<char>, now: Timestamp) -> bool {
    let mid = DeveloperTask {
        state: DeveloperTaskState::Failed,
        result_summary: t.result_summary,
        completed_at: Some(now),
        ..s
    };
    &&& t.result_summary matches Some(x) && x@ == reason
    &&& task_logged(
        mid,
        t,
        "final_result"@,
        "Developer Taskが失敗しました"@,
        Some(reason),
        RiskLevel::Medium,
        now,
    )
}

/// Fails the task with `reason`.
pub fn fail_task(task: &mut DeveloperTask, reason: &str, now: Timestamp)
    ensures
        task_failed(*old(task), *final(task), reason@, now),
{
    task.state = DeveloperTaskState::Failed;
    task.result_summary = Some(owned(reason));
    task.completed_at = Some(now);
    log_activity(
        task,
        "final_result",
        "Developer Taskが失敗しました",
        Some(owned(reason)),
        RiskLevel::Medium,
        now,
    );
}

/// The state of one run besides the task itself.
#[derive(Debug, Clone, PartialEq, Eq)]
pub struct AgentRun {
    pub task: DeveloperTask,
    pub consecutive_errors: u32,
    /// The signatures of the tool calls already run since the last file change (a set).
    pub repeated_actions: Vec<String>,
    pub successful_validation: bool,
    /// The latest observations, oldest first (at most twelve after a tool runs).
    pub observations: Vec<ToolResult>,
}

/// What the caller does after handing over an action.
#[derive(Debug, Clone, PartialEq, Eq)]
pub enum TurnStep {
    /// Ask the model again.
    Continue,
    /// The run is over.
    Stop,
    /// Run this tool and report the outcome with `on_tool_outcome`.
    Execute { call: ToolCall, rationale: String },
    /// Gather the file changes and the diff and call `on_complete`.
    Complete { summary: String, confidence: ConfidenceBits, reason: String },
}

/// What running a tool gave.
#[derive(Debug, Clone, PartialEq, Eq)]
pub enum ToolOutcome {
    Finished { result: ToolResult, command: Option<CommandExecution> },
    Failed { error: String },
}

/// The run's counters can grow by one.
pub open spec fn has_room(r: AgentRun) -> bool {
    &&& r.task.failed_attempts < u32::MAX
    &&& r.consecutive_errors < u32::MAX
    &&& r.task.tool_calls < u32::MAX
    &&& r.task.plan_revisions@.len() < u32::MAX
}

/// Why a run stops before the model is asked again, if it does:
/// cancellation, the time limit, the step or tool-call limit, or repeated
/// failures.
pub enum Gate {
    Cancelled,
    RuntimeExceeded,
    StepLimit,
    Escalated,
    Open,
}

pub open spec fn gate_of(r: AgentRun, cancelled: bool, elapsed_ns: u128, limits: AgentLimits) -> Gate {
    if cancelled {
        Gate::Cancelled
    } else if elapsed_ns > limits.max_runtime_seconds * 1_000_000_000 {
        Gate::RuntimeExceeded
    } else if r.task.steps_completed >= limits.max_steps || r.task.tool_calls >= limits.max_tool_calls {
        Gate::StepLimit
    } else if r.task.failed_attempts >= limits.max_failed_attempts || r.consecutive_errors
        >= limits.max_consecutive_errors {
        Gate::Escalated
    } else {
        Gate::Open
    }
}

/// `e` is `r` with its task replaced by `t`.
pub open spec fn with_task(r: AgentRun, e: AgentRun, t: DeveloperTask) -> bool {
    e == AgentRun { task: t, ..r }
}

/// One more failure: both counters grow and an error observation is recorded.
pub open spec fn failure_noted(r: AgentRun, e: AgentRun, name: Seq<char>, error: Seq<char>) -> bool {
    let o = e.observations@.last();
    &&& e.task == DeveloperTask { failed_attempts: (r.task.failed_attempts + 1) as u32, ..r.task }
    &&& e.consecutive_errors == r.consecutive_errors + 1
    &&& e.repeated_actions == r.repeated_actions
    &&& e.successful_validation == r.successful_validation
    &&& e.observations@.len() == r.observations@.len() + 1
    &&& e.observations@.drop_last() == r.observations@
    &&& !o.success && o.output@.len() == 0 && o.duration_ms == 0 && o.metadata@.len() == 0
    &&& o.error matches Some(x) && x@ == name + ": "@ + error
}

impl AgentRun {
    /// Starts a run of `task` in the named workspace.
    pub fn start(mut task: DeveloperTask, workspace_name: &str, workspace_root: &str, now: Timestamp) -> (r:
        AgentRun)
        ensures
            r.consecutive_errors == 0 && r.repeated_actions@.len() == 0
                && !r.successful_validation && r.observations@.len() == 0,
            task_logged(
                DeveloperTask { state: DeveloperTaskState::Analyzing, ..task },
                r.task,
                "development_task"@,
                "Workspaceを安全境界内で解析します"@,
                Some(workspace_name@ + " ("@ + workspace_root@ + ")"@),
                RiskLevel::Low,
                now,
            ),
    {
        task.state = DeveloperTaskState::Analyzing;
        let mut detail = owned(workspace_name);
        detail.append(" (");
        detail.append(workspace_root);
        detail.append(")");
        log_activity(
            &mut task,
            "development_task",
            "Workspaceを安全境界内で解析します",
            Some(detail),
            RiskLevel::Low,
            now,
        );
        AgentRun {
            task,
            consecutive_errors: 0,
            repeated_actions: Vec::new(),
            successful_validation: false,
            observations: Vec::new(),
        }
    }

    /// Checks the gates before a turn. Returns whether the run stops; an
    /// open gate only stamps the task. After an open gate the counters have
    /// room to grow.
    pub fn check_gates(
        &mut self,
        cancelled: bool,
        elapsed_ns: u128,
        limits: &AgentLimits,
        now: Timestamp,
    ) -> (stop: bool)
        ensures
            stop == !(gate_of(*old(self), cancelled, elapsed_ns, *limits) is Open),
            match gate_of(*old(self), cancelled, elapsed_ns, *limits) {
                Gate::Cancelled => with_task(*old(self), *final(self), final(self).task)
                    && task_logged(
                    DeveloperTask {
                        state: DeveloperTaskState::Cancelled,
                        completed_at: Some(now),
                        ..old(self).task
                    },
                    final(self).task,
                    "final_result"@,
                    "Taskをキャンセルしました"@,
                    None,
                    RiskLevel::Low,
                    now,
                ),
                Gate::RuntimeExceeded => with_task(*old(self), *final(self), final(self).task)
                    && task_failed(
                    old(self).task,
                    final(self).task,
                    "maximum task runtime exceeded"@,
                    now,
                ),
                Gate::StepLimit => with_task(*old(self), *final(self), final(self).task)
                    && task_failed(
                    old(self).task,
                    final(self).task,
                    "agent step or tool-call limit reached"@,
                    now,
                ),
                Gate::Escalated => with_task(*old(self), *final(self), final(self).task)
                    && task_logged(
                    DeveloperTask {
                        state: DeveloperTaskState::WaitingApproval,
                        risk: risk_max(old(self).task.risk, RiskLevel::High),
                        ..old(self).task
                    },
                    final(self).task,
                    "error_event"@,
                    "同じ失敗が続いたためHuman Decision Requiredへ移行しました"@,
                    None,
                    RiskLevel::High,
                    now,
                ),
                Gate::Open => with_task(
                    *old(self),
                    *final(self),
                    DeveloperTask { updated_at: now, ..old(self).task },
                ) && (old(self).task.plan_revisions@.len() < u32::MAX ==> has_room(
                    *final(self),
                ) && final(self).task.steps_completed < u32::MAX),
            },
    {
        if cancelled {
            self.task.state = DeveloperTaskState::Cancelled;
            self.task.completed_at = Some(now);
            log_activity(
                &mut self.task,
                "final_result",
                "Taskをキャンセルしました",
                None,
                RiskLevel::Low,
                now,
            );
            return true;
        }
        if elapsed_ns > (limits.max_runtime_seconds as u128) * 1_000_000_000 {
            fail_task(&mut self.task, "maximum task runtime exceeded", now);
            return true;
        }
        if self.task.steps_completed >= limits.max_steps || self.task.tool_calls
            >= limits.max_tool_calls {
            fail_task(&mut self.task, "agent step or tool-call limit reached", now);
            return true;
        }
        if self.task.failed_attempts >= limits.max_failed_attempts || self.consecutive_errors
            >= limits.max_consecutive_errors {
            self.task.state = DeveloperTaskState::WaitingApproval;
            self.task.risk = self.task.risk.max_with(RiskLevel::High);
            log_activity(
                &mut self.task,
                "error_event",
                "同じ失敗が続いたためHuman Decision Requiredへ移行しました",
                None,
                RiskLevel::High,
                now,
            );
            return true;
        }
        self.task.updated_at = now;
        false
    }

    /// The last eight observations, oldest first, each trimmed for the model.
    pub fn recent_observations(&self) -> (r: Vec<ToolResult>)
        ensures
            ({
                let n = self.observations@.len();
                let k = if n < 8 {
                    n
                } else {
                    8
                };
                &&& r@.len() == k
                &&& forall|i: int|
                    0 <= i < k ==> {
                        let o = self.observations@[n - k + i];
                        let x = #[trigger] r@[i];
                        &&& x.success == o.success
                        &&& x.output@ == take_chars(o.output@, 12_000)
                        &&& x.duration_ms == o.duration_ms
                        &&& x.metadata@ == o.metadata@
                        &&& match o.error {
                            Some(e) => x.error matches Some(f) && f@ == take_chars(e@, 4_000),
                            None => x.error is None,
                        }
                    }
            }),
    {
        let n = self.observations.len();
        let k: usize = if n < 8 {
            n
        } else {
            8
        };
        let mut r: Vec<ToolResult> = Vec::new();
        let mut i: usize = 0;
        while i < k
            invariant
                i <= k <= n == self.observations@.len(),
                k <= 8,
                r@.len() == i,
                forall|j: int|
                    0 <= j < i ==> {
                        let o = self.observations@[n - k + j];
                        let x = #[trigger] r@[j];
                        &&& x.success == o.success
                        &&& x.output@ == take_chars(o.output@, 12_000)
                        &&& x.duration_ms == o.duration_ms
                        &&& x.metadata@ == o.metadata@
                        &&& match o.error {
                            Some(e) => x.error matches Some(f) && f@ == take_chars(e@, 4_000),
                            None => x.error is None,
                        }
                    },
            decreases k - i,
        {
            let copy = copy_tool_result(&self.observations[n - k + i]);
            r.push(trim_tool_result(copy));
            i += 1;
        }
        r
    }

    /// The run is cancelled while the model is thinking.
    pub fn cancel_during_model(&mut self, now: Timestamp)
        ensures
            with_task(*old(self), *final(self), final(self).task),
            task_logged(
                DeveloperTask { state: DeveloperTaskState::Cancelled, ..old(self).task },
                final(self).task,
                "final_result"@,
                "Taskをキャンセルしました"@,
                None,
                RiskLevel::Low,
                now,
            ),
    {
        self.task.state = DeveloperTaskState::Cancelled;
        log_activity(
            &mut self.task,
            "final_result",
            "Taskをキャンセルしました",
            None,
            RiskLevel::Low,
            now,
        );
    }

    fn note_failure(&mut self, name: &str, error: &str)
        requires
            old(self).task.failed_attempts < u32::MAX,
            old(self).consecutive_errors < u32::MAX,
        ensures
            failure_noted(*old(self), *final(self), name@, error@),
    {
        self.task.failed_attempts = self.task.failed_attempts + 1;
        self.consecutive_errors = self.consecutive_errors + 1;
        let ghost before = self.observations@;
        self.observations.push(tool_error(name, error));
        assert(self.observations@.drop_last() =~= before);
    }

    /// The model could not produce an action.
    pub fn on_model_error(&mut self, error: &str, now: Timestamp)
        requires
            has_room(*old(self)),
        ensures
            ({
                exists|m: AgentRun|
                    failure_noted(*old(self), m, "model_execution"@, error@) && #[trigger] with_task(
                        m,
                        *final(self),
                        final(self).task,
                    ) && task_logged(
                        m.task,
                        final(self).task,
                        "error_event"@,
                        "Model actionを解釈できませんでした"@,
                        Some(error@),
                        RiskLevel::Medium,
                        now,
                    )
            }),
    {
        self.note_failure("model_execution", error);
        let ghost m = *self;
        log_activity(
            &mut self.task,
            "error_event",
            "Model actionを解釈できませんでした",
            Some(owned(error)),
            RiskLevel::Medium,
            now,
        );
        assert(with_task(m, *self, self.task));
    }
}

/// A copy of a tool result.
pub fn copy_tool_result(x: &ToolResult) -> (r: ToolResult)
    ensures
        r.success == x.success,
        r.output == x.output,
        r.error == x.error,
        r.duration_ms == x.duration_ms,
        r.metadata@ == x.metadata@,
{
    let mut metadata: Vec<(String, String)> = Vec::new();
    let mut i: usize = 0;
    while i < x.metadata.len()
        invariant
            i <= x.metadata@.len(),
            metadata@ == x.metadata@.take(i as int),
        decreases x.metadata.len() - i,
    {
        metadata.push((x.metadata[i].0.clone(), x.metadata[i].1.clone()));
        assert(x.metadata@.take(i + 1) =~= x.metadata@.take(i as int).push(x.metadata@[i as int]));
        i += 1;
    }
    assert(x.metadata@.take(x.metadata.len() as int) =~= x.metadata@);
    ToolResult {
        success: x.success,
        output: x.output.clone(),
        error: match &x.error {
            Some(e) => Some(e.clone()),
            None => None,
        },
        duration_ms: x.duration_ms,
        metadata,
    }
}

} // verus!

verus! {

/// `p` is plan revision `version` made of `steps` (numbered from one, all pending).
pub open spec fn plan_built(p: PlanRevision, version: u32, reason: Seq<char>, steps: Seq<String>, now: Timestamp) -> bool {
    &&& p.version == version
    &&& p.reason@ == reason
    &&& p.created_at == now
    &&& p.steps@.len() == steps.len()
    &&& forall|i: int|
        0 <= i < steps.len() ==> (#[trigger] p.steps@[i]).id == i + 1 && p.steps@[i].description
            == steps[i] && p.steps@[i].state == PlanStepState::Pending
}

/// `e` is `r` with the observation `o` appended and the task replaced by `t`.
pub open spec fn observed(r: AgentRun, e: AgentRun, o: ToolResult, t: DeveloperTask) -> bool {
    &&& e.task == t
    &&& e.consecutive_errors == r.consecutive_errors
    &&& e.repeated_actions == r.repeated_actions
    &&& e.successful_validation == r.successful_validation
    &&& e.observations@ == r.observations@.push(o)
}

pub open spec fn success_note(o: ToolResult, name: Seq<char>, output: Seq<char>) -> bool {
    o.success && o.output@ == name + ": "@ + output && o.error is None && o.duration_ms == 0
        && o.metadata@.len() == 0
}

/// The effect of a plan action (the step was already counted).
pub open spec fn plan_turn(
    r: AgentRun,
    e: AgentRun,
    steps: Seq<String>,
    reason: Seq<char>,
    now: Timestamp,
) -> bool {
    if steps.len() == 0 || steps.len() > 30 {
        failure_noted(r, e, "plan"@, "plan must contain 1 to 30 steps"@)
    } else {
        let version = (r.task.plan_revisions@.len() + 1) as u32;
        let p = e.task.plan_revisions@.last();
        let mid = DeveloperTask {
            state: DeveloperTaskState::Planning,
            plan_revisions: e.task.plan_revisions,
            ..r.task
        };
        &&& e.task.plan_revisions@.len() == r.task.plan_revisions@.len() + 1
        &&& e.task.plan_revisions@.drop_last() == r.task.plan_revisions@
        &&& plan_built(p, version, reason, steps, now)
        &&& task_logged(
            mid,
            e.task,
            "development_plan"@,
            "Plan v"@ + crate::numtext::dec(version as nat) + "を作成しました"@,
            Some(reason),
            RiskLevel::Low,
            now,
        )
        &&& e.consecutive_errors == 0
        &&& e.repeated_actions == r.repeated_actions
        &&& e.successful_validation == r.successful_validation
        &&& e.observations@.len() == r.observations@.len() + 1
        &&& e.observations@.drop_last() == r.observations@
        &&& success_note(e.observations@.last(), "plan"@, "plan accepted"@)
    }
}

fn plan_steps(steps: &Vec<String>) -> (r: Vec<PlanStep>)
    requires
        steps@.len() <= 30,
    ensures
        r@.len() == steps@.len(),
        forall|i: int|
            0 <= i < steps@.len() ==> (#[trigger] r@[i]).id == i + 1 && r@[i].description
                == steps@[i] && r@[i].state == PlanStepState::Pending,
{
    let mut r: Vec<PlanStep> = Vec::new();
    let mut i: usize = 0;
    while i < steps.len()
        invariant
            i <= steps@.len() <= 30,
            r@.len() == i,
            forall|j: int|
                0 <= j < i ==> (#[trigger] r@[j]).id == j + 1 && r@[j].description == steps@[j]
                    && r@[j].state == PlanStepState::Pending,
        decreases steps.len() - i,
    {
        r.push(
            PlanStep { id: (i as u32) + 1, description: steps[i].clone(), state: PlanStepState::Pending },
        );
        i += 1;
    }
    r
}

impl AgentRun {
    /// Handles a plan action.
    pub fn on_plan(&mut self, steps: Vec<String>, reason: String, now: Timestamp)
        requires
            has_room(*old(self)),
        ensures
            plan_turn(*old(self), *final(self), steps@, reason@, now),
    {
        if steps.len() == 0 || steps.len() > 30 {
            self.note_failure("plan", "plan must contain 1 to 30 steps");
            return;
        }
        self.task.state = DeveloperTaskState::Planning;
        let version: u32 = (self.task.plan_revisions.len() as u32) + 1;
        let plan = PlanRevision {
            version,
            reason: reason.clone(),
            steps: plan_steps(&steps),
            created_at: now,
        };
        let ghost plans = self.task.plan_revisions@;
        self.task.plan_revisions.push(plan);
        assert(self.task.plan_revisions@.drop_last() =~= plans);
        let mut message = owned("Plan v");
        message.append(crate::numtext::u64_text(version as u64).as_str());
        message.append("を作成しました");
        log_activity(
            &mut self.task,
            "development_plan",
            message.as_str(),
            Some(reason),
            RiskLevel::Low,
            now,
        );
        let ghost obs = self.observations@;
        self.observations.push(tool_success("plan", "plan accepted"));
        assert(self.observations@.drop_last() =~= obs);
        self.consecutive_errors = 0;
    }
}

} // verus!

verus! {

/// The reason of the plan the run makes up for a read-only first call.
pub open spec fn implicit_plan_reason() -> Seq<char> {
    "Safe READ ONLY action was selected directly; the runtime created a bounded implicit plan"@
}

/// The effect of making sure a plan exists before a tool call: a call without
/// a plan is refused unless it is read-only, in which case a two-step plan is
/// made up. `ok` tells whether the call may go on.
pub open spec fn plan_ensured(
    r: AgentRun,
    e: AgentRun,
    call: ToolCall,
    rationale: Seq<char>,
    now: Timestamp,
    ok: bool,
) -> bool {
    if r.task.plan_revisions@.len() > 0 {
        ok && e == r
    } else if tool_required_mode(call) == DeveloperMode::ReadOnly {
        let p = e.task.plan_revisions@[0];
        let mid = DeveloperTask { plan_revisions: e.task.plan_revisions, ..r.task };
        &&& ok
        &&& with_task(r, e, e.task)
        &&& e.task.plan_revisions@.len() == 1
        &&& p.version == 1 && p.reason@ == implicit_plan_reason() && p.created_at == now
        &&& p.steps@.len() == 2
        &&& p.steps@[0].id == 1 && p.steps@[0].description@ == rationale && p.steps@[0].state
            == PlanStepState::Pending
        &&& p.steps@[1].id == 2 && p.steps@[1].description@
            == "Validate observations and report the result"@ && p.steps@[1].state
            == PlanStepState::Pending
        &&& task_logged(
            mid,
            e.task,
            "development_plan"@,
            "安全なREAD ONLY Planを自動作成しました"@,
            Some("Model selected a read tool before an explicit plan"@),
            RiskLevel::Low,
            now,
        )
    } else {
        !ok && failure_noted(
            r,
            e,
            "planning"@,
            "an explicit plan is required before edit or command execution"@,
        )
    }
}

/// The call's signature was already run since the last file change.
pub open spec fn already_tried(r: AgentRun, signature: Seq<char>) -> bool {
    exists|i: int| 0 <= i < r.repeated_actions@.len() && (#[trigger] r.repeated_actions@[i])@ == signature
}

/// The effect of a tool action once a plan exists.
pub open spec fn tool_gated(
    r: AgentRun,
    e: AgentRun,
    call: ToolCall,
    rationale: Seq<char>,
    signature: Seq<char>,
    now: Timestamp,
    step: TurnStep,
) -> bool {
    let name = tool_name(call);
    let risk = tool_risk(call);
    if !mode_permits(r.task.mode, tool_required_mode(call)) {
        let reason = name + " is not allowed in "@ + debug_mode(r.task.mode) + " mode"@;
        &&& step is Continue
        &&& exists|m: AgentRun|
            failure_noted(r, m, name, reason) && #[trigger] with_task(m, e, e.task) && task_logged(
                m.task,
                e.task,
                "error_event"@,
                "Tool permissionを拒否しました"@,
                Some(reason),
                risk,
                now,
            )
    } else if risk_rank(risk) >= 2 {
        &&& step is Stop
        &&& with_task(r, e, e.task)
        &&& task_logged(
            DeveloperTask {
                state: DeveloperTaskState::WaitingApproval,
                risk: risk_max(r.task.risk, risk),
                ..r.task
            },
            e.task,
            "decision"@,
            "High Risk操作にはHuman Approvalが必要です"@,
            Some(name + ": "@ + rationale),
            risk,
            now,
        )
    } else if already_tried(r, signature) {
        step is Continue && failure_noted(
            r,
            e,
            name,
            "identical tool call was already attempted"@,
        )
    } else {
        let counted = DeveloperTask {
            tool_calls: (r.task.tool_calls + 1) as u32,
            risk: risk_max(r.task.risk, risk),
            state: tool_state(call),
            ..r.task
        };
        &&& step == TurnStep::Execute { call, rationale: step->Execute_rationale }
        &&& step->Execute_rationale@ == rationale
        &&& e.consecutive_errors == r.consecutive_errors
        &&& e.successful_validation == r.successful_validation
        &&& e.observations == r.observations
        &&& e.repeated_actions@.len() == r.repeated_actions@.len() + 1
        &&& e.repeated_actions@.drop_last() == r.repeated_actions@
        &&& e.repeated_actions@.last()@ == signature
        &&& exists|t: DeveloperTask|
            step_marked(counted, t, PlanStepState::InProgress) && #[trigger] task_logged(
                t,
                e.task,
                "development_step"@,
                name + "を実行します"@,
                Some(rationale),
                risk,
                now,
            )
    }
}

fn contains_string(v: &Vec<String>, s: &str) -> (b: bool)
    ensures
        b == exists|i: int| 0 <= i < v@.len() && (#[trigger] v@[i])@ == s@,
{
    let mut i: usize = 0;
    while i < v.len()
        invariant
            i <= v.len(),
            forall|j: int| 0 <= j < i ==> (#[trigger] v@[j])@ != s@,
        decreases v.len() - i,
    {
        if str_eq(v[i].as_str(), s) {
            return true;
        }
        i += 1;
    }
    false
}

impl AgentRun {
    fn ensure_plan(&mut self, call: &ToolCall, rationale: &str, now: Timestamp) -> (ok: bool)
        requires
            has_room(*old(self)),
        ensures
            plan_ensured(*old(self), *final(self), *call, rationale@, now, ok),
            has_room(*final(self)) || !ok,
    {
        if self.task.plan_revisions.len() > 0 {
            return true;
        }
        if call.required_mode() == DeveloperMode::ReadOnly {
            let mut steps: Vec<PlanStep> = Vec::new();
            steps.push(PlanStep { id: 1, description: owned(rationale), state: PlanStepState::Pending });
            steps.push(
                PlanStep {
                    id: 2,
                    description: owned("Validate observations and report the result"),
                    state: PlanStepState::Pending,
                },
            );
            self.task.plan_revisions.push(
                PlanRevision {
                    version: 1,
                    reason: owned(
                        "Safe READ ONLY action was selected directly; the runtime created a bounded implicit plan",
                    ),
                    steps,
                    created_at: now,
                },
            );
            log_activity(
                &mut self.task,
                "development_plan",
                "安全なREAD ONLY Planを自動作成しました",
                Some(owned("Model selected a read tool before an explicit plan")),
                RiskLevel::Low,
                now,
            );
            true
        } else {
            self.note_failure(
                "planning",
                "an explicit plan is required before edit or command execution",
            );
            false
        }
    }

    fn gate_tool(&mut self, call: ToolCall, rationale: String, signature: &str, now: Timestamp) -> (step:
        TurnStep)
        requires
            has_room(*old(self)),
        ensures
            tool_gated(*old(self), *final(self), call, rationale@, signature@, now, step),
    {
        let risk = call.risk();
        match crate::agent::validate_tool_permission(self.task.mode, &call) {
            Err(reason) => {
                self.note_failure(call.name(), reason.as_str());
                let ghost m = *self;
                log_activity(
                    &mut self.task,
                    "error_event",
                    "Tool permissionを拒否しました",
                    Some(reason),
                    risk,
                    now,
                );
                assert(with_task(m, *self, self.task));
                return TurnStep::Continue;
            },
            Ok(()) => {},
        }
        if risk.rank() >= 2 {
            self.task.state = DeveloperTaskState::WaitingApproval;
            self.task.risk = self.task.risk.max_with(risk);
            let detail = concat3(call.name(), ": ", rationale.as_str());
            log_activity(
                &mut self.task,
                "decision",
                "High Risk操作にはHuman Approvalが必要です",
                Some(detail),
                risk,
                now,
            );
            return TurnStep::Stop;
        }
        if contains_string(&self.repeated_actions, signature) {
            self.note_failure(call.name(), "identical tool call was already attempted");
            return TurnStep::Continue;
        }
        let ghost tried = self.repeated_actions@;
        self.repeated_actions.push(owned(signature));
        assert(self.repeated_actions@.drop_last() =~= tried);
        self.task.tool_calls = self.task.tool_calls + 1;
        self.task.risk = self.task.risk.max_with(risk);
        self.task.state = crate::agent::state_for_tool(&call);
        let ghost counted = self.task;
        crate::agent::mark_current_plan_step(&mut self.task, PlanStepState::InProgress);
        let ghost marked = self.task;
        let message = concat2(call.name(), "を実行します");
        log_activity(
            &mut self.task,
            "development_step",
            message.as_str(),
            Some(rationale.clone()),
            risk,
            now,
        );
        assert(step_marked(counted, marked, PlanStepState::InProgress));
        TurnStep::Execute { call, rationale }
    }

    /// Handles a tool action: the call must be planned, permitted by the
    /// mode, below high risk (which instead waits for approval) and not a
    /// repeat; only then is it to be executed.
    pub fn on_tool(&mut self, call: ToolCall, rationale: String, signature: &str, now: Timestamp) -> (step:
        TurnStep)
        requires
            has_room(*old(self)),
        ensures
            exists|m: AgentRun, ok: bool|
                #[trigger] plan_ensured(*old(self), m, call, rationale@, now, ok) && if ok {
                    tool_gated(m, *final(self), call, rationale@, signature@, now, step)
                } else {
                    *final(self) == m && step is Continue
                },
    {
        let ok = self.ensure_plan(&call, rationale.as_str(), now);
        let ghost m = *self;
        if !ok {
            return TurnStep::Continue;
        }
        self.gate_tool(call, rationale, signature, now)
    }
}

} // verus!

verus! {

/// The last twelve of a list of observations.
pub open spec fn last_twelve(s: Seq<ToolResult>) -> Seq<ToolResult> {
    if s.len() > 12 {
        s.subrange(s.len() - 12, s.len() as int)
    } else {
        s
    }
}

/// The effect of a finished tool run on everything but the log and the plan.
pub open spec fn tool_finished(
    r: AgentRun,
    e: AgentRun,
    call: ToolCall,
    result: ToolResult,
    command: Option<CommandExecution>,
) -> bool {
    &&& e.observations@ == last_twelve(r.observations@.push(result))
    &&& match command {
        Some(c) => {
            let ok = c.status == CommandStatus::Completed;
            let errors = crate::agent::rust_error_matches(c.stderr@);
            &&& e.successful_validation == (r.successful_validation || (ok && validation_command(
                c.executable@,
                c.args@,
            )))
            &&& e.repeated_actions == r.repeated_actions
            &&& e.task.commands@ == r.task.commands@.push(c)
            &&& if ok {
                &&& e.consecutive_errors == 0
                &&& e.task.failed_attempts == r.task.failed_attempts
                &&& e.task.errors == r.task.errors
            } else {
                let k = if errors.len() < 50 {
                    errors.len()
                } else {
                    50
                };
                &&& e.consecutive_errors == r.consecutive_errors + 1
                &&& e.task.failed_attempts == r.task.failed_attempts + 1
                &&& e.task.errors@.len() == r.task.errors@.len() + k
                &&& e.task.errors@.take(r.task.errors@.len() as int) == r.task.errors@
                &&& forall|i: int|
                    0 <= i < k ==> crate::agent::compiler_error_event(
                        #[trigger] e.task.errors@[r.task.errors@.len() + i],
                        errors[i].0,
                        errors[i].1,
                    )
            }
        },
        None => {
            &&& e.consecutive_errors == 0
            &&& e.task.failed_attempts == r.task.failed_attempts
            &&& e.task.errors == r.task.errors
            &&& e.task.commands == r.task.commands
            &&& if is_write_tool(call) {
                e.repeated_actions@.len() == 0 && !e.successful_validation
            } else {
                e.repeated_actions == r.repeated_actions && e.successful_validation
                    == r.successful_validation
            }
        },
    }
}

/// How the log names a tool outcome.
pub open spec fn outcome_word(success: bool) -> Seq<char> {
    if success {
        "成功"@
    } else {
        "失敗"@
    }
}

/// The effect of a tool outcome on the run.
pub open spec fn outcome_applied(
    r: AgentRun,
    e: AgentRun,
    call: ToolCall,
    outcome: ToolOutcome,
    now: Timestamp,
) -> bool {
    let name = tool_name(call);
    let risk = tool_risk(call);
    match outcome {
        ToolOutcome::Finished { result, command } => {
            let state = match command {
                Some(c) => if c.status == CommandStatus::Completed {
                    r.task.state
                } else {
                    DeveloperTaskState::Fixing
                },
                None => r.task.state,
            };
            &&& tool_finished(r, e, call, result, command)
            &&& exists|t: DeveloperTask|
                step_marked(
                    DeveloperTask {
                        state,
                        failed_attempts: e.task.failed_attempts,
                        errors: e.task.errors,
                        commands: e.task.commands,
                        ..r.task
                    },
                    t,
                    if result.success {
                        PlanStepState::Completed
                    } else {
                        PlanStepState::Failed
                    },
                ) && #[trigger] task_logged(
                    t,
                    e.task,
                    "tool_execution"@,
                    name + ": "@ + outcome_word(result.success),
                    opt_view(result.error),
                    risk,
                    now,
                )
        },
        ToolOutcome::Failed { error } => {
            let o = e.observations@.last();
            &&& e.consecutive_errors == r.consecutive_errors + 1
            &&& e.repeated_actions == r.repeated_actions
            &&& e.successful_validation == r.successful_validation
            &&& e.observations@.len() == r.observations@.len() + 1
            &&& e.observations@.drop_last() == r.observations@
            &&& !o.success && o.output@.len() == 0
            &&& o.error matches Some(x) && x@ == name + ": "@ + error@
            &&& exists|t: DeveloperTask|
                step_marked(
                    DeveloperTask {
                        state: DeveloperTaskState::Fixing,
                        failed_attempts: (r.task.failed_attempts + 1) as u32,
                        ..r.task
                    },
                    t,
                    PlanStepState::Failed,
                ) && #[trigger] task_logged(
                    t,
                    e.task,
                    "error_event"@,
                    name + "が失敗しました"@,
                    Some(error@),
                    risk,
                    now,
                )
        },
    }
}

fn append_errors(task: &mut DeveloperTask, more: Vec<crate::developer::DeveloperErrorEvent>)
    ensures
        *final(task) == (DeveloperTask { errors: final(task).errors, ..*old(task) }),
        final(task).errors@ == old(task).errors@ + more@,
{
    let mut i: usize = 0;
    let ghost start = task.errors@;
    let mut more = more;
    let ghost all = more@;
    let n = more.len();
    while i < n
        invariant
            n == all.len(),
            i <= all.len(),
            more@ == all.subrange(i as int, all.len() as int),
            task.errors@ == start + all.take(i as int),
            *task == (DeveloperTask { errors: task.errors, ..*old(task) }),
        decreases n - i,
    {
        let x = more.remove(0);
        task.errors.push(x);
        assert(all.take(i + 1) =~= all.take(i as int).push(all[i as int]));
        assert(more@ =~= all.subrange(i + 1, all.len() as int));
        i += 1;
    }
    assert(all.take(all.len() as int) =~= all);
}

impl AgentRun {
    /// Records what running the tool gave.
    pub fn on_tool_outcome(&mut self, call: &ToolCall, outcome: ToolOutcome, now: Timestamp)
        requires
            has_room(*old(self)),
        ensures
            outcome_applied(*old(self), *final(self), *call, outcome, now),
    {
        let risk = call.risk();
        let ghost out = outcome;
        match outcome {
            ToolOutcome::Finished { result, command } => {
                let ghost cmd = command;
                let ghost res = result;
                match command {
                    Some(c) => {
                        let ok = c.status == CommandStatus::Completed;
                        let validated = crate::agent::is_validation_command(
                            c.executable.as_str(),
                            &c.args,
                        );
                        assert(validated == validation_command(c.executable@, c.args@));
                        if ok && validated {
                            self.successful_validation = true;
                        }
                        if !ok {
                            self.task.failed_attempts = self.task.failed_attempts + 1;
                            self.consecutive_errors = self.consecutive_errors + 1;
                            self.task.state = DeveloperTaskState::Fixing;
                            let found = crate::agent::parse_errors(c.stderr.as_str());
                            let ghost before = self.task.errors@;
                            append_errors(&mut self.task, found);
                            assert(self.task.errors@.take(before.len() as int) =~= before);
                        } else {
                            self.consecutive_errors = 0;
                        }
                        self.task.commands.push(c);
                    },
                    None => {
                        self.consecutive_errors = 0;
                        if call.is_write() {
                            self.repeated_actions = Vec::new();
                            self.successful_validation = false;
                        }
                    },
                }
                let success = result.success;
                let error = match &result.error {
                    Some(e) => Some(e.clone()),
                    None => None,
                };
                let ghost obs = self.observations@.push(result);
                self.observations.push(result);
                let ghost snap = *self;
                while self.observations.len() > 12
                    invariant
                        *self == (AgentRun { observations: self.observations, ..snap }),
                        last_twelve(self.observations@) == last_twelve(obs),
                    decreases self.observations.len(),
                {
                    let ghost s = self.observations@;
                    self.observations.remove(0);
                    assert(last_twelve(self.observations@) =~= last_twelve(s));
                }
                assert(last_twelve(self.observations@) =~= self.observations@);
                let ghost before_mark = self.task;
                crate::agent::mark_current_plan_step(
                    &mut self.task,
                    if success {
                        PlanStepState::Completed
                    } else {
                        PlanStepState::Failed
                    },
                );
                let ghost marked = self.task;
                let message = concat2(
                    call.name(),
                    if success {
                        ": 成功"
                    } else {
                        ": 失敗"
                    },
                );
                proof {
                    reveal_strlit(": 成功");
                    reveal_strlit(": 失敗");
                    reveal_strlit(": ");
                    reveal_strlit("成功");
                    reveal_strlit("失敗");
                }
                assert(message@ =~= tool_name(*call) + ": "@ + outcome_word(success));
                assert(opt_view(error) == opt_view(res.error));
                log_activity(&mut self.task, "tool_execution", message.as_str(), error, risk, now);
                assert(step_marked(before_mark, marked, if success {
                    PlanStepState::Completed
                } else {
                    PlanStepState::Failed
                }));
            },
            ToolOutcome::Failed { error } => {
                self.task.failed_attempts = self.task.failed_attempts + 1;
                self.consecutive_errors = self.consecutive_errors + 1;
                self.task.state = DeveloperTaskState::Fixing;
                let ghost before_mark = self.task;
                crate::agent::mark_current_plan_step(&mut self.task, PlanStepState::Failed);
                let ghost marked = self.task;
                let ghost obs = self.observations@;
                self.observations.push(tool_error(call.name(), error.as_str()));
                assert(self.observations@.drop_last() =~= obs);
                let message = concat2(call.name(), "が失敗しました");
                log_activity(&mut self.task, "error_event", message.as_str(), Some(error), risk, now);
                assert(step_marked(before_mark, marked, PlanStepState::Failed));
            },
        }
    }
}

} // verus!

verus! {

/// `t` is plan `p` with every step that did not fail marked completed.
pub open spec fn plan_closed(p: PlanRevision, q: PlanRevision) -> bool {
    &&& q == PlanRevision { steps: q.steps, ..p }
    &&& q.steps@.len() == p.steps@.len()
    &&& forall|i: int|
        0 <= i < p.steps@.len() ==> #[trigger] q.steps@[i] == (if p.steps@[i].state
            == PlanStepState::Failed {
            p.steps@[i]
        } else {
            PlanStep { state: PlanStepState::Completed, ..p.steps@[i] }
        })
}

/// The effect of a completion: refused in `Auto` mode when files changed but
/// no build or test command succeeded since; otherwise the task completes
/// with the changes, the diff, the clamped confidence and the summary.
pub open spec fn completion_applied(
    r: AgentRun,
    e: AgentRun,
    summary: Seq<char>,
    confidence: ConfidenceBits,
    reason: Seq<char>,
    changes: Seq<FileChange>,
    diff: Seq<char>,
    now: Timestamp,
    step: TurnStep,
) -> bool {
    if r.task.mode == DeveloperMode::Auto && changes.len() > 0 && !r.successful_validation {
        step is Continue && failure_noted(
            r,
            e,
            "validation"@,
            "AUTO mode cannot complete changed files before a successful build or test command"@,
        )
    } else {
        let n = r.task.plan_revisions@.len();
        let t = e.task;
        &&& step is Stop
        &&& with_task(r, e, t)
        &&& t.state == DeveloperTaskState::Completed
        &&& t.files_changed@ == changes
        &&& t.unified_diff@ == diff
        &&& t.confidence == clamp_unit_bits(confidence)
        &&& t.confidence_reason@ == reason
        &&& t.result_summary matches Some(s) && s@ == summary
        &&& t.completed_at == Some(now)
        &&& t.plan_revisions@.len() == n
        &&& n > 0 ==> t.plan_revisions@.drop_last() == r.task.plan_revisions@.drop_last()
            && plan_closed(r.task.plan_revisions@.last(), t.plan_revisions@.last())
        &&& task_logged(
            DeveloperTask {
                state: t.state,
                files_changed: t.files_changed,
                unified_diff: t.unified_diff,
                confidence: t.confidence,
                confidence_reason: t.confidence_reason,
                result_summary: t.result_summary,
                plan_revisions: t.plan_revisions,
                completed_at: t.completed_at,
                ..r.task
            },
            t,
            "final_result"@,
            "Developer Taskが検証済み状態で完了しました"@,
            Some(summary),
            r.task.risk,
            now,
        )
    }
}

fn close_plan(p: &mut PlanRevision)
    ensures
        plan_closed(*old(p), *final(p)),
{
    let n = p.steps.len();
    let mut i: usize = 0;
    while i < n
        invariant
            n == p.steps@.len() == old(p).steps@.len(),
            i <= n,
            *p == (PlanRevision { steps: p.steps, ..*old(p) }),
            forall|j: int|
                0 <= j < i ==> #[trigger] p.steps@[j] == (if old(p).steps@[j].state
                    == PlanStepState::Failed {
                    old(p).steps@[j]
                } else {
                    PlanStep { state: PlanStepState::Completed, ..old(p).steps@[j] }
                }),
            forall|j: int| i <= j < n ==> #[trigger] p.steps@[j] == old(p).steps@[j],
        decreases n - i,
    {
        if p.steps[i].state != PlanStepState::Failed {
            let mut s = p.steps.remove(i);
            s.state = PlanStepState::Completed;
            p.steps.insert(i, s);
        }
        i += 1;
    }
}

impl AgentRun {
    /// Handles a completion once the file changes and the diff are known.
    pub fn on_complete(
        &mut self,
        summary: String,
        confidence: ConfidenceBits,
        reason: String,
        changes: Vec<FileChange>,
        diff: String,
        now: Timestamp,
    ) -> (step: TurnStep)
        requires
            has_room(*old(self)),
        ensures
            completion_applied(
                *old(self),
                *final(self),
                summary@,
                confidence,
                reason@,
                changes@,
                diff@,
                now,
                step,
            ),
    {
        if self.task.mode == DeveloperMode::Auto && changes.len() > 0 && !self.successful_validation {
            self.note_failure(
                "validation",
                "AUTO mode cannot complete changed files before a successful build or test command",
            );
            return TurnStep::Continue;
        }
        self.task.state = DeveloperTaskState::Reviewing;
        self.task.files_changed = changes;
        self.task.unified_diff = diff;
        self.task.confidence = crate::developer::clamp_confidence(confidence);
        self.task.confidence_reason = reason;
        self.task.result_summary = Some(summary.clone());
        let n = self.task.plan_revisions.len();
        if n > 0 {
            let mut plan = self.task.plan_revisions.remove(n - 1);
            close_plan(&mut plan);
            self.task.plan_revisions.push(plan);
            assert(self.task.plan_revisions@.drop_last() =~= old(self).task.plan_revisions@.drop_last());
        }
        self.task.state = DeveloperTaskState::Completed;
        self.task.completed_at = Some(now);
        let risk = self.task.risk;
        log_activity(
            &mut self.task,
            "final_result",
            "Developer Taskが検証済み状態で完了しました",
            Some(summary),
            risk,
            now,
        );
        TurnStep::Stop
    }

    /// Handles a request for human approval: the run waits at the higher risk.
    pub fn on_require_approval(&mut self, summary: String, risk: RiskLevel, now: Timestamp)
        ensures
            with_task(*old(self), *final(self), final(self).task),
            task_logged(
                DeveloperTask {
                    state: DeveloperTaskState::WaitingApproval,
                    risk: risk_max(old(self).task.risk, risk),
                    ..old(self).task
                },
                final(self).task,
                "decision"@,
                "Human Approvalが必要です"@,
                Some(summary@),
                risk,
                now,
            ),
    {
        self.task.state = DeveloperTaskState::WaitingApproval;
        self.task.risk = self.task.risk.max_with(risk);
        log_activity(&mut self.task, "decision", "Human Approvalが必要です", Some(summary), risk, now);
    }

    /// Handles the model giving up.
    pub fn on_fail(&mut self, reason: &str, now: Timestamp)
        ensures
            with_task(*old(self), *final(self), final(self).task),
            task_failed(old(self).task, final(self).task, reason@, now),
    {
        fail_task(&mut self.task, reason, now);
    }

    /// Hands a model action to the run: the step is counted, then the action
    /// is handled by `on_plan`, `on_tool`, `on_require_approval` or `on_fail`;
    /// a completion is returned to the caller to gather its facts.
    pub fn on_action(&mut self, action: AgentAction, signature: &str, now: Timestamp) -> (step:
        TurnStep)
        requires
            has_room(*old(self)),
            old(self).task.steps_completed < u32::MAX,
        ensures
            ({
                let counted = AgentRun {
                    task: DeveloperTask {
                        steps_completed: (old(self).task.steps_completed + 1) as u32,
                        ..old(self).task
                    },
                    ..*old(self)
                };
                match action {
                    AgentAction::Plan { steps, reason } => step is Continue && plan_turn(
                        counted,
                        *final(self),
                        steps@,
                        reason@,
                        now,
                    ),
                    AgentAction::Tool { call, rationale } => exists|m: AgentRun, ok: bool|
                        #[trigger] plan_ensured(counted, m, call, rationale@, now, ok) && if ok {
                            tool_gated(m, *final(self), call, rationale@, signature@, now, step)
                        } else {
                            *final(self) == m && step is Continue
                        },
                    AgentAction::Complete { summary, confidence, reason } => *final(self)
                        == counted && step == TurnStep::Complete { summary, confidence, reason },
                    AgentAction::RequireApproval { summary, risk } => step is Stop && with_task(
                        counted,
                        *final(self),
                        final(self).task,
                    ) && task_logged(
                        DeveloperTask {
                            state: DeveloperTaskState::WaitingApproval,
                            risk: risk_max(counted.task.risk, risk),
                            ..counted.task
                        },
                        final(self).task,
                        "decision"@,
                        "Human Approvalが必要です"@,
                        Some(summary@),
                        risk,
                        now,
                    ),
                    AgentAction::Fail { reason } => step is Stop && with_task(
                        counted,
                        *final(self),
                        final(self).task,
                    ) && task_failed(counted.task, final(self).task, reason@, now),
                }
            }),
    {
        self.task.steps_completed = self.task.steps_completed + 1;
        match action {
            AgentAction::Plan { steps, reason } => {
                self.on_plan(steps, reason, now);
                TurnStep::Continue
            },
            AgentAction::Tool { call, rationale } => self.on_tool(call, rationale, signature, now),
            AgentAction::Complete { summary, confidence, reason } => TurnStep::Complete {
                summary,
                confidence,
                reason,
            },
            AgentAction::RequireApproval { summary, risk } => {
                self.on_require_approval(summary, risk, now);
                TurnStep::Stop
            },
            AgentAction::Fail { reason } => {
                self.on_fail(reason.as_str(), now);
                TurnStep::Stop
            },
        }
    }

    /// Ends the run, stamping the task.
    pub fn finish(self, now: Timestamp) -> (t: DeveloperTask)
        ensures
            t == (DeveloperTask { updated_at: now, ..self.task }),
    {
        let mut task = self.task;
        task.updated_at = now;
        task
    }
}

} // verus!
