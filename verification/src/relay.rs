//! Building relay workflows from teams, starting sessions, and the
//! bookkeeping of a running session: assignments, tool authorisation, agent
//! executions, brain resolutions, model rotations and user interventions.

use crate::ard::{
    ModelRotationRecord, ModelRotationStatus, ArdExecutionStatus, ArdStageExecution, BrainResolutionRecord, ArdAssignment, ArdIntervention, ArdMemberId, BrainAssignment, RolePolicy, StructuredHandoff,
    find_member, find_session, find_stage, find_team, find_workflow, member_pos, push_activity,
    activity_pushed, session_missing_detail, session_pos, stage_pos, team_pos, text_acceptable,
    validate_text, workflow_linked, workflow_pos, ArdActivity, ArdCoordinator, ArdSession,
    ArdSessionId, ArdSessionState, ArdStageId, ArdTeam, ArdTeamId, ArdTeamMember, ArdWorkflow,
    ArdWorkflowId, ArdWorkflowStage,
};
use crate::bridge::{
    BrainResolution, ModelRotationEvent, ModelRotationEventKind, ModelRotationPlan,
};
use crate::developer::{
    DeveloperTaskId, ToolCall, developer_error, developer_error_lit, error_detail, error_kind, DeveloperError,
    DeveloperErrorKind, Timestamp,
};
use crate::seqs::{first_pos, lemma_first_pos};
use crate::text::{ascii_lowercase, concat2, contains, lower_seq, owned, seq_contains};
use vstd::prelude::*;

verus! {

/// The enabled members of a team, in team order.
pub open spec fn enabled_members(s: Seq<ArdTeamMember>) -> Seq<ArdTeamMember>
    decreases s.len(),
{
    if s.len() == 0 {
        Seq::empty()
    } else {
        let r = enabled_members(s.drop_last());
        if s.last().enabled {
            r.push(s.last())
        } else {
            r
        }
    }
}

/// A developer role mentions "develop" (in any ASCII case) or "開発".
pub open spec fn is_developer_role(role: Seq<char>) -> bool {
    seq_contains(lower_seq(role), "develop"@) || seq_contains(role, "開発"@)
}

/// An inspecting role mentions "review" (in any ASCII case) or "レビュー".
pub open spec fn is_reviewer_role(role: Seq<char>) -> bool {
    seq_contains(lower_seq(role), "review"@) || seq_contains(role, "レビュー"@)
}

pub open spec fn developer_member() -> spec_fn(ArdTeamMember) -> bool {
    |m: ArdTeamMember| is_developer_role(m.role@)
}

/// The objective of the stage owned by a member with this role.
pub open spec fn stage_objective(role: Seq<char>) -> Seq<char> {
    role + "として担当範囲を実行し、Structured Handoffを作成する"@
}

/// `w` is the relay workflow of `team`: one stage per enabled member in team
/// order, each succeeded by the next; inspecting roles send rework to the first
/// developer; every stage may be entered three times.
pub open spec fn relay_built(
    team: ArdTeam,
    name: Seq<char>,
    workflow_id: ArdWorkflowId,
    ids: Seq<ArdStageId>,
    now: Timestamp,
    w: ArdWorkflow,
) -> bool {
    let en = enabled_members(team.members@);
    let n = en.len();
    let dev = first_pos(en, developer_member());
    &&& w.id == workflow_id
    &&& w.team_id == team.id
    &&& w.name@ == name
    &&& w.entry_stage_id == ids[0]
    &&& w.created_at == now
    &&& w.stages@.len() == n
    &&& forall|i: int|
        0 <= i < n ==> {
            let st = #[trigger] w.stages@[i];
            &&& st.id == ids[i]
            &&& st.member_id == en[i].id
            &&& st.objective@ == stage_objective(en[i].role@)
            &&& st.on_success == if i + 1 < n {
                Some(ids[i + 1])
            } else {
                None
            }
            &&& st.on_rework == if is_reviewer_role(en[i].role@) && dev >= 0 {
                Some(ids[dev])
            } else {
                None
            }
            &&& st.max_attempts == 3
        }
}

/// `e` is `d` with `w` stored under its identifier.
pub open spec fn workflow_stored(d: ArdCoordinator, e: ArdCoordinator, w: ArdWorkflow) -> bool {
    let p = workflow_pos(d.workflows@, w.id);
    &&& e == ArdCoordinator { workflows: e.workflows, ..d }
    &&& if p >= 0 {
        e.workflows@ == d.workflows@.update(p, w)
    } else {
        e.workflows@ == d.workflows@.push(w)
    }
}

/// The effect of `create_relay_workflow`.
pub open spec fn relay_workflow_post(
    d: ArdCoordinator,
    e: ArdCoordinator,
    team_id: ArdTeamId,
    name: Seq<char>,
    workflow_id: ArdWorkflowId,
    ids: Seq<ArdStageId>,
    now: Timestamp,
    r: Result<ArdWorkflowId, DeveloperError>,
) -> bool {
    let tp = team_pos(d.teams@, team_id);
    let team = d.teams@[tp];
    if !text_acceptable(name) {
        r matches Err(x) && error_kind(x) == DeveloperErrorKind::Invalid && error_detail(x)
            == "workflow name"@ + " is blank or oversized"@ && e == d
    } else if tp < 0 {
        r matches Err(x) && error_kind(x) == DeveloperErrorKind::NotFound && error_detail(x)
            == "ARD team "@ + crate::ids::uuid_text_spec(team_id) && e == d
    } else if enabled_members(team.members@).len() == 0 {
        r matches Err(x) && error_kind(x) == DeveloperErrorKind::Invalid && error_detail(x)
            == "ARD team has no enabled member"@ && e == d
    } else {
        r == Ok::<ArdWorkflowId, DeveloperError>(workflow_id) && exists|w: ArdWorkflow|
            relay_built(team, name, workflow_id, ids, now, w) && #[trigger] workflow_stored(
                d,
                e,
                w,
            )
    }
}

proof fn lemma_enabled_len(s: Seq<ArdTeamMember>)
    ensures
        enabled_members(s).len() <= s.len(),
    decreases s.len(),
{
    if s.len() > 0 {
        lemma_enabled_len(s.drop_last());
    }
}

/// Whether the role names a developer.
pub fn developer_role(role: &str) -> (b: bool)
    ensures
        b == is_developer_role(role@),
{
    contains(ascii_lowercase(role).as_str(), "develop") || contains(role, "開発")
}

/// Whether the role names an inspecting member (see `is_reviewer_role`).
pub fn reviewer_role(role: &str) -> (b: bool)
    ensures
        b == is_reviewer_role(role@),
{
    contains(ascii_lowercase(role).as_str(), "review") || contains(role, "レビュー")
}

/// Storing a linked workflow keeps the document well linked.
proof fn lemma_store_keeps_links(d: ArdCoordinator, e: ArdCoordinator, w: ArdWorkflow)
    requires
        d.well_linked(),
        workflow_linked(w),
        workflow_stored(d, e, w),
    ensures
        e.well_linked(),
{
    let p = workflow_pos(d.workflows@, w.id);
    lemma_first_pos(d.workflows@, crate::ard::workflow_has(w.id));
    assert forall|i: int| 0 <= i < e.workflows@.len() implies workflow_linked(
        #[trigger] e.workflows@[i],
    ) by {
        if p >= 0 {
            if i != p {
                assert(e.workflows@[i] == d.workflows@[i]);
            }
        } else {
            if i < d.workflows@.len() {
                assert(e.workflows@[i] == d.workflows@[i]);
            }
        }
    }
}

impl ArdCoordinator {
    fn store_workflow(&mut self, w: ArdWorkflow)
        ensures
            workflow_stored(*old(self), *final(self), w),
    {
        match find_workflow(&self.workflows, w.id) {
            Some(p) => {
                self.workflows.set(p, w);
            },
            None => {
                self.workflows.push(w);
            },
        }
    }

    /// Builds and stores the relay workflow of a team at time `now`, with the
    /// given workflow identifier and stage identifiers (the first of `ids` go
    /// to the stages in order); see `relay_workflow_post`.
    #[verifier::loop_isolation(false)]
    #[verifier::spinoff_prover]
    pub fn create_relay_workflow_at(
        &mut self,
        team_id: ArdTeamId,
        name: &str,
        workflow_id: ArdWorkflowId,
        ids: &Vec<ArdStageId>,
        now: Timestamp,
    ) -> (r: Result<ArdWorkflowId, DeveloperError>)
        requires
            team_pos(old(self).teams@, team_id) >= 0 ==> ids@.len() >= old(self).teams@[team_pos(
                old(self).teams@,
                team_id,
            )].members@.len(),
        ensures
            relay_workflow_post(*old(self), *final(self), team_id, name@, workflow_id, ids@, now, r),
            old(self).well_linked() ==> final(self).well_linked(),
    {
        match validate_text("workflow name", name) {
            Err(x) => {
                return Err(x);
            },
            Ok(()) => {},
        }
        let tp = match find_team(&self.teams, team_id) {
            Some(p) => p,
            None => {
                return Err(
                    developer_error(
                        DeveloperErrorKind::NotFound,
                        concat2("ARD team ", crate::ids::uuid_text(team_id).as_str()),
                    ),
                );
            },
        };
        let ghost team = self.teams@[tp as int];
        let ghost ms = team.members@;
        // The enabled members' identifiers and roles, in team order.
        let mut member_ids: Vec<u128> = Vec::new();
        let mut roles: Vec<String> = Vec::new();
        let mut i: usize = 0;
        let count = self.teams[tp].members.len();
        while i < count
            invariant
                i <= count == ms.len(),
                member_ids@.len() == roles@.len() == enabled_members(ms.take(i as int)).len(),
                forall|j: int|
                    0 <= j < member_ids@.len() ==> #[trigger] member_ids@[j] == enabled_members(
                        ms.take(i as int),
                    )[j].id && roles@[j]@ == enabled_members(ms.take(i as int))[j].role@,
            decreases count - i,
        {
            let ghost prev = enabled_members(ms.take(i as int));
            assert(ms.take(i + 1).drop_last() =~= ms.take(i as int));
            assert(ms.take(i + 1).last() == ms[i as int]);
            let m = &self.teams[tp].members[i];
            assert(*m == ms[i as int]);
            if m.enabled {
                let ghost old_ids = member_ids@;
                let ghost old_roles = roles@;
                member_ids.push(m.id);
                roles.push(owned(m.role.as_str()));
                assert(enabled_members(ms.take(i + 1)) == prev.push(ms[i as int]));
                assert forall|j: int| 0 <= j < member_ids@.len() implies #[trigger] member_ids@[j]
                    == prev.push(ms[i as int])[j].id && roles@[j]@ == prev.push(
                    ms[i as int],
                )[j].role@ by {
                    if j < old_ids.len() {
                        assert(old_ids[j] == prev[j].id);
                        assert(old_roles[j] == roles@[j]);
                    }
                }
            } else {
                assert(enabled_members(ms.take(i + 1)) == prev);
                assert forall|j: int| 0 <= j < member_ids@.len() implies #[trigger] member_ids@[j]
                    == prev[j].id && roles@[j]@ == prev[j].role@ by {}
            }
            i += 1;
        }
        assert(ms.take(count as int) =~= ms);
        let ghost en = enabled_members(ms);
        let n = member_ids.len();
        assert forall|j: int| 0 <= j < n implies #[trigger] roles@[j]@ == en[j].role@
            && member_ids@[j] == en[j].id by {
            assert(member_ids@[j] == enabled_members(ms.take(count as int))[j].id);
        }
        if n == 0 {
            return Err(
                developer_error_lit(DeveloperErrorKind::Invalid, "ARD team has no enabled member"),
            );
        }
        proof {
            lemma_enabled_len(ms);
        }
        // The first developer among them.
        let mut dev: Option<usize> = None;
        let mut k: usize = 0;
        while k < n
            invariant
                k <= n,
                dev is None,
                forall|j: int| 0 <= j < k ==> !developer_member()(#[trigger] en[j]),
            decreases n - k,
        {
            if developer_role(roles[k].as_str()) {
                dev = Some(k);
                break;
            }
            k += 1;
        }
        proof {
            match dev {
                Some(q) => crate::seqs::lemma_first_pos_is(en, developer_member(), q as int),
                None => crate::seqs::lemma_first_pos_is(en, developer_member(), -1),
            }
        }
        let mut stages: Vec<ArdWorkflowStage> = Vec::new();
        let mut q: usize = 0;
        while q < n
            invariant
                q <= n,
                stages@.len() == q,
                forall|j: int|
                    0 <= j < q ==> {
                        let st = #[trigger] stages@[j];
                        &&& st.id == ids@[j]
                        &&& st.member_id == en[j].id
                        &&& st.objective@ == stage_objective(en[j].role@)
                        &&& st.on_success == if j + 1 < n {
                            Some(ids@[j + 1])
                        } else {
                            None
                        }
                        &&& st.on_rework == if is_reviewer_role(en[j].role@) && first_pos(
                            en,
                            developer_member(),
                        ) >= 0 {
                            Some(ids@[first_pos(en, developer_member())])
                        } else {
                            None
                        }
                        &&& st.max_attempts == 3
                    },
            decreases n - q,
        {
            let on_rework = if reviewer_role(roles[q].as_str()) {
                match dev {
                    Some(p) => Some(ids[p]),
                    None => None,
                }
            } else {
                None
            };
            stages.push(
                ArdWorkflowStage {
                    id: ids[q],
                    member_id: member_ids[q],
                    objective: concat2(
                        roles[q].as_str(),
                        "として担当範囲を実行し、Structured Handoffを作成する",
                    ),
                    on_success: if q + 1 < n {
                        Some(ids[q + 1])
                    } else {
                        None
                    },
                    on_rework,
                    max_attempts: 3,
                },
            );
            q += 1;
        }
        let workflow = ArdWorkflow {
            id: workflow_id,
            team_id,
            name: owned(name),
            entry_stage_id: ids[0],
            stages,
            created_at: now,
        };
        assert(relay_built(team, name@, workflow_id, ids@, now, workflow));
        proof {
            assert forall|i: int| 0 <= i < n implies ({
                let st = #[trigger] workflow.stages@[i];
                (st.on_success matches Some(x) ==> stage_pos(workflow.stages@, x) >= 0) && (
                st.on_rework matches Some(x) ==> stage_pos(workflow.stages@, x) >= 0)
            }) by {
                let st = workflow.stages@[i];
                if i + 1 < n {
                    lemma_first_pos(workflow.stages@, crate::ard::stage_has(ids@[i + 1]));
                    assert(crate::ard::stage_has(ids@[i + 1])(workflow.stages@[i + 1]));
                }
                let dp = first_pos(en, developer_member());
                if dp >= 0 {
                    lemma_first_pos(en, developer_member());
                    lemma_first_pos(workflow.stages@, crate::ard::stage_has(ids@[dp]));
                    assert(crate::ard::stage_has(ids@[dp])(workflow.stages@[dp]));
                }
            }
        }
        let ghost before = *self;
        let ghost stored = workflow;
        self.store_workflow(workflow);
        proof {
            if before.well_linked() {
                lemma_store_keeps_links(before, *self, stored);
            }
        }
        Ok(workflow_id)
    }
}

} // verus!

verus! {

/// `s` is a fresh running session of workflow `w` for `team`, positioned at
/// the workflow's entry stage, with the start logged.
pub open spec fn session_started(
    w: ArdWorkflow,
    team: ArdTeam,
    goal: Seq<char>,
    id: ArdSessionId,
    now: Timestamp,
    s: ArdSession,
) -> bool {
    &&& s.id == id
    &&& s.team_id == team.id
    &&& s.workflow_id == w.id
    &&& s.workspace_id == team.workspace_id
    &&& s.goal@ == goal
    &&& s.state == ArdSessionState::Running
    &&& s.current_stage_id == Some(w.entry_stage_id)
    &&& s.stage_attempts@.len() == 0
    &&& s.handoffs@.len() == 0
    &&& s.interventions@.len() == 0
    &&& s.model_rotations@.len() == 0
    &&& s.brain_resolutions@.len() == 0
    &&& s.executions@.len() == 0
    &&& s.active_model is None
    &&& s.active_runtime is None
    &&& s.active_rotation is None
    &&& s.active_execution is None
    &&& s.created_at == now
    &&& s.updated_at == now
    &&& s.completed_at is None
    &&& s.activity@.len() == 1
    &&& crate::ard::activity_is(
        s.activity@[0],
        0,
        None,
        "session_started"@,
        "ARD Relayを開始しました"@,
        now,
    )
}

/// `e` is `d` with `s` stored under its identifier.
pub open spec fn session_stored(d: ArdCoordinator, e: ArdCoordinator, s: ArdSession) -> bool {
    let p = session_pos(d.sessions@, s.id);
    &&& crate::ard::same_except_sessions(d, e)
    &&& if p >= 0 {
        e.sessions@ == d.sessions@.update(p, s)
    } else {
        e.sessions@ == d.sessions@.push(s)
    }
}

/// The effect of `start_session`.
pub open spec fn start_session_post(
    d: ArdCoordinator,
    e: ArdCoordinator,
    workflow_id: ArdWorkflowId,
    goal: Seq<char>,
    id: ArdSessionId,
    now: Timestamp,
    r: Result<ArdSessionId, DeveloperError>,
) -> bool {
    let wp = workflow_pos(d.workflows@, workflow_id);
    let w = d.workflows@[wp];
    let tp = team_pos(d.teams@, w.team_id);
    if !text_acceptable(goal) {
        r matches Err(x) && error_kind(x) == DeveloperErrorKind::Invalid && error_detail(x)
            == "ARD goal"@ + " is blank or oversized"@ && e == d
    } else if wp < 0 {
        r matches Err(x) && error_kind(x) == DeveloperErrorKind::NotFound && error_detail(x)
            == "ARD workflow "@ + crate::ids::uuid_text_spec(workflow_id) && e == d
    } else if tp < 0 {
        r matches Err(x) && error_kind(x) == DeveloperErrorKind::NotFound && error_detail(x)
            == "ARD team "@ + crate::ids::uuid_text_spec(w.team_id) && e == d
    } else {
        r == Ok::<ArdSessionId, DeveloperError>(id) && exists|s: ArdSession|
            session_started(w, d.teams@[tp], goal, id, now, s) && #[trigger] session_stored(
                d,
                e,
                s,
            )
    }
}

impl ArdCoordinator {
    fn store_session(&mut self, s: ArdSession)
        ensures
            session_stored(*old(self), *final(self), s),
    {
        match find_session(&self.sessions, s.id) {
            Some(p) => {
                self.sessions.set(p, s);
            },
            None => {
                self.sessions.push(s);
            },
        }
    }

    /// Starts a session of a workflow at time `now` under identifier `id`;
    /// see `start_session_post`.
    pub fn start_session_at(
        &mut self,
        workflow_id: ArdWorkflowId,
        goal: &str,
        id: ArdSessionId,
        now: Timestamp,
    ) -> (r: Result<ArdSessionId, DeveloperError>)
        ensures
            start_session_post(*old(self), *final(self), workflow_id, goal@, id, now, r),
            final(self).well_linked() == old(self).well_linked(),
    {
        match validate_text("ARD goal", goal) {
            Err(x) => {
                return Err(x);
            },
            Ok(()) => {},
        }
        let wp = match find_workflow(&self.workflows, workflow_id) {
            Some(p) => p,
            None => {
                return Err(
                    developer_error(
                        DeveloperErrorKind::NotFound,
                        concat2("ARD workflow ", crate::ids::uuid_text(workflow_id).as_str()),
                    ),
                );
            },
        };
        let team_id = self.workflows[wp].team_id;
        let entry = self.workflows[wp].entry_stage_id;
        let tp = match find_team(&self.teams, team_id) {
            Some(p) => p,
            None => {
                return Err(
                    developer_error(
                        DeveloperErrorKind::NotFound,
                        concat2("ARD team ", crate::ids::uuid_text(team_id).as_str()),
                    ),
                );
            },
        };
        let mut session = ArdSession {
            id,
            team_id: self.teams[tp].id,
            workflow_id,
            workspace_id: self.teams[tp].workspace_id,
            goal: owned(goal),
            state: ArdSessionState::Running,
            current_stage_id: Some(entry),
            stage_attempts: Vec::new(),
            handoffs: Vec::new(),
            interventions: Vec::new(),
            activity: Vec::new(),
            model_rotations: Vec::new(),
            brain_resolutions: Vec::new(),
            active_model: None,
            active_runtime: None,
            active_rotation: None,
            active_execution: None,
            executions: Vec::new(),
            created_at: now,
            updated_at: now,
            completed_at: None,
        };
        push_activity(&mut session, None, "session_started", "ARD Relayを開始しました", now);
        let ghost stored = session;
        assert(session_started(
            self.workflows@[wp as int],
            self.teams@[tp as int],
            goal@,
            id,
            now,
            stored,
        ));
        self.store_session(session);
        assert(self.workflows == old(self).workflows);
        Ok(id)
    }
}

} // verus!

verus! {

/// A copy of a list of strings.
pub fn clone_strings(v: &Vec<String>) -> (r: Vec<String>)
    ensures
        r@ == v@,
{
    let mut r: Vec<String> = Vec::new();
    let mut i: usize = 0;
    while i < v.len()
        invariant
            i <= v.len(),
            r@ == v@.take(i as int),
        decreases v.len() - i,
    {
        r.push(v[i].clone());
        assert(v@.take(i + 1) =~= v@.take(i as int).push(v@[i as int]));
        i += 1;
    }
    assert(v@.take(v.len() as int) =~= v@);
    r
}

/// `a` is a copy of `b`: equal fields, lists with equal contents.
pub open spec fn member_copied(a: ArdTeamMember, b: ArdTeamMember) -> bool {
    &&& a.id == b.id
    &&& a.name == b.name
    &&& a.role == b.role
    &&& a.brain == b.brain
    &&& a.permission.allowed@ == b.permission.allowed@
    &&& a.permission.maximum_risk == b.permission.maximum_risk
    &&& a.policy.responsibilities@ == b.policy.responsibilities@
    &&& a.policy.forbidden_actions@ == b.policy.forbidden_actions@
    &&& a.policy.escalation_rules@ == b.policy.escalation_rules@
    &&& a.workspace_id == b.workspace_id
    &&& a.reports_to == b.reports_to
    &&& a.handoff_to == b.handoff_to
    &&& a.enabled == b.enabled
}

pub open spec fn handoff_copied(a: StructuredHandoff, b: StructuredHandoff) -> bool {
    &&& a.id == b.id
    &&& a.from_member_id == b.from_member_id
    &&& a.to_member_id == b.to_member_id
    &&& a.decision == b.decision
    &&& a.task_result == b.task_result
    &&& a.decisions@ == b.decisions@
    &&& a.files_read@ == b.files_read@
    &&& a.files_changed@ == b.files_changed@
    &&& a.build_results@ == b.build_results@
    &&& a.tests_run@ == b.tests_run@
    &&& a.test_results@ == b.test_results@
    &&& a.known_issues@ == b.known_issues@
    &&& a.unresolved_questions@ == b.unresolved_questions@
    &&& a.next_action == b.next_action
    &&& a.confidence == b.confidence
    &&& a.created_at == b.created_at
}

pub open spec fn intervention_copied(a: ArdIntervention, b: ArdIntervention) -> bool {
    a.instruction == b.instruction && a.created_at == b.created_at && a.delivered_to@
        == b.delivered_to@
}

fn copy_brain(b: &BrainAssignment) -> (r: BrainAssignment)
    ensures
        r == *b,
{
    match b {
        BrainAssignment::Auto => BrainAssignment::Auto,
        BrainAssignment::Model { provider_id, model_id, runtime_id } => BrainAssignment::Model {
            provider_id: provider_id.clone(),
            model_id: model_id.clone(),
            runtime_id: match runtime_id {
                Some(x) => Some(x.clone()),
                None => None,
            },
        },
    }
}

pub(crate) fn copy_member(m: &ArdTeamMember) -> (r: ArdTeamMember)
    ensures
        member_copied(r, *m),
{
    ArdTeamMember {
        id: m.id,
        name: m.name.clone(),
        role: m.role.clone(),
        brain: copy_brain(&m.brain),
        permission: m.permission.copy(),
        policy: RolePolicy {
            responsibilities: clone_strings(&m.policy.responsibilities),
            forbidden_actions: clone_strings(&m.policy.forbidden_actions),
            escalation_rules: clone_strings(&m.policy.escalation_rules),
        },
        workspace_id: m.workspace_id,
        reports_to: m.reports_to,
        handoff_to: m.handoff_to,
        enabled: m.enabled,
    }
}

fn copy_stage(s: &ArdWorkflowStage) -> (r: ArdWorkflowStage)
    ensures
        r == *s,
{
    ArdWorkflowStage {
        id: s.id,
        member_id: s.member_id,
        objective: s.objective.clone(),
        on_success: s.on_success,
        on_rework: s.on_rework,
        max_attempts: s.max_attempts,
    }
}

pub(crate) fn copy_handoff(h: &StructuredHandoff) -> (r: StructuredHandoff)
    ensures
        handoff_copied(r, *h),
{
    StructuredHandoff {
        id: h.id,
        from_member_id: h.from_member_id,
        to_member_id: h.to_member_id,
        decision: h.decision,
        task_result: h.task_result.clone(),
        decisions: clone_strings(&h.decisions),
        files_read: clone_strings(&h.files_read),
        files_changed: clone_strings(&h.files_changed),
        build_results: clone_strings(&h.build_results),
        tests_run: clone_strings(&h.tests_run),
        test_results: clone_strings(&h.test_results),
        known_issues: clone_strings(&h.known_issues),
        unresolved_questions: clone_strings(&h.unresolved_questions),
        next_action: h.next_action.clone(),
        confidence: h.confidence,
        created_at: h.created_at,
    }
}

fn copy_ids(v: &Vec<u128>) -> (r: Vec<u128>)
    ensures
        r@ == v@,
{
    let mut r: Vec<u128> = Vec::new();
    let mut i: usize = 0;
    while i < v.len()
        invariant
            i <= v.len(),
            r@ == v@.take(i as int),
        decreases v.len() - i,
    {
        r.push(v[i]);
        assert(v@.take(i + 1) =~= v@.take(i as int).push(v@[i as int]));
        i += 1;
    }
    assert(v@.take(v.len() as int) =~= v@);
    r
}

pub(crate) fn copy_intervention(x: &ArdIntervention) -> (r: ArdIntervention)
    ensures
        intervention_copied(r, *x),
{
    ArdIntervention {
        instruction: x.instruction.clone(),
        created_at: x.created_at,
        delivered_to: copy_ids(&x.delivered_to),
    }
}

/// Why no assignment can be made for a session, if anything stands in the way,
/// checked in this order.
pub open spec fn assignment_block(d: ArdCoordinator, id: ArdSessionId) -> Option<
    (DeveloperErrorKind, Seq<char>),
> {
    let p = session_pos(d.sessions@, id);
    let s = d.sessions@[p];
    let wp = workflow_pos(d.workflows@, s.workflow_id);
    let w = d.workflows@[wp];
    let k = stage_pos(w.stages@, s.current_stage_id->Some_0);
    let tp = team_pos(d.teams@, s.team_id);
    let mp = member_pos(d.teams@[tp].members@, w.stages@[k].member_id);
    if p < 0 {
        Some((DeveloperErrorKind::NotFound, session_missing_detail(id)))
    } else if s.state != ArdSessionState::Running {
        Some((DeveloperErrorKind::Invalid, "ARD session is not running"@))
    } else if wp < 0 {
        Some((DeveloperErrorKind::NotFound, "ARD workflow"@))
    } else if s.current_stage_id is None {
        Some((DeveloperErrorKind::Invalid, "ARD session has no current stage"@))
    } else if k < 0 {
        Some((DeveloperErrorKind::NotFound, "ARD stage"@))
    } else if tp < 0 {
        Some((DeveloperErrorKind::NotFound, "ARD team"@))
    } else if mp < 0 {
        Some((DeveloperErrorKind::NotFound, "ARD member"@))
    } else {
        None
    }
}

/// The assignment of a running session: its current stage, the member that
/// owns it with that member's policy text, the goal, the last three handoffs
/// (newest first) and all interventions.
pub open spec fn assignment_of(d: ArdCoordinator, id: ArdSessionId, a: ArdAssignment) -> bool {
    let s = d.sessions@[session_pos(d.sessions@, id)];
    let w = d.workflows@[workflow_pos(d.workflows@, s.workflow_id)];
    let st = w.stages@[stage_pos(w.stages@, s.current_stage_id->Some_0)];
    let team = d.teams@[team_pos(d.teams@, s.team_id)];
    let m = team.members@[member_pos(team.members@, st.member_id)];
    let h = s.handoffs@;
    let n = if h.len() < 3 {
        h.len()
    } else {
        3
    };
    &&& a.session_id == id
    &&& a.stage == st
    &&& member_copied(a.member, m)
    &&& a.goal == s.goal
    &&& a.relevant_handoffs@.len() == n
    &&& forall|i: int|
        0 <= i < n ==> handoff_copied(#[trigger] a.relevant_handoffs@[i], h[h.len() - 1 - i])
    &&& a.interventions@.len() == s.interventions@.len()
    &&& forall|i: int|
        0 <= i < s.interventions@.len() ==> intervention_copied(
            #[trigger] a.interventions@[i],
            s.interventions@[i],
        )
    &&& a.role_policy@ == crate::ard::system_policy_text(m)
}

impl ArdCoordinator {
    /// What the member owning the current stage of a running session is asked to do.
    pub fn current_assignment(&self, id: ArdSessionId) -> (r: Result<ArdAssignment, DeveloperError>)
        ensures
            match assignment_block(*self, id) {
                Some((kind, detail)) => r matches Err(e) && error_kind(e) == kind
                    && error_detail(e) == detail,
                None => r matches Ok(a) && assignment_of(*self, id, a),
            },
    {
        let p = match find_session(&self.sessions, id) {
            Some(p) => p,
            None => {
                return Err(
                    developer_error(
                        DeveloperErrorKind::NotFound,
                        concat2("ARD session ", crate::ids::uuid_text(id).as_str()),
                    ),
                );
            },
        };
        let s = &self.sessions[p];
        if s.state != ArdSessionState::Running {
            return Err(
                developer_error_lit(DeveloperErrorKind::Invalid, "ARD session is not running"),
            );
        }
        let wp = match find_workflow(&self.workflows, s.workflow_id) {
            Some(x) => x,
            None => {
                return Err(developer_error_lit(DeveloperErrorKind::NotFound, "ARD workflow"));
            },
        };
        let w = &self.workflows[wp];
        let cur = match s.current_stage_id {
            Some(c) => c,
            None => {
                return Err(
                    developer_error_lit(
                        DeveloperErrorKind::Invalid,
                        "ARD session has no current stage",
                    ),
                );
            },
        };
        let k = match find_stage(&w.stages, cur) {
            Some(x) => x,
            None => {
                return Err(developer_error_lit(DeveloperErrorKind::NotFound, "ARD stage"));
            },
        };
        let tp = match find_team(&self.teams, s.team_id) {
            Some(x) => x,
            None => {
                return Err(developer_error_lit(DeveloperErrorKind::NotFound, "ARD team"));
            },
        };
        let team = &self.teams[tp];
        let mp = match find_member(&team.members, w.stages[k].member_id) {
            Some(x) => x,
            None => {
                return Err(developer_error_lit(DeveloperErrorKind::NotFound, "ARD member"));
            },
        };
        let m = &team.members[mp];
        let h = &s.handoffs;
        let hn = h.len();
        let n: usize = if hn < 3 {
            hn
        } else {
            3
        };
        let mut recent: Vec<StructuredHandoff> = Vec::new();
        let mut i: usize = 0;
        while i < n
            invariant
                i <= n <= hn == h@.len(),
                n <= 3,
                recent@.len() == i,
                forall|j: int|
                    0 <= j < i ==> handoff_copied(#[trigger] recent@[j], h@[hn - 1 - j]),
            decreases n - i,
        {
            recent.push(copy_handoff(&h[hn - 1 - i]));
            i += 1;
        }
        let mut notes: Vec<ArdIntervention> = Vec::new();
        let mut j: usize = 0;
        while j < s.interventions.len()
            invariant
                j <= s.interventions@.len(),
                notes@.len() == j,
                forall|q: int|
                    0 <= q < j ==> intervention_copied(#[trigger] notes@[q], s.interventions@[q]),
            decreases s.interventions.len() - j,
        {
            notes.push(copy_intervention(&s.interventions[j]));
            j += 1;
        }
        Ok(
            ArdAssignment {
                session_id: id,
                stage: copy_stage(&w.stages[k]),
                member: copy_member(m),
                goal: s.goal.clone(),
                relevant_handoffs: recent,
                interventions: notes,
                role_policy: m.system_policy(),
            },
        )
    }

    /// Allows a tool call only for the member that owns the current stage and
    /// only within that member's permission.
    pub fn authorize_tool(
        &self,
        session_id: ArdSessionId,
        member_id: ArdMemberId,
        call: &ToolCall,
    ) -> (r: Result<(), DeveloperError>)
        ensures
            match assignment_block(*self, session_id) {
                Some((kind, detail)) => r matches Err(e) && error_kind(e) == kind
                    && error_detail(e) == detail,
                None => {
                    let s = self.sessions@[session_pos(self.sessions@, session_id)];
                    let w = self.workflows@[workflow_pos(self.workflows@, s.workflow_id)];
                    let st = w.stages@[stage_pos(w.stages@, s.current_stage_id->Some_0)];
                    let team = self.teams@[team_pos(self.teams@, s.team_id)];
                    let m = team.members@[member_pos(team.members@, st.member_id)];
                    if m.id != member_id {
                        r matches Err(e) && error_kind(e) == DeveloperErrorKind::Permission
                            && error_detail(e) == "member does not own the current ARD stage"@
                    } else if crate::ard::permission_allows(m.permission, *call) {
                        r is Ok
                    } else {
                        r matches Err(e) && error_kind(e) == DeveloperErrorKind::Permission
                            && error_detail(e) == m.name@ + " ("@ + m.role@ + ") cannot use "@
                            + crate::developer::tool_name(*call)
                    }
                },
            },
    {
        let a = match self.current_assignment(session_id) {
            Ok(a) => a,
            Err(e) => {
                return Err(e);
            },
        };
        if a.member.id != member_id {
            return Err(
                developer_error_lit(
                    DeveloperErrorKind::Permission,
                    "member does not own the current ARD stage",
                ),
            );
        }
        if a.member.permission.allows(call) {
            Ok(())
        } else {
            let mut detail = a.member.name.clone();
            detail.append(" (");
            detail.append(a.member.role.as_str());
            detail.append(") cannot use ");
            detail.append(call.name());
            Err(developer_error(DeveloperErrorKind::Permission, detail))
        }
    }
}

} // verus!

verus! {

/// `e` is `d` with the session at position `p` replaced by `t`.
pub open spec fn session_replaced(d: ArdCoordinator, e: ArdCoordinator, p: int, t: ArdSession) -> bool {
    crate::ard::same_except_sessions(d, e) && e.sessions@ == d.sessions@.update(p, t)
}

pub open spec fn not_found_session(
    d: ArdCoordinator,
    e: ArdCoordinator,
    id: ArdSessionId,
    r: Result<(), DeveloperError>,
) -> bool {
    crate::ard::is_error(r, DeveloperErrorKind::NotFound, session_missing_detail(id))
        && crate::ard::unchanged(d, e)
}

/// The effect of `begin_stage_execution`.
pub open spec fn begin_execution_post(
    d: ArdCoordinator,
    e: ArdCoordinator,
    id: ArdSessionId,
    stage_id: ArdStageId,
    member_id: ArdMemberId,
    task_id: DeveloperTaskId,
    model: Seq<char>,
    now: Timestamp,
    r: Result<(), DeveloperError>,
) -> bool {
    let p = session_pos(d.sessions@, id);
    let s = d.sessions@[p];
    if p < 0 {
        not_found_session(d, e, id, r)
    } else if s.state != ArdSessionState::Running {
        crate::ard::is_error(r, DeveloperErrorKind::Invalid, "ARD session is not running"@)
            && crate::ard::unchanged(d, e)
    } else if s.current_stage_id != Some(stage_id) || s.active_execution is Some {
        crate::ard::is_error(
            r,
            DeveloperErrorKind::Invalid,
            "ARD stage execution does not match the current stage"@,
        ) && crate::ard::unchanged(d, e)
    } else {
        let t = e.sessions@[p];
        let x = t.active_execution->Some_0;
        &&& r is Ok
        &&& session_replaced(d, e, p, t)
        &&& t.active_execution is Some
        &&& x.stage_id == stage_id && x.member_id == member_id && x.developer_task_id == task_id
        &&& x.resolved_model@ == model && x.status == ArdExecutionStatus::Running
        &&& x.started_at == now && x.finished_at is None
        &&& activity_pushed(
            ArdSession { active_execution: t.active_execution, ..s },
            t,
            Some(member_id),
            "agent_task_started"@,
            "Developer Agent Taskを自動起動しました"@,
            now,
        )
    }
}

/// The effect of `finish_stage_execution`.
pub open spec fn finish_execution_post(
    d: ArdCoordinator,
    e: ArdCoordinator,
    id: ArdSessionId,
    task_id: DeveloperTaskId,
    status: ArdExecutionStatus,
    now: Timestamp,
    r: Result<(), DeveloperError>,
) -> bool {
    let p = session_pos(d.sessions@, id);
    let s = d.sessions@[p];
    let x = s.active_execution->Some_0;
    if p < 0 {
        not_found_session(d, e, id, r)
    } else if s.active_execution is None {
        crate::ard::is_error(r, DeveloperErrorKind::NotFound, "active ARD stage execution"@)
            && crate::ard::unchanged(d, e)
    } else if x.developer_task_id != task_id {
        crate::ard::is_error(
            r,
            DeveloperErrorKind::Invalid,
            "Developer Task does not own the active ARD execution"@,
        ) && crate::ard::unchanged(d, e)
    } else {
        let t = e.sessions@[p];
        &&& r is Ok
        &&& session_replaced(d, e, p, t)
        &&& t.executions@ == s.executions@.push(
            ArdStageExecution { status, finished_at: Some(now), ..x },
        )
        &&& activity_pushed(
            ArdSession { active_execution: None, executions: t.executions, ..s },
            t,
            Some(x.member_id),
            "agent_task_finished"@,
            "Developer Agent Taskの結果をARDへ返しました"@,
            now,
        )
    }
}

/// The effect of `append_activity`.
pub open spec fn append_activity_post(
    d: ArdCoordinator,
    e: ArdCoordinator,
    id: ArdSessionId,
    member_id: Option<ArdMemberId>,
    kind: Seq<char>,
    message: Seq<char>,
    now: Timestamp,
    r: Result<(), DeveloperError>,
) -> bool {
    let p = session_pos(d.sessions@, id);
    if p < 0 {
        not_found_session(d, e, id, r)
    } else {
        let t = e.sessions@[p];
        &&& r is Ok
        &&& session_replaced(d, e, p, t)
        &&& activity_pushed(d.sessions@[p], t, member_id, kind, message, now)
    }
}

/// The message logged for a brain resolution.
pub open spec fn resolution_message(res: BrainResolution) -> Seq<char> {
    "Brain "@ + res.requested@ + " → "@ + res.resolved_brain.provider_id@ + "/"@
        + res.resolved_brain.model_id@ + " ("@ + res.reason@ + ")"@
}

/// `x` records `res` for the assignment's stage and member at time `now`.
pub open spec fn resolution_recorded(
    x: BrainResolutionRecord,
    a: ArdAssignment,
    res: BrainResolution,
    now: Timestamp,
) -> bool {
    &&& x.stage_id == a.stage.id
    &&& x.member_id == a.member.id
    &&& x.requested == res.requested
    &&& x.provider_id == res.resolved_brain.provider_id
    &&& x.model_id == res.resolved_brain.model_id
    &&& x.runtime_id == res.resolved_brain.runtime_id
    &&& x.reason == res.reason
    &&& x.compatibility == res.compatibility
    &&& x.fallback_used == res.fallback_used
    &&& x.required_capabilities@ == res.required_capabilities@
    &&& x.score == res.score
    &&& x.occurred_at == now
}

/// The effect of `record_brain_resolution`.
pub open spec fn brain_resolution_post(
    d: ArdCoordinator,
    e: ArdCoordinator,
    id: ArdSessionId,
    a: ArdAssignment,
    res: BrainResolution,
    now: Timestamp,
    r: Result<(), DeveloperError>,
) -> bool {
    let p = session_pos(d.sessions@, id);
    let s = d.sessions@[p];
    if p < 0 {
        not_found_session(d, e, id, r)
    } else {
        let t = e.sessions@[p];
        &&& r is Ok
        &&& session_replaced(d, e, p, t)
        &&& t.brain_resolutions@.len() == s.brain_resolutions@.len() + 1
        &&& t.brain_resolutions@.drop_last() == s.brain_resolutions@
        &&& resolution_recorded(t.brain_resolutions@.last(), a, res, now)
        &&& activity_pushed(
            ArdSession { brain_resolutions: t.brain_resolutions, ..s },
            t,
            Some(a.member.id),
            "brain_resolved"@,
            resolution_message(res),
            now,
        )
    }
}

pub(crate) fn copy_opt_string(s: &Option<String>) -> (r: Option<String>)
    ensures
        r == *s,
{
    match s {
        Some(x) => Some(x.clone()),
        None => None,
    }
}

impl ArdCoordinator {
    /// Records that an agent task started for the current stage at time `now`;
    /// see `begin_execution_post`.
    pub fn begin_stage_execution_at(
        &mut self,
        id: ArdSessionId,
        stage_id: ArdStageId,
        member_id: ArdMemberId,
        developer_task_id: DeveloperTaskId,
        resolved_model: &str,
        now: Timestamp,
    ) -> (r: Result<(), DeveloperError>)
        ensures
            begin_execution_post(
                *old(self),
                *final(self),
                id,
                stage_id,
                member_id,
                developer_task_id,
                resolved_model@,
                now,
                r,
            ),
            final(self).well_linked() == old(self).well_linked(),
    {
        let p = match find_session(&self.sessions, id) {
            Some(p) => p,
            None => {
                return Err(
                    developer_error(
                        DeveloperErrorKind::NotFound,
                        concat2("ARD session ", crate::ids::uuid_text(id).as_str()),
                    ),
                );
            },
        };
        if self.sessions[p].state != ArdSessionState::Running {
            return Err(
                developer_error_lit(DeveloperErrorKind::Invalid, "ARD session is not running"),
            );
        }
        if self.sessions[p].current_stage_id != Some(stage_id)
            || self.sessions[p].active_execution.is_some() {
            return Err(
                developer_error_lit(
                    DeveloperErrorKind::Invalid,
                    "ARD stage execution does not match the current stage",
                ),
            );
        }
        let mut session = self.sessions.remove(p);
        session.active_execution = Some(
            ArdStageExecution {
                stage_id,
                member_id,
                developer_task_id,
                resolved_model: owned(resolved_model),
                status: ArdExecutionStatus::Running,
                started_at: now,
                finished_at: None,
            },
        );
        push_activity(
            &mut session,
            Some(member_id),
            "agent_task_started",
            "Developer Agent Taskを自動起動しました",
            now,
        );
        self.sessions.insert(p, session);
        proof {
            assert(self.sessions@ =~= old(self).sessions@.update(p as int, self.sessions@[p as int]));
            assert(self.workflows == old(self).workflows);
        }
        Ok(())
    }

    /// Records the end of the active agent task at time `now`; see
    /// `finish_execution_post`.
    pub fn finish_stage_execution_at(
        &mut self,
        id: ArdSessionId,
        developer_task_id: DeveloperTaskId,
        status: ArdExecutionStatus,
        now: Timestamp,
    ) -> (r: Result<(), DeveloperError>)
        ensures
            finish_execution_post(*old(self), *final(self), id, developer_task_id, status, now, r),
            final(self).well_linked() == old(self).well_linked(),
    {
        let p = match find_session(&self.sessions, id) {
            Some(p) => p,
            None => {
                return Err(
                    developer_error(
                        DeveloperErrorKind::NotFound,
                        concat2("ARD session ", crate::ids::uuid_text(id).as_str()),
                    ),
                );
            },
        };
        match &self.sessions[p].active_execution {
            None => {
                return Err(
                    developer_error_lit(DeveloperErrorKind::NotFound, "active ARD stage execution"),
                );
            },
            Some(x) => {
                if x.developer_task_id != developer_task_id {
                    return Err(
                        developer_error_lit(
                            DeveloperErrorKind::Invalid,
                            "Developer Task does not own the active ARD execution",
                        ),
                    );
                }
            },
        }
        let mut session = self.sessions.remove(p);
        let ghost s0 = session;
        let mut execution = match session.active_execution.take() {
            Some(x) => x,
            None => {
                return Err(
                    developer_error_lit(DeveloperErrorKind::NotFound, "active ARD stage execution"),
                );
            },
        };
        execution.status = status;
        execution.finished_at = Some(now);
        let member = execution.member_id;
        session.executions.push(execution);
        push_activity(
            &mut session,
            Some(member),
            "agent_task_finished",
            "Developer Agent Taskの結果をARDへ返しました",
            now,
        );
        self.sessions.insert(p, session);
        proof {
            assert(self.sessions@ =~= old(self).sessions@.update(p as int, self.sessions@[p as int]));
            assert(self.workflows == old(self).workflows);
        }
        Ok(())
    }

    /// Appends an activity entry to a session at time `now`.
    pub fn append_activity_at(
        &mut self,
        id: ArdSessionId,
        member_id: Option<ArdMemberId>,
        kind: &str,
        message: &str,
        now: Timestamp,
    ) -> (r: Result<(), DeveloperError>)
        ensures
            append_activity_post(*old(self), *final(self), id, member_id, kind@, message@, now, r),
            final(self).well_linked() == old(self).well_linked(),
    {
        let p = match find_session(&self.sessions, id) {
            Some(p) => p,
            None => {
                return Err(
                    developer_error(
                        DeveloperErrorKind::NotFound,
                        concat2("ARD session ", crate::ids::uuid_text(id).as_str()),
                    ),
                );
            },
        };
        let mut session = self.sessions.remove(p);
        push_activity(&mut session, member_id, kind, message, now);
        self.sessions.insert(p, session);
        proof {
            assert(self.sessions@ =~= old(self).sessions@.update(p as int, self.sessions@[p as int]));
            assert(self.workflows == old(self).workflows);
        }
        Ok(())
    }

    /// Records how the brain of the assignment's member was resolved, at time `now`.
    pub fn record_brain_resolution_at(
        &mut self,
        id: ArdSessionId,
        assignment: &ArdAssignment,
        resolution: &BrainResolution,
        now: Timestamp,
    ) -> (r: Result<(), DeveloperError>)
        ensures
            brain_resolution_post(*old(self), *final(self), id, *assignment, *resolution, now, r),
            final(self).well_linked() == old(self).well_linked(),
    {
        let p = match find_session(&self.sessions, id) {
            Some(p) => p,
            None => {
                return Err(
                    developer_error(
                        DeveloperErrorKind::NotFound,
                        concat2("ARD session ", crate::ids::uuid_text(id).as_str()),
                    ),
                );
            },
        };
        let mut session = self.sessions.remove(p);
        let ghost before = session.brain_resolutions@;
        session.brain_resolutions.push(
            BrainResolutionRecord {
                stage_id: assignment.stage.id,
                member_id: assignment.member.id,
                requested: resolution.requested.clone(),
                provider_id: resolution.resolved_brain.provider_id.clone(),
                model_id: resolution.resolved_brain.model_id.clone(),
                runtime_id: copy_opt_string(&resolution.resolved_brain.runtime_id),
                reason: resolution.reason.clone(),
                compatibility: resolution.compatibility.clone(),
                fallback_used: resolution.fallback_used,
                required_capabilities: clone_strings(&resolution.required_capabilities),
                score: resolution.score,
                occurred_at: now,
            },
        );
        let mut message = owned("Brain ");
        message.append(resolution.requested.as_str());
        message.append(" → ");
        message.append(resolution.resolved_brain.label().as_str());
        message.append(" (");
        message.append(resolution.reason.as_str());
        message.append(")");
        assert(session.brain_resolutions@.drop_last() =~= before);
        assert(message@ =~= resolution_message(*resolution));
        push_activity(
            &mut session,
            Some(assignment.member.id),
            "brain_resolved",
            message.as_str(),
            now,
        );
        self.sessions.insert(p, session);
        proof {
            assert(self.sessions@ =~= old(self).sessions@.update(p as int, self.sessions@[p as int]));
            assert(self.workflows == old(self).workflows);
        }
        Ok(())
    }
}

} // verus!

verus! {

/// The first event message of a rotation that begins for `plan`.
pub open spec fn rotation_start_message(plan: ModelRotationPlan) -> Seq<char> {
    if plan.rotation_required {
        "Model rotation "@ + (match plan.current_model {
            Some(m) => m@,
            None => "none"@,
        }) + " → "@ + plan.next_model@
    } else {
        "Model reuseを確認します: "@ + plan.next_model@
    }
}

/// The activity message of a rotation that begins for `plan`.
pub open spec fn rotation_start_activity(plan: ModelRotationPlan) -> Seq<char> {
    if plan.rotation_required {
        "次の担当者のためモデル切替を開始しました"@
    } else {
        "同一モデルを再利用できるか実Runtimeを確認します"@
    }
}

/// `x` is the running rotation record begun for `plan` at time `now`.
pub open spec fn rotation_begun(x: ModelRotationRecord, plan: ModelRotationPlan, now: Timestamp) -> bool {
    &&& x.from == plan.current_model
    &&& x.to == Some(plan.next_model)
    &&& !x.reused_loaded_model
    &&& x.router_required
    &&& x.occurred_at == now
    &&& x.current_runtime == plan.current_runtime
    &&& x.next_runtime == plan.next_runtime
    &&& x.status == ModelRotationStatus::Running
    &&& x.attempts == 0
    &&& x.events@.len() == 1
    &&& x.events@[0].kind == ModelRotationEventKind::ModelRotationStarted
    &&& x.events@[0].message@ == rotation_start_message(plan)
    &&& x.finished_at is None
}

/// The effect of `begin_model_rotation`.
pub open spec fn begin_rotation_post(
    d: ArdCoordinator,
    e: ArdCoordinator,
    id: ArdSessionId,
    member_id: ArdMemberId,
    plan: ModelRotationPlan,
    now: Timestamp,
    r: Result<(), DeveloperError>,
) -> bool {
    let p = session_pos(d.sessions@, id);
    let s = d.sessions@[p];
    if p < 0 {
        not_found_session(d, e, id, r)
    } else if s.active_rotation is Some {
        crate::ard::is_error(r, DeveloperErrorKind::Invalid, "a model rotation is already active"@)
            && crate::ard::unchanged(d, e)
    } else {
        let t = e.sessions@[p];
        &&& r is Ok
        &&& session_replaced(d, e, p, t)
        &&& t.active_rotation matches Some(x) && rotation_begun(x, plan, now)
        &&& activity_pushed(
            ArdSession { active_rotation: t.active_rotation, ..s },
            t,
            Some(member_id),
            "model_rotation_started"@,
            rotation_start_activity(plan),
            now,
        )
    }
}

/// The activity kind logged for a rotation event.
pub open spec fn rotation_event_kind(k: ModelRotationEventKind) -> Seq<char> {
    match k {
        ModelRotationEventKind::ModelRotationStarted => "model_rotation_started"@,
        ModelRotationEventKind::ModelUnloading => "model_unloading"@,
        ModelRotationEventKind::ModelLoading => "model_loading"@,
        ModelRotationEventKind::ModelReused => "model_reused"@,
        ModelRotationEventKind::ModelRotationCompleted => "model_rotation_completed"@,
        ModelRotationEventKind::ModelRotationFailed => "model_rotation_failed"@,
    }
}

pub fn rotation_event_kind_name(k: ModelRotationEventKind) -> (r: &'static str)
    ensures
        r@ == rotation_event_kind(k),
{
    match k {
        ModelRotationEventKind::ModelRotationStarted => "model_rotation_started",
        ModelRotationEventKind::ModelUnloading => "model_unloading",
        ModelRotationEventKind::ModelLoading => "model_loading",
        ModelRotationEventKind::ModelReused => "model_reused",
        ModelRotationEventKind::ModelRotationCompleted => "model_rotation_completed",
        ModelRotationEventKind::ModelRotationFailed => "model_rotation_failed",
    }
}

/// The effect of `append_model_rotation_event`.
pub open spec fn rotation_event_post(
    d: ArdCoordinator,
    e: ArdCoordinator,
    id: ArdSessionId,
    member_id: ArdMemberId,
    event: ModelRotationEvent,
    now: Timestamp,
    r: Result<(), DeveloperError>,
) -> bool {
    let p = session_pos(d.sessions@, id);
    let s = d.sessions@[p];
    let x = s.active_rotation->Some_0;
    if p < 0 {
        not_found_session(d, e, id, r)
    } else if s.active_rotation is None {
        crate::ard::is_error(r, DeveloperErrorKind::NotFound, "active model rotation"@)
            && crate::ard::unchanged(d, e)
    } else {
        let t = e.sessions@[p];
        let y = t.active_rotation->Some_0;
        &&& r is Ok
        &&& session_replaced(d, e, p, t)
        &&& t.active_rotation is Some
        &&& y == ModelRotationRecord { events: y.events, ..x }
        &&& y.events@ == x.events@.push(event)
        &&& activity_pushed(
            ArdSession { active_rotation: t.active_rotation, ..s },
            t,
            Some(member_id),
            rotation_event_kind(event.kind),
            event.message@,
            now,
        )
    }
}

/// The effect of `finish_model_rotation`.
pub open spec fn finish_rotation_post(
    d: ArdCoordinator,
    e: ArdCoordinator,
    id: ArdSessionId,
    member_id: ArdMemberId,
    success: bool,
    attempts: u32,
    reused: bool,
    detail: Seq<char>,
    now: Timestamp,
    r: Result<(), DeveloperError>,
) -> bool {
    let p = session_pos(d.sessions@, id);
    let s = d.sessions@[p];
    let x = s.active_rotation->Some_0;
    if p < 0 {
        not_found_session(d, e, id, r)
    } else if s.active_rotation is None {
        crate::ard::is_error(r, DeveloperErrorKind::NotFound, "active model rotation"@)
            && crate::ard::unchanged(d, e)
    } else {
        let t = e.sessions@[p];
        let done = ModelRotationRecord {
            status: if success {
                ModelRotationStatus::Completed
            } else {
                ModelRotationStatus::Failed
            },
            attempts,
            reused_loaded_model: reused,
            finished_at: Some(now),
            ..x
        };
        let mid = ArdSession {
            active_rotation: None,
            model_rotations: t.model_rotations,
            active_model: if success {
                x.to
            } else {
                s.active_model
            },
            active_runtime: if success {
                Some(x.next_runtime)
            } else {
                s.active_runtime
            },
            ..s
        };
        &&& r is Ok
        &&& session_replaced(d, e, p, t)
        &&& t.model_rotations@ == s.model_rotations@.push(done)
        &&& activity_pushed(
            mid,
            t,
            Some(member_id),
            if success {
                "model_rotation_ready"@
            } else {
                "model_rotation_failed"@
            },
            detail,
            now,
        )
    }
}

/// The members an intervention reaches: the owner of the current stage, when
/// the session has one and it resolves in its workflow.
pub open spec fn intervention_targets(d: ArdCoordinator, s: ArdSession) -> Seq<ArdMemberId> {
    let wp = workflow_pos(d.workflows@, s.workflow_id);
    let w = d.workflows@[wp];
    let k = stage_pos(w.stages@, s.current_stage_id->Some_0);
    if s.current_stage_id is Some && wp >= 0 && k >= 0 {
        seq![w.stages@[k].member_id]
    } else {
        Seq::empty()
    }
}

/// The effect of `intervene`.
pub open spec fn intervene_post(
    d: ArdCoordinator,
    e: ArdCoordinator,
    id: ArdSessionId,
    instruction: Seq<char>,
    now: Timestamp,
    r: Result<(), DeveloperError>,
) -> bool {
    let p = session_pos(d.sessions@, id);
    let s = d.sessions@[p];
    if !text_acceptable(instruction) {
        crate::ard::is_error(
            r,
            DeveloperErrorKind::Invalid,
            "intervention"@ + " is blank or oversized"@,
        ) && crate::ard::unchanged(d, e)
    } else if p < 0 {
        not_found_session(d, e, id, r)
    } else {
        let t = e.sessions@[p];
        let x = t.interventions@.last();
        &&& r is Ok
        &&& session_replaced(d, e, p, t)
        &&& t.interventions@.len() == s.interventions@.len() + 1
        &&& t.interventions@.drop_last() == s.interventions@
        &&& x.instruction@ == instruction && x.created_at == now
        &&& x.delivered_to@ == intervention_targets(d, s)
        &&& activity_pushed(
            ArdSession { interventions: t.interventions, ..s },
            t,
            None,
            "user_intervention"@,
            "ユーザーの追加指示をARD Stateへ反映しました"@,
            now,
        )
    }
}

impl ArdCoordinator {
    /// Opens a model rotation for `plan` at time `now`; see `begin_rotation_post`.
    pub fn begin_model_rotation_at(
        &mut self,
        id: ArdSessionId,
        member_id: ArdMemberId,
        plan: &ModelRotationPlan,
        now: Timestamp,
    ) -> (r: Result<(), DeveloperError>)
        ensures
            begin_rotation_post(*old(self), *final(self), id, member_id, *plan, now, r),
            final(self).well_linked() == old(self).well_linked(),
    {
        let p = match find_session(&self.sessions, id) {
            Some(p) => p,
            None => {
                return Err(
                    developer_error(
                        DeveloperErrorKind::NotFound,
                        concat2("ARD session ", crate::ids::uuid_text(id).as_str()),
                    ),
                );
            },
        };
        if self.sessions[p].active_rotation.is_some() {
            return Err(
                developer_error_lit(
                    DeveloperErrorKind::Invalid,
                    "a model rotation is already active",
                ),
            );
        }
        let message = if plan.rotation_required {
            let mut m = owned("Model rotation ");
            match &plan.current_model {
                Some(c) => m.append(c.as_str()),
                None => m.append("none"),
            }
            m.append(" → ");
            m.append(plan.next_model.as_str());
            m
        } else {
            concat2("Model reuseを確認します: ", plan.next_model.as_str())
        };
        assert(message@ =~= rotation_start_message(*plan));
        let mut events: Vec<ModelRotationEvent> = Vec::new();
        events.push(
            ModelRotationEvent { kind: ModelRotationEventKind::ModelRotationStarted, message },
        );
        let mut session = self.sessions.remove(p);
        session.active_rotation = Some(
            ModelRotationRecord {
                from: copy_opt_string(&plan.current_model),
                to: Some(plan.next_model.clone()),
                reused_loaded_model: false,
                router_required: true,
                occurred_at: now,
                current_runtime: copy_opt_string(&plan.current_runtime),
                next_runtime: plan.next_runtime.clone(),
                status: ModelRotationStatus::Running,
                attempts: 0,
                events,
                finished_at: None,
            },
        );
        let note = if plan.rotation_required {
            "次の担当者のためモデル切替を開始しました"
        } else {
            "同一モデルを再利用できるか実Runtimeを確認します"
        };
        push_activity(&mut session, Some(member_id), "model_rotation_started", note, now);
        self.sessions.insert(p, session);
        proof {
            assert(self.sessions@ =~= old(self).sessions@.update(p as int, self.sessions@[p as int]));
            assert(self.workflows == old(self).workflows);
        }
        Ok(())
    }

    /// Adds an event to the active model rotation at time `now`; see
    /// `rotation_event_post`.
    pub fn append_model_rotation_event_at(
        &mut self,
        id: ArdSessionId,
        member_id: ArdMemberId,
        event: ModelRotationEvent,
        now: Timestamp,
    ) -> (r: Result<(), DeveloperError>)
        ensures
            rotation_event_post(*old(self), *final(self), id, member_id, event, now, r),
            final(self).well_linked() == old(self).well_linked(),
    {
        let p = match find_session(&self.sessions, id) {
            Some(p) => p,
            None => {
                return Err(
                    developer_error(
                        DeveloperErrorKind::NotFound,
                        concat2("ARD session ", crate::ids::uuid_text(id).as_str()),
                    ),
                );
            },
        };
        if self.sessions[p].active_rotation.is_none() {
            return Err(developer_error_lit(DeveloperErrorKind::NotFound, "active model rotation"));
        }
        let kind = rotation_event_kind_name(event.kind);
        let message = event.message.clone();
        let mut session = self.sessions.remove(p);
        let mut rotation = match session.active_rotation.take() {
            Some(x) => x,
            None => {
                return Err(
                    developer_error_lit(DeveloperErrorKind::NotFound, "active model rotation"),
                );
            },
        };
        rotation.events.push(event);
        session.active_rotation = Some(rotation);
        push_activity(&mut session, Some(member_id), kind, message.as_str(), now);
        self.sessions.insert(p, session);
        proof {
            assert(self.sessions@ =~= old(self).sessions@.update(p as int, self.sessions@[p as int]));
            assert(self.workflows == old(self).workflows);
        }
        Ok(())
    }

    /// Closes the active model rotation at time `now`; see `finish_rotation_post`.
    pub fn finish_model_rotation_at(
        &mut self,
        id: ArdSessionId,
        member_id: ArdMemberId,
        success: bool,
        attempts: u32,
        reused: bool,
        detail: &str,
        now: Timestamp,
    ) -> (r: Result<(), DeveloperError>)
        ensures
            finish_rotation_post(
                *old(self),
                *final(self),
                id,
                member_id,
                success,
                attempts,
                reused,
                detail@,
                now,
                r,
            ),
            final(self).well_linked() == old(self).well_linked(),
    {
        let p = match find_session(&self.sessions, id) {
            Some(p) => p,
            None => {
                return Err(
                    developer_error(
                        DeveloperErrorKind::NotFound,
                        concat2("ARD session ", crate::ids::uuid_text(id).as_str()),
                    ),
                );
            },
        };
        if self.sessions[p].active_rotation.is_none() {
            return Err(developer_error_lit(DeveloperErrorKind::NotFound, "active model rotation"));
        }
        let mut session = self.sessions.remove(p);
        let mut rotation = match session.active_rotation.take() {
            Some(x) => x,
            None => {
                return Err(
                    developer_error_lit(DeveloperErrorKind::NotFound, "active model rotation"),
                );
            },
        };
        rotation.status = if success {
            ModelRotationStatus::Completed
        } else {
            ModelRotationStatus::Failed
        };
        rotation.attempts = attempts;
        rotation.reused_loaded_model = reused;
        rotation.finished_at = Some(now);
        if success {
            session.active_model = copy_opt_string(&rotation.to);
            session.active_runtime = Some(rotation.next_runtime.clone());
        }
        session.model_rotations.push(rotation);
        let kind = if success {
            "model_rotation_ready"
        } else {
            "model_rotation_failed"
        };
        push_activity(&mut session, Some(member_id), kind, detail, now);
        self.sessions.insert(p, session);
        proof {
            assert(self.sessions@ =~= old(self).sessions@.update(p as int, self.sessions@[p as int]));
            assert(self.workflows == old(self).workflows);
        }
        Ok(())
    }

    /// Records a user instruction for a session at time `now`; see `intervene_post`.
    pub fn intervene_at(&mut self, id: ArdSessionId, instruction: &str, now: Timestamp) -> (r: Result<
        (),
        DeveloperError,
    >)
        ensures
            intervene_post(*old(self), *final(self), id, instruction@, now, r),
            final(self).well_linked() == old(self).well_linked(),
    {
        match validate_text("intervention", instruction) {
            Err(x) => {
                return Err(x);
            },
            Ok(()) => {},
        }
        let p = match find_session(&self.sessions, id) {
            Some(p) => p,
            None => {
                return Err(
                    developer_error(
                        DeveloperErrorKind::NotFound,
                        concat2("ARD session ", crate::ids::uuid_text(id).as_str()),
                    ),
                );
            },
        };
        let mut delivered_to: Vec<ArdMemberId> = Vec::new();
        match self.sessions[p].current_stage_id {
            Some(sid) => {
                match find_workflow(&self.workflows, self.sessions[p].workflow_id) {
                    Some(wp) => {
                        match find_stage(&self.workflows[wp].stages, sid) {
                            Some(k) => {
                                delivered_to.push(self.workflows[wp].stages[k].member_id);
                            },
                            None => {},
                        }
                    },
                    None => {},
                }
            },
            None => {},
        }
        assert(delivered_to@ =~= intervention_targets(*self, self.sessions@[p as int]));
        let mut session = self.sessions.remove(p);
        let ghost before = session.interventions@;
        session.interventions.push(
            ArdIntervention { instruction: owned(instruction), created_at: now, delivered_to },
        );
        assert(session.interventions@.drop_last() =~= before);
        push_activity(
            &mut session,
            None,
            "user_intervention",
            "ユーザーの追加指示をARD Stateへ反映しました",
            now,
        );
        self.sessions.insert(p, session);
        proof {
            assert(self.sessions@ =~= old(self).sessions@.update(p as int, self.sessions@[p as int]));
            assert(self.workflows == old(self).workflows);
        }
        Ok(())
    }
}

} // verus!

verus! {

/// As many fresh identifiers as asked for; `None` when the random source fails.
fn fresh_ids(n: usize) -> (r: Option<Vec<u128>>)
    ensures
        r matches Some(v) ==> v@.len() == n,
{
    let mut v: Vec<u128> = Vec::new();
    let mut i: usize = 0;
    while i < n
        invariant
            i <= n,
            v@.len() == i,
        decreases n - i,
    {
        match crate::platform::fresh_id() {
            Some(x) => v.push(x),
            None => {
                return None;
            },
        }
        i += 1;
    }
    Some(v)
}

impl ArdCoordinator {
    /// Builds and stores the relay workflow of a team now, with fresh identifiers.
    pub fn create_relay_workflow(&mut self, team_id: ArdTeamId, name: &str) -> (r: Result<
        ArdWorkflowId,
        DeveloperError,
    >)
        ensures
            workflow_refused(*old(self), team_id, name@) ==> forall|
                workflow_id: ArdWorkflowId,
                ids: Seq<ArdStageId>,
                now: Timestamp,
            |
                #[trigger] relay_workflow_post(
                    *old(self),
                    *final(self),
                    team_id,
                    name@,
                    workflow_id,
                    ids,
                    now,
                    r,
                ),
            !workflow_refused(*old(self), team_id, name@) ==> (r matches Err(e) && crate::developer::platform_failure(e) && *final(self) == *old(self))
                || exists|workflow_id: ArdWorkflowId, ids: Seq<ArdStageId>, now: Timestamp|
                #[trigger] relay_workflow_post(
                    *old(self),
                    *final(self),
                    team_id,
                    name@,
                    workflow_id,
                    ids,
                    now,
                    r,
                ),
            old(self).well_linked() ==> final(self).well_linked(),
    {
        let count = match find_team(&self.teams, team_id) {
            Some(p) => self.teams[p].members.len(),
            None => 0,
        };
        if self.workflow_is_refused(team_id, name) {
            let mut zeros: Vec<ArdStageId> = Vec::new();
            let mut i: usize = 0;
            while i < count
                invariant
                    i <= count,
                    zeros@.len() == i,
                decreases count - i,
            {
                zeros.push(0);
                i += 1;
            }
            return self.create_relay_workflow_at(team_id, name, 0, &zeros, 0);
        }
        let ids = match fresh_ids(count) {
            Some(v) => v,
            None => {
                return Err(crate::developer::random_failure());
            },
        };
        let workflow_id = match crate::platform::fresh_id() {
            Some(v) => v,
            None => {
                return Err(crate::developer::random_failure());
            },
        };
        let now = match crate::platform::now_millis() {
            Some(t) => t,
            None => {
                return Err(crate::developer::clock_failure());
            },
        };
        self.create_relay_workflow_at(team_id, name, workflow_id, &ids, now)
    }

    /// The workflows built for a team, in document order.
    pub fn list_workflows(&self, team_id: ArdTeamId) -> (r: Vec<&ArdWorkflow>)
        ensures
            r@.len() == self.workflows@.filter(|w: ArdWorkflow| w.team_id == team_id).len(),
            forall|i: int|
                0 <= i < r@.len() ==> *#[trigger] r@[i] == self.workflows@.filter(
                    |w: ArdWorkflow| w.team_id == team_id,
                )[i],
    {
        let ghost keep = |w: ArdWorkflow| w.team_id == team_id;
        let mut r: Vec<&ArdWorkflow> = Vec::new();
        let mut i: usize = 0;
        while i < self.workflows.len()
            invariant
                i <= self.workflows@.len(),
                keep == (|w: ArdWorkflow| w.team_id == team_id),
                r@.len() == self.workflows@.take(i as int).filter(keep).len(),
                forall|j: int|
                    0 <= j < r@.len() ==> *#[trigger] r@[j] == self.workflows@.take(
                        i as int,
                    ).filter(keep)[j],
            decreases self.workflows.len() - i,
        {
            let ghost prev = self.workflows@.take(i as int);
            assert(self.workflows@.take(i + 1).drop_last() =~= prev);
            reveal(Seq::filter);
            let w = &self.workflows[i];
            if w.team_id == team_id {
                r.push(w);
            }
            i += 1;
        }
        assert(self.workflows@.take(self.workflows.len() as int) =~= self.workflows@);
        r
    }

    /// Starts a session of a workflow now, under a fresh identifier.
    pub fn start_session(&mut self, workflow_id: ArdWorkflowId, goal: &str) -> (r: Result<
        ArdSessionId,
        DeveloperError,
    >)
        ensures
            session_start_refused(*old(self), workflow_id, goal@) ==> forall|id: ArdSessionId, now: Timestamp|
                #[trigger] start_session_post(*old(self), *final(self), workflow_id, goal@, id, now, r),
            !session_start_refused(*old(self), workflow_id, goal@) ==> (r matches Err(e) && crate::developer::platform_failure(e) && *final(self) == *old(self))
                || exists|id: ArdSessionId, now: Timestamp|
                #[trigger] start_session_post(*old(self), *final(self), workflow_id, goal@, id, now, r),
            final(self).well_linked() == old(self).well_linked(),
    {
        if self.session_start_is_refused(workflow_id, goal) {
            return self.start_session_at(workflow_id, goal, 0, 0);
        }
        let id = match crate::platform::fresh_id() {
            Some(v) => v,
            None => {
                return Err(crate::developer::random_failure());
            },
        };
        let now = match crate::platform::now_millis() {
            Some(t) => t,
            None => {
                return Err(crate::developer::clock_failure());
            },
        };
        self.start_session_at(workflow_id, goal, id, now)
    }

    /// Records now that an agent task started for the current stage.
    pub fn begin_stage_execution(
        &mut self,
        id: ArdSessionId,
        stage_id: ArdStageId,
        member_id: ArdMemberId,
        developer_task_id: DeveloperTaskId,
        resolved_model: &str,
    ) -> (r: Result<(), DeveloperError>)
        ensures
            execution_start_refused(*old(self), id, stage_id) ==> forall|now: Timestamp|
                #[trigger] begin_execution_post(
                    *old(self),
                    *final(self),
                    id,
                    stage_id,
                    member_id,
                    developer_task_id,
                    resolved_model@,
                    now,
                    r,
                ),
            !execution_start_refused(*old(self), id, stage_id) ==> (r matches Err(e) && crate::developer::platform_failure(e) && *final(self) == *old(self)) || exists|now: Timestamp|
                #[trigger] begin_execution_post(
                    *old(self),
                    *final(self),
                    id,
                    stage_id,
                    member_id,
                    developer_task_id,
                    resolved_model@,
                    now,
                    r,
                ),
            final(self).well_linked() == old(self).well_linked(),
    {
        if self.execution_start_is_refused(id, stage_id) {
            return self.begin_stage_execution_at(id, stage_id, member_id, developer_task_id, resolved_model, 0);
        }
        let now = match crate::platform::now_millis() {
            Some(t) => t,
            None => {
                return Err(crate::developer::clock_failure());
            },
        };
        self.begin_stage_execution_at(id, stage_id, member_id, developer_task_id, resolved_model, now)
    }

    /// Records now the end of the active agent task.
    pub fn finish_stage_execution(
        &mut self,
        id: ArdSessionId,
        developer_task_id: DeveloperTaskId,
        status: ArdExecutionStatus,
    ) -> (r: Result<(), DeveloperError>)
        ensures
            execution_finish_refused(*old(self), id, developer_task_id) ==> forall|now: Timestamp|
                #[trigger] finish_execution_post(
                    *old(self),
                    *final(self),
                    id,
                    developer_task_id,
                    status,
                    now,
                    r,
                ),
            !execution_finish_refused(*old(self), id, developer_task_id) ==> (r matches Err(e) && crate::developer::platform_failure(e) && *final(self) == *old(self)) || exists|now: Timestamp|
                #[trigger] finish_execution_post(
                    *old(self),
                    *final(self),
                    id,
                    developer_task_id,
                    status,
                    now,
                    r,
                ),
            final(self).well_linked() == old(self).well_linked(),
    {
        if self.execution_finish_is_refused(id, developer_task_id) {
            return self.finish_stage_execution_at(id, developer_task_id, status, 0);
        }
        let now = match crate::platform::now_millis() {
            Some(t) => t,
            None => {
                return Err(crate::developer::clock_failure());
            },
        };
        self.finish_stage_execution_at(id, developer_task_id, status, now)
    }

    /// Appends an activity entry to a session now.
    pub fn append_activity(
        &mut self,
        id: ArdSessionId,
        member_id: Option<ArdMemberId>,
        kind: &str,
        message: &str,
    ) -> (r: Result<(), DeveloperError>)
        ensures
            session_missing(*old(self), id) ==> forall|now: Timestamp|
                #[trigger] append_activity_post(
                    *old(self),
                    *final(self),
                    id,
                    member_id,
                    kind@,
                    message@,
                    now,
                    r,
                ),
            !session_missing(*old(self), id) ==> (r matches Err(e) && crate::developer::platform_failure(e) && *final(self) == *old(self)) || exists|now: Timestamp|
                #[trigger] append_activity_post(
                    *old(self),
                    *final(self),
                    id,
                    member_id,
                    kind@,
                    message@,
                    now,
                    r,
                ),
            final(self).well_linked() == old(self).well_linked(),
    {
        if self.session_is_missing(id) {
            return self.append_activity_at(id, member_id, kind, message, 0);
        }
        let now = match crate::platform::now_millis() {
            Some(t) => t,
            None => {
                return Err(crate::developer::clock_failure());
            },
        };
        self.append_activity_at(id, member_id, kind, message, now)
    }

    /// Records now how the brain of the assignment's member was resolved.
    pub fn record_brain_resolution(
        &mut self,
        id: ArdSessionId,
        assignment: &ArdAssignment,
        resolution: &BrainResolution,
    ) -> (r: Result<(), DeveloperError>)
        ensures
            session_missing(*old(self), id) ==> forall|now: Timestamp|
                #[trigger] brain_resolution_post(
                    *old(self),
                    *final(self),
                    id,
                    *assignment,
                    *resolution,
                    now,
                    r,
                ),
            !session_missing(*old(self), id) ==> (r matches Err(e) && crate::developer::platform_failure(e) && *final(self) == *old(self)) || exists|now: Timestamp|
                #[trigger] brain_resolution_post(
                    *old(self),
                    *final(self),
                    id,
                    *assignment,
                    *resolution,
                    now,
                    r,
                ),
            final(self).well_linked() == old(self).well_linked(),
    {
        if self.session_is_missing(id) {
            return self.record_brain_resolution_at(id, assignment, resolution, 0);
        }
        let now = match crate::platform::now_millis() {
            Some(t) => t,
            None => {
                return Err(crate::developer::clock_failure());
            },
        };
        self.record_brain_resolution_at(id, assignment, resolution, now)
    }

    /// Opens a model rotation for `plan` now.
    pub fn begin_model_rotation(
        &mut self,
        id: ArdSessionId,
        member_id: ArdMemberId,
        plan: &ModelRotationPlan,
    ) -> (r: Result<(), DeveloperError>)
        ensures
            rotation_start_refused(*old(self), id) ==> forall|now: Timestamp|
                #[trigger] begin_rotation_post(*old(self), *final(self), id, member_id, *plan, now, r),
            !rotation_start_refused(*old(self), id) ==> (r matches Err(e) && crate::developer::platform_failure(e) && *final(self) == *old(self)) || exists|now: Timestamp|
                #[trigger] begin_rotation_post(*old(self), *final(self), id, member_id, *plan, now, r),
            final(self).well_linked() == old(self).well_linked(),
    {
        if self.rotation_start_is_refused(id) {
            return self.begin_model_rotation_at(id, member_id, plan, 0);
        }
        let now = match crate::platform::now_millis() {
            Some(t) => t,
            None => {
                return Err(crate::developer::clock_failure());
            },
        };
        self.begin_model_rotation_at(id, member_id, plan, now)
    }

    /// Adds an event to the active model rotation now.
    pub fn append_model_rotation_event(
        &mut self,
        id: ArdSessionId,
        member_id: ArdMemberId,
        event: ModelRotationEvent,
    ) -> (r: Result<(), DeveloperError>)
        ensures
            rotation_missing(*old(self), id) ==> forall|now: Timestamp|
                #[trigger] rotation_event_post(*old(self), *final(self), id, member_id, event, now, r),
            !rotation_missing(*old(self), id) ==> (r matches Err(e) && crate::developer::platform_failure(e) && *final(self) == *old(self)) || exists|now: Timestamp|
                #[trigger] rotation_event_post(*old(self), *final(self), id, member_id, event, now, r),
            final(self).well_linked() == old(self).well_linked(),
    {
        if self.rotation_is_missing(id) {
            return self.append_model_rotation_event_at(id, member_id, event, 0);
        }
        let now = match crate::platform::now_millis() {
            Some(t) => t,
            None => {
                return Err(crate::developer::clock_failure());
            },
        };
        self.append_model_rotation_event_at(id, member_id, event, now)
    }

    /// Closes the active model rotation now.
    pub fn finish_model_rotation(
        &mut self,
        id: ArdSessionId,
        member_id: ArdMemberId,
        success: bool,
        attempts: u32,
        reused: bool,
        detail: &str,
    ) -> (r: Result<(), DeveloperError>)
        ensures
            rotation_missing(*old(self), id) ==> forall|now: Timestamp|
                #[trigger] finish_rotation_post(
                    *old(self),
                    *final(self),
                    id,
                    member_id,
                    success,
                    attempts,
                    reused,
                    detail@,
                    now,
                    r,
                ),
            !rotation_missing(*old(self), id) ==> (r matches Err(e) && crate::developer::platform_failure(e) && *final(self) == *old(self)) || exists|now: Timestamp|
                #[trigger] finish_rotation_post(
                    *old(self),
                    *final(self),
                    id,
                    member_id,
                    success,
                    attempts,
                    reused,
                    detail@,
                    now,
                    r,
                ),
            final(self).well_linked() == old(self).well_linked(),
    {
        if self.rotation_is_missing(id) {
            return self.finish_model_rotation_at(id, member_id, success, attempts, reused, detail, 0);
        }
        let now = match crate::platform::now_millis() {
            Some(t) => t,
            None => {
                return Err(crate::developer::clock_failure());
            },
        };
        self.finish_model_rotation_at(id, member_id, success, attempts, reused, detail, now)
    }

    /// Records a user instruction for a session now.
    pub fn intervene(&mut self, id: ArdSessionId, instruction: &str) -> (r: Result<
        (),
        DeveloperError,
    >)
        ensures
            intervention_refused(*old(self), id, instruction@) ==> forall|now: Timestamp|
                #[trigger] intervene_post(*old(self), *final(self), id, instruction@, now, r),
            !intervention_refused(*old(self), id, instruction@) ==> (r matches Err(e) && crate::developer::platform_failure(e) && *final(self) == *old(self)) || exists|now: Timestamp|
                #[trigger] intervene_post(*old(self), *final(self), id, instruction@, now, r),
            final(self).well_linked() == old(self).well_linked(),
    {
        if self.intervention_is_refused(id, instruction) {
            return self.intervene_at(id, instruction, 0);
        }
        let now = match crate::platform::now_millis() {
            Some(t) => t,
            None => {
                return Err(crate::developer::clock_failure());
            },
        };
        self.intervene_at(id, instruction, now)
    }
}

} // verus!

verus! {

/// Session `a` is listed before session `b`: it was updated later, or at the
/// same instant under a smaller identifier.
pub open spec fn session_before(a: ArdSession, b: ArdSession) -> bool {
    a.updated_at > b.updated_at || (a.updated_at == b.updated_at && a.id < b.id)
}

pub open spec fn derefs<T>(s: Seq<&T>) -> Seq<T> {
    s.map_values(|x: &T| *x)
}

/// How many sessions a listing holds at most: the asked number, kept
/// between one and five hundred.
pub open spec fn session_limit(limit: usize) -> nat {
    if limit < 1 {
        1
    } else if limit > 500 {
        500
    } else {
        limit as nat
    }
}

/// The sessions in listing order: a rearrangement of `all` in which no
/// session is listed after one it comes before.
pub open spec fn sessions_in_order(sorted: Seq<ArdSession>, all: Seq<ArdSession>) -> bool {
    &&& sorted.to_multiset() == all.to_multiset()
    &&& forall|a: int, b: int| 0 <= a < b < sorted.len() ==> !session_before(#[trigger] sorted[b], #[trigger] sorted[a])
}

impl ArdCoordinator {
    /// The teams in identifier order.
    pub fn list_teams(&self) -> (r: Vec<&ArdTeam>)
        ensures
            derefs(r@).to_multiset() == self.teams@.to_multiset(),
            forall|a: int, b: int| 0 <= a < b < r@.len() ==> (#[trigger] r@[a]).id <= (#[trigger] r@[b]).id,
    {
        let mut out: Vec<&ArdTeam> = Vec::new();
        let mut i: usize = 0;
        assert(derefs(out@) =~= self.teams@.take(0));
        while i < self.teams.len()
            invariant
                i <= self.teams@.len(),
                derefs(out@).to_multiset() == self.teams@.take(i as int).to_multiset(),
                forall|a: int, b: int| 0 <= a < b < out@.len() ==> (#[trigger] out@[a]).id <= (#[trigger] out@[b]).id,
            decreases self.teams.len() - i,
        {
            let t = &self.teams[i];
            let mut p: usize = 0;
            while p < out.len() && out[p].id <= t.id
                invariant
                    p <= out@.len(),
                    forall|a: int| 0 <= a < p ==> (#[trigger] out@[a]).id <= t.id,
                decreases out.len() - p,
            {
                p += 1;
            }
            proof {
                let d = derefs(out@);
                assert(derefs(out@.insert(p as int, t)) =~= d.insert(p as int, *t));
                vstd::seq_lib::to_multiset_insert(d, p as int, *t);
                vstd::seq_lib::to_multiset_build(self.teams@.take(i as int), *t);
                assert(self.teams@.take(i + 1) =~= self.teams@.take(i as int).push(*t));
            }
            out.insert(p, t);
            i += 1;
        }
        assert(self.teams@.take(self.teams.len() as int) =~= self.teams@);
        out
    }

    /// The most recently updated sessions, at most `limit` (kept between one
    /// and five hundred), newest first; sessions updated at the same instant
    /// come in identifier order.
    pub fn list_sessions(&self, limit: usize) -> (r: Vec<&ArdSession>)
        ensures
            exists|sorted: Seq<ArdSession>| sessions_in_order(sorted, self.sessions@)
                && derefs(r@) == sorted.take(if sorted.len() < session_limit(limit) { sorted.len() as int } else { session_limit(limit) as int }),
    {
        let mut out: Vec<&ArdSession> = Vec::new();
        let mut i: usize = 0;
        assert(derefs(out@) =~= self.sessions@.take(0));
        while i < self.sessions.len()
            invariant
                i <= self.sessions@.len(),
                sessions_in_order(derefs(out@), self.sessions@.take(i as int)),
            decreases self.sessions.len() - i,
        {
            let s = &self.sessions[i];
            let mut p: usize = 0;
            while p < out.len() && !(s.updated_at > out[p].updated_at || (s.updated_at == out[p].updated_at && s.id < out[p].id))
                invariant
                    p <= out@.len(),
                    forall|a: int| 0 <= a < p ==> !session_before(*s, #[trigger] derefs(out@)[a]),
                decreases out.len() - p,
            {
                p += 1;
            }
            proof {
                let d = derefs(out@);
                assert(derefs(out@.insert(p as int, s)) =~= d.insert(p as int, *s));
                lemma_insert_sessions(d, *s, p as int);
                vstd::seq_lib::to_multiset_insert(d, p as int, *s);
                vstd::seq_lib::to_multiset_build(self.sessions@.take(i as int), *s);
                assert(self.sessions@.take(i + 1) =~= self.sessions@.take(i as int).push(*s));
            }
            out.insert(p, s);
            i += 1;
        }
        assert(self.sessions@.take(self.sessions.len() as int) =~= self.sessions@);
        let ghost sorted = derefs(out@);
        let n: usize = if limit < 1 {
            1
        } else if limit > 500 {
            500
        } else {
            limit
        };
        if n < out.len() {
            out.truncate(n);
        }
        assert(derefs(out@) =~= sorted.take(if sorted.len() < session_limit(limit) { sorted.len() as int } else { session_limit(limit) as int }));
        out
    }
}

proof fn lemma_insert_sessions(s: Seq<ArdSession>, c: ArdSession, p: int)
    requires
        0 <= p <= s.len(),
        forall|a: int, b: int| 0 <= a < b < s.len() ==> !session_before(#[trigger] s[b], #[trigger] s[a]),
        forall|a: int| 0 <= a < p ==> !session_before(c, #[trigger] s[a]),
        p < s.len() ==> session_before(c, s[p]),
    ensures
        forall|a: int, b: int| 0 <= a < b < s.insert(p, c).len() ==> !session_before(#[trigger] s.insert(p, c)[b], #[trigger] s.insert(p, c)[a]),
{
    let t = s.insert(p, c);
    assert forall|a: int, b: int| 0 <= a < b < t.len() implies !session_before(#[trigger] t[b], #[trigger] t[a]) by {
        if b == p {
            assert(t[a] == s[a]);
        } else if a == p {
            assert(t[b] == s[b - 1]);
        } else {
            let sa = if a < p { a } else { a - 1 };
            let sb = if b < p { b } else { b - 1 };
            assert(t[a] == s[sa]);
            assert(t[b] == s[sb]);
        }
    }
}

} // verus!

verus! {

/// Starting an execution is refused before the clock is read: no such
/// session, one that is not running, another stage, or an execution open.
pub open spec fn execution_start_refused(d: ArdCoordinator, id: ArdSessionId, stage_id: ArdStageId) -> bool {
    let p = session_pos(d.sessions@, id);
    let s = d.sessions@[p];
    p < 0 || s.state != ArdSessionState::Running || s.current_stage_id != Some(stage_id)
        || s.active_execution is Some
}

/// Finishing an execution is refused before the clock is read: no such
/// session, no open execution, or one another task owns.
pub open spec fn execution_finish_refused(d: ArdCoordinator, id: ArdSessionId, task_id: DeveloperTaskId) -> bool {
    let p = session_pos(d.sessions@, id);
    let s = d.sessions@[p];
    p < 0 || s.active_execution is None || s.active_execution->Some_0.developer_task_id != task_id
}

/// Building a relay workflow is refused before anything is drawn: a blank
/// or oversized name, no such team, or a team without an enabled member.
pub open spec fn workflow_refused(d: ArdCoordinator, team_id: ArdTeamId, name: Seq<char>) -> bool {
    let tp = team_pos(d.teams@, team_id);
    !text_acceptable(name) || tp < 0 || enabled_members(d.teams@[tp].members@).len() == 0
}

/// Starting a session is refused before anything is drawn: a blank or
/// oversized goal, no such workflow, or a workflow whose team is gone.
pub open spec fn session_start_refused(d: ArdCoordinator, workflow_id: ArdWorkflowId, goal: Seq<char>) -> bool {
    let wp = workflow_pos(d.workflows@, workflow_id);
    !text_acceptable(goal) || wp < 0 || team_pos(d.teams@, d.workflows@[wp].team_id) < 0
}

fn has_enabled_member(members: &Vec<ArdTeamMember>) -> (b: bool)
    ensures
        b == (enabled_members(members@).len() > 0),
{
    let mut i: usize = 0;
    while i < members.len()
        invariant
            i <= members@.len(),
            enabled_members(members@.take(i as int)).len() == 0,
        decreases members.len() - i,
    {
        assert(members@.take(i + 1).drop_last() =~= members@.take(i as int));
        if members[i].enabled {
            assert(enabled_members(members@.take(i + 1)).len() > 0);
            proof {
                lemma_enabled_prefix(members@, i + 1);
            }
            return true;
        }
        i += 1;
    }
    assert(members@.take(members@.len() as int) =~= members@);
    false
}

/// A prefix with an enabled member keeps it in the whole list.
proof fn lemma_enabled_prefix(s: Seq<ArdTeamMember>, k: int)
    requires
        0 <= k <= s.len(),
        enabled_members(s.take(k)).len() > 0,
    ensures
        enabled_members(s).len() > 0,
    decreases s.len() - k,
{
    if k < s.len() {
        assert(s.take(k + 1).drop_last() =~= s.take(k));
        lemma_enabled_prefix(s, k + 1);
    } else {
        assert(s.take(k) =~= s);
    }
}

/// There is no session `id`.
pub open spec fn session_missing(d: ArdCoordinator, id: ArdSessionId) -> bool {
    session_pos(d.sessions@, id) < 0
}

/// Opening a rotation is refused: no such session, or a rotation open.
pub open spec fn rotation_start_refused(d: ArdCoordinator, id: ArdSessionId) -> bool {
    let p = session_pos(d.sessions@, id);
    p < 0 || d.sessions@[p].active_rotation is Some
}

/// Adding to or closing a rotation is refused: no such session, or no
/// rotation open.
pub open spec fn rotation_missing(d: ArdCoordinator, id: ArdSessionId) -> bool {
    let p = session_pos(d.sessions@, id);
    p < 0 || d.sessions@[p].active_rotation is None
}

/// An instruction is refused: blank or oversized, or no such session.
pub open spec fn intervention_refused(d: ArdCoordinator, id: ArdSessionId, instruction: Seq<char>) -> bool {
    !crate::ard::text_acceptable(instruction) || session_pos(d.sessions@, id) < 0
}

impl ArdCoordinator {
    /// See `execution_start_refused`.
    pub fn execution_start_is_refused(&self, id: ArdSessionId, stage_id: ArdStageId) -> (b: bool)
        ensures
            b == execution_start_refused(*self, id, stage_id),
    {
        match find_session(&self.sessions, id) {
            None => true,
            Some(p) => {
                let s = &self.sessions[p];
                s.state != ArdSessionState::Running || s.current_stage_id != Some(stage_id)
                    || s.active_execution.is_some()
            },
        }
    }

    /// See `execution_finish_refused`.
    pub fn execution_finish_is_refused(&self, id: ArdSessionId, task_id: DeveloperTaskId) -> (b: bool)
        ensures
            b == execution_finish_refused(*self, id, task_id),
    {
        match find_session(&self.sessions, id) {
            None => true,
            Some(p) => match &self.sessions[p].active_execution {
                None => true,
                Some(x) => x.developer_task_id != task_id,
            },
        }
    }

    /// See `workflow_refused`.
    pub fn workflow_is_refused(&self, team_id: ArdTeamId, name: &str) -> (b: bool)
        ensures
            b == workflow_refused(*self, team_id, name@),
    {
        if crate::ard::validate_text("workflow name", name).is_err() {
            return true;
        }
        match find_team(&self.teams, team_id) {
            None => true,
            Some(tp) => !has_enabled_member(&self.teams[tp].members),
        }
    }

    /// See `session_start_refused`.
    pub fn session_start_is_refused(&self, workflow_id: ArdWorkflowId, goal: &str) -> (b: bool)
        ensures
            b == session_start_refused(*self, workflow_id, goal@),
    {
        if crate::ard::validate_text("ARD goal", goal).is_err() {
            return true;
        }
        match find_workflow(&self.workflows, workflow_id) {
            None => true,
            Some(wp) => find_team(&self.teams, self.workflows[wp].team_id).is_none(),
        }
    }

    /// See `session_missing`.
    pub fn session_is_missing(&self, id: ArdSessionId) -> (b: bool)
        ensures
            b == session_missing(*self, id),
    {
        find_session(&self.sessions, id).is_none()
    }

    /// See `rotation_start_refused`.
    pub fn rotation_start_is_refused(&self, id: ArdSessionId) -> (b: bool)
        ensures
            b == rotation_start_refused(*self, id),
    {
        match find_session(&self.sessions, id) {
            None => true,
            Some(p) => self.sessions[p].active_rotation.is_some(),
        }
    }

    /// See `rotation_missing`.
    pub fn rotation_is_missing(&self, id: ArdSessionId) -> (b: bool)
        ensures
            b == rotation_missing(*self, id),
    {
        match find_session(&self.sessions, id) {
            None => true,
            Some(p) => self.sessions[p].active_rotation.is_none(),
        }
    }

    /// See `intervention_refused`.
    pub fn intervention_is_refused(&self, id: ArdSessionId, instruction: &str) -> (b: bool)
        ensures
            b == intervention_refused(*self, id, instruction@),
    {
        crate::ard::validate_text("instruction", instruction).is_err() || find_session(
            &self.sessions,
            id,
        ).is_none()
    }
}

} // verus!
