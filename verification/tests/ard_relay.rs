use vertex_ai::developer::RiskLevel;
use vertex_ai::ard::ToolCapability;
use vertex_ai::ard::{
    ArdCoordinator, ArdSessionState, ArdTeamId, ArdWorkflowId, BrainAssignment, CompleteArdStage,
    CreateArdMember, CreateArdTeam, HandoffDecision, HardPermission, ModelRotationStatus,
};
use vertex_ai::bridge::{ModelRotationPlan, ResourcePolicy};
use vertex_ai::developer::{DeveloperError, ToolCall};

fn member(name: &str, role: &str, permission: HardPermission, model: &str) -> CreateArdMember {
    CreateArdMember {
        name: name.to_owned(),
        role: role.to_owned(),
        brain: BrainAssignment::Model {
            provider_id: "ollama".to_owned(),
            model_id: model.to_owned(),
            runtime_id: None,
        },
        permission,
        responsibilities: vec![role.to_owned()],
        forbidden_actions: vec!["workspace外操作".to_owned()],
    }
}

fn setup() -> (ArdCoordinator, ArdTeamId, ArdWorkflowId) {
    let mut coordinator = ArdCoordinator::new();
    let team = coordinator
        .create_team(CreateArdTeam {
            name: "Vertex Team".to_owned(),
            workspace_id: 7,
            members: vec![
                member("Alice", "Architect", HardPermission::read_only(), "qwen3:8b"),
                member("Bob", "Developer", HardPermission::developer(), "qwen3:8b"),
                member("Carol", "Code Review", HardPermission::read_only(), "qwen3:8b"),
            ],
        })
        .unwrap();
    let workflow = coordinator.create_relay_workflow(team, "Standard relay").unwrap();
    (coordinator, team, workflow)
}

fn result(decision: HandoffDecision) -> CompleteArdStage {
    CompleteArdStage {
        decision,
        task_result: "done".to_owned(),
        decisions: vec!["reuse core".to_owned()],
        files_read: vec!["src/lib.rs".to_owned()],
        files_changed: Vec::new(),
        build_results: Vec::new(),
        tests_run: vec!["cargo test".to_owned()],
        test_results: vec!["pass".to_owned()],
        known_issues: Vec::new(),
        unresolved_questions: Vec::new(),
        next_action: "review".to_owned(),
        confidence: 0.9f32.to_bits(),
    }
}

fn state(coordinator: &ArdCoordinator, id: u128) -> ArdSessionState {
    coordinator.get_session(id).unwrap().state
}

#[test]
fn arbitrary_team_relay_and_structured_handoff_are_persisted() {
    let (mut coordinator, team, workflow) = setup();
    assert_eq!(coordinator.get_team(team).unwrap().members.len(), 3);
    let session = coordinator.start_session(workflow, "Implement ARD").unwrap();
    let first = coordinator.current_assignment(session).unwrap();
    assert_eq!(first.member.role, "Architect");
    coordinator.complete_stage(session, result(HandoffDecision::Accepted)).unwrap();
    assert_eq!(coordinator.get_session(session).unwrap().handoffs.len(), 1);
    assert_eq!(coordinator.current_assignment(session).unwrap().member.role, "Developer");
}

#[test]
fn hard_permission_rejects_reviewer_write() {
    let (mut coordinator, _, workflow) = setup();
    let session = coordinator.start_session(workflow, "Review").unwrap();
    coordinator.complete_stage(session, result(HandoffDecision::Accepted)).unwrap();
    coordinator.complete_stage(session, result(HandoffDecision::Accepted)).unwrap();
    let inspector = coordinator.current_assignment(session).unwrap().member;
    let call = ToolCall::WriteFile {
        path: "src/lib.rs".to_owned(),
        content: "x".to_owned(),
        reason: "test".to_owned(),
    };
    assert!(coordinator.authorize_tool(session, inspector.id, &call).is_err());
}

#[test]
fn reviewer_rework_returns_to_developer_and_retry_is_bounded() {
    let (mut coordinator, _, workflow) = setup();
    let session = coordinator.start_session(workflow, "Review loop").unwrap();
    coordinator.complete_stage(session, result(HandoffDecision::Accepted)).unwrap();
    coordinator.complete_stage(session, result(HandoffDecision::Accepted)).unwrap();
    coordinator.complete_stage(session, result(HandoffDecision::Rework)).unwrap();
    assert_eq!(coordinator.current_assignment(session).unwrap().member.role, "Developer");
    for _ in 0..3 {
        if state(&coordinator, session) != ArdSessionState::Running {
            break;
        }
        coordinator.complete_stage(session, result(HandoffDecision::Accepted)).unwrap();
        if state(&coordinator, session) != ArdSessionState::Running {
            break;
        }
        coordinator.complete_stage(session, result(HandoffDecision::Rework)).unwrap();
    }
    assert_eq!(state(&coordinator, session), ArdSessionState::WaitingApproval);
}

#[test]
fn pause_resume_intervention_and_same_model_reuse_work() {
    let (mut coordinator, _, workflow) = setup();
    let session = coordinator.start_session(workflow, "Pause").unwrap();
    coordinator.pause(session).unwrap();
    assert_eq!(state(&coordinator, session), ArdSessionState::Paused);
    coordinator.resume(session).unwrap();
    assert_eq!(state(&coordinator, session), ArdSessionState::Running);
    coordinator.intervene(session, "HashMapをRuntimeで使わないで").unwrap();
    assert_eq!(coordinator.get_session(session).unwrap().interventions.len(), 1);
    let member_id = coordinator.current_assignment(session).unwrap().member.id;
    coordinator
        .begin_model_rotation(
            session,
            member_id,
            &ModelRotationPlan {
                current_model: Some("ollama/qwen3:8b".to_owned()),
                next_model: "ollama/qwen3:8b".to_owned(),
                current_runtime: Some("ollama".to_owned()),
                next_runtime: "ollama".to_owned(),
                reuse_possible: true,
                rotation_required: false,
                resource_policy: ResourcePolicy::Balanced,
            },
        )
        .unwrap();
    coordinator.finish_model_rotation(session, member_id, true, 1, true, "loaded model reused").unwrap();
    let rotated = coordinator.get_session(session).unwrap();
    assert!(rotated.model_rotations.last().unwrap().reused_loaded_model);
}

#[test]
fn interrupted_rotation_is_persisted_and_recovered_as_paused() {
    let (mut coordinator, _, workflow) = setup();
    let session = coordinator.start_session(workflow, "Recovery").unwrap();
    let member_id = coordinator.current_assignment(session).unwrap().member.id;
    coordinator
        .begin_model_rotation(
            session,
            member_id,
            &ModelRotationPlan {
                current_model: Some("ollama/qwen3:4b".to_owned()),
                next_model: "ollama/qwen3:8b".to_owned(),
                current_runtime: Some("ollama".to_owned()),
                next_runtime: "ollama".to_owned(),
                reuse_possible: false,
                rotation_required: true,
                resource_policy: ResourcePolicy::Balanced,
            },
        )
        .unwrap();
    // What a reopened document goes through before it is used again.
    let mut recovered = coordinator.clone();
    recovered.recover_interrupted().unwrap();
    let session = recovered.get_session(session).unwrap();
    assert_eq!(session.state, ArdSessionState::Paused);
    assert!(session.active_rotation.is_none());
    assert_eq!(session.model_rotations.len(), 1);
    assert_eq!(session.model_rotations[0].status, ModelRotationStatus::Interrupted);
    assert!(session.activity.iter().any(|event| event.kind == "recovery"));
}

#[test]
fn relay_workflow_links_stages_and_sends_rework_to_the_developer() {
    let (coordinator, _, workflow) = setup();
    let w = coordinator.list_workflows(coordinator.teams[0].id);
    assert_eq!(w.len(), 1);
    assert_eq!(w[0].id, workflow);
    let stages = &w[0].stages;
    assert_eq!(stages.len(), 3);
    assert_eq!(stages[0].on_success, Some(stages[1].id));
    assert_eq!(stages[1].on_success, Some(stages[2].id));
    assert_eq!(stages[2].on_success, None);
    assert_eq!(stages[2].on_rework, Some(stages[1].id));
    assert_eq!(stages[0].on_rework, None);
    assert_eq!(stages[1].objective, "Developerとして担当範囲を実行し、Structured Handoffを作成する");
    assert!(stages.iter().all(|s| s.max_attempts == 3));
}

#[test]
fn blank_names_and_missing_records_are_reported() {
    let (mut coordinator, team, workflow) = setup();
    match coordinator.create_relay_workflow(team, "   ") {
        Err(DeveloperError::Invalid(m)) => assert_eq!(m, "workflow name is blank or oversized"),
        other => panic!("unexpected {other:?}"),
    }
    match coordinator.start_session(workflow, "") {
        Err(DeveloperError::Invalid(m)) => assert_eq!(m, "ARD goal is blank or oversized"),
        other => panic!("unexpected {other:?}"),
    }
    match coordinator.start_session(0x1234, "goal") {
        Err(DeveloperError::NotFound(m)) => {
            assert_eq!(m, "ARD workflow 00000000-0000-0000-0000-000000001234")
        }
        other => panic!("unexpected {other:?}"),
    }
    let session = coordinator.start_session(workflow, "goal").unwrap();
    let other_member = coordinator.get_team(team).unwrap().members[1].id;
    let read = ToolCall::ReadFile { path: "a".to_owned() };
    match coordinator.authorize_tool(session, other_member, &read) {
        Err(DeveloperError::Permission(m)) => {
            assert_eq!(m, "member does not own the current ARD stage")
        }
        other => panic!("unexpected {other:?}"),
    }
    let owner = coordinator.current_assignment(session).unwrap().member.id;
    assert!(coordinator.authorize_tool(session, owner, &read).is_ok());
    let write = ToolCall::WriteFile {
        path: "a".to_owned(),
        content: "b".to_owned(),
        reason: "c".to_owned(),
    };
    match coordinator.authorize_tool(session, owner, &write) {
        Err(DeveloperError::Permission(m)) => {
            assert_eq!(m, "Alice (Architect) cannot use write_file")
        }
        other => panic!("unexpected {other:?}"),
    }
}

#[test]
fn listings_order_teams_by_id_and_sessions_newest_first() {
    let (mut coordinator, _team, workflow) = setup();
    coordinator.start_session_at(workflow, "first", 30, 100).unwrap();
    coordinator.start_session_at(workflow, "second", 20, 100).unwrap();
    coordinator.start_session_at(workflow, "third", 10, 50).unwrap();
    coordinator.pause_at(10, 200).unwrap();
    let listed: Vec<u128> = coordinator.list_sessions(10).iter().map(|s| s.id).collect();
    assert_eq!(listed, vec![10, 20, 30]);
    let top: Vec<u128> = coordinator.list_sessions(0).iter().map(|s| s.id).collect();
    assert_eq!(top, vec![10]);
    let teams = coordinator.list_teams();
    assert_eq!(teams.len(), 1);
    assert_eq!(teams[0].name, "Vertex Team");
}

#[test]
fn permissions_granting_the_same_capabilities_are_equal() {
    let a = HardPermission::from_capabilities(
        &vec![ToolCapability::GitRead, ToolCapability::ReadFiles, ToolCapability::GitRead],
        RiskLevel::Low,
    );
    assert_eq!(a, HardPermission::read_only());
    let b = HardPermission::from_capabilities(&vec![ToolCapability::Network, ToolCapability::ReadFiles], RiskLevel::Low);
    assert_eq!(b.allowed, vec![ToolCapability::ReadFiles, ToolCapability::Network]);
}

#[test]
fn a_refused_stage_result_changes_nothing() {
    let (mut coordinator, _team, workflow) = setup();
    let session = coordinator.start_session(workflow, "Implement ARD").unwrap();
    let mut bad = result(HandoffDecision::Accepted);
    bad.confidence = 1.5f32.to_bits();
    match coordinator.complete_stage(session, bad) {
        Err(DeveloperError::Invalid(m)) => assert_eq!(m, "handoff confidence must be between 0 and 1"),
        other => panic!("unexpected {other:?}"),
    }
    assert!(matches!(coordinator.complete_stage(7, result(HandoffDecision::Accepted)), Err(DeveloperError::NotFound(_))));
    coordinator.pause(session).unwrap();
    match coordinator.complete_stage(session, result(HandoffDecision::Accepted)) {
        Err(DeveloperError::Invalid(m)) => assert_eq!(m, "ARD session is not running"),
        other => panic!("unexpected {other:?}"),
    }
    assert_eq!(coordinator.get_session(session).unwrap().handoffs.len(), 0);
}
