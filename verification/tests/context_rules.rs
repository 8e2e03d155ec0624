use vertex_ai::context::{estimate_tokens, PreparedContext, TargetLocation};
use vertex_ai::types::{VertexContext, VERTEX_CONTEXT_VERSION};

#[test]
fn local_prepared_context_forces_a_local_only_boundary() {
    let mut context = VertexContext::default_context();
    context.privacy_policy.cloud_allowed = true;
    let prepared = PreparedContext::local(context);
    assert_eq!(prepared.target_location(), TargetLocation::Local);
    assert!(prepared.context().privacy_policy.local_only);
    assert!(!prepared.context().privacy_policy.cloud_allowed);
}

#[test]
fn context_uses_protocol_version() {
    let context = VertexContext::default_context();
    assert_eq!(context.vertex_context, VERTEX_CONTEXT_VERSION);
    assert_eq!(VERTEX_CONTEXT_VERSION, "0.1");
}

#[test]
fn tokens_are_estimated_from_bytes() {
    assert_eq!(estimate_tokens(0), 0);
    assert_eq!(estimate_tokens(1), 1);
    assert_eq!(estimate_tokens(8), 2);
    assert_eq!(estimate_tokens(9), 3);
}

use vertex_ai::context::{base_context_tokens, build_context, memory_candidate, ContextBuildRequest, ContextError, RetrievedMemory};
use vertex_ai::memory::{
    CreateMemory, InMemoryMemoryRepository, MemoryCategory, MemoryPrivacy, MemoryQuery, MemoryRecord,
    MemoryScope,
};

fn add_memory(repository: &mut InMemoryMemoryRepository, scope: MemoryScope, content: &str, privacy: MemoryPrivacy) {
    repository
        .create(CreateMemory {
            category: MemoryCategory::Knowledge,
            scope,
            owner_id: None,
            content: content.to_owned(),
            structured_content: "{}".to_owned(),
            priority: 0.8f32.to_bits(),
            confidence: 0.9f32.to_bits(),
            source: "test".to_owned(),
            expires_at: None,
            privacy,
            metadata: "{}".to_owned(),
        })
        .unwrap();
}

fn request(scope: MemoryScope, target_location: TargetLocation) -> ContextBuildRequest {
    ContextBuildRequest {
        base: VertexContext::default_context(),
        scope,
        query: "PostgreSQL".to_owned(),
        target_location,
        allow_sensitive: false,
        max_context_tokens: 2_000,
        reserved_output_tokens: 500,
        memory_candidate_limit: 10,
    }
}

fn retrieved(repository: &InMemoryMemoryRepository, r: &ContextBuildRequest) -> Vec<RetrievedMemory> {
    let found: Vec<MemoryRecord> = repository
        .search(&MemoryQuery {
            scope: r.scope,
            text: Some(r.query.clone()),
            category: None,
            include_expired: false,
            limit: r.memory_candidate_limit,
        })
        .unwrap();
    found
        .into_iter()
        .map(|record| RetrievedMemory {
            priority_json: serde_json::to_string(&f32::from_bits(record.priority)).unwrap(),
            confidence_json: serde_json::to_string(&f32::from_bits(record.confidence)).unwrap(),
            record,
        })
        .collect()
}

#[test]
fn cloud_context_excludes_local_only_memory() {
    let mut repository = InMemoryMemoryRepository::new();
    let scope = MemoryScope::project(1, 2);
    add_memory(
        &mut repository,
        scope,
        "PostgreSQL local secret",
        MemoryPrivacy { local_only: true, ..MemoryPrivacy::default() },
    );
    add_memory(
        &mut repository,
        scope,
        "PostgreSQL public architecture",
        MemoryPrivacy { cloud_allowed: true, ..MemoryPrivacy::default() },
    );
    let r = request(scope, TargetLocation::Cloud);
    let c = retrieved(&repository, &r);
    let built = build_context(r, c).unwrap();
    assert_eq!(built.report.included_count, 1);
    assert_eq!(built.report.excluded_privacy_count, 1);
    assert!(built.prepared.context().privacy_policy.cloud_allowed);
    assert!(!built.prepared.context().memories[0].contains("secret"));
}

#[test]
fn memory_items_never_exceed_context_budget() {
    let mut repository = InMemoryMemoryRepository::new();
    let scope = MemoryScope::project(3, 4);
    add_memory(
        &mut repository,
        scope,
        &format!("PostgreSQL {}", "x".repeat(2_000)),
        MemoryPrivacy::default(),
    );
    let mut r = request(scope, TargetLocation::Local);
    r.max_context_tokens = 400;
    r.reserved_output_tokens = 100;
    let c = retrieved(&repository, &r);
    let built = build_context(r, c).unwrap();
    assert_eq!(built.report.included_count, 0);
    assert_eq!(built.report.excluded_budget_count, 1);
    assert!(built.report.estimated_context_tokens <= built.report.available_context_tokens);
}

#[test]
fn cloud_build_cannot_launder_protected_base_context() {
    let scope = MemoryScope::project(5, 6);
    let mut r = request(scope, TargetLocation::Cloud);
    r.base.project = "{\"private\":\"local project state\"}".to_owned();
    let result = build_context(r, Vec::new());
    assert!(matches!(result, Err(ContextError::Invalid(_))));
}

#[test]
fn an_oversized_base_context_is_refused() {
    let scope = MemoryScope::project(5, 6);
    let mut r = request(scope, TargetLocation::Local);
    r.max_context_tokens = 60;
    r.reserved_output_tokens = 50;
    assert_eq!(build_context(r, Vec::new()).unwrap_err(), ContextError::BudgetExceeded);
}

#[test]
fn the_base_context_is_measured_by_its_json_text() {
    let base = VertexContext::default_context();
    let json = format!(
        "{{\"vertex_context\":{},\"task\":{{}},\"application\":{{}},\"project\":{{}},\"user_context\":{{}},\"memories\":[],\"decisions\":[],\"constraints\":[],\"schema\":{{}},\"tools\":[],\"permissions\":{{}},\"runtime\":{{}},\"privacy_policy\":{{\"local_only\":{},\"cloud_allowed\":{},\"sensitive\":{},\"share_scope\":null}}}}",
        serde_json::to_string(&base.vertex_context).unwrap(),
        base.privacy_policy.local_only,
        base.privacy_policy.cloud_allowed,
        base.privacy_policy.sensitive,
    );
    assert_eq!(base_context_tokens(&base), estimate_tokens(json.len()));
}

#[test]
fn a_memory_enters_the_context_as_its_json_object() {
    let mut repository = InMemoryMemoryRepository::new();
    let scope = MemoryScope::project(7, 8);
    add_memory(&mut repository, scope, "PostgreSQL \"quoted\"", MemoryPrivacy::default());
    let r = request(scope, TargetLocation::Local);
    let m = retrieved(&repository, &r).remove(0);
    let record = m.record.clone();
    let expected = format!(
        "{{\"confidence\":{},\"content\":\"PostgreSQL \\\"quoted\\\"\",\"memory_id\":\"",
        m.confidence_json
    );
    let c = memory_candidate(m).unwrap();
    assert!(c.item.starts_with(&expected));
    assert!(c.item.contains(",\"type\":\"knowledge\",\"updated_at\":\""));
    assert_eq!(c.tokens, estimate_tokens(c.item.len()));
    assert_eq!(c.record, record);
}
