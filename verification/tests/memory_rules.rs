use vertex_ai::memory::{
    approve_and_store, normalize_content, CreateMemory, InMemoryMemoryRepository, MemoryCategory,
    MemoryError, MemoryPrivacy, MemoryProposal, MemoryQuery, MemoryScope, MemoryWritePermit,
    ScopeType, UpdateMemory,
};

fn create(scope: MemoryScope, content: &str) -> CreateMemory {
    CreateMemory {
        category: MemoryCategory::Knowledge,
        scope,
        owner_id: None,
        content: content.to_owned(),
        structured_content: "{}".to_owned(),
        priority: 0.8f32.to_bits(),
        confidence: 0.9f32.to_bits(),
        source: "test".to_owned(),
        expires_at: None,
        privacy: MemoryPrivacy::default(),
        metadata: "{}".to_owned(),
    }
}

#[test]
fn records_do_not_cross_project_scope() {
    let mut repository = InMemoryMemoryRepository::new();
    let application_id = 11u128;
    let alpha = MemoryScope::project(application_id, 21);
    let beta = MemoryScope::project(application_id, 22);
    let record = repository
        .create(create(alpha, "Project Alpha uses PostgreSQL"))
        .unwrap();
    assert!(repository.get(record.memory_id, &alpha).unwrap().is_some());
    assert!(repository.get(record.memory_id, &beta).unwrap().is_none());
    assert!(repository
        .search(&MemoryQuery {
            scope: beta,
            text: Some("PostgreSQL".to_owned()),
            category: None,
            include_expired: false,
            limit: 10,
        })
        .unwrap()
        .is_empty());
}

#[test]
fn update_uses_optimistic_versioning() {
    let mut repository = InMemoryMemoryRepository::new();
    let scope = MemoryScope::project(1, 2);
    let record = repository.create(create(scope, "v1")).unwrap();
    let update = UpdateMemory {
        expected_version: 1,
        content: "v2".to_owned(),
        structured_content: "{}".to_owned(),
        priority: 0.8f32.to_bits(),
        confidence: 0.9f32.to_bits(),
        expires_at: None,
        privacy: MemoryPrivacy::default(),
        metadata: "{}".to_owned(),
    };
    let updated = repository
        .update(record.memory_id, &scope, update.clone())
        .unwrap();
    assert_eq!(updated.version, 2);
    assert_eq!(updated.content, "v2");
    assert!(matches!(
        repository.update(record.memory_id, &scope, update),
        Err(MemoryError::Conflict)
    ));
}

#[test]
fn exact_content_is_deduplicated_within_scope_and_category() {
    let mut repository = InMemoryMemoryRepository::new();
    let scope = MemoryScope::project(3, 4);
    let first = repository
        .create(create(scope, "Project Alpha uses PostgreSQL"))
        .unwrap();
    let duplicate = repository
        .create(create(scope, "  project   alpha USES postgresql "))
        .unwrap();
    assert_eq!(first.memory_id, duplicate.memory_id);
}

#[test]
fn proposal_cannot_cross_permitted_scope() {
    let mut repository = InMemoryMemoryRepository::new();
    let permitted = MemoryScope::project(5, 6);
    let different = MemoryScope::project(5, 7);
    let mut candidate = create(different, "must stay isolated");
    candidate.priority = 0.5f32.to_bits();
    candidate.confidence = 0.5f32.to_bits();
    let result = approve_and_store(
        &mut repository,
        MemoryProposal { candidate },
        &MemoryWritePermit {
            actor_id: None,
            scope: permitted,
            allow_sensitive: false,
        },
    );
    match result {
        Err(MemoryError::Invalid(m)) => assert_eq!(m, "memory proposal exceeds permitted scope"),
        other => panic!("unexpected {other:?}"),
    }
}

#[test]
fn content_is_normalized_by_case_and_whitespace() {
    assert_eq!(normalize_content("  A\tB \n  c "), "a b c");
}

#[test]
fn category_and_scope_names_round_trip() {
    for category in [
        MemoryCategory::Working,
        MemoryCategory::Conversation,
        MemoryCategory::LongTerm,
        MemoryCategory::Project,
        MemoryCategory::Knowledge,
        MemoryCategory::Decision,
        MemoryCategory::Preference,
        MemoryCategory::Experience,
    ] {
        assert_eq!(MemoryCategory::parse(category.as_str()).unwrap(), category);
    }
    assert_eq!(MemoryCategory::LongTerm.as_str(), "long_term");
    assert!(MemoryCategory::parse("unknown").is_err());
    assert_eq!(ScopeType::parse("project").unwrap(), ScopeType::Project);
}

#[test]
fn scope_identifiers_must_match_scope_type() {
    let mut scope = MemoryScope::system();
    assert!(scope.validate().is_ok());
    scope.project_id = Some(1);
    assert!(scope.validate().is_err());
    assert!(MemoryScope::project(1, 2).validate().is_ok());
}

#[test]
fn invalid_priority_and_blank_content_are_refused() {
    let mut repository = InMemoryMemoryRepository::new();
    let scope = MemoryScope::project(8, 9);
    let mut m = create(scope, "  ");
    assert!(matches!(repository.create(m.clone()), Err(MemoryError::Invalid(_))));
    m.content = "ok".to_owned();
    m.priority = 1.5f32.to_bits();
    assert!(matches!(repository.create(m), Err(MemoryError::Invalid(_))));
}

#[test]
fn query_limit_is_bounded() {
    let repository = InMemoryMemoryRepository::new();
    let query = MemoryQuery {
        scope: MemoryScope::project(1, 1),
        text: None,
        category: None,
        include_expired: false,
        limit: 0,
    };
    assert!(matches!(repository.search(&query), Err(MemoryError::Invalid(_))));
}

#[test]
fn deleting_removes_only_within_scope() {
    let mut repository = InMemoryMemoryRepository::new();
    let scope = MemoryScope::project(1, 3);
    let other = MemoryScope::project(1, 4);
    let record = repository.create(create(scope, "to delete")).unwrap();
    assert!(!repository.delete(record.memory_id, &other).unwrap());
    assert!(repository.delete(record.memory_id, &scope).unwrap());
    assert!(repository.get(record.memory_id, &scope).unwrap().is_none());
}

#[test]
fn normalizing_twice_changes_nothing() {
    let once = normalize_content("  project   alpha USES postgresql ");
    assert_eq!(once, "project alpha uses postgresql");
    assert_eq!(normalize_content(&once), once);
    assert_eq!(normalize_content("Project Alpha uses PostgreSQL"), once);
}

#[test]
fn other_category_names_are_unreadable() {
    assert_eq!(MemoryCategory::parse("Knowledge"), Err(MemoryError::Unavailable));
    assert_eq!(MemoryCategory::parse("long-term"), Err(MemoryError::Unavailable));
    assert_eq!(MemoryCategory::parse("vxn_knowledge").unwrap().as_str(), "vxn_knowledge");
}

#[test]
fn an_approved_proposal_is_stored_in_the_permitted_scope() {
    let mut repository = InMemoryMemoryRepository::new();
    let scope = MemoryScope::project(8, 9);
    let stored = approve_and_store(
        &mut repository,
        MemoryProposal { candidate: create(scope, "kept in scope") },
        &MemoryWritePermit { actor_id: Some(42), scope, allow_sensitive: false },
    )
    .unwrap();
    assert_eq!(stored.scope, scope);
    assert_eq!(stored.owner_id, Some(42));
    let again = approve_and_store(
        &mut repository,
        MemoryProposal { candidate: create(scope, "  KEPT in   scope ") },
        &MemoryWritePermit { actor_id: Some(42), scope, allow_sensitive: false },
    )
    .unwrap();
    assert_eq!(again.memory_id, stored.memory_id);
}
