use vertex_ai::types::{AssetCategory, AssetKind, EvidenceRef, HealthState, ModelId, ProviderId, RepairAction, RuntimeJobId, SystemAsset, SystemAssetId};

#[test]
fn repair_actions_are_typed_and_never_arbitrary_shell() {
    let action = RepairAction::MovePath {
        source: "C:/models/a.gguf".to_owned(),
        destination: "D:/models/a.gguf".to_owned(),
        expected_hash: Some("sha256:abc".to_owned()),
    };
    assert_eq!(action.operation(), "move_path");
    assert_ne!(action.operation(), "command");
}

#[test]
fn identifiers_keep_their_text() {
    assert_eq!(ProviderId::new("ollama").unwrap().as_str(), "ollama");
    assert_eq!(ModelId::new("qwen3:8b").unwrap().clone().as_str(), "qwen3:8b");
    assert!(RuntimeJobId::new("\t").is_err());
}

#[test]
fn system_assets_keep_observed_evidence_separate() {
    let observed_at = 1_700_000_000_000;
    let asset = SystemAsset {
        id: SystemAssetId::new("executable:python").expect("valid id"),
        name: "Python".to_owned(),
        category: AssetCategory::Developer,
        kind: AssetKind::Runtime,
        location: Some("C:/Python/python.exe".to_owned()),
        version: None,
        architecture: None,
        health: HealthState::Ready,
        capabilities: vec!["development.python".to_owned()],
        evidence: vec![EvidenceRef {
            source: "path_scan".to_owned(),
            locator: "C:/Python/python.exe".to_owned(),
            observed_at,
            content_hash: None,
            metadata: Vec::new(),
        }],
        observed_at,
        metadata: Vec::new(),
    };
    assert_eq!(asset.evidence[0].source, "path_scan");
    assert_eq!(asset.health, HealthState::Ready);
}
