use vertex_ai::model_names::{infer_capabilities, infer_filename_metadata};
use vertex_ai::models::{
    normalized_path_on, paths_overlap_on, CapabilitySet, CompatibilityState, FoundFile,
    HardwareSnapshot, ModelCapability, ModelHealth, ModelManagementError, ModelManager,
    ModelSelectionRequest, ModelSource, StorageAvailability, StorageProbe,
};
use vertex_ai::types::{
    HealthState, InstalledLocalModel, LocalRuntimeSnapshot, ModelId, ModelRef, ProviderId,
};

fn runtime_model(name: &str, size: u64) -> InstalledLocalModel {
    InstalledLocalModel {
        reference: ModelRef::new(ProviderId::new("ollama").unwrap(), ModelId::new(name).unwrap()),
        display_name: name.to_owned(),
        size_bytes: size,
        digest: Some("sha256:test".to_owned()),
        format: Some("gguf".to_owned()),
        family: Some("qwen3".to_owned()),
        parameter_size: Some("8B".to_owned()),
        quantization_level: Some("Q4_K_M".to_owned()),
        context_length: Some(32_768),
        modified_at: None,
    }
}

fn runtime(models: Vec<InstalledLocalModel>) -> LocalRuntimeSnapshot {
    LocalRuntimeSnapshot {
        provider_id: ProviderId::new("ollama").unwrap(),
        display_name: "Ollama".to_owned(),
        endpoint: "http://127.0.0.1:11434".to_owned(),
        health: HealthState::Ready,
        version: Some("test".to_owned()),
        executable_path: None,
        model_storage_path: Some("D:/Ollama/models".to_owned()),
        storage_total_bytes: None,
        storage_available_bytes: None,
        installed_models: models,
        loaded_models: Vec::new(),
        checked_at: 0,
    }
}

fn file(path: &str, size: u64) -> FoundFile {
    FoundFile { path: path.to_owned(), size }
}

fn probe(exists: bool) -> StorageProbe {
    StorageProbe { exists, is_dir: exists, total_space: None, free_space: Some(1_000) }
}

#[test]
fn storage_crud_default_validation_and_persistence() {
    let mut manager = ModelManager::new();
    let first = manager.add_storage_location_at("A", "/data/models-a", 1, None, None, 10, false).unwrap();
    let second = manager.add_storage_location_at("B", "/data/models-b", 2, None, None, 11, false).unwrap();
    assert!(first.is_default);
    assert!(!second.is_default);
    assert!(first.id.starts_with("storage:"));
    assert!(manager.add_storage_location_at("duplicate", "/data/models-a/", 3, None, None, 12, false).is_err());
    let selected = manager.set_default_storage_at(&second.id, 13).unwrap();
    assert!(selected.is_default);
    let reopened = ModelManager::from_document(1, manager.list_models(), manager.storage_locations()).unwrap();
    assert_eq!(reopened.storage_locations().len(), 2);
    assert!(reopened
        .storage_locations()
        .iter()
        .any(|item| item.id == second.id && item.is_default));
    assert_eq!(reopened.storage_locations().iter().filter(|item| item.is_default).count(), 1);
    assert!(matches!(
        ModelManager::from_document(2, Vec::new(), Vec::new()),
        Err(ModelManagementError::UnsupportedSchema(2))
    ));
}

#[test]
fn invalid_and_overlapping_storage_is_rejected() {
    let mut manager = ModelManager::new();
    let parent = "/tmp/root/models";
    let child = "/tmp/root/models/nested";
    manager.add_storage_location("parent", parent, None, None).unwrap();
    assert!(manager.add_storage_location("child", child, None, None).is_err());
    assert_eq!(manager.storage_locations().len(), 1);
}

#[test]
fn windows_storage_paths_compare_without_case_or_trailing_separator() {
    let mut manager = ModelManager::new();
    manager.add_storage_location_at("parent", "C:/Data/Models", 1, None, None, 0, true).unwrap();
    match manager.add_storage_location_at("child", "C:/Data/Models/nested", 2, None, None, 0, true) {
        Err(ModelManagementError::InvalidStorage(m)) => {
            assert_eq!(m, "親子関係にある保存先は重複登録できません: C:/Data/Models")
        }
        other => panic!("unexpected {other:?}"),
    }
    match manager.add_storage_location_at("same", "c:\\data\\models\\", 3, None, None, 0, true) {
        Err(ModelManagementError::InvalidStorage(m)) => assert_eq!(m, "同じ保存先は既に登録されています"),
        other => panic!("unexpected {other:?}"),
    }
    assert_eq!(manager.storage_locations().len(), 1);
    assert!(matches!(manager.set_default_storage_at("storage:none", 1), Err(ModelManagementError::StorageNotFound(_))));
}

#[test]
fn nested_storage_is_refused_on_every_platform_rule() {
    for windows in [false, true] {
        let mut manager = ModelManager::new();
        manager.add_storage_location_at("parent", "/srv/models", 1, None, None, 0, windows).unwrap();
        assert!(matches!(
            manager.add_storage_location_at("child", "/srv/models/nested", 2, None, None, 0, windows),
            Err(ModelManagementError::InvalidStorage(_))
        ));
        assert!(matches!(
            manager.add_storage_location_at("above", "/srv", 3, None, None, 0, windows),
            Err(ModelManagementError::InvalidStorage(_))
        ));
        assert!(manager.add_storage_location_at("sibling", "/srv/models-2", 4, None, None, 0, windows).is_ok());
    }
}

#[test]
fn unavailable_storage_and_models_survive_recovery() {
    let mut manager = ModelManager::new();
    let storage = manager.add_storage_location_at("External", "/mnt/external", 7, None, None, 0, false).unwrap();
    let found = manager
        .discover_storage_at(&storage.id, &vec![file("/mnt/external/qwen-8b-q4_k.gguf", 4)], 1, false)
        .unwrap();
    assert_eq!(found.len(), 1);
    manager.refresh_storage_at(&vec![probe(false)], 2);
    let reopened = ModelManager::from_document(1, manager.list_models(), manager.storage_locations()).unwrap();
    assert_eq!(reopened.list_models().len(), 1);
    assert_eq!(reopened.list_models()[0].health, ModelHealth::Missing);
    assert_eq!(reopened.storage_locations()[0].availability, StorageAvailability::Missing);
    assert!(matches!(
        manager.discover_storage_at(&storage.id, &Vec::new(), 3, false),
        Err(ModelManagementError::InvalidStorage(_))
    ));
}

#[test]
fn gguf_discovery_metadata_and_duplicate_detection_are_deterministic() {
    let mut manager = ModelManager::new();
    let first = manager.add_storage_location_at("First", "/root/first", 1, None, None, 0, false).unwrap();
    let second = manager.add_storage_location_at("Second", "/root/second", 2, None, None, 0, false).unwrap();
    let mut models = manager
        .discover_storage_at(
            &first.id,
            &vec![file("/root/first/qwen-8b-q4_k.gguf", 4), file("/root/first/ignore.bin", 4)],
            1,
            false,
        )
        .unwrap();
    models.extend(
        manager
            .discover_storage_at(&second.id, &vec![file("/root/second/qwen-8b-q4_k.gguf", 4)], 1, false)
            .unwrap(),
    );
    assert_eq!(models.len(), 2);
    assert!(models.iter().all(|model| model.format.as_deref() == Some("GGUF")));
    assert!(models.iter().all(|model| model.capabilities.contains(ModelCapability::Coding)));
    assert_eq!(models[0].display_name, "qwen 8b q4 k");
    assert_eq!(models[0].family.as_deref(), Some("qwen"));
    assert_eq!(models[0].parameter_size.as_deref(), Some("8B"));
    assert_eq!(models[0].quantization.as_deref(), Some("Q4_K"));
    let duplicates = manager.duplicates();
    assert_eq!(duplicates.len(), 1);
    assert_eq!(duplicates[0].model_ids.len(), 2);
    assert_eq!(duplicates[0].evidence, vec!["filename=qwen-8b-q4_k.gguf", "file_size=4"]);
}

#[test]
fn ollama_adapter_reconciles_inventory_and_preserves_typed_metadata() {
    let mut manager = ModelManager::new();
    let models = manager.ingest_runtime_snapshot(&runtime(vec![runtime_model("qwen3:8b", 8_000)])).unwrap();
    assert_eq!(models.len(), 1);
    assert_eq!(models[0].source, ModelSource::Ollama);
    assert!(models[0].capabilities.contains(ModelCapability::StructuredOutput));
    assert!(models[0].capabilities.contains(ModelCapability::LongContext));
    assert_eq!(models[0].id, "ollama:qwen3:8b");
    manager.ingest_runtime_snapshot(&runtime(Vec::new())).unwrap();
    assert!(manager.list_models().is_empty());
}

#[test]
fn runtime_that_is_not_ready_marks_its_models_unavailable() {
    let mut manager = ModelManager::new();
    manager.ingest_runtime_snapshot_at(&runtime(vec![runtime_model("qwen3:8b", 8_000)]), 1);
    let mut offline = runtime(Vec::new());
    offline.health = HealthState::Offline;
    let marked = manager.ingest_runtime_snapshot_at(&offline, 2);
    assert_eq!(marked.len(), 1);
    assert_eq!(marked[0].health, ModelHealth::Unavailable);
    assert_eq!(marked[0].updated_at, 2);
}

#[test]
fn model_crud_compatibility_and_auto_candidate_boundary_work() {
    let mut manager = ModelManager::new();
    let model = manager
        .ingest_runtime_snapshot(&runtime(vec![runtime_model("qwen3:8b", 8_000)]))
        .unwrap()
        .remove(0);
    let hardware = HardwareSnapshot {
        system_ram_total: Some(32_000),
        system_ram_available: Some(16_000),
        gpu_vram_total: Some(12_000),
        gpu_vram_available: Some(10_000),
        gpu_vram_in_use: 2_000,
        storage_locations: Vec::new(),
        observed_at: 0,
    };
    let assessment = manager.assess(&model, &hardware);
    assert_eq!(assessment.state, CompatibilityState::Compatible);
    assert_eq!(assessment.reasons, vec!["モデル 8000 bytes は利用可能VRAM内です"]);
    let mut required = CapabilitySet::empty();
    required.insert(ModelCapability::Coding);
    let request = ModelSelectionRequest {
        required_capabilities: required,
        allowed_runtime_ids: vec!["ollama".to_owned()],
        local_only: true,
    };
    let ranked = manager.rank_candidates(&request, &hardware);
    assert_eq!(ranked.len(), 1);
    assert_eq!(ranked[0].score, 7 * 10 + 50);
    let removed = manager.remove_model(&model.id).unwrap();
    assert_eq!(removed.id, model.id);
    assert!(manager.get_model(&model.id).is_err());
}

#[test]
fn candidates_are_ranked_by_score_then_identifier() {
    let mut manager = ModelManager::new();
    manager.ingest_runtime_snapshot_at(
        &runtime(vec![
            runtime_model("qwen3:8b", 8_000),
            runtime_model("qwen3:4b", 30_000),
            runtime_model("qwen3:1b", 1_000),
        ]),
        0,
    );
    let hardware = HardwareSnapshot {
        system_ram_total: None,
        system_ram_available: Some(20_000),
        gpu_vram_total: None,
        gpu_vram_available: Some(10_000),
        gpu_vram_in_use: 0,
        storage_locations: Vec::new(),
        observed_at: 0,
    };
    let request = ModelSelectionRequest {
        required_capabilities: CapabilitySet::empty(),
        allowed_runtime_ids: Vec::new(),
        local_only: false,
    };
    let ranked = manager.rank_candidates(&request, &hardware);
    let ids: Vec<&str> = ranked.iter().map(|c| c.model.id.as_str()).collect();
    assert_eq!(ids, vec!["ollama:qwen3:1b", "ollama:qwen3:8b", "ollama:qwen3:4b"]);
    assert_eq!(ranked[2].compatibility.state, CompatibilityState::ResourceConstrained);
}

#[test]
fn move_foundation_preflights_without_mutating_files() {
    let mut manager = ModelManager::new();
    let source = manager.add_storage_location_at("Source", "/srv/source", 1, None, None, 0, false).unwrap();
    let destination = manager
        .add_storage_location_at("Destination", "/srv/destination", 2, None, Some(100), 0, false)
        .unwrap();
    let model = manager
        .discover_storage_at(&source.id, &vec![file("/srv/source/model.gguf", 5)], 0, false)
        .unwrap()
        .remove(0);
    let plan = manager.plan_move(&model.id, &destination.id).unwrap();
    assert_eq!(plan.required_bytes, 5);
    assert_eq!(plan.destination_path, "/srv/destination/model.gguf");
    assert_eq!(plan.verification.len(), 3);
    assert!(matches!(manager.plan_move("local:missing", &destination.id), Err(ModelManagementError::ModelNotFound(_))));
    assert!(matches!(manager.plan_move(&model.id, "storage:none"), Err(ModelManagementError::StorageNotFound(_))));
}

#[test]
fn names_tell_capabilities_and_metadata() {
    let caps = infer_capabilities("Llama-3", None);
    assert!(caps.contains(ModelCapability::ToolUse));
    assert!(!caps.contains(ModelCapability::Coding));
    assert!(caps.contains(ModelCapability::General));
    let (family, size, quant) = infer_filename_metadata("Mistral_7.5B-Q8_0");
    assert_eq!(family.as_deref(), Some("mistral"));
    assert_eq!(size.as_deref(), Some("7.5B"));
    assert_eq!(quant.as_deref(), Some("Q8_0"));
    let (_, none, _) = infer_filename_metadata("model-b-x");
    assert_eq!(none, None);
}

#[test]
fn paths_are_compared_in_normal_form() {
    assert_eq!(normalized_path_on("C:/Models/", true), "c:\\models");
    assert_eq!(normalized_path_on("/a/b/", false), "\\a\\b");
    assert!(paths_overlap_on("C:/Models", "C:/Models/Sub", true));
    assert!(!paths_overlap_on("C:/Models", "C:/ModelsX", true));
}
