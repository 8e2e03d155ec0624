use vertex_ai::environment::{
    default_detectors, diff_snapshots, EnvironmentError, EnvironmentScanner, PersistentEnvironmentIndex,
    ScanHit, ToolDetector,
};
use vertex_ai::types::{AssetCategory, AssetKind, HealthState};

fn probe_scanner() -> EnvironmentScanner {
    EnvironmentScanner::new(vec![ToolDetector::new(
        "Vertex Probe",
        AssetCategory::Developer,
        AssetKind::Executable,
        vec!["vertex-probe.exe"],
        vec!["development.vertex_probe"],
    )])
}

fn hit(path: &str) -> ScanHit {
    ScanHit { detector: 0, resolved: path.to_owned() }
}

#[test]
fn path_scan_produces_verified_asset_and_capability_relationship() {
    let snapshot = probe_scanner()
        .scan_found(&vec!["/opt/probe".to_owned()], &vec![hit("/opt/probe/vertex-probe.exe")], 5, false)
        .unwrap();
    assert_eq!(snapshot.assets.len(), 1);
    assert_eq!(snapshot.assets[0].health, HealthState::Ready);
    assert_eq!(snapshot.assets[0].evidence[0].source, "path_scan");
    assert_eq!(snapshot.assets[0].id.as_str(), "executable:/opt/probe/vertex-probe.exe");
    assert_eq!(snapshot.relationships.len(), 1);
    assert!(snapshot.relationships[0].verified);
    assert_eq!(snapshot.relationships[0].target_id, "capability:development.vertex_probe");
}

#[test]
fn semantic_metadata_search_matches_capabilities() {
    let scanner = EnvironmentScanner::new(vec![ToolDetector::new(
        "Media Tool",
        AssetCategory::Creator,
        AssetKind::Executable,
        vec!["media-tool.exe"],
        vec!["creator.transcoding"],
    )]);
    let snapshot = scanner
        .scan_found(&vec!["/tools".to_owned()], &vec![hit("/tools/media-tool.exe")], 0, false)
        .unwrap();
    assert_eq!(snapshot.search("transcoding").len(), 1);
    assert_eq!(snapshot.search("  MEDIA ").len(), 1);
    assert!(snapshot.search("database").is_empty());
    assert_eq!(snapshot.search(" ").len(), 1);
}

#[test]
fn empty_search_path_is_rejected() {
    let scanner = EnvironmentScanner::new(Vec::new());
    assert!(matches!(
        scanner.scan_found(&vec![String::new()], &Vec::new(), 0, false),
        Err(EnvironmentError::EmptySearchPath)
    ));
}

#[test]
fn duplicate_locations_are_reported_once_and_assets_are_sorted() {
    let scanner = EnvironmentScanner::new(vec![
        ToolDetector::new("Zeta", AssetCategory::Developer, AssetKind::Executable, vec!["z"], vec![]),
        ToolDetector::new("Alpha", AssetCategory::Developer, AssetKind::Executable, vec!["a"], vec![]),
    ]);
    let hits = vec![
        ScanHit { detector: 0, resolved: "C:\\Bin\\z".to_owned() },
        ScanHit { detector: 0, resolved: "c:/bin/Z".to_owned() },
        ScanHit { detector: 1, resolved: "C:\\Bin\\a".to_owned() },
    ];
    let snapshot = scanner.scan_found(&vec!["C:\\Bin".to_owned()], &hits, 0, true).unwrap();
    let names: Vec<&str> = snapshot.assets.iter().map(|a| a.name.as_str()).collect();
    assert_eq!(names, vec!["Alpha", "Zeta"]);
}

#[test]
fn persistent_index_round_trips_and_ignores_observation_time_only_changes() {
    let scanner = probe_scanner();
    let roots = vec!["/probe".to_owned()];
    let hits = vec![hit("/probe/vertex-probe.exe")];
    let first = scanner.scan_found(&roots, &hits, 1, false).unwrap();
    let mut index = PersistentEnvironmentIndex::empty();
    let first_delta = index.update(first);
    assert_eq!(first_delta.added.len(), 1);
    let second = scanner.scan_found(&roots, &hits, 2, false).unwrap();
    let second_delta = index.update(second);
    assert!(!second_delta.has_changes());
    let stored = index.current().unwrap().clone();
    let reopened = PersistentEnvironmentIndex::from_document(1, Some(stored)).unwrap();
    assert_eq!(reopened.current().unwrap().assets.len(), 1);
    assert!(matches!(
        PersistentEnvironmentIndex::from_document(9, None),
        Err(EnvironmentError::UnsupportedSchema(9))
    ));
}

#[test]
fn persistent_index_reports_removed_assets() {
    let scanner = probe_scanner();
    let roots = vec!["/probe".to_owned()];
    let mut index = PersistentEnvironmentIndex::empty();
    index.update(scanner.scan_found(&roots, &vec![hit("/probe/vertex-probe.exe")], 1, false).unwrap());
    let delta = index.update(scanner.scan_found(&roots, &Vec::new(), 2, false).unwrap());
    assert_eq!(delta.removed.len(), 1);
    assert!(delta.relationships_changed);
    assert!(delta.has_changes());
}

#[test]
fn first_snapshot_without_relationships_changes_none() {
    let scanner = EnvironmentScanner::new(Vec::new());
    let empty = scanner.scan_found(&vec!["/x".to_owned()], &Vec::new(), 0, false).unwrap();
    let delta = diff_snapshots(None, &empty);
    assert!(!delta.has_changes());
}

#[test]
fn default_detectors_cover_the_known_tools() {
    let detectors = default_detectors();
    assert_eq!(detectors.len(), 11);
    assert_eq!(detectors[0].name, "Python");
    assert_eq!(detectors[6].executable_names, vec!["ollama.exe", "ollama"]);
    assert_eq!(detectors[10].name, "PostgreSQL Client");
}
