use vertex_ai::postgres_runtime::{
    diagnose_findings, inspected_state, managed_snapshot, needs_new_port, record_ready, record_start_failure,
    wants_database_stats, DatabaseStats, ManagedPostgresPaths, RuntimeManifest,
};
use vertex_ai::runtime::ManagedRuntimeState;
use vertex_ai::postgres_runtime::{
    check_cluster_version, check_manifest_schema, generate_password, major_version, redact_error,
};

#[test]
fn generated_password_is_strong_and_log_safe() {
    let password = generate_password().unwrap();
    assert_eq!(password.len(), 64);
    assert!(password.chars().all(|character| character.is_ascii_hexdigit()));
    assert_eq!(
        redact_error(&format!("password={password} next")),
        "password=[REDACTED] next"
    );
}

#[test]
fn both_password_markers_are_redacted() {
    assert_eq!(
        redact_error("PGPASSWORD=abc password=def tail"),
        "PGPASSWORD=[REDACTED] password=[REDACTED] tail"
    );
    assert_eq!(redact_error("nothing secret"), "nothing secret");
}

#[test]
fn cluster_versions_compare_by_major_version() {
    assert_eq!(major_version("17.2"), "17");
    assert!(check_cluster_version(" 18\n").is_ok());
    assert!(check_cluster_version("17").is_err());
    assert!(check_manifest_schema(1).is_ok());
    assert!(check_manifest_schema(2).is_err());
}

#[test]
fn managed_snapshots_and_diagnoses_follow_observations() {
    let paths = ManagedPostgresPaths { runtime_root: "/rt".to_owned(), data_root: "/data".to_owned() };
    let mut manifest = RuntimeManifest::fresh(55432, 1);
    assert!(!wants_database_stats(ManagedRuntimeState::Ready, &manifest));
    record_ready(&mut manifest, 99);
    assert!(manifest.database_initialized);
    assert_eq!(manifest.last_successful_start, Some(99));
    assert!(wants_database_stats(ManagedRuntimeState::Ready, &manifest));
    let stats = DatabaseStats { size_bytes: Some(4096), connection_count: Some(-1), schema_version: Some(3) };
    let snapshot = managed_snapshot(&paths, &manifest, ManagedRuntimeState::Ready, Some(stats), 100);
    assert_eq!(snapshot.id, "vertex-memory-core");
    assert_eq!(snapshot.database_size_bytes, Some(4096));
    assert_eq!(snapshot.connection_count, None);
    assert_eq!(snapshot.schema_version.as_deref(), Some("3"));
    assert_eq!(snapshot.port, Some(55432));
    let error = record_start_failure(&mut manifest, "start failed");
    assert!(manifest.last_error.is_some());
    assert!(matches!(error, vertex_ai::postgres_runtime::ManagedPostgresError::RepairRequired(m) if m == "start failed"));
    assert_eq!(inspected_state(false, true), ManagedRuntimeState::Stopped);
    assert_eq!(inspected_state(false, false), ManagedRuntimeState::RepairRequired);
    assert!(needs_new_port(false, false));
    assert!(!needs_new_port(true, false));
    let missing = diagnose_findings(Some("runtime is missing".to_owned()), false, Err("x".to_owned()), true, None);
    assert_eq!(missing.len(), 1);
    assert_eq!(missing[0].code, "runtime_missing");
    let both = diagnose_findings(None, true, Ok(5432), false, Some("refused".to_owned()));
    let codes: Vec<&str> = both.iter().map(|d| d.code.as_str()).collect();
    assert_eq!(codes, vec!["port_conflict", "connection_failure"]);
    assert_eq!(both[0].detail, "Managed port 5432 is occupied by another process");
    assert_eq!(both[0].summary, "port conflict");
    assert!(diagnose_findings(None, true, Ok(5432), true, None).is_empty());
}
