use vertex_ai::secrets::{InMemorySecretStore, SecretId, SecretStoreError, SecretValue, WindowsCredentialStore};
use vertex_ai::types::ProviderId;

#[test]
fn os_store_rejects_blank_service_name_without_platform_access() {
    assert!(WindowsCredentialStore::new("  ").is_err());
}

#[test]
fn memory_store_round_trip_and_redaction() {
    let provider = ProviderId::new("mock").unwrap();
    let id = SecretId::provider_api_key(&provider);
    assert_eq!(id.as_str(), "provider/mock/api-key");
    let mut store = InMemorySecretStore::new();
    let value = SecretValue::new("do-not-log-me".to_owned()).ok().unwrap();
    assert!(!value.redacted().contains("do-not-log-me"));
    store.put(&id, value).ok().unwrap();
    assert_eq!(store.get(&id).ok().unwrap().unwrap().expose(), "do-not-log-me");
    assert!(store.delete(&id).ok().unwrap());
    assert!(store.get(&id).ok().unwrap().is_none());
    assert!(!store.delete(&id).ok().unwrap());
}

#[test]
fn empty_secret_values_are_refused() {
    match SecretValue::new(String::new()) {
        Err(SecretStoreError::Invalid(m)) => assert_eq!(m, "secret cannot be empty"),
        _ => panic!("empty secret accepted"),
    }
}

#[test]
fn os_store_on_another_platform_is_unavailable() {
    match WindowsCredentialStore::new_on("Vertex AI", false) {
        Err(SecretStoreError::Unavailable(m)) => {
            assert_eq!(m, "Windows Credential Manager is unavailable on this platform")
        }
        _ => panic!("expected unavailable"),
    }
    let store = WindowsCredentialStore::new_on("Vertex AI", true).unwrap();
    assert_eq!(store.service_name(), "Vertex AI");
}
