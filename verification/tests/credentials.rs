use design_extractor::providers::config::{ProviderConfig, ProviderConfigView, ProviderKind};
use design_extractor::providers::credentials::{
    create_allowed, credential_ref_for_provider, delete_outcome, delete_provider_secret_with_store,
    read_outcome, read_provider_secret_with_store, replace_allowed, replace_provider_secret_with_store,
    save_provider_with_store, CredentialStoreError, KeyringFailure, MemoryCredentialStore, SERVICE_NAME,
};
use serde_json::Value;

fn provider_id() -> u128 {
    uuid::Uuid::parse_str("6f904c54-2187-4b7b-85b7-95ab5bdf25aa").unwrap().as_u128()
}

fn config() -> ProviderConfig {
    ProviderConfig {
        id: provider_id(),
        name: "OpenAI".to_owned(),
        kind: ProviderKind::OpenAi,
        base_url: "https://api.openai.com/v1".to_owned(),
        model: "vision-model".to_owned(),
        credential_ref: String::new(),
    }
}

fn kind_name(kind: ProviderKind) -> &'static str {
    design_extractor::providers::config::provider_kind_to_str(kind)
}

/// The JSON form in which a configuration is stored and shown.
fn config_json(config: &ProviderConfig) -> String {
    let mut map = serde_json::Map::new();
    map.insert("id".to_owned(), Value::String(uuid::Uuid::from_u128(config.id).to_string()));
    map.insert("name".to_owned(), Value::String(config.name.clone()));
    map.insert("kind".to_owned(), Value::String(kind_name(config.kind).to_owned()));
    map.insert("base_url".to_owned(), Value::String(config.base_url.clone()));
    map.insert("model".to_owned(), Value::String(config.model.clone()));
    map.insert("credential_ref".to_owned(), Value::String(config.credential_ref.clone()));
    serde_json::to_string(&Value::Object(map)).unwrap()
}

fn view_json(view: &ProviderConfigView) -> String {
    let mut map = serde_json::Map::new();
    map.insert("id".to_owned(), Value::String(uuid::Uuid::from_u128(view.id).to_string()));
    map.insert("name".to_owned(), Value::String(view.name.clone()));
    map.insert("kind".to_owned(), Value::String(kind_name(view.kind).to_owned()));
    map.insert("base_url".to_owned(), Value::String(view.base_url.clone()));
    map.insert("model".to_owned(), Value::String(view.model.clone()));
    map.insert("has_credential".to_owned(), Value::Bool(view.has_credential));
    serde_json::to_string(&Value::Object(map)).unwrap()
}

#[test]
fn provider_serialization_never_contains_the_secret() {
    let mut store = MemoryCredentialStore::default();
    let saved = save_provider_with_store(&mut store, config(), "sk-secret").unwrap();

    let json = config_json(&saved);

    assert!(!json.contains("sk-secret"));
    assert!(json.contains("credential_ref"));
}

#[test]
fn frontend_safe_view_exposes_only_credential_presence() {
    let mut store = MemoryCredentialStore::default();
    let saved = save_provider_with_store(&mut store, config(), "sk-secret").unwrap();
    let view = ProviderConfigView::from_config(&saved, true);

    let json = view_json(&view);

    assert!(view.has_credential);
    assert!(json.contains("has_credential"));
    assert!(!json.contains("sk-secret"));
    assert!(!json.contains("credential_ref"));
}

#[test]
fn memory_store_supports_create_read_replace_and_delete() {
    let mut store = MemoryCredentialStore::default();
    let saved = save_provider_with_store(&mut store, config(), "sk-original").unwrap();

    assert_eq!(
        read_provider_secret_with_store(&mut store, &saved).unwrap(),
        Some("sk-original".to_owned())
    );

    replace_provider_secret_with_store(&mut store, &saved, "sk-replacement").unwrap();
    assert_eq!(
        read_provider_secret_with_store(&mut store, &saved).unwrap(),
        Some("sk-replacement".to_owned())
    );

    delete_provider_secret_with_store(&mut store, &saved).unwrap();
    assert_eq!(read_provider_secret_with_store(&mut store, &saved).unwrap(), None);
}

#[test]
fn credential_ref_is_deterministic_and_uses_provider_id() {
    let credential_ref = credential_ref_for_provider(provider_id());

    assert_eq!(
        credential_ref,
        format!(
            "keyring://{SERVICE_NAME}/provider:{}",
            uuid::Uuid::from_u128(provider_id())
        )
    );
}

#[test]
fn saving_twice_is_refused_and_keeps_the_first_secret() {
    let mut store = MemoryCredentialStore::default();
    let saved = save_provider_with_store(&mut store, config(), "first").unwrap();

    let error = save_provider_with_store(&mut store, config(), "second").unwrap_err();

    assert!(matches!(error, CredentialStoreError::CredentialAlreadyExists));
    assert_eq!(error.message(), "credential already exists");
    assert_eq!(
        read_provider_secret_with_store(&mut store, &saved).unwrap(),
        Some("first".to_owned())
    );
}

#[test]
fn replacing_a_missing_secret_is_refused() {
    let mut store = MemoryCredentialStore::default();
    let mut unsaved = config();
    unsaved.credential_ref = credential_ref_for_provider(unsaved.id);

    let error = replace_provider_secret_with_store(&mut store, &unsaved, "key").unwrap_err();

    assert!(matches!(error, CredentialStoreError::CredentialNotFound));
    assert_eq!(read_provider_secret_with_store(&mut store, &unsaved).unwrap(), None);
}

#[test]
fn deleting_a_missing_secret_succeeds() {
    let mut store = MemoryCredentialStore::default();
    let mut unsaved = config();
    unsaved.credential_ref = credential_ref_for_provider(unsaved.id);

    delete_provider_secret_with_store(&mut store, &unsaved).unwrap();
    delete_provider_secret_with_store(&mut store, &unsaved).unwrap();
}

#[test]
fn a_foreign_credential_reference_is_refused() {
    let mut store = MemoryCredentialStore::default();
    let mut foreign = config();
    foreign.credential_ref = "keyring://test/provider".to_owned();

    let error = read_provider_secret_with_store(&mut store, &foreign).unwrap_err();

    match error {
        CredentialStoreError::InvalidCredentialRef(r) => assert_eq!(r, "keyring://test/provider"),
        _ => panic!("expected an invalid reference"),
    }
    let mut other = config();
    other.credential_ref = credential_ref_for_provider(provider_id() + 1);
    assert!(read_provider_secret_with_store(&mut store, &other).is_err());
}

#[test]
fn secrets_of_different_providers_are_kept_apart() {
    let mut store = MemoryCredentialStore::default();
    let first = save_provider_with_store(&mut store, config(), "one").unwrap();
    let mut second = config();
    second.id = provider_id() + 1;
    let second = save_provider_with_store(&mut store, second, "two").unwrap();

    delete_provider_secret_with_store(&mut store, &first).unwrap();

    assert_eq!(read_provider_secret_with_store(&mut store, &first).unwrap(), None);
    assert_eq!(
        read_provider_secret_with_store(&mut store, &second).unwrap(),
        Some("two".to_owned())
    );
}

#[test]
fn keyring_answers_are_read_as_the_store_reports_them() {
    assert!(matches!(read_outcome(Ok("s".to_owned())), Ok(Some(s)) if s == "s"));
    assert!(matches!(read_outcome(Err(KeyringFailure::NoEntry)), Ok(None)));
    assert!(matches!(
        read_outcome(Err(KeyringFailure::Other(keyring::Error::TooLong("user".to_owned(), 4)))),
        Err(CredentialStoreError::Keyring(keyring::Error::TooLong(_, 4)))
    ));

    assert!(delete_outcome(Ok(())).is_ok());
    assert!(delete_outcome(Err(KeyringFailure::NoEntry)).is_ok());
    assert!(matches!(
        delete_outcome(Err(KeyringFailure::Other(keyring::Error::Invalid("a".to_owned(), "b".to_owned())))),
        Err(CredentialStoreError::Keyring(keyring::Error::Invalid(_, _)))
    ));

    assert!(matches!(create_allowed(&Some("old".to_owned())), Err(CredentialStoreError::CredentialAlreadyExists)));
    assert!(create_allowed(&None).is_ok());
    assert!(matches!(replace_allowed(&None), Err(CredentialStoreError::CredentialNotFound)));
    assert!(replace_allowed(&Some("old".to_owned())).is_ok());
}
