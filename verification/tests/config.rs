use aegis::cli::config::{config_command_file, handle_config_command, ConfigCommands};
use aegis::config_store::{
    validate_name, ConfigRead, CredentialInput, CredentialsSettings, SecretsRead,
    StoredProfileSecrets,
};
use aegis::json::{parse_json_bytes, JsonValue};
use aegis::{AegisConfigStore, AegisSecretStore};

fn config() -> AegisConfigStore {
    AegisConfigStore::detect(Some("/state".into()), None).expect("store")
}

fn secrets() -> AegisSecretStore {
    AegisSecretStore::detect(Some("/state".into()), None).expect("store")
}

fn object(members: Vec<(&str, JsonValue)>) -> JsonValue {
    JsonValue::Object(members.into_iter().map(|(k, v)| (k.to_string(), v)).collect())
}

fn input() -> CredentialInput {
    CredentialInput {
        origin: "https://example.com".into(),
        username: "saint".into(),
        password: "pw".into(),
        username_field: Some("email".into()),
        password_field: Some("password".into()),
        form_label: Some("Sign in".into()),
    }
}

fn stored(bytes: &[u8]) -> SecretsRead {
    let read = || {
        let value = parse_json_bytes(bytes).ok()?;
        let version = value.get("version").and_then(|v| v.as_u64())?;
        let secrets = value.get("secrets")?.clone();
        Some(StoredProfileSecrets { version: u32::try_from(version).ok()?, secrets })
    };
    match read() {
        Some(stored) => SecretsRead::Parsed(stored),
        None => SecretsRead::Corrupt,
    }
}

#[test]
fn validate_name_rejects_invalid_characters() {
    assert!(validate_name("profile-1", "profile").is_ok());
    assert!(validate_name("bad/name", "profile").is_err());
}

#[test]
fn config_get_repairs_corrupt_default_file() {
    let value = match config().get("agent", Some(b"{bad-json")) {
        Ok(ConfigRead::Repaired(value)) => value,
        other => panic!("expected a repair, got {other:?}"),
    };
    assert_eq!(value.get("default_profile").and_then(|v| v.as_str()), Some("default"));
    let path = config().config_file("agent").expect("plain name");
    assert_eq!(
        aegis::state::corrupt_backup_path(&path, 7),
        "/state/settings/agent.json.corrupt.7"
    );
}

#[test]
fn secrets_get_repairs_corrupt_profile_file() {
    let (value, repair) = secrets()
        .load_profile_secrets("default", &stored(b"{bad-json"))
        .expect("plain name");
    assert!(repair);
    assert_eq!(
        value,
        object(vec![(
            "credentials",
            object(vec![
                ("version", JsonValue::Unsigned(1)),
                ("entries", JsonValue::Array(vec![])),
            ])
        )])
    );
    let path = secrets().secrets_path("default").expect("plain name");
    assert!(aegis::state::corrupt_backup_path(&path, 7).contains("secrets.json.corrupt."));
}

#[test]
fn credentials_settings_default_to_auto_store() {
    let settings = config().load_credentials_settings(None);
    assert_eq!(
        settings,
        CredentialsSettings {
            version: 1,
            auto_store: true
        }
    );
    let off = object(vec![("auto_store", JsonValue::Bool(false))]);
    assert!(!config().load_credentials_settings(Some(&off)).auto_store);
    let odd = object(vec![("auto_store", JsonValue::Unsigned(0))]);
    assert!(config().load_credentials_settings(Some(&odd)).auto_store);
}

#[test]
fn credential_store_round_trips_and_preserves_other_secrets() {
    let store = secrets();
    let keys = object(vec![(
        "api_keys",
        object(vec![("openai", JsonValue::Text("secret".into()))]),
    )]);
    let (_, file) = store.save_profile_secrets("default", &keys).expect("plain name");
    let (change, saved) = store
        .upsert_profile_credential("default", &stored(&file), &input())
        .expect("stored");
    assert_eq!(saved.origin, "https://example.com");
    assert!(!change.repair);
    let file = change.bytes;
    let credentials = store.load_profile_credentials("default", &stored(&file)).expect("read");
    assert_eq!(credentials.len(), 1);
    assert_eq!(credentials[0].username, "saint");
    let (raw, _) = store.load_profile_secrets("default", &stored(&file)).expect("read");
    assert_eq!(
        raw.get("api_keys").and_then(|v| v.get("openai")).and_then(|v| v.as_str()),
        Some("secret")
    );
    let (change, removed) = store
        .remove_profile_credential("default", &stored(&file), "https://example.com", "saint")
        .expect("removed");
    assert!(removed);
    let file = change.bytes;
    assert!(store.load_profile_credentials("default", &stored(&file)).expect("read").is_empty());
}

#[test]
fn storing_again_keeps_the_time_of_creation() {
    let store = secrets();
    let (change, first) = store
        .upsert_profile_credential_at("default", &SecretsRead::Missing, &input(), 5)
        .expect("stored");
    assert_eq!((first.created_at_ms, first.updated_at_ms), (5, 5));
    let file = change.bytes;
    let again = CredentialInput {
        origin: " HTTPS://EXAMPLE.COM ".into(),
        password: "other".into(),
        ..input()
    };
    let (change, second) = store
        .upsert_profile_credential_at("default", &stored(&file), &again, 9)
        .expect("stored");
    assert_eq!((second.created_at_ms, second.updated_at_ms), (5, 9));
    let file = change.bytes;
    let list = store.load_profile_credentials("default", &stored(&file)).expect("read");
    assert_eq!(list.len(), 1);
    assert_eq!(list[0].password, "other");
}

#[test]
fn credentials_are_kept_in_order() {
    let store = secrets();
    let mut file = SecretsRead::Missing;
    for origin in ["https://c", "https://a", "https://b"] {
        let input = CredentialInput { origin: origin.into(), ..input() };
        let (change, _) = store
            .upsert_profile_credential_at("p", &file, &input, 1)
            .expect("stored");
        file = stored(&change.bytes);
    }
    let origins: Vec<String> = store
        .load_profile_credentials("p", &file)
        .expect("read")
        .into_iter()
        .map(|entry| entry.origin)
        .collect();
    assert_eq!(origins, vec!["https://a", "https://b", "https://c"]);
}

#[test]
fn credentials_without_an_origin_user_or_password_are_refused() {
    for blank in ["origin", "username", "password"] {
        let mut bad = input();
        match blank {
            "origin" => bad.origin = " ".into(),
            "username" => bad.username = " ".into(),
            _ => bad.password = "".into(),
        }
        assert!(secrets().upsert_profile_credential_at("p", &SecretsRead::Missing, &bad, 1).is_err(), "{blank}");
    }
}

#[test]
fn secrets_that_are_no_object_take_no_credentials() {
    let (_, file) = secrets()
        .save_profile_secrets("p", &JsonValue::Array(vec![]))
        .expect("plain name");
    assert_eq!(
        secrets().clear_profile_credentials("p", &stored(&file)).err(),
        Some("secret payload must be a JSON object".to_string())
    );
}

fn outcome(
    command: &ConfigCommands,
    file: Option<&[u8]>,
) -> Result<(Option<String>, JsonValue), String> {
    let secrets_read = file.map_or(SecretsRead::Missing, stored);
    handle_config_command(command, "default", &config(), &secrets(), file, &secrets_read, 3)
        .map(|outcome| (outcome.write.map(|w| w.path), outcome.reply))
}

#[test]
fn config_commands_read_write_and_reply() {
    let get = ConfigCommands::GetValue { concern: "agent".into() };
    assert_eq!(
        config_command_file(&get, "default", &config(), &secrets()),
        Some("/state/settings/agent.json".to_string())
    );
    assert_eq!(outcome(&get, None), Ok((None, JsonValue::Null)));
    assert_eq!(outcome(&get, Some(b"3")), Ok((None, JsonValue::Unsigned(3))));
    let (write, reply) = outcome(&get, Some(b"{")).expect("repaired");
    assert_eq!(write.as_deref(), Some("/state/settings/agent.json"));
    assert_eq!(reply.get("version").and_then(|v| v.as_u64()), Some(1));

    let set = ConfigCommands::SetValue { concern: "agent".into(), json: "{\"a\":1}".into() };
    assert_eq!(config_command_file(&set, "default", &config(), &secrets()), None);
    let (write, reply) = outcome(&set, None).expect("set");
    assert_eq!(write.as_deref(), Some("/state/settings/agent.json"));
    assert_eq!(reply.get("concern").and_then(|v| v.as_str()), Some("agent"));
    assert!(outcome(&ConfigCommands::SetValue { concern: "agent".into(), json: "{".into() }, None)
        .is_err());
    assert!(outcome(&ConfigCommands::SetValue { concern: "a/b".into(), json: "{}".into() }, None)
        .is_err());
}

#[test]
fn credential_commands_work_on_the_chosen_profile() {
    let set = ConfigCommands::CredentialsSet {
        profile: Some("work".into()),
        input: Ok(CredentialInput {
            origin: "https://e".into(),
            username: "u".into(),
            password: "p".into(),
            username_field: None,
            password_field: None,
            form_label: None,
        }),
    };
    assert_eq!(
        config_command_file(&set, "default", &config(), &secrets()),
        Some("/state/secrets/profiles/work/secrets.json".to_string())
    );
    let missing = SecretsRead::Missing;
    let done = handle_config_command(&set, "default", &config(), &secrets(), None, &missing, 3)
        .expect("stored");
    let write = done.write.expect("a write");
    assert!(write.owner_only);
    assert!(!write.repair);
    assert!(write.bytes.starts_with(b"{\n  \"version\": 1,\n  \"secrets\": {"));

    let list = ConfigCommands::CredentialsList { profile: Some("work".into()) };
    let (none, reply) = outcome(&list, Some(&write.bytes)).expect("listed");
    assert_eq!(none, None);
    match reply.get("credentials") {
        Some(JsonValue::Array(items)) => assert_eq!(items.len(), 1),
        other => panic!("expected a list, got {other:?}"),
    }

    let remove = ConfigCommands::CredentialsRemove {
        profile: None,
        origin: "https://e".into(),
        username: "u".into(),
    };
    let (path, reply) = outcome(&remove, Some(&write.bytes)).expect("removed");
    assert_eq!(path.as_deref(), Some("/state/secrets/profiles/default/secrets.json"));
    assert_eq!(reply.get("removed"), Some(&JsonValue::Bool(true)));

    let clear = ConfigCommands::CredentialsClear { profile: None };
    let (_, reply) = outcome(&clear, Some(&write.bytes)).expect("cleared");
    assert_eq!(reply.get("credentials"), Some(&JsonValue::Array(vec![])));

    let get = ConfigCommands::SecretsGet { profile: None };
    let (path, _) = outcome(&get, Some(b"x")).expect("repaired");
    assert_eq!(path.as_deref(), Some("/state/secrets/profiles/default/secrets.json"));
    let put = ConfigCommands::SecretsSet { profile: None, json: "{}".into() };
    let (path, reply) = outcome(&put, None).expect("set");
    assert!(path.is_some());
    assert_eq!(reply.get("secrets"), Some(&JsonValue::Object(vec![])));
    let bad = ConfigCommands::CredentialsSet { profile: None, input: Err("no origin".into()) };
    assert_eq!(outcome(&bad, None), Err("no origin".to_string()));
}

#[test]
fn a_malformed_file_is_replaced_by_the_default() {
    let get = ConfigCommands::SecretsGet { profile: None };
    let corrupt = SecretsRead::Corrupt;
    let done = handle_config_command(&get, "default", &config(), &secrets(), None, &corrupt, 3)
        .expect("repaired");
    let write = done.write.expect("a write");
    assert!(write.repair);
    let text = String::from_utf8(write.bytes).expect("text");
    assert!(text.starts_with("{\n  \"secrets\": {"));
    assert!(text.ends_with("\"version\": 1\n}"));
}

#[test]
fn what_is_written_is_read_back() {
    let store = secrets();
    let keys = object(vec![("token", JsonValue::Text("t".into()))]);
    let (_, file) = store.save_profile_secrets("p", &keys).expect("plain name");
    assert_eq!(
        String::from_utf8(file.clone()).expect("text"),
        "{\n  \"version\": 1,\n  \"secrets\": {\n    \"token\": \"t\"\n  }\n}"
    );
    assert_eq!(store.load_profile_secrets("p", &stored(&file)), Ok((keys, false)));
    let change = store.clear_profile_credentials("p", &stored(&file)).expect("cleared");
    let (raw, _) = store.load_profile_secrets("p", &stored(&change.bytes)).expect("read");
    assert_eq!(raw.get("token").and_then(|v| v.as_str()), Some("t"));
    assert!(raw.get("credentials").is_some());
}
