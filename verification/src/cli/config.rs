//! The commands for settings and secrets.

use vstd::prelude::*;

use crate::config_store::{
    change_error, default_config, default_secrets, default_secrets_payload, document_bytes,
    entry_json, entry_to_json, entry_views, fresh_entry, has_entry, input_error, name_error,
    needs_repair, read_credentials, secrets_document, start, stored_secrets, upserted,
    with_credentials, without_entry, AegisConfigStore, AegisSecretStore, ConfigRead,
    CredentialInput, EntryView, InputView, SecretsChange, SecretsRead,
};
use crate::events::wire::no_members;
use crate::json::{
    array, empty_array, object, parse_json, parsed_json, parsed_json_bytes, pretty_json_bytes, put,
    values_view, write_json_pretty, JsonValue, JsonView,
};
use crate::state::{concern_file, secrets_file};
use crate::text::opt_text;

verus! {

/// The commands for settings and secrets.
#[derive(Debug)]
pub enum ConfigCommands {
    GetValue { concern: String },
    SetValue { concern: String, json: String },
    SecretsGet { profile: Option<String> },
    SecretsSet { profile: Option<String>, json: String },
    CredentialsList { profile: Option<String> },
    /// The credential, or the message of the error that reading it gave.
    CredentialsSet { profile: Option<String>, input: Result<CredentialInput, String> },
    CredentialsRemove { profile: Option<String>, origin: String, username: String },
    CredentialsClear { profile: Option<String> },
}

/// A file to be written.
#[derive(Debug)]
pub struct FileWrite {
    pub path: String,
    /// Whether what is there has to be set aside first because it is malformed.
    pub repair: bool,
    /// Whether only the owner may read it.
    pub owner_only: bool,
    pub bytes: Vec<u8>,
}

/// The contents of a `FileWrite`.
#[verifier::ext_equal]
pub struct WriteView {
    pub path: Seq<char>,
    pub repair: bool,
    pub owner_only: bool,
    pub bytes: Seq<u8>,
}

/// The contents of an optional write.
pub open spec fn opt_write(w: Option<FileWrite>) -> Option<WriteView> {
    match w {
        Some(x) => Some(
            WriteView {
                path: x.path@,
                repair: x.repair,
                owner_only: x.owner_only,
                bytes: x.bytes@,
            },
        ),
        None => None,
    }
}

/// What a command comes to: a file that is to be written, and what is printed.
#[derive(Debug)]
pub struct ConfigOutcome {
    pub write: Option<FileWrite>,
    pub reply: JsonValue,
}

/// The contents of a `ConfigOutcome`.
pub struct ConfigOutcomeView {
    pub write: Option<WriteView>,
    pub reply: JsonView,
}

/// What a command came to, or why it failed.
pub open spec fn outcome_view(res: Result<ConfigOutcome, String>) -> Result<
    ConfigOutcomeView,
    Seq<char>,
> {
    match res {
        Ok(o) => Ok(ConfigOutcomeView { write: opt_write(o.write), reply: o.reply@ }),
        Err(e) => Err(e@),
    }
}

/// The profile that a command works on.
pub open spec fn chosen_profile(asked: Option<Seq<char>>, default: Seq<char>) -> Seq<char> {
    match asked {
        Some(p) => p,
        None => default,
    }
}

/// The file that a command has to read first, below the root of the state directory.
pub open spec fn file_to_read(c: ConfigCommands, default: Seq<char>, root: Seq<char>) -> Option<
    Seq<char>,
> {
    match c {
        ConfigCommands::GetValue { concern } => if name_error(concern@, "name"@) is None {
            Some(concern_file(root, concern@))
        } else {
            None
        },
        ConfigCommands::SetValue { .. } => None,
        ConfigCommands::SecretsSet { .. } => None,
        ConfigCommands::SecretsGet { profile } => readable_secrets(profile, default, root),
        ConfigCommands::CredentialsList { profile } => readable_secrets(profile, default, root),
        ConfigCommands::CredentialsSet { profile, .. } => readable_secrets(profile, default, root),
        ConfigCommands::CredentialsRemove { profile, .. } => readable_secrets(
            profile,
            default,
            root,
        ),
        ConfigCommands::CredentialsClear { profile } => readable_secrets(profile, default, root),
    }
}

/// The secrets file of the profile that a command works on, if its name is allowed.
pub open spec fn readable_secrets(asked: Option<String>, default: Seq<char>, root: Seq<char>) -> Option<
    Seq<char>,
> {
    let profile = chosen_profile(opt_text(asked), default);
    if name_error(profile, "profile"@) is None {
        Some(secrets_file(root, profile))
    } else {
        None
    }
}

/// The write that puts a malformed file right.
pub open spec fn repair_write(path: Seq<char>, needed: bool, document: JsonView, owner_only: bool) -> Option<
    WriteView,
> {
    if needed {
        Some(WriteView { path, repair: true, owner_only, bytes: pretty_json_bytes(document) })
    } else {
        None
    }
}

/// The write of a profile's secrets.
pub open spec fn secrets_write(
    root: Seq<char>,
    profile: Seq<char>,
    repair: bool,
    secrets: JsonView,
) -> Option<WriteView> {
    Some(
        WriteView {
            path: secrets_file(root, profile),
            repair,
            owner_only: true,
            bytes: document_bytes(secrets),
        },
    )
}

/// What `get` comes to.
pub open spec fn get_outcome(concern: Seq<char>, root: Seq<char>, file: Option<Seq<u8>>) -> Result<
    ConfigOutcomeView,
    Seq<char>,
> {
    match name_error(concern, "name"@) {
        Some(e) => Err(e),
        None => Ok(
            match file {
                None => ConfigOutcomeView { write: None, reply: JsonView::Null },
                Some(bytes) => match parsed_json_bytes(bytes) {
                    Ok(v) => ConfigOutcomeView { write: None, reply: v },
                    Err(_) => ConfigOutcomeView {
                        write: repair_write(
                            concern_file(root, concern),
                            true,
                            default_config(concern),
                            false,
                        ),
                        reply: default_config(concern),
                    },
                },
            },
        ),
    }
}

/// What `set` comes to.
pub open spec fn set_outcome(concern: Seq<char>, json: Seq<char>, root: Seq<char>) -> Result<
    ConfigOutcomeView,
    Seq<char>,
> {
    match parsed_json(json) {
        Err(e) => Err(e),
        Ok(v) => match name_error(concern, "name"@) {
            Some(e) => Err(e),
            None => Ok(
                ConfigOutcomeView {
                    write: Some(
                        WriteView {
                            path: concern_file(root, concern),
                            repair: false,
                            owner_only: false,
                            bytes: pretty_json_bytes(v),
                        },
                    ),
                    reply: JsonView::Object(
                        no_members().insert("concern"@, JsonView::Text(concern)).insert(
                            "path"@,
                            JsonView::Text(concern_file(root, concern)),
                        ).insert("value"@, v),
                    ),
                },
            ),
        },
    }
}

/// What `secrets-get` comes to.
pub open spec fn secrets_get_outcome(profile: Seq<char>, root: Seq<char>, file: SecretsRead) -> Result<
    ConfigOutcomeView,
    Seq<char>,
> {
    match name_error(profile, "profile"@) {
        Some(e) => Err(e),
        None => Ok(
            ConfigOutcomeView {
                write: repair_write(
                    secrets_file(root, profile),
                    needs_repair(file),
                    secrets_document(default_secrets()),
                    true,
                ),
                reply: JsonView::Object(
                    no_members().insert("profile"@, JsonView::Text(profile)).insert(
                        "secrets"@,
                        stored_secrets(file),
                    ),
                ),
            },
        ),
    }
}

/// What `secrets-set` comes to.
pub open spec fn secrets_set_outcome(profile: Seq<char>, json: Seq<char>, root: Seq<char>) -> Result<
    ConfigOutcomeView,
    Seq<char>,
> {
    match parsed_json(json) {
        Err(e) => Err(e),
        Ok(v) => match name_error(profile, "profile"@) {
            Some(e) => Err(e),
            None => Ok(
                ConfigOutcomeView {
                    write: secrets_write(root, profile, false, v),
                    reply: JsonView::Object(
                        no_members().insert("profile"@, JsonView::Text(profile)).insert(
                            "path"@,
                            JsonView::Text(secrets_file(root, profile)),
                        ).insert("secrets"@, v),
                    ),
                },
            ),
        },
    }
}

/// What `credentials-list` comes to.
pub open spec fn list_outcome(profile: Seq<char>, root: Seq<char>, file: SecretsRead) -> Result<
    ConfigOutcomeView,
    Seq<char>,
> {
    match name_error(profile, "profile"@) {
        Some(e) => Err(e),
        None => Ok(
            ConfigOutcomeView {
                write: repair_write(
                    secrets_file(root, profile),
                    needs_repair(file),
                    secrets_document(default_secrets()),
                    true,
                ),
                reply: JsonView::Object(
                    no_members().insert("profile"@, JsonView::Text(profile)).insert(
                        "credentials"@,
                        entries_json(read_credentials(stored_secrets(file))),
                    ),
                ),
            },
        ),
    }
}

/// The JSON form of a list of entries.
pub open spec fn entries_json(list: Seq<EntryView>) -> JsonView {
    JsonView::Array(Seq::new(list.len(), |i: int| entry_json(list[i])))
}

/// What `credentials-set` comes to at a time.
pub open spec fn upsert_outcome(
    profile: Seq<char>,
    input: Result<InputView, Seq<char>>,
    root: Seq<char>,
    file: SecretsRead,
    now_ms: u64,
) -> Result<ConfigOutcomeView, Seq<char>> {
    match input {
        Err(e) => Err(e),
        Ok(input) => match input_error(input) {
            Some(e) => Err(e),
            None => match change_error(profile, file) {
                Some(e) => Err(e),
                None => {
                    let secrets = stored_secrets(file);
                    let (list, entry) = upserted(
                        read_credentials(secrets),
                        fresh_entry(input, now_ms),
                    );
                    Ok(
                        ConfigOutcomeView {
                            write: secrets_write(
                                root,
                                profile,
                                needs_repair(file),
                                with_credentials(secrets, list),
                            ),
                            reply: JsonView::Object(
                                no_members().insert("profile"@, JsonView::Text(profile)).insert(
                                    "path"@,
                                    JsonView::Text(secrets_file(root, profile)),
                                ).insert("credential"@, entry_json(entry)),
                            ),
                        },
                    )
                },
            },
        },
    }
}

/// A credential to store, or why it could not be read.
pub open spec fn input_result(input: Result<CredentialInput, String>) -> Result<
    InputView,
    Seq<char>,
> {
    match input {
        Ok(i) => Ok(i@),
        Err(e) => Err(e@),
    }
}

/// What `credentials-remove` comes to.
pub open spec fn remove_outcome(
    profile: Seq<char>,
    origin: Seq<char>,
    username: Seq<char>,
    root: Seq<char>,
    file: SecretsRead,
) -> Result<ConfigOutcomeView, Seq<char>> {
    match change_error(profile, file) {
        Some(e) => Err(e),
        None => {
            let secrets = stored_secrets(file);
            let before = read_credentials(secrets);
            Ok(
                ConfigOutcomeView {
                    write: secrets_write(
                        root,
                        profile,
                        needs_repair(file),
                        with_credentials(secrets, without_entry(before, origin, username)),
                    ),
                    reply: JsonView::Object(
                        no_members().insert("profile"@, JsonView::Text(profile)).insert(
                            "path"@,
                            JsonView::Text(secrets_file(root, profile)),
                        ).insert("origin"@, JsonView::Text(origin)).insert(
                            "username"@,
                            JsonView::Text(username),
                        ).insert("removed"@, JsonView::Bool(has_entry(before, origin, username))),
                    ),
                },
            )
        },
    }
}

/// What `credentials-clear` comes to.
pub open spec fn clear_outcome(profile: Seq<char>, root: Seq<char>, file: SecretsRead) -> Result<
    ConfigOutcomeView,
    Seq<char>,
> {
    match change_error(profile, file) {
        Some(e) => Err(e),
        None => Ok(
            ConfigOutcomeView {
                write: secrets_write(
                    root,
                    profile,
                    needs_repair(file),
                    with_credentials(stored_secrets(file), Seq::empty()),
                ),
                reply: JsonView::Object(
                    no_members().insert("profile"@, JsonView::Text(profile)).insert(
                        "path"@,
                        JsonView::Text(secrets_file(root, profile)),
                    ).insert("credentials"@, JsonView::Array(Seq::empty())),
                ),
            },
        ),
    }
}

/// What a command comes to at a time, given the file that it reads: that of a concern, or
/// that of a profile's secrets.
pub open spec fn command_outcome(
    c: ConfigCommands,
    default: Seq<char>,
    config_root: Seq<char>,
    secrets_root: Seq<char>,
    file: Option<Seq<u8>>,
    stored: SecretsRead,
    now_ms: u64,
) -> Result<ConfigOutcomeView, Seq<char>> {
    match c {
        ConfigCommands::GetValue { concern } => get_outcome(concern@, config_root, file),
        ConfigCommands::SetValue { concern, json } => set_outcome(concern@, json@, config_root),
        ConfigCommands::SecretsGet { profile } => secrets_get_outcome(
            chosen_profile(opt_text(profile), default),
            secrets_root,
            stored,
        ),
        ConfigCommands::SecretsSet { profile, json } => secrets_set_outcome(
            chosen_profile(opt_text(profile), default),
            json@,
            secrets_root,
        ),
        ConfigCommands::CredentialsList { profile } => list_outcome(
            chosen_profile(opt_text(profile), default),
            secrets_root,
            stored,
        ),
        ConfigCommands::CredentialsSet { profile, input } => upsert_outcome(
            chosen_profile(opt_text(profile), default),
            input_result(input),
            secrets_root,
            stored,
            now_ms,
        ),
        ConfigCommands::CredentialsRemove { profile, origin, username } => remove_outcome(
            chosen_profile(opt_text(profile), default),
            origin@,
            username@,
            secrets_root,
            stored,
        ),
        ConfigCommands::CredentialsClear { profile } => clear_outcome(
            chosen_profile(opt_text(profile), default),
            secrets_root,
            stored,
        ),
    }
}

/// The bytes of an optional file.
pub open spec fn file_bytes(file: Option<&[u8]>) -> Option<Seq<u8>> {
    match file {
        Some(bytes) => Some(bytes@),
        None => None,
    }
}

fn profile_or(asked: &Option<String>, default: &str) -> (res: String)
    ensures
        res@ == chosen_profile(opt_text(*asked), default@),
{
    match asked {
        Some(p) => p.clone(),
        None => default.to_owned(),
    }
}

fn secrets_to_read(asked: &Option<String>, default: &str, store: &AegisSecretStore) -> (res: Option<
    String,
>)
    ensures
        opt_text(res) == readable_secrets(*asked, default@, store.root()),
{
    match store.secrets_path(profile_or(asked, default).as_str()) {
        Ok(path) => Some(path),
        Err(_) => None,
    }
}

/// The file that a command has to read first, if any.
pub fn config_command_file(
    command: &ConfigCommands,
    default_profile: &str,
    config: &AegisConfigStore,
    secrets: &AegisSecretStore,
) -> (res: Option<String>)
    ensures
        opt_text(res) == file_to_read(
            *command,
            default_profile@,
            if command is GetValue {
                config.root()
            } else {
                secrets.root()
            },
        ),
{
    match command {
        ConfigCommands::GetValue { concern } => match config.config_file(concern.as_str()) {
            Ok(path) => Some(path),
            Err(_) => None,
        },
        ConfigCommands::SetValue { .. } => None,
        ConfigCommands::SecretsSet { .. } => None,
        ConfigCommands::SecretsGet { profile } => secrets_to_read(
            profile,
            default_profile,
            secrets,
        ),
        ConfigCommands::CredentialsList { profile } => secrets_to_read(
            profile,
            default_profile,
            secrets,
        ),
        ConfigCommands::CredentialsSet { profile, .. } => secrets_to_read(
            profile,
            default_profile,
            secrets,
        ),
        ConfigCommands::CredentialsRemove { profile, .. } => secrets_to_read(
            profile,
            default_profile,
            secrets,
        ),
        ConfigCommands::CredentialsClear { profile } => secrets_to_read(
            profile,
            default_profile,
            secrets,
        ),
    }
}

fn run_get(store: &AegisConfigStore, concern: &str, file: Option<&[u8]>) -> (res: Result<
    ConfigOutcome,
    String,
>)
    ensures
        outcome_view(res) == get_outcome(concern@, store.root(), file_bytes(file)),
{
    let path = match store.config_file(concern) {
        Ok(path) => path,
        Err(e) => {
            return Err(e);
        },
    };
    match store.get(concern, file) {
        Err(e) => Err(e),
        Ok(ConfigRead::Absent) => Ok(ConfigOutcome { write: None, reply: JsonValue::Null }),
        Ok(ConfigRead::Stored(v)) => Ok(ConfigOutcome { write: None, reply: v }),
        Ok(ConfigRead::Repaired(v)) => {
            let bytes = write_json_pretty(&v);
            Ok(
                ConfigOutcome {
                    write: Some(FileWrite { path, repair: true, owner_only: false, bytes }),
                    reply: v,
                },
            )
        },
    }
}

fn run_set(store: &AegisConfigStore, concern: &str, json: &str) -> (res: Result<
    ConfigOutcome,
    String,
>)
    ensures
        outcome_view(res) == set_outcome(concern@, json@, store.root()),
{
    let value = match parse_json(json) {
        Ok(v) => v,
        Err(e) => {
            return Err(e);
        },
    };
    match store.set(concern, &value) {
        Err(e) => Err(e),
        Ok((path, bytes)) => {
            let mut reply = start();
            put(&mut reply, "concern", JsonValue::text(concern));
            put(&mut reply, "path", JsonValue::text(path.as_str()));
            put(&mut reply, "value", value);
            Ok(
                ConfigOutcome {
                    write: Some(FileWrite { path, repair: false, owner_only: false, bytes }),
                    reply: object(reply),
                },
            )
        },
    }
}

fn repaired_secrets(store: &AegisSecretStore, profile: &str, repair: bool) -> (res: Result<
    Option<FileWrite>,
    String,
>)
    ensures
        match res {
            Ok(w) => name_error(profile@, "profile"@) is None && opt_write(w) == repair_write(
                secrets_file(store.root(), profile@),
                repair,
                secrets_document(default_secrets()),
                true,
            ),
            Err(e) => name_error(profile@, "profile"@) == Some(e@),
        },
{
    match store.secrets_path(profile) {
        Err(e) => Err(e),
        Ok(path) => {
            if repair {
                let bytes = write_json_pretty(&default_secrets_payload());
                Ok(Some(FileWrite { path, repair: true, owner_only: true, bytes }))
            } else {
                Ok(None)
            }
        },
    }
}

fn run_secrets_get(store: &AegisSecretStore, profile: &str, file: &SecretsRead) -> (res: Result<
    ConfigOutcome,
    String,
>)
    ensures
        outcome_view(res) == secrets_get_outcome(profile@, store.root(), *file),
{
    let (value, repair) = match store.load_profile_secrets(profile, file) {
        Ok(loaded) => loaded,
        Err(e) => {
            return Err(e);
        },
    };
    let write = match repaired_secrets(store, profile, repair) {
        Ok(w) => w,
        Err(e) => {
            return Err(e);
        },
    };
    let mut reply = start();
    put(&mut reply, "profile", JsonValue::text(profile));
    put(&mut reply, "secrets", value);
    Ok(ConfigOutcome { write, reply: object(reply) })
}

fn run_secrets_set(store: &AegisSecretStore, profile: &str, json: &str) -> (res: Result<
    ConfigOutcome,
    String,
>)
    ensures
        outcome_view(res) == secrets_set_outcome(profile@, json@, store.root()),
{
    let value = match parse_json(json) {
        Ok(v) => v,
        Err(e) => {
            return Err(e);
        },
    };
    match store.save_profile_secrets(profile, &value) {
        Err(e) => Err(e),
        Ok((path, bytes)) => {
            let mut reply = start();
            put(&mut reply, "profile", JsonValue::text(profile));
            put(&mut reply, "path", JsonValue::text(path.as_str()));
            put(&mut reply, "secrets", value);
            Ok(
                ConfigOutcome {
                    write: Some(FileWrite { path, repair: false, owner_only: true, bytes }),
                    reply: object(reply),
                },
            )
        },
    }
}

fn run_list(store: &AegisSecretStore, profile: &str, file: &SecretsRead) -> (res: Result<
    ConfigOutcome,
    String,
>)
    ensures
        outcome_view(res) == list_outcome(profile@, store.root(), *file),
{
    let (_, repair) = match store.load_profile_secrets(profile, file) {
        Ok(loaded) => loaded,
        Err(e) => {
            return Err(e);
        },
    };
    let write = match repaired_secrets(store, profile, repair) {
        Ok(w) => w,
        Err(e) => {
            return Err(e);
        },
    };
    match store.load_profile_credentials(profile, file) {
        Err(e) => Err(e),
        Ok(list) => {
            let mut items: Vec<JsonValue> = Vec::new();
            let mut i: usize = 0;
            while i < list.len()
                invariant
                    i <= list@.len(),
                    items@.len() == i,
                    forall|j: int| 0 <= j < i ==> (#[trigger] items@[j])@ == entry_json(list@[j]@),
                decreases list@.len() - i,
            {
                items.push(entry_to_json(&list[i]));
                i += 1;
            }
            proof {
                let views = entry_views(list@);
                assert(values_view(items@) =~= Seq::new(
                    views.len(),
                    |k: int| entry_json(views[k]),
                ));
            }
            let mut reply = start();
            put(&mut reply, "profile", JsonValue::text(profile));
            put(&mut reply, "credentials", array(items));
            Ok(ConfigOutcome { write, reply: object(reply) })
        },
    }
}

fn secrets_file_write(change: SecretsChange) -> (res: FileWrite)
    ensures
        opt_write(Some(res)) == Some(
            WriteView {
                path: change.path@,
                repair: change.repair,
                owner_only: true,
                bytes: change.bytes@,
            },
        ),
{
    FileWrite {
        path: change.path,
        repair: change.repair,
        owner_only: true,
        bytes: change.bytes,
    }
}

fn run_upsert(
    store: &AegisSecretStore,
    profile: &str,
    input: &Result<CredentialInput, String>,
    file: &SecretsRead,
    now_ms: u64,
) -> (res: Result<ConfigOutcome, String>)
    ensures
        outcome_view(res) == upsert_outcome(
            profile@,
            input_result(*input),
            store.root(),
            *file,
            now_ms,
        ),
{
    let input = match input {
        Ok(input) => input,
        Err(e) => {
            return Err(e.clone());
        },
    };
    match store.upsert_profile_credential_at(profile, file, input, now_ms) {
        Err(e) => Err(e),
        Ok((change, entry)) => {
            let mut reply = start();
            put(&mut reply, "profile", JsonValue::text(profile));
            put(&mut reply, "path", JsonValue::text(change.path.as_str()));
            put(&mut reply, "credential", entry_to_json(&entry));
            Ok(ConfigOutcome { write: Some(secrets_file_write(change)), reply: object(reply) })
        },
    }
}

fn run_remove(
    store: &AegisSecretStore,
    profile: &str,
    origin: &str,
    username: &str,
    file: &SecretsRead,
) -> (res: Result<ConfigOutcome, String>)
    ensures
        outcome_view(res) == remove_outcome(
            profile@,
            origin@,
            username@,
            store.root(),
            *file,
        ),
{
    match store.remove_profile_credential(profile, file, origin, username) {
        Err(e) => Err(e),
        Ok((change, removed)) => {
            let mut reply = start();
            put(&mut reply, "profile", JsonValue::text(profile));
            put(&mut reply, "path", JsonValue::text(change.path.as_str()));
            put(&mut reply, "origin", JsonValue::text(origin));
            put(&mut reply, "username", JsonValue::text(username));
            put(&mut reply, "removed", JsonValue::Bool(removed));
            Ok(ConfigOutcome { write: Some(secrets_file_write(change)), reply: object(reply) })
        },
    }
}

fn run_clear(store: &AegisSecretStore, profile: &str, file: &SecretsRead) -> (res: Result<
    ConfigOutcome,
    String,
>)
    ensures
        outcome_view(res) == clear_outcome(profile@, store.root(), *file),
{
    match store.clear_profile_credentials(profile, file) {
        Err(e) => Err(e),
        Ok(change) => {
            let mut reply = start();
            put(&mut reply, "profile", JsonValue::text(profile));
            put(&mut reply, "path", JsonValue::text(change.path.as_str()));
            put(&mut reply, "credentials", empty_array());
            Ok(ConfigOutcome { write: Some(secrets_file_write(change)), reply: object(reply) })
        },
    }
}

/// What a command comes to at a time, given the file that it reads: that of a concern, or
/// that of a profile's secrets.
pub fn handle_config_command(
    command: &ConfigCommands,
    default_profile: &str,
    config: &AegisConfigStore,
    secrets: &AegisSecretStore,
    file: Option<&[u8]>,
    stored: &SecretsRead,
    now_ms: u64,
) -> (res: Result<ConfigOutcome, String>)
    ensures
        outcome_view(res) == command_outcome(
            *command,
            default_profile@,
            config.root(),
            secrets.root(),
            file_bytes(file),
            *stored,
            now_ms,
        ),
{
    match command {
        ConfigCommands::GetValue { concern } => run_get(config, concern.as_str(), file),
        ConfigCommands::SetValue { concern, json } => run_set(config, concern.as_str(), json.as_str()),
        ConfigCommands::SecretsGet { profile } => {
            let profile = profile_or(profile, default_profile);
            run_secrets_get(secrets, profile.as_str(), stored)
        },
        ConfigCommands::SecretsSet { profile, json } => {
            let profile = profile_or(profile, default_profile);
            run_secrets_set(secrets, profile.as_str(), json.as_str())
        },
        ConfigCommands::CredentialsList { profile } => {
            let profile = profile_or(profile, default_profile);
            run_list(secrets, profile.as_str(), stored)
        },
        ConfigCommands::CredentialsSet { profile, input } => {
            let profile = profile_or(profile, default_profile);
            run_upsert(secrets, profile.as_str(), input, stored, now_ms)
        },
        ConfigCommands::CredentialsRemove { profile, origin, username } => {
            let profile = profile_or(profile, default_profile);
            run_remove(secrets, profile.as_str(), origin.as_str(), username.as_str(), stored)
        },
        ConfigCommands::CredentialsClear { profile } => {
            let profile = profile_or(profile, default_profile);
            run_clear(secrets, profile.as_str(), stored)
        },
    }
}

/// Commands that only read leave a sound file as it is.
pub proof fn law_reading_leaves_files_alone(
    profile: Seq<char>,
    root: Seq<char>,
    file: SecretsRead,
)
    requires
        !needs_repair(file),
    ensures
        secrets_get_outcome(profile, root, file) matches Ok(o) ==> o.write is None,
        list_outcome(profile, root, file) matches Ok(o) ==> o.write is None,
{
}

/// A command concerns the profile that it names, or else the default one.
pub proof fn law_profile_of_a_command(asked: Option<Seq<char>>, default: Seq<char>)
    ensures
        asked is Some ==> chosen_profile(asked, default) == asked->Some_0,
        asked is None ==> chosen_profile(asked, default) == default,
{
}

/// A settings value that is asked for is that of its file, nothing where there is no file, and the
/// default, which also replaces the file, where the file is malformed; one that is set is written
/// to the file of its concern and told back.
pub proof fn law_settings_commands(
    concern: Seq<char>,
    json: Seq<char>,
    root: Seq<char>,
    file: Option<Seq<u8>>,
)
    ensures
        ({
            let got = get_outcome(concern, root, file);
            let named = name_error(concern, "name"@);
            &&& named is Some ==> got == Err::<ConfigOutcomeView, Seq<char>>(named->Some_0)
            &&& named is None ==> got is Ok
            &&& named is None && file is None ==> got->Ok_0.reply is Null && got->Ok_0.write is None
            &&& named is None && file is Some ==> match parsed_json_bytes(file->Some_0) {
                Ok(v) => got->Ok_0.reply == v && got->Ok_0.write is None,
                Err(_) => {
                    &&& got->Ok_0.reply == default_config(concern)
                    &&& got->Ok_0.write is Some
                    &&& got->Ok_0.write->Some_0.path == concern_file(root, concern)
                    &&& got->Ok_0.write->Some_0.repair
                    &&& got->Ok_0.write->Some_0.bytes == pretty_json_bytes(default_config(concern))
                },
            }
        }),
        ({
            let set = set_outcome(concern, json, root);
            let named = name_error(concern, "name"@);
            match parsed_json(json) {
                Err(e) => set == Err::<ConfigOutcomeView, Seq<char>>(e),
                Ok(v) => {
                    &&& named is Some ==> set == Err::<ConfigOutcomeView, Seq<char>>(named->Some_0)
                    &&& named is None ==> {
                        &&& set matches Ok(o)
                        &&& o.write matches Some(w)
                        &&& w.path == concern_file(root, concern)
                        &&& w.bytes == pretty_json_bytes(v)
                        &&& !w.repair && !w.owner_only
                        &&& crate::json::member(o.reply, "concern"@) == Some(
                            JsonView::Text(concern),
                        )
                        &&& crate::json::member(o.reply, "path"@) == Some(
                            JsonView::Text(concern_file(root, concern)),
                        )
                        &&& crate::json::member(o.reply, "value"@) == Some(v)
                    }
                },
            }
        }),
{
    reveal_strlit("concern");
    reveal_strlit("path");
    reveal_strlit("value");
    assert("concern"@.len() == 7 && "path"@.len() == 4 && "value"@.len() == 5);
}

/// Secrets that are asked for are those of the profile; those that are set are written to its file,
/// which only its owner can read, and told back.
pub proof fn law_secrets_commands(
    profile: Seq<char>,
    json: Seq<char>,
    root: Seq<char>,
    file: SecretsRead,
)
    requires
        name_error(profile, "profile"@) is None,
    ensures
        ({
            let got = secrets_get_outcome(profile, root, file);
            &&& got is Ok
            &&& crate::json::member(got->Ok_0.reply, "profile"@) == Some(JsonView::Text(profile))
            &&& crate::json::member(got->Ok_0.reply, "secrets"@) == Some(stored_secrets(file))
            &&& got->Ok_0.write is Some <==> needs_repair(file)
            &&& got->Ok_0.write is Some ==> got->Ok_0.write->Some_0.path == secrets_file(
                root,
                profile,
            ) && got->Ok_0.write->Some_0.owner_only && got->Ok_0.write->Some_0.repair
                && got->Ok_0.write->Some_0.bytes == pretty_json_bytes(
                secrets_document(default_secrets()),
            )
        }),
        ({
            let set = secrets_set_outcome(profile, json, root);
            match parsed_json(json) {
                Err(e) => set == Err::<ConfigOutcomeView, Seq<char>>(e),
                Ok(v) => {
                    &&& set matches Ok(o)
                    &&& o.write matches Some(w)
                    &&& w.path == secrets_file(root, profile)
                    &&& w.bytes == document_bytes(v)
                    &&& w.owner_only && !w.repair
                    &&& crate::json::member(o.reply, "secrets"@) == Some(v)
                    &&& crate::json::member(o.reply, "profile"@) == Some(JsonView::Text(profile))
                    &&& crate::json::member(o.reply, "path"@) == Some(
                        JsonView::Text(secrets_file(root, profile)),
                    )
                },
            }
        }),
{
    reveal_strlit("profile");
    reveal_strlit("secrets");
    reveal_strlit("path");
    assert("profile"@.len() == 7 && "secrets"@.len() == 7 && "path"@.len() == 4);
    assert("profile"@[0] == 'p' && "secrets"@[0] == 's');
}

/// Credentials that are asked for are all those of the profile in order; storing one writes the
/// credentials with it and tells it; removing writes those that are left and tells whether any was
/// removed; clearing writes none. All is written to the file of the profile, for its owner only.
pub proof fn law_credentials_commands(
    profile: Seq<char>,
    input: InputView,
    origin: Seq<char>,
    username: Seq<char>,
    root: Seq<char>,
    file: SecretsRead,
    now_ms: u64,
)
    requires
        change_error(profile, file) is None,
        input_error(input) is None,
    ensures
        ({
            let before = read_credentials(stored_secrets(file));
            let path = secrets_file(root, profile);
            let listed = list_outcome(profile, root, file);
            let stored = upsert_outcome(profile, Ok(input), root, file, now_ms);
            let removed = remove_outcome(profile, origin, username, root, file);
            let cleared = clear_outcome(profile, root, file);
            let (list, entry) = upserted(before, fresh_entry(input, now_ms));
            &&& listed is Ok && stored is Ok && removed is Ok && cleared is Ok
            &&& crate::json::member(listed->Ok_0.reply, "credentials"@) == Some(
                JsonView::Array(before.map_values(|e: EntryView| entry_json(e))),
            )
            &&& crate::json::member(listed->Ok_0.reply, "profile"@) == Some(JsonView::Text(profile))
            &&& crate::json::member(stored->Ok_0.reply, "credential"@) == Some(entry_json(entry))
            &&& crate::json::member(stored->Ok_0.reply, "profile"@) == Some(JsonView::Text(profile))
            &&& crate::json::member(stored->Ok_0.reply, "path"@) == Some(JsonView::Text(path))
            &&& crate::json::member(removed->Ok_0.reply, "removed"@) == Some(
                JsonView::Bool(has_entry(before, origin, username)),
            )
            &&& crate::json::member(removed->Ok_0.reply, "origin"@) == Some(JsonView::Text(origin))
            &&& crate::json::member(removed->Ok_0.reply, "username"@) == Some(
                JsonView::Text(username),
            )
            &&& crate::json::member(cleared->Ok_0.reply, "credentials"@) == Some(
                JsonView::Array(Seq::empty()),
            )
            &&& writes_for_owner(stored->Ok_0, path, file, list)
            &&& writes_for_owner(removed->Ok_0, path, file, without_entry(before, origin, username))
            &&& writes_for_owner(cleared->Ok_0, path, file, Seq::empty())
        }),
{
    reveal_strlit("profile");
    reveal_strlit("path");
    reveal_strlit("credential");
    reveal_strlit("credentials");
    reveal_strlit("removed");
    reveal_strlit("origin");
    reveal_strlit("username");
    assert("profile"@.len() == 7 && "path"@.len() == 4 && "credential"@.len() == 10 && "credentials"@.len() == 11 && "removed"@.len() == 7 && "origin"@.len() == 6 && "username"@.len() == 8);
    assert("profile"@[0] == 'p' && "removed"@[0] == 'r');
    let before = read_credentials(stored_secrets(file));
    assert(before.map_values(|e: EntryView| entry_json(e)) =~= entries_json(before)->Array_0);
}

/// Whether an outcome writes the secrets of a profile with the given credentials, for their owner
/// only, and sets a malformed file aside first.
pub open spec fn writes_for_owner(
    o: ConfigOutcomeView,
    path: Seq<char>,
    file: SecretsRead,
    list: Seq<EntryView>,
) -> bool {
    &&& o.write matches Some(w)
    &&& w.path == path
    &&& w.owner_only
    &&& w.repair <==> file is Corrupt
    &&& w.bytes == document_bytes(with_credentials(stored_secrets(file), list))
}

/// What is wrong with a request for credentials is told: first what is wrong with what is given,
/// and then what stands against the change.
pub proof fn law_refused_credentials_commands(
    profile: Seq<char>,
    input: Result<InputView, Seq<char>>,
    origin: Seq<char>,
    username: Seq<char>,
    root: Seq<char>,
    file: SecretsRead,
    now_ms: u64,
)
    ensures
        input is Err ==> upsert_outcome(profile, input, root, file, now_ms) == Err::<
            ConfigOutcomeView,
            Seq<char>,
        >(input->Err_0),
        input is Ok && input_error(input->Ok_0) is Some ==> upsert_outcome(
            profile,
            input,
            root,
            file,
            now_ms,
        ) == Err::<ConfigOutcomeView, Seq<char>>(input_error(input->Ok_0)->Some_0),
        change_error(profile, file) is Some ==> {
            let e = Err::<ConfigOutcomeView, Seq<char>>(change_error(profile, file)->Some_0);
            &&& remove_outcome(profile, origin, username, root, file) == e
            &&& clear_outcome(profile, root, file) == e
            &&& input is Ok && input_error(input->Ok_0) is None ==> upsert_outcome(
                profile,
                input,
                root,
                file,
                now_ms,
            ) == e
        },
        name_error(profile, "profile"@) is Some ==> list_outcome(profile, root, file) == Err::<
            ConfigOutcomeView,
            Seq<char>,
        >(name_error(profile, "profile"@)->Some_0),
{
}

/// The file that a command reads is that of the concern or of the profile that it is about; setting
/// a value or secrets reads none, and neither does a command with a name that is not accepted.
pub proof fn law_files_that_commands_read(c: ConfigCommands, default: Seq<char>, root: Seq<char>)
    ensures
        ({
            let file = file_to_read(c, default, root);
            let asked = match c {
                ConfigCommands::SecretsGet { profile } => Some(profile),
                ConfigCommands::CredentialsList { profile } => Some(profile),
                ConfigCommands::CredentialsSet { profile, .. } => Some(profile),
                ConfigCommands::CredentialsRemove { profile, .. } => Some(profile),
                ConfigCommands::CredentialsClear { profile } => Some(profile),
                _ => None,
            };
            &&& c is SetValue || c is SecretsSet ==> file is None
            &&& c matches ConfigCommands::GetValue { concern } ==> file == if name_error(
                concern@,
                "name"@,
            ) is None {
                Some(concern_file(root, concern@))
            } else {
                None
            }
            &&& asked matches Some(p) ==> {
                let profile = if p is Some {
                    p->Some_0@
                } else {
                    default
                };
                file == if name_error(profile, "profile"@) is None {
                    Some(secrets_file(root, profile))
                } else {
                    None
                }
            }
        }),
{
}

/// Each command does what it is for, to the profile that it names or else the default one.
pub proof fn law_commands_do_what_they_are_for(
    c: ConfigCommands,
    default: Seq<char>,
    config_root: Seq<char>,
    secrets_root: Seq<char>,
    file: Option<Seq<u8>>,
    stored: SecretsRead,
    now_ms: u64,
)
    ensures
        ({
            let out = command_outcome(
                c,
                default,
                config_root,
                secrets_root,
                file,
                stored,
                now_ms,
            );
            let who = |p: Option<String>|
                if p is Some {
                    p->Some_0@
                } else {
                    default
                };
            match c {
                ConfigCommands::GetValue { concern } => out == get_outcome(
                    concern@,
                    config_root,
                    file,
                ),
                ConfigCommands::SetValue { concern, json } => out == set_outcome(
                    concern@,
                    json@,
                    config_root,
                ),
                ConfigCommands::SecretsGet { profile } => out == secrets_get_outcome(
                    who(profile),
                    secrets_root,
                    stored,
                ),
                ConfigCommands::SecretsSet { profile, json } => out == secrets_set_outcome(
                    who(profile),
                    json@,
                    secrets_root,
                ),
                ConfigCommands::CredentialsList { profile } => out == list_outcome(
                    who(profile),
                    secrets_root,
                    stored,
                ),
                ConfigCommands::CredentialsSet { profile, input } => out == upsert_outcome(
                    who(profile),
                    input_result(input),
                    secrets_root,
                    stored,
                    now_ms,
                ),
                ConfigCommands::CredentialsRemove { profile, origin, username } => out
                    == remove_outcome(who(profile), origin@, username@, secrets_root, stored),
                ConfigCommands::CredentialsClear { profile } => out == clear_outcome(
                    who(profile),
                    secrets_root,
                    stored,
                ),
            }
        }),
{
}

} // verus!
