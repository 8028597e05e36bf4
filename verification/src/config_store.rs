//! Settings and the credentials of profiles.

use vstd::prelude::*;

use crate::clock::now_unix_ms;
use crate::events::wire::{
    get_opt_text, get_text, get_u64, insert_some, no_members, put_some_text, read_opt_text,
    read_text, read_u64, some_text,
};
use crate::json::{
    array, empty_object, entries_view, lemma_json_view, lemma_ordinary_name, member, members_map,
    object, opt_ref, ordinary_name, parse_json_bytes, parsed_json_bytes, pretty_json_bytes,
    pretty_record, put, readable_entries, readable_members, reads_back, record_field, record_shape,
    set_member, values_view, with_member, write_json_pretty, write_record_pretty, JsonValue,
    JsonView,
};
use crate::paths::{is_plain_name, plain_name};
use crate::session::cookies::fault_of;
use crate::state::{concern_file, secrets_file, state_root, AegisStatePaths};
use crate::text::{
    clone_opt, concat2, concat3, debug_quote, debug_quoted, eq_ignore_ascii_case,
    lemma_text_less_asymmetric, lemma_text_less_irreflexive, lemma_text_less_total,
    lemma_text_less_transitive, opt_text, same_ignoring_case, str_eq, str_less, text_less, trim,
    trimmed,
};

verus! {

/// What is wrong with a name: it is blank, or holds a character that is not allowed.
pub open spec fn name_error(value: Seq<char>, label: Seq<char>) -> Option<Seq<char>> {
    if trimmed(value).len() == 0 {
        Some(label + " must not be empty"@)
    } else if !plain_name(value) {
        Some(
            label + " "@ + debug_quoted(value)
                + " must use only letters, numbers, '.', '-', or '_'"@,
        )
    } else {
        None
    }
}

/// Whether a name is allowed; the error says what is wrong with it.
pub fn validate_name(value: &str, label: &str) -> (res: Result<(), String>)
    ensures
        fault_of(res) == name_error(value@, label@),
{
    if trim(value).as_str().unicode_len() == 0 {
        return Err(concat2(label, " must not be empty"));
    }
    if !is_plain_name(value) {
        let quoted = debug_quote(value);
        let mut message = concat3(label, " ", quoted.as_str());
        message.append(" must use only letters, numbers, '.', '-', or '_'");
        return Err(message);
    }
    Ok(())
}

/// Whether credentials are stored without being asked for.
#[derive(Debug, Clone, Copy, PartialEq, Eq, Structural)]
pub struct CredentialsSettings {
    pub version: u32,
    pub auto_store: bool,
}

/// A stored credential.
#[derive(Debug, PartialEq, Eq)]
pub struct StoredCredentialEntry {
    pub origin: String,
    pub username: String,
    pub password: String,
    pub username_field: Option<String>,
    pub password_field: Option<String>,
    pub form_label: Option<String>,
    pub created_at_ms: u64,
    pub updated_at_ms: u64,
}

/// The contents of a `StoredCredentialEntry`.
#[verifier::ext_equal]
pub struct EntryView {
    pub origin: Seq<char>,
    pub username: Seq<char>,
    pub password: Seq<char>,
    pub username_field: Option<Seq<char>>,
    pub password_field: Option<Seq<char>>,
    pub form_label: Option<Seq<char>>,
    pub created_at_ms: u64,
    pub updated_at_ms: u64,
}

impl View for StoredCredentialEntry {
    type V = EntryView;

    open spec fn view(&self) -> EntryView {
        EntryView {
            origin: self.origin@,
            username: self.username@,
            password: self.password@,
            username_field: opt_text(self.username_field),
            password_field: opt_text(self.password_field),
            form_label: opt_text(self.form_label),
            created_at_ms: self.created_at_ms,
            updated_at_ms: self.updated_at_ms,
        }
    }
}

impl Clone for StoredCredentialEntry {
    fn clone(&self) -> (res: Self)
        ensures
            res@ == self@,
    {
        StoredCredentialEntry {
            origin: self.origin.clone(),
            username: self.username.clone(),
            password: self.password.clone(),
            username_field: clone_opt(&self.username_field),
            password_field: clone_opt(&self.password_field),
            form_label: clone_opt(&self.form_label),
            created_at_ms: self.created_at_ms,
            updated_at_ms: self.updated_at_ms,
        }
    }
}

/// The contents of a list of credentials.
pub open spec fn entry_views(list: Seq<StoredCredentialEntry>) -> Seq<EntryView> {
    Seq::new(list.len(), |i: int| list[i]@)
}

/// A credential to be stored.
#[derive(Debug, PartialEq, Eq)]
pub struct CredentialInput {
    pub origin: String,
    pub username: String,
    pub password: String,
    pub username_field: Option<String>,
    pub password_field: Option<String>,
    pub form_label: Option<String>,
}

/// The contents of a `CredentialInput`.
#[verifier::ext_equal]
pub struct InputView {
    pub origin: Seq<char>,
    pub username: Seq<char>,
    pub password: Seq<char>,
    pub username_field: Option<Seq<char>>,
    pub password_field: Option<Seq<char>>,
    pub form_label: Option<Seq<char>>,
}

impl View for CredentialInput {
    type V = InputView;

    open spec fn view(&self) -> InputView {
        InputView {
            origin: self.origin@,
            username: self.username@,
            password: self.password@,
            username_field: opt_text(self.username_field),
            password_field: opt_text(self.password_field),
            form_label: opt_text(self.form_label),
        }
    }
}

/// What is wrong with a credential to be stored.
pub open spec fn input_error(input: InputView) -> Option<Seq<char>> {
    if trimmed(input.origin).len() == 0 {
        Some("credential origin must not be empty"@)
    } else if trimmed(input.username).len() == 0 {
        Some("credential username must not be empty"@)
    } else if input.password.len() == 0 {
        Some("credential password must not be empty"@)
    } else {
        None
    }
}

/// Whether a credential can be stored; the error says what is wrong with it.
pub fn validate_credential_input(input: &CredentialInput) -> (res: Result<(), String>)
    ensures
        fault_of(res) == input_error(input@),
{
    if trim(input.origin.as_str()).as_str().unicode_len() == 0 {
        return Err("credential origin must not be empty".to_owned());
    }
    if trim(input.username.as_str()).as_str().unicode_len() == 0 {
        return Err("credential username must not be empty".to_owned());
    }
    if input.password.as_str().unicode_len() == 0 {
        return Err("credential password must not be empty".to_owned());
    }
    Ok(())
}

/// A text without white space around it, if anything is left.
pub open spec fn trimmed_some(text: Option<Seq<char>>) -> Option<Seq<char>> {
    match text {
        Some(t) => if trimmed(t).len() == 0 {
            None
        } else {
            Some(trimmed(t))
        },
        None => None,
    }
}

/// A text without white space around it, if anything is left.
pub fn normalize_optional(value: &Option<String>) -> (res: Option<String>)
    ensures
        opt_text(res) == trimmed_some(opt_text(*value)),
{
    match value {
        Some(v) => {
            let t = trim(v.as_str());
            if t.as_str().unicode_len() == 0 {
                None
            } else {
                Some(t)
            }
        },
        None => None,
    }
}

/// The credential that an input makes at a time.
pub open spec fn fresh_entry(input: InputView, now_ms: u64) -> EntryView {
    EntryView {
        origin: trimmed(input.origin),
        username: trimmed(input.username),
        password: input.password,
        username_field: trimmed_some(input.username_field),
        password_field: trimmed_some(input.password_field),
        form_label: trimmed_some(input.form_label),
        created_at_ms: now_ms,
        updated_at_ms: now_ms,
    }
}

/// Whether a credential is the one for an origin and a user; case does not matter.
pub open spec fn is_for(e: EntryView, origin: Seq<char>, username: Seq<char>) -> bool {
    same_ignoring_case(e.origin, origin) && same_ignoring_case(e.username, username)
}

/// Whether `i` is the first credential for an origin and a user.
pub open spec fn first_for(
    list: Seq<EntryView>,
    origin: Seq<char>,
    username: Seq<char>,
    i: int,
) -> bool {
    &&& 0 <= i < list.len()
    &&& is_for(list[i], origin, username)
    &&& forall|j: int| 0 <= j < i ==> !is_for(#[trigger] list[j], origin, username)
}

/// Whether one of the credentials is for an origin and a user.
pub open spec fn has_entry(list: Seq<EntryView>, origin: Seq<char>, username: Seq<char>) -> bool {
    exists|i: int| 0 <= i < list.len() && is_for(#[trigger] list[i], origin, username)
}

/// Credentials by origin, then by user.
pub open spec fn entry_before(a: EntryView, b: EntryView) -> bool {
    text_less(a.origin, b.origin) || (a.origin == b.origin && text_less(a.username, b.username))
}

/// A credential put behind the last one that does not come after it.
pub open spec fn insert_stable(list: Seq<EntryView>, e: EntryView) -> Seq<EntryView>
    decreases list.len(),
{
    if list.len() == 0 || !entry_before(e, list.last()) {
        list.push(e)
    } else {
        insert_stable(list.drop_last(), e).push(list.last())
    }
}

/// Credentials in order; those that compare equal keep their order.
pub open spec fn stable_sorted(list: Seq<EntryView>) -> Seq<EntryView>
    decreases list.len(),
{
    if list.len() == 0 {
        Seq::empty()
    } else {
        insert_stable(stable_sorted(list.drop_last()), list.last())
    }
}

/// Credentials after one was stored: the first for its origin and user is replaced and keeps
/// its time of creation and its place; a new one is put in order with all others.
pub open spec fn upserted(list: Seq<EntryView>, entry: EntryView) -> (Seq<EntryView>, EntryView) {
    if has_entry(list, entry.origin, entry.username) {
        let i = choose|i: int| first_for(list, entry.origin, entry.username, i);
        let kept = EntryView { created_at_ms: list[i].created_at_ms, ..entry };
        (list.update(i, kept), kept)
    } else {
        (stable_sorted(list.push(entry)), entry)
    }
}

/// Credentials without those for an origin and a user.
pub open spec fn without_entry(
    list: Seq<EntryView>,
    origin: Seq<char>,
    username: Seq<char>,
) -> Seq<EntryView>
    decreases list.len(),
{
    if list.len() == 0 {
        Seq::empty()
    } else if is_for(list.last(), origin, username) {
        without_entry(list.drop_last(), origin, username)
    } else {
        without_entry(list.drop_last(), origin, username).push(list.last())
    }
}

/// The credential that a value describes.
pub open spec fn read_entry(v: JsonView) -> Option<EntryView> {
    let origin = read_text(record_field(v, "origin"@, 0));
    let username = read_text(record_field(v, "username"@, 1));
    let password = read_text(record_field(v, "password"@, 2));
    let username_field = read_opt_text(record_field(v, "username_field"@, 3));
    let password_field = read_opt_text(record_field(v, "password_field"@, 4));
    let form_label = read_opt_text(record_field(v, "form_label"@, 5));
    let created_at_ms = read_u64(record_field(v, "created_at_ms"@, 6));
    let updated_at_ms = read_u64(record_field(v, "updated_at_ms"@, 7));
    if record_shape(v, 8) && origin is Some && username is Some && password is Some
        && username_field is Some && password_field is Some && form_label is Some
        && created_at_ms is Some && updated_at_ms is Some {
        Some(
            EntryView {
                origin: origin->Some_0,
                username: username->Some_0,
                password: password->Some_0,
                username_field: username_field->Some_0,
                password_field: password_field->Some_0,
                form_label: form_label->Some_0,
                created_at_ms: created_at_ms->Some_0,
                updated_at_ms: updated_at_ms->Some_0,
            },
        )
    } else {
        None
    }
}

/// The credentials that a list describes; none where it is missing.
pub open spec fn read_entries(f: Option<JsonView>) -> Option<Seq<EntryView>> {
    match f {
        None => Some(Seq::empty()),
        Some(JsonView::Array(items)) => if forall|i: int|
            0 <= i < items.len() ==> read_entry(#[trigger] items[i]) is Some {
            Some(Seq::new(items.len(), |i: int| read_entry(items[i])->Some_0))
        } else {
            None
        },
        _ => None,
    }
}

/// A version number of 32 bits.
pub open spec fn read_version(f: Option<JsonView>) -> bool {
    f matches Some(JsonView::Unsigned(n)) && n <= u32::MAX
}

/// The credentials in a profile's secrets: none where they are missing or malformed.
pub open spec fn read_credentials(secrets: JsonView) -> Seq<EntryView> {
    match member(secrets, "credentials"@) {
        None => Seq::empty(),
        Some(v) => {
            let entries = read_entries(record_field(v, "entries"@, 1));
            if record_shape(v, 2) && read_version(record_field(v, "version"@, 0)) && entries
                is Some {
                entries->Some_0
            } else {
                Seq::empty()
            }
        },
    }
}

/// The object of a credential; what is not set is left out.
pub open spec fn entry_json(e: EntryView) -> JsonView {
    let o = no_members().insert("origin"@, JsonView::Text(e.origin));
    let o = o.insert("username"@, JsonView::Text(e.username));
    let o = o.insert("password"@, JsonView::Text(e.password));
    let o = insert_some(o, "username_field"@, some_text(e.username_field));
    let o = insert_some(o, "password_field"@, some_text(e.password_field));
    let o = insert_some(o, "form_label"@, some_text(e.form_label));
    let o = o.insert("created_at_ms"@, JsonView::Unsigned(e.created_at_ms));
    JsonView::Object(o.insert("updated_at_ms"@, JsonView::Unsigned(e.updated_at_ms)))
}

/// The object of a list of credentials.
pub open spec fn credentials_json(list: Seq<EntryView>) -> JsonView {
    JsonView::Object(
        no_members().insert("version"@, JsonView::Unsigned(1)).insert(
            "entries"@,
            JsonView::Array(Seq::new(list.len(), |i: int| entry_json(list[i]))),
        ),
    )
}

/// The secrets of a profile with other credentials.
pub open spec fn with_credentials(secrets: JsonView, list: Seq<EntryView>) -> JsonView {
    with_member(secrets, "credentials"@, credentials_json(list))
}

/// The document of a profile's secrets.
pub open spec fn secrets_document(secrets: JsonView) -> JsonView {
    JsonView::Object(
        no_members().insert("version"@, JsonView::Unsigned(1)).insert("secrets"@, secrets),
    )
}

/// The secrets of a profile that has none.
pub open spec fn default_secrets() -> JsonView {
    JsonView::Object(no_members().insert("credentials"@, credentials_json(Seq::empty())))
}

/// The secrets in a document, if it is well-formed.
pub open spec fn read_document(v: JsonView) -> Option<JsonView> {
    let secrets = record_field(v, "secrets"@, 1);
    if record_shape(v, 2) && read_version(record_field(v, "version"@, 0)) {
        secrets
    } else {
        None
    }
}

/// The secrets in the bytes of a document, if they are well-formed.
pub open spec fn document_in(bytes: Seq<u8>) -> Option<JsonView> {
    match parsed_json_bytes(bytes) {
        Ok(v) => read_document(v),
        Err(_) => None,
    }
}

/// The bytes of the document of a profile's secrets: the version, then the secrets.
pub open spec fn document_bytes(secrets: JsonView) -> Seq<u8> {
    pretty_record(seq![("version"@, JsonView::Unsigned(1)), ("secrets"@, secrets)])
}

/// The contents of a profile's secrets file.
#[derive(Debug)]
pub struct StoredProfileSecrets {
    pub version: u32,
    pub secrets: JsonValue,
}

/// What reading a profile's secrets file gave.
#[derive(Debug)]
pub enum SecretsRead {
    /// There is no such file.
    Missing,
    /// The file does not hold secrets.
    Corrupt,
    /// The file holds secrets.
    Parsed(StoredProfileSecrets),
}

/// The secrets of a profile: an empty object where there is no file, the default where the file
/// is malformed.
pub open spec fn stored_secrets(file: SecretsRead) -> JsonView {
    match file {
        SecretsRead::Missing => JsonView::Object(no_members()),
        SecretsRead::Corrupt => default_secrets(),
        SecretsRead::Parsed(stored) => stored.secrets@,
    }
}

/// Whether a profile's file has to be set aside and replaced by the default.
pub open spec fn needs_repair(file: SecretsRead) -> bool {
    file is Corrupt
}

/// The default value of a settings concern.
pub open spec fn default_config(concern: Seq<char>) -> JsonView {
    if concern == "agent"@ {
        JsonView::Object(
            no_members().insert("version"@, JsonView::Unsigned(1)).insert(
                "default_profile"@,
                JsonView::Text("default"@),
            ),
        )
    } else if concern == "runtime"@ {
        let persistent = JsonView::Object(
            no_members().insert("persistent"@, JsonView::Bool(true)),
        );
        let modes = JsonView::Object(
            no_members().insert("headless"@, persistent).insert("headful"@, persistent),
        );
        JsonView::Object(
            no_members().insert("version"@, JsonView::Unsigned(1)).insert(
                "bootstrap_page"@,
                JsonView::Text("local"@),
            ).insert("modes"@, modes),
        )
    } else if concern == "credentials"@ {
        default_credentials_config()
    } else {
        JsonView::Object(no_members())
    }
}

/// The default settings for credentials.
pub open spec fn default_credentials_config() -> JsonView {
    JsonView::Object(
        no_members().insert("version"@, JsonView::Unsigned(1)).insert(
            "auto_store"@,
            JsonView::Bool(true),
        ),
    )
}

/// Whether settings ask for credentials to be stored: they do unless they say otherwise.
pub open spec fn auto_store_of(settings: Option<JsonView>) -> bool {
    match settings {
        None => true,
        Some(v) => match member(v, "auto_store"@) {
            Some(JsonView::Bool(b)) => b,
            _ => true,
        },
    }
}

/// An object without members, to be filled.
pub fn start() -> (res: Vec<(String, JsonValue)>)
    ensures
        members_map(entries_view(res@)) == no_members(),
{
    let entries: Vec<(String, JsonValue)> = Vec::new();
    assert(members_map(entries_view(entries@)) =~= no_members());
    entries
}

fn default_credentials_settings_payload() -> (res: JsonValue)
    ensures
        res@ == default_credentials_config(),
{
    let mut entries = start();
    put(&mut entries, "version", JsonValue::Unsigned(1));
    put(&mut entries, "auto_store", JsonValue::Bool(true));
    object(entries)
}

fn persistent_mode() -> (res: JsonValue)
    ensures
        res@ == JsonView::Object(no_members().insert("persistent"@, JsonView::Bool(true))),
{
    let mut entries = start();
    put(&mut entries, "persistent", JsonValue::Bool(true));
    object(entries)
}

/// The default value of a settings concern.
pub fn default_config_payload(concern: &str) -> (res: JsonValue)
    ensures
        res@ == default_config(concern@),
{
    if str_eq(concern, "agent") {
        let mut entries = start();
        put(&mut entries, "version", JsonValue::Unsigned(1));
        put(&mut entries, "default_profile", JsonValue::text("default"));
        object(entries)
    } else if str_eq(concern, "runtime") {
        let mut modes = start();
        put(&mut modes, "headless", persistent_mode());
        put(&mut modes, "headful", persistent_mode());
        let mut entries = start();
        put(&mut entries, "version", JsonValue::Unsigned(1));
        put(&mut entries, "bootstrap_page", JsonValue::text("local"));
        put(&mut entries, "modes", object(modes));
        object(entries)
    } else if str_eq(concern, "credentials") {
        default_credentials_settings_payload()
    } else {
        empty_object()
    }
}

/// What reading a settings file gave.
#[derive(Debug)]
pub enum ConfigRead {
    /// There is no such file.
    Absent,
    /// The file's value.
    Stored(JsonValue),
    /// The file is malformed: set it aside, write this default in its place and use it.
    Repaired(JsonValue),
}

/// The settings files of a state directory.
#[derive(Debug)]
pub struct AegisConfigStore {
    paths: AegisStatePaths,
}

impl AegisConfigStore {
    /// The root of the state directory.
    pub closed spec fn root(&self) -> Seq<char> {
        self.paths.root_view()
    }

    /// The settings files below the root that the environment gives.
    pub fn detect(aegis_home: Option<String>, home: Option<String>) -> (res: Result<Self, String>)
        ensures
            match res {
                Ok(store) => state_root(opt_text(aegis_home), opt_text(home)) == Some(store.root()),
                Err(e) => aegis_home is None && home is None && e@ == "HOME is not set"@,
            },
    {
        match AegisStatePaths::detect(aegis_home, home) {
            Ok(paths) => Ok(AegisConfigStore { paths }),
            Err(e) => Err(e),
        }
    }

    /// The file of a concern; a name that is not allowed is refused.
    pub fn config_file(&self, concern: &str) -> (res: Result<String, String>)
        ensures
            match res {
                Ok(path) => name_error(concern@, "name"@) is None && path@ == concern_file(
                    self.root(),
                    concern@,
                ),
                Err(e) => name_error(concern@, "name"@) == Some(e@),
            },
    {
        match validate_name(concern, "name") {
            Ok(()) => Ok(self.paths.settings_file(concern)),
            Err(e) => Err(e),
        }
    }

    /// The value of a concern, from the bytes of its file. A malformed file calls for the
    /// default.
    pub fn get(&self, concern: &str, file: Option<&[u8]>) -> (res: Result<ConfigRead, String>)
        ensures
            match res {
                Err(e) => name_error(concern@, "name"@) == Some(e@),
                Ok(read) => name_error(concern@, "name"@) is None && match file {
                    None => read is Absent,
                    Some(bytes) => match parsed_json_bytes(bytes@) {
                        Ok(v) => read matches ConfigRead::Stored(x) && x@ == v,
                        Err(_) => read matches ConfigRead::Repaired(x) && x@ == default_config(
                            concern@,
                        ),
                    },
                },
            },
    {
        match validate_name(concern, "name") {
            Ok(()) => {},
            Err(e) => {
                return Err(e);
            },
        }
        match file {
            None => Ok(ConfigRead::Absent),
            Some(bytes) => match parse_json_bytes(bytes) {
                Ok(v) => Ok(ConfigRead::Stored(v)),
                Err(_) => Ok(ConfigRead::Repaired(default_config_payload(concern))),
            },
        }
    }

    /// The file of a concern and the bytes to be written to it.
    pub fn set(&self, concern: &str, value: &JsonValue) -> (res: Result<(String, Vec<u8>), String>)
        ensures
            match res {
                Ok((path, bytes)) => name_error(concern@, "name"@) is None && path@ == concern_file(
                    self.root(),
                    concern@,
                ) && bytes@ == pretty_json_bytes(value@),
                Err(e) => name_error(concern@, "name"@) == Some(e@),
            },
    {
        match self.config_file(concern) {
            Ok(path) => Ok((path, write_json_pretty(value))),
            Err(e) => Err(e),
        }
    }

    /// The settings for credentials, from the value of their concern.
    pub fn load_credentials_settings(&self, value: Option<&JsonValue>) -> (res: CredentialsSettings)
        ensures
            res.version == 1,
            res.auto_store == auto_store_of(opt_ref(value)),
    {
        let auto_store = match value {
            None => true,
            Some(v) => match v.get("auto_store") {
                Some(flag) => match flag.as_bool() {
                    Some(b) => b,
                    None => true,
                },
                None => true,
            },
        };
        CredentialsSettings { version: 1, auto_store }
    }
}

fn entry_from_json(v: &JsonValue) -> (res: Option<StoredCredentialEntry>)
    ensures
        match res {
            Some(e) => read_entry(v@) == Some(e@),
            None => read_entry(v@) is None,
        },
{
    if !v.has_record_shape(8) {
        return None;
    }
    let origin = get_text(v.field("origin", 0));
    let username = get_text(v.field("username", 1));
    let password = get_text(v.field("password", 2));
    let username_field = get_opt_text(v.field("username_field", 3));
    let password_field = get_opt_text(v.field("password_field", 4));
    let form_label = get_opt_text(v.field("form_label", 5));
    let created_at_ms = get_u64(v.field("created_at_ms", 6));
    let updated_at_ms = get_u64(v.field("updated_at_ms", 7));
    match (
        origin,
        username,
        password,
        username_field,
        password_field,
        form_label,
        created_at_ms,
        updated_at_ms,
    ) {
        (
            Some(origin),
            Some(username),
            Some(password),
            Some(username_field),
            Some(password_field),
            Some(form_label),
            Some(created_at_ms),
            Some(updated_at_ms),
        ) => Some(
            StoredCredentialEntry {
                origin,
                username,
                password,
                username_field,
                password_field,
                form_label,
                created_at_ms,
                updated_at_ms,
            },
        ),
        _ => None,
    }
}

fn entries_from_json(f: Option<&JsonValue>) -> (res: Option<Vec<StoredCredentialEntry>>)
    ensures
        match res {
            Some(list) => read_entries(opt_ref(f)) == Some(entry_views(list@)),
            None => read_entries(opt_ref(f)) is None,
        },
{
    broadcast use lemma_json_view;

    match f {
        None => {
            let out: Vec<StoredCredentialEntry> = Vec::new();
            assert(entry_views(out@) =~= Seq::<EntryView>::empty());
            Some(out)
        },
        Some(JsonValue::Array(items)) => {
            let ghost views = values_view(items@);
            let mut out: Vec<StoredCredentialEntry> = Vec::new();
            let mut i: usize = 0;
            while i < items.len()
                invariant
                    i <= items@.len(),
                    views == values_view(items@),
                    opt_ref(f) == Some(JsonView::Array(views)),
                    out@.len() == i,
                    forall|j: int| 0 <= j < i ==> read_entry(#[trigger] views[j]) == Some(out@[j]@),
                decreases items@.len() - i,
            {
                assert(views[i as int] == items@[i as int]@);
                match entry_from_json(&items[i]) {
                    Some(e) => {
                        out.push(e);
                    },
                    None => {
                        assert(read_entry(views[i as int]) is None);
                        return None;
                    },
                }
                i += 1;
            }
            assert(entry_views(out@) =~= Seq::new(
                views.len(),
                |k: int| read_entry(views[k])->Some_0,
            ));
            Some(out)
        },
        _ => None,
    }
}

fn has_version(f: Option<&JsonValue>) -> (res: bool)
    ensures
        res == read_version(opt_ref(f)),
{
    match f {
        Some(JsonValue::Unsigned(n)) => *n <= u32::MAX as u64,
        _ => false,
    }
}

/// The credentials in a profile's secrets: none where they are missing or malformed.
pub fn parse_credentials_entries(secrets: &JsonValue) -> (res: Vec<StoredCredentialEntry>)
    ensures
        entry_views(res@) == read_credentials(secrets@),
{
    let none: Vec<StoredCredentialEntry> = Vec::new();
    assert(entry_views(none@) =~= Seq::<EntryView>::empty());
    match secrets.get("credentials") {
        None => none,
        Some(v) => {
            if !v.has_record_shape(2) || !has_version(v.field("version", 0)) {
                return none;
            }
            match entries_from_json(v.field("entries", 1)) {
                Some(list) => list,
                None => none,
            }
        },
    }
}

/// The JSON form of an entry.
pub fn entry_to_json(e: &StoredCredentialEntry) -> (res: JsonValue)
    ensures
        res@ == entry_json(e@),
{
    let mut entries = start();
    put(&mut entries, "origin", JsonValue::Text(e.origin.clone()));
    put(&mut entries, "username", JsonValue::Text(e.username.clone()));
    put(&mut entries, "password", JsonValue::Text(e.password.clone()));
    put_some_text(&mut entries, "username_field", &e.username_field);
    put_some_text(&mut entries, "password_field", &e.password_field);
    put_some_text(&mut entries, "form_label", &e.form_label);
    put(&mut entries, "created_at_ms", JsonValue::Unsigned(e.created_at_ms));
    put(&mut entries, "updated_at_ms", JsonValue::Unsigned(e.updated_at_ms));
    object(entries)
}

fn credentials_to_json(list: &Vec<StoredCredentialEntry>) -> (res: JsonValue)
    ensures
        res@ == credentials_json(entry_views(list@)),
{
    let mut items: Vec<JsonValue> = Vec::new();
    let mut i: usize = 0;
    while i < list.len()
        invariant
            i <= list@.len(),
            items@.len() == i,
            forall|j: int| 0 <= j < i ==> (#[trigger] items@[j])@ == entry_json(list@[j]@),
        decreases list@.len() - i,
    {
        items.push(entry_to_json(&list[i]));
        i += 1;
    }
    let ghost views = entry_views(list@);
    assert(values_view(items@) =~= Seq::new(views.len(), |k: int| entry_json(views[k])));
    let mut entries = start();
    put(&mut entries, "version", JsonValue::Unsigned(1));
    put(&mut entries, "entries", array(items));
    object(entries)
}

/// The outcome of a step that yields a value or a message.
pub open spec fn json_or_message(res: Result<JsonValue, String>) -> Result<JsonView, Seq<char>> {
    match res {
        Ok(v) => Ok(v@),
        Err(e) => Err(e@),
    }
}

/// The secrets of a profile with other credentials; everything else in them stays.
pub fn upsert_credentials_entries(
    secrets: &JsonValue,
    entries: &Vec<StoredCredentialEntry>,
) -> (res: Result<JsonValue, String>)
    ensures
        json_or_message(res) == if secrets@ is Object {
            Ok(with_credentials(secrets@, entry_views(entries@)))
        } else {
            Err("secret payload must be a JSON object"@)
        },
{
    broadcast use lemma_json_view;

    match secrets {
        JsonValue::Object(_) => Ok(
            set_member(secrets, "credentials", credentials_to_json(entries)),
        ),
        _ => Err("secret payload must be a JSON object".to_owned()),
    }
}

fn comes_before(a: &StoredCredentialEntry, b: &StoredCredentialEntry) -> (res: bool)
    ensures
        res == entry_before(a@, b@),
{
    str_less(a.origin.as_str(), b.origin.as_str()) || (str_eq(a.origin.as_str(), b.origin.as_str())
        && str_less(a.username.as_str(), b.username.as_str()))
}

/// Inserting behind position `p`, where everything from `p` on comes after the entry and what
/// stands before `p` does not.
proof fn lemma_insert_stable(list: Seq<EntryView>, e: EntryView, p: int)
    requires
        0 <= p <= list.len(),
        forall|j: int| p <= j < list.len() ==> entry_before(e, #[trigger] list[j]),
        p > 0 ==> !entry_before(e, list[p - 1]),
    ensures
        insert_stable(list, e) == list.insert(p, e),
    decreases list.len(),
{
    if p == list.len() {
        assert(list.insert(p, e) =~= list.push(e));
    } else {
        let init = list.drop_last();
        assert(entry_before(e, list[list.len() - 1]));
        assert forall|j: int| p <= j < init.len() implies entry_before(e, #[trigger] init[j]) by {
            assert(entry_before(e, list[j]));
        }
        lemma_insert_stable(init, e, p);
        assert(list.insert(p, e) =~= init.insert(p, e).push(list.last()));
    }
}

fn sort_entries(list: Vec<StoredCredentialEntry>) -> (res: Vec<StoredCredentialEntry>)
    ensures
        entry_views(res@) == stable_sorted(entry_views(list@)),
{
    let ghost all = entry_views(list@);
    let mut out: Vec<StoredCredentialEntry> = Vec::new();
    let mut i: usize = 0;
    assert(all.take(0) =~= Seq::empty());
    assert(entry_views(out@) =~= Seq::empty());
    while i < list.len()
        invariant
            i <= list@.len(),
            all == entry_views(list@),
            entry_views(out@) == stable_sorted(all.take(i as int)),
        decreases list@.len() - i,
    {
        let entry = list[i].clone();
        let ghost done = entry_views(out@);
        let mut p: usize = out.len();
        while p > 0 && comes_before(&entry, &out[p - 1])
            invariant
                p <= out@.len(),
                done == entry_views(out@),
                forall|j: int| p <= j < done.len() ==> entry_before(entry@, #[trigger] done[j]),
            decreases p,
        {
            p -= 1;
            assert(done[p as int] == out@[p as int]@);
        }
        let ghost added = entry@;
        proof {
            if p > 0 {
                assert(done[p - 1] == out@[p - 1]@);
            }
            lemma_insert_stable(done, added, p as int);
            assert(all.take(i + 1).drop_last() =~= all.take(i as int));
            assert(all.take(i + 1).last() == added);
        }
        out.insert(p, entry);
        assert(entry_views(out@) =~= done.insert(p as int, added));
        i += 1;
    }
    assert(all.take(i as int) =~= all);
    out
}

fn find_entry(list: &Vec<StoredCredentialEntry>, origin: &str, username: &str) -> (res: Option<
    usize,
>)
    ensures
        match res {
            Some(i) => first_for(entry_views(list@), origin@, username@, i as int),
            None => !has_entry(entry_views(list@), origin@, username@),
        },
{
    let ghost views = entry_views(list@);
    let mut i: usize = 0;
    while i < list.len()
        invariant
            i <= list@.len(),
            views == entry_views(list@),
            forall|j: int| 0 <= j < i ==> !is_for(#[trigger] views[j], origin@, username@),
        decreases list@.len() - i,
    {
        assert(views[i as int] == list@[i as int]@);
        if eq_ignore_ascii_case(list[i].origin.as_str(), origin) && eq_ignore_ascii_case(
            list[i].username.as_str(),
            username,
        ) {
            return Some(i);
        }
        i += 1;
    }
    None
}

/// Stores a credential among others; returns it as it is stored.
pub fn upsert_entry(
    list: Vec<StoredCredentialEntry>,
    input: &CredentialInput,
    now_ms: u64,
) -> (res: (Vec<StoredCredentialEntry>, StoredCredentialEntry))
    ensures
        (entry_views(res.0@), res.1@) == upserted(entry_views(list@), fresh_entry(input@, now_ms)),
{
    let ghost before = entry_views(list@);
    let mut entry = StoredCredentialEntry {
        origin: trim(input.origin.as_str()),
        username: trim(input.username.as_str()),
        password: input.password.clone(),
        username_field: normalize_optional(&input.username_field),
        password_field: normalize_optional(&input.password_field),
        form_label: normalize_optional(&input.form_label),
        created_at_ms: now_ms,
        updated_at_ms: now_ms,
    };
    let ghost fresh = entry@;
    assert(fresh == fresh_entry(input@, now_ms));
    let mut list = list;
    match find_entry(&list, entry.origin.as_str(), entry.username.as_str()) {
        Some(i) => {
            proof {
                assert(has_entry(before, fresh.origin, fresh.username)) by {
                    assert(is_for(before[i as int], fresh.origin, fresh.username));
                }
                let k = choose|k: int| first_for(before, fresh.origin, fresh.username, k);
                assert(first_for(before, fresh.origin, fresh.username, i as int));
                if k < i {
                    assert(!is_for(before[k], fresh.origin, fresh.username));
                }
                if i < k {
                    assert(!is_for(before[i as int], fresh.origin, fresh.username));
                }
                assert(k == i);
            }
            entry.created_at_ms = list[i].created_at_ms;
            let ghost kept = entry@;
            assert(kept =~= (EntryView { created_at_ms: before[i as int].created_at_ms, ..fresh }));
            list[i] = entry.clone();
            assert(entry_views(list@) =~= before.update(i as int, kept));
            (list, entry)
        },
        None => {
            list.push(entry.clone());
            assert(entry_views(list@) =~= before.push(fresh));
            (sort_entries(list), entry)
        },
    }
}

/// Credentials without those for an origin and a user, and whether there were any.
pub fn remove_entry(
    list: &Vec<StoredCredentialEntry>,
    origin: &str,
    username: &str,
) -> (res: (Vec<StoredCredentialEntry>, bool))
    ensures
        entry_views(res.0@) == without_entry(entry_views(list@), origin@, username@),
        res.1 == has_entry(entry_views(list@), origin@, username@),
{
    let ghost all = entry_views(list@);
    let mut out: Vec<StoredCredentialEntry> = Vec::new();
    let mut removed = false;
    let mut i: usize = 0;
    assert(all.take(0) =~= Seq::empty());
    assert(entry_views(out@) =~= Seq::empty());
    while i < list.len()
        invariant
            i <= list@.len(),
            all == entry_views(list@),
            entry_views(out@) == without_entry(all.take(i as int), origin@, username@),
            removed == exists|k: int|
                0 <= k < i && is_for(#[trigger] all[k], origin@, username@),
        decreases list@.len() - i,
    {
        let ghost done = entry_views(out@);
        proof {
            assert(all[i as int] == list@[i as int]@);
            assert(all.take(i + 1).drop_last() =~= all.take(i as int));
            assert(all.take(i + 1).last() == all[i as int]);
        }
        if eq_ignore_ascii_case(list[i].origin.as_str(), origin) && eq_ignore_ascii_case(
            list[i].username.as_str(),
            username,
        ) {
            assert(is_for(all[i as int], origin@, username@));
            removed = true;
        } else {
            out.push(list[i].clone());
            assert(entry_views(out@) =~= done.push(all[i as int]));
        }
        i += 1;
    }
    assert(all.take(i as int) =~= all);
    (out, removed)
}

/// A change to a profile's secrets, ready to be written.
#[derive(Debug)]
pub struct SecretsChange {
    /// The path of the file.
    pub path: String,
    /// Whether the file has to be set aside first because it is malformed.
    pub repair: bool,
    /// The bytes of the document to be written.
    pub bytes: Vec<u8>,
}

/// Whether a change writes a profile's secrets with other credentials to its file. Where the
/// secrets before are read back as they are written, so are those after, and with them the
/// credentials.
pub open spec fn writes(
    change: SecretsChange,
    root: Seq<char>,
    profile: Seq<char>,
    file: SecretsRead,
    list: Seq<EntryView>,
) -> bool {
    let secrets = with_credentials(stored_secrets(file), list);
    &&& change.path@ == secrets_file(root, profile)
    &&& change.repair == needs_repair(file)
    &&& change.bytes@ == document_bytes(secrets)
    &&& reads_back(stored_secrets(file), 126) ==> document_in(change.bytes@) == Some(secrets)
        && read_credentials(secrets) == list
}

/// What is wrong with a request that changes credentials: the profile's name, or else
/// secrets that are no object.
pub open spec fn change_error(profile: Seq<char>, file: SecretsRead) -> Option<Seq<char>> {
    match name_error(profile, "profile"@) {
        Some(e) => Some(e),
        None => if stored_secrets(file) is Object {
            None
        } else {
            Some("secret payload must be a JSON object"@)
        },
    }
}

/// The secrets of profiles in a state directory.
#[derive(Debug)]
pub struct AegisSecretStore {
    paths: AegisStatePaths,
}

impl AegisSecretStore {
    /// The root of the state directory.
    pub closed spec fn root(&self) -> Seq<char> {
        self.paths.root_view()
    }

    /// The secrets below the root that the environment gives.
    pub fn detect(aegis_home: Option<String>, home: Option<String>) -> (res: Result<Self, String>)
        ensures
            match res {
                Ok(store) => state_root(opt_text(aegis_home), opt_text(home)) == Some(store.root()),
                Err(e) => aegis_home is None && home is None && e@ == "HOME is not set"@,
            },
    {
        match AegisStatePaths::detect(aegis_home, home) {
            Ok(paths) => Ok(AegisSecretStore { paths }),
            Err(e) => Err(e),
        }
    }

    /// The file of a profile's secrets; a name that is not allowed is refused.
    pub fn secrets_path(&self, profile: &str) -> (res: Result<String, String>)
        ensures
            match res {
                Ok(path) => name_error(profile@, "profile"@) is None && path@ == secrets_file(
                    self.root(),
                    profile@,
                ),
                Err(e) => name_error(profile@, "profile"@) == Some(e@),
            },
    {
        match validate_name(profile, "profile") {
            Ok(()) => Ok(self.paths.profile_secrets_file(profile)),
            Err(e) => Err(e),
        }
    }

    /// The secrets in a profile's file, and whether the file is malformed and has to be
    /// replaced by the default.
    pub fn load_profile_secrets(&self, profile: &str, file: &SecretsRead) -> (res: Result<
        (JsonValue, bool),
        String,
    >)
        ensures
            match res {
                Ok((secrets, repair)) => name_error(profile@, "profile"@) is None && secrets@
                    == stored_secrets(*file) && repair == needs_repair(*file),
                Err(e) => name_error(profile@, "profile"@) == Some(e@),
            },
    {
        match validate_name(profile, "profile") {
            Ok(()) => {},
            Err(e) => {
                return Err(e);
            },
        }
        match file {
            SecretsRead::Missing => Ok((empty_object(), false)),
            SecretsRead::Corrupt => Ok((default_secrets_value(), true)),
            SecretsRead::Parsed(stored) => Ok((stored.secrets.clone(), false)),
        }
    }

    /// The file of a profile's secrets and the bytes to be written to it. Secrets that the
    /// JSON reader reads back are read back from them.
    pub fn save_profile_secrets(&self, profile: &str, secrets: &JsonValue) -> (res: Result<
        (String, Vec<u8>),
        String,
    >)
        ensures
            match res {
                Ok((path, bytes)) => name_error(profile@, "profile"@) is None && path@
                    == secrets_file(self.root(), profile@) && bytes@ == document_bytes(secrets@)
                    && (reads_back(secrets@, 126) ==> document_in(bytes@) == Some(secrets@)),
                Err(e) => name_error(profile@, "profile"@) == Some(e@),
            },
    {
        match self.secrets_path(profile) {
            Ok(path) => {
                let mut members: Vec<(String, JsonValue)> = Vec::new();
                members.push(("version".to_owned(), JsonValue::Unsigned(1)));
                members.push(("secrets".to_owned(), secrets.clone()));
                let bytes = write_record_pretty(&members);
                proof {
                    lemma_document_bytes(members@, secrets@);
                }
                Ok((path, bytes))
            },
            Err(e) => Err(e),
        }
    }

    /// The credentials in a profile's file.
    pub fn load_profile_credentials(&self, profile: &str, file: &SecretsRead) -> (res: Result<
        Vec<StoredCredentialEntry>,
        String,
    >)
        ensures
            match res {
                Ok(list) => name_error(profile@, "profile"@) is None && entry_views(list@)
                    == read_credentials(stored_secrets(*file)),
                Err(e) => name_error(profile@, "profile"@) == Some(e@),
            },
    {
        match self.load_profile_secrets(profile, file) {
            Ok((secrets, _)) => Ok(parse_credentials_entries(&secrets)),
            Err(e) => Err(e),
        }
    }

    fn change(
        &self,
        profile: &str,
        file: &SecretsRead,
        secrets: &JsonValue,
        entries: &Vec<StoredCredentialEntry>,
    ) -> (res: Result<SecretsChange, String>)
        requires
            secrets@ == stored_secrets(*file),
            name_error(profile@, "profile"@) is None,
        ensures
            match res {
                Ok(c) => change_error(profile@, *file) is None && writes(
                    c,
                    self.root(),
                    profile@,
                    *file,
                    entry_views(entries@),
                ),
                Err(e) => change_error(profile@, *file) == Some(e@),
            },
    {
        let repair = match file {
            SecretsRead::Corrupt => true,
            _ => false,
        };
        match upsert_credentials_entries(secrets, entries) {
            Ok(updated) => match self.save_profile_secrets(profile, &updated) {
                Ok((path, bytes)) => {
                    proof {
                        law_credentials_round_trip(secrets@, entry_views(entries@));
                        if reads_back(secrets@, 126) {
                            lemma_credentials_read_back(entry_views(entries@));
                            lemma_with_credentials_reads_back(secrets@, entry_views(entries@));
                        }
                    }
                    Ok(SecretsChange { path, repair, bytes })
                },
                Err(e) => Err(e),
            },
            Err(e) => Err(e),
        }
    }

    /// Stores a credential at a time, given what the profile's file holds.
    pub fn upsert_profile_credential_at(
        &self,
        profile: &str,
        file: &SecretsRead,
        input: &CredentialInput,
        now_ms: u64,
    ) -> (res: Result<(SecretsChange, StoredCredentialEntry), String>)
        ensures
            ({
                let (list, entry) = upserted(
                    read_credentials(stored_secrets(*file)),
                    fresh_entry(input@, now_ms),
                );
                match res {
                    Ok((c, e)) => input_error(input@) is None && change_error(
                        profile@,
                        *file,
                    ) is None && e@ == entry && writes(
                        c,
                        self.root(),
                        profile@,
                        *file,
                        list,
                    ),
                    Err(e) => Some(e@) == match input_error(input@) {
                        Some(m) => Some(m),
                        None => change_error(profile@, *file),
                    },
                }
            }),
    {
        match validate_credential_input(input) {
            Ok(()) => {},
            Err(e) => {
                return Err(e);
            },
        }
        let (secrets, _) = match self.load_profile_secrets(profile, file) {
            Ok(loaded) => loaded,
            Err(e) => {
                return Err(e);
            },
        };
        let entries = parse_credentials_entries(&secrets);
        let (updated, entry) = upsert_entry(entries, input, now_ms);
        match self.change(profile, file, &secrets, &updated) {
            Ok(c) => Ok((c, entry)),
            Err(e) => Err(e),
        }
    }

    /// Stores a credential at the present time, given what the profile's file holds.
    pub fn upsert_profile_credential(
        &self,
        profile: &str,
        file: &SecretsRead,
        input: &CredentialInput,
    ) -> (res: Result<(SecretsChange, StoredCredentialEntry), String>)
        ensures
            exists|now_ms: u64|
                match res {
                    Ok((c, e)) => input_error(input@) is None && change_error(
                        profile@,
                        *file,
                    ) is None && e@ == upserted(
                        read_credentials(stored_secrets(*file)),
                        #[trigger] fresh_entry(input@, now_ms),
                    ).1 && writes(
                        c,
                        self.root(),
                        profile@,
                        *file,
                        upserted(
                                read_credentials(stored_secrets(*file)),
                                fresh_entry(input@, now_ms),
                            ).0,
                    ),
                    Err(e) => Some(e@) == match input_error(input@) {
                        Some(m) => Some(m),
                        None => change_error(profile@, *file),
                    },
                },
    {
        let now_ms: u64 = now_unix_ms();
        let res = self.upsert_profile_credential_at(profile, file, input, now_ms);
        assert(fresh_entry(input@, now_ms) == fresh_entry(input@, now_ms));
        res
    }

    /// Removes the credentials for an origin and a user, given what the profile's
    /// file holds; says whether there were any.
    pub fn remove_profile_credential(
        &self,
        profile: &str,
        file: &SecretsRead,
        origin: &str,
        username: &str,
    ) -> (res: Result<(SecretsChange, bool), String>)
        ensures
            ({
                let before = read_credentials(stored_secrets(*file));
                match res {
                    Ok((c, removed)) => change_error(profile@, *file) is None && removed
                        == has_entry(before, origin@, username@) && writes(
                        c,
                        self.root(),
                        profile@,
                        *file,
                        without_entry(before, origin@, username@),
                    ),
                    Err(e) => change_error(profile@, *file) == Some(e@),
                }
            }),
    {
        let (secrets, _) = match self.load_profile_secrets(profile, file) {
            Ok(loaded) => loaded,
            Err(e) => {
                return Err(e);
            },
        };
        let entries = parse_credentials_entries(&secrets);
        let (kept, removed) = remove_entry(&entries, origin, username);
        match self.change(profile, file, &secrets, &kept) {
            Ok(c) => Ok((c, removed)),
            Err(e) => Err(e),
        }
    }

    /// Removes all credentials, given what the profile's file holds.
    pub fn clear_profile_credentials(&self, profile: &str, file: &SecretsRead) -> (res: Result<
        SecretsChange,
        String,
    >)
        ensures
            match res {
                Ok(c) => change_error(profile@, *file) is None && writes(
                    c,
                    self.root(),
                    profile@,
                    *file,
                    Seq::empty(),
                ),
                Err(e) => change_error(profile@, *file) == Some(e@),
            },
    {
        let (secrets, _) = match self.load_profile_secrets(profile, file) {
            Ok(loaded) => loaded,
            Err(e) => {
                return Err(e);
            },
        };
        let none: Vec<StoredCredentialEntry> = Vec::new();
        assert(entry_views(none@) =~= Seq::<EntryView>::empty());
        self.change(profile, file, &secrets, &none)
    }
}

/// The secrets of a profile that has none.
pub fn default_secrets_value() -> (res: JsonValue)
    ensures
        res@ == default_secrets(),
{
    let none: Vec<StoredCredentialEntry> = Vec::new();
    assert(entry_views(none@) =~= Seq::<EntryView>::empty());
    let mut entries = start();
    put(&mut entries, "credentials", credentials_to_json(&none));
    object(entries)
}

/// The document of the secrets of a profile that has none.
pub fn default_secrets_payload() -> (res: JsonValue)
    ensures
        res@ == secrets_document(default_secrets()),
{
    let mut entries = start();
    put(&mut entries, "version", JsonValue::Unsigned(1));
    put(&mut entries, "secrets", default_secrets_value());
    object(entries)
}

/// What is written for a document is read back where its secrets are.
proof fn lemma_document_bytes(members: Seq<(String, JsonValue)>, secrets: JsonView)
    requires
        members.len() == 2,
        members[0].0@ == "version"@,
        members[0].1@ == JsonView::Unsigned(1),
        members[1].0@ == "secrets"@,
        members[1].1@ == secrets,
    ensures
        pretty_record(entries_view(members)) == document_bytes(secrets),
        reads_back(secrets, 126) ==> readable_entries(entries_view(members), 126),
        JsonView::Object(members_map(entries_view(members))) == secrets_document(secrets),
        read_document(secrets_document(secrets)) == Some(secrets),
{
    let views = entries_view(members);
    assert(views =~= seq![("version"@, JsonView::Unsigned(1)), ("secrets"@, secrets)]);
    law_document_round_trip(secrets);
    reveal_strlit("version");
    reveal_strlit("secrets");
    assert("version"@[0] == 'v');
    assert("secrets"@[0] == 's');
    lemma_ordinary_name("version"@);
    lemma_ordinary_name("secrets"@);
    assert(reads_back(JsonView::Unsigned(1), 126));
    let first = views.drop_last();
    assert(first.drop_last() =~= Seq::empty());
    assert(first.last() == ("version"@, JsonView::Unsigned(1)));
    assert(members_map(first.drop_last()) =~= no_members());
    assert(members_map(first) == no_members().insert("version"@, JsonView::Unsigned(1)));
}

/// Credentials are read back as they are written.
proof fn lemma_credentials_read_back(list: Seq<EntryView>)
    ensures
        reads_back(credentials_json(list), 125),
{
    reveal_strlit("origin");
    reveal_strlit("username");
    reveal_strlit("password");
    reveal_strlit("username_field");
    reveal_strlit("password_field");
    reveal_strlit("form_label");
    reveal_strlit("created_at_ms");
    reveal_strlit("updated_at_ms");
    reveal_strlit("version");
    reveal_strlit("entries");
    assert("origin"@[0] == 'o' && "username"@[0] == 'u' && "password"@[0] == 'p');
    assert("username_field"@[0] == 'u' && "password_field"@[0] == 'p' && "form_label"@[0] == 'f');
    assert("created_at_ms"@[0] == 'c' && "updated_at_ms"@[0] == 'u');
    assert("version"@[0] == 'v' && "entries"@[0] == 'e');
    lemma_ordinary_name("origin"@);
    lemma_ordinary_name("username"@);
    lemma_ordinary_name("password"@);
    lemma_ordinary_name("username_field"@);
    lemma_ordinary_name("password_field"@);
    lemma_ordinary_name("form_label"@);
    lemma_ordinary_name("created_at_ms"@);
    lemma_ordinary_name("updated_at_ms"@);
    lemma_ordinary_name("version"@);
    lemma_ordinary_name("entries"@);
    let items = Seq::new(list.len(), |i: int| entry_json(list[i]));
    assert forall|i: int| 0 <= i < items.len() implies reads_back(#[trigger] items[i], 123) by {
        let m = items[i]->Object_0;
        assert forall|name: Seq<char>| #[trigger] m.contains_key(name) implies ordinary_name(name)
            && reads_back(m[name], 122) by {
            assert(m[name] is Text || m[name] is Unsigned);
        }
    }
    assert(reads_back(JsonView::Array(items), 124));
    assert(reads_back(JsonView::Unsigned(1), 124));
    let m = credentials_json(list)->Object_0;
    assert(readable_members(m, 124));
}

/// Secrets that are read back as they are written are so with other credentials.
proof fn lemma_with_credentials_reads_back(secrets: JsonView, list: Seq<EntryView>)
    requires
        secrets is Object,
        reads_back(secrets, 126),
        reads_back(credentials_json(list), 125),
    ensures
        reads_back(with_credentials(secrets, list), 126),
{
    reveal_strlit("credentials");
    assert("credentials"@[0] == 'c');
    lemma_ordinary_name("credentials"@);
    let m = secrets->Object_0;
    assert(readable_members(m, 125));
    assert(readable_members(m.insert("credentials"@, credentials_json(list)), 125));
}

/// The members of a credential have different names.
proof fn lemma_entry_members_differ()
    ensures
        "origin"@ != "username"@,
        "origin"@ != "password"@,
        "origin"@ != "username_field"@,
        "origin"@ != "password_field"@,
        "origin"@ != "form_label"@,
        "origin"@ != "created_at_ms"@,
        "origin"@ != "updated_at_ms"@,
        "username"@ != "password"@,
        "username"@ != "username_field"@,
        "username"@ != "password_field"@,
        "username"@ != "form_label"@,
        "username"@ != "created_at_ms"@,
        "username"@ != "updated_at_ms"@,
        "password"@ != "username_field"@,
        "password"@ != "password_field"@,
        "password"@ != "form_label"@,
        "password"@ != "created_at_ms"@,
        "password"@ != "updated_at_ms"@,
        "username_field"@ != "password_field"@,
        "username_field"@ != "form_label"@,
        "username_field"@ != "created_at_ms"@,
        "username_field"@ != "updated_at_ms"@,
        "password_field"@ != "form_label"@,
        "password_field"@ != "created_at_ms"@,
        "password_field"@ != "updated_at_ms"@,
        "form_label"@ != "created_at_ms"@,
        "form_label"@ != "updated_at_ms"@,
        "created_at_ms"@ != "updated_at_ms"@,
{
    reveal_strlit("origin");
    reveal_strlit("username");
    reveal_strlit("password");
    reveal_strlit("username_field");
    reveal_strlit("password_field");
    reveal_strlit("form_label");
    reveal_strlit("created_at_ms");
    reveal_strlit("updated_at_ms");
    assert("origin"@.len() != "username"@.len());
    assert("origin"@.len() != "password"@.len());
    assert("origin"@.len() != "username_field"@.len());
    assert("origin"@.len() != "password_field"@.len());
    assert("origin"@.len() != "form_label"@.len());
    assert("origin"@.len() != "created_at_ms"@.len());
    assert("origin"@.len() != "updated_at_ms"@.len());
    assert("username"@[0] != "password"@[0]);
    assert("username"@.len() != "username_field"@.len());
    assert("username"@.len() != "password_field"@.len());
    assert("username"@.len() != "form_label"@.len());
    assert("username"@.len() != "created_at_ms"@.len());
    assert("username"@.len() != "updated_at_ms"@.len());
    assert("password"@.len() != "username_field"@.len());
    assert("password"@.len() != "password_field"@.len());
    assert("password"@.len() != "form_label"@.len());
    assert("password"@.len() != "created_at_ms"@.len());
    assert("password"@.len() != "updated_at_ms"@.len());
    assert("username_field"@[0] != "password_field"@[0]);
    assert("username_field"@.len() != "form_label"@.len());
    assert("username_field"@.len() != "created_at_ms"@.len());
    assert("username_field"@.len() != "updated_at_ms"@.len());
    assert("password_field"@.len() != "form_label"@.len());
    assert("password_field"@.len() != "created_at_ms"@.len());
    assert("password_field"@.len() != "updated_at_ms"@.len());
    assert("form_label"@.len() != "created_at_ms"@.len());
    assert("form_label"@.len() != "updated_at_ms"@.len());
    assert("created_at_ms"@[0] != "updated_at_ms"@[0]);
}

/// The members of a document have different names.
proof fn lemma_document_members_differ()
    ensures
        "version"@ != "entries"@,
        "version"@ != "secrets"@,
        "entries"@ != "secrets"@,
{
    reveal_strlit("version");
    reveal_strlit("entries");
    reveal_strlit("secrets");
    assert("version"@[0] != "entries"@[0]);
    assert("version"@[0] != "secrets"@[0]);
    assert("entries"@[0] != "secrets"@[0]);
}

/// A credential is read as it was written.
pub proof fn law_entry_round_trip(e: EntryView)
    ensures
        read_entry(entry_json(e)) == Some(e),
{
    lemma_entry_members_differ();
    let v = entry_json(e);
    assert(record_field(v, "origin"@, 0) == Some(JsonView::Text(e.origin)));
    assert(record_field(v, "username"@, 1) == Some(JsonView::Text(e.username)));
    assert(record_field(v, "password"@, 2) == Some(JsonView::Text(e.password)));
    assert(record_field(v, "username_field"@, 3) == some_text(e.username_field));
    assert(record_field(v, "password_field"@, 4) == some_text(e.password_field));
    assert(record_field(v, "form_label"@, 5) == some_text(e.form_label));
    assert(record_field(v, "created_at_ms"@, 6) == Some(JsonView::Unsigned(e.created_at_ms)));
    assert(record_field(v, "updated_at_ms"@, 7) == Some(JsonView::Unsigned(e.updated_at_ms)));
    assert(read_entry(v)->Some_0 =~= e);
}

/// The credentials that are written into a profile's secrets are the ones that are read from
/// them, and every other secret stays what it was.
pub proof fn law_credentials_round_trip(secrets: JsonView, list: Seq<EntryView>)
    requires
        secrets is Object,
    ensures
        read_credentials(with_credentials(secrets, list)) == list,
        forall|name: Seq<char>|
            name != "credentials"@ ==> #[trigger] member(with_credentials(secrets, list), name)
                == member(secrets, name),
{
    lemma_document_members_differ();
    let v = credentials_json(list);
    let updated = with_credentials(secrets, list);
    assert(member(updated, "credentials"@) == Some(v));
    assert(record_field(v, "version"@, 0) == Some(JsonView::Unsigned(1)));
    let items = Seq::new(list.len(), |i: int| entry_json(list[i]));
    assert(record_field(v, "entries"@, 1) == Some(JsonView::Array(items)));
    assert forall|i: int| 0 <= i < items.len() implies read_entry(#[trigger] items[i]) == Some(
        list[i],
    ) by {
        law_entry_round_trip(list[i]);
    }
    let got = read_entries(record_field(v, "entries"@, 1));
    assert(got is Some);
    assert(got->Some_0 =~= list);
}

/// A document is read as it was written: the secrets that were put in come out.
pub proof fn law_document_round_trip(secrets: JsonView)
    ensures
        read_document(secrets_document(secrets)) == Some(secrets),
{
    lemma_document_members_differ();
    let v = secrets_document(secrets);
    assert(record_field(v, "version"@, 0) == Some(JsonView::Unsigned(1)));
    assert(record_field(v, "secrets"@, 1) == Some(secrets));
}

proof fn lemma_insert_stable_contains(list: Seq<EntryView>, e: EntryView)
    ensures
        forall|x: EntryView| #[trigger]
            insert_stable(list, e).contains(x) <==> list.contains(x) || x == e,
        insert_stable(list, e).len() == list.len() + 1,
    decreases list.len(),
{
    let all = insert_stable(list, e);
    if list.len() == 0 || !entry_before(e, list.last()) {
        assert forall|x: EntryView| #[trigger]
            all.contains(x) <==> list.contains(x) || x == e by {
            if list.contains(x) {
                let i = choose|i: int| 0 <= i < list.len() && list[i] == x;
                assert(all[i] == x);
            }
            if x == e {
                assert(all[list.len() as int] == x);
            }
        }
    } else {
        let init = list.drop_last();
        let part = insert_stable(init, e);
        lemma_insert_stable_contains(init, e);
        assert forall|x: EntryView| #[trigger]
            all.contains(x) <==> list.contains(x) || x == e by {
            if all.contains(x) {
                let i = choose|i: int| 0 <= i < all.len() && all[i] == x;
                if i < part.len() {
                    assert(part.contains(x));
                    if init.contains(x) {
                        let j = choose|j: int| 0 <= j < init.len() && init[j] == x;
                        assert(list[j] == x);
                    }
                } else {
                    assert(list[list.len() - 1] == x);
                }
            }
            if list.contains(x) {
                let i = choose|i: int| 0 <= i < list.len() && list[i] == x;
                if i < init.len() {
                    assert(init[i] == x);
                    assert(part.contains(x));
                    let j = choose|j: int| 0 <= j < part.len() && part[j] == x;
                    assert(all[j] == x);
                } else {
                    assert(all[part.len() as int] == x);
                }
            }
            if x == e {
                assert(part.contains(x));
                let j = choose|j: int| 0 <= j < part.len() && part[j] == x;
                assert(all[j] == x);
            }
        }
    }
}

/// Whether no credential stands behind one that it should come before.
pub open spec fn in_order(list: Seq<EntryView>) -> bool {
    forall|i: int, j: int|
        0 <= i < j < list.len() ==> !entry_before(#[trigger] list[j], #[trigger] list[i])
}

proof fn lemma_entry_order(a: EntryView, b: EntryView, c: EntryView)
    ensures
        entry_before(a, b) ==> !entry_before(b, a),
        entry_before(a, b) && entry_before(b, c) ==> entry_before(a, c),
        !entry_before(b, a) && entry_before(b, c) ==> !entry_before(c, a),
        entry_before(a, b) || entry_before(b, a) || (a.origin == b.origin && a.username
            == b.username),
{
    lemma_text_order(a.origin, b.origin, c.origin);
    lemma_text_order(a.username, b.username, c.username);
}

proof fn lemma_text_order(a: Seq<char>, b: Seq<char>, c: Seq<char>)
    ensures
        text_less(a, b) ==> !text_less(b, a),
        text_less(b, c) ==> !text_less(c, b),
        text_less(a, b) && text_less(b, c) ==> text_less(a, c),
        text_less(c, a) && text_less(b, c) ==> text_less(b, a),
        text_less(a, b) || text_less(b, a) || a == b,
        !text_less(a, a),
{
    lemma_text_less_irreflexive(a);
    lemma_text_less_total(a, b);
    if text_less(a, b) {
        lemma_text_less_asymmetric(a, b);
        if text_less(b, c) {
            lemma_text_less_transitive(a, b, c);
        }
    }
    if text_less(b, c) {
        lemma_text_less_asymmetric(b, c);
        if text_less(c, a) {
            lemma_text_less_transitive(b, c, a);
        }
    }
}

proof fn lemma_insert_keeps_order(list: Seq<EntryView>, e: EntryView)
    requires
        in_order(list),
    ensures
        in_order(insert_stable(list, e)),
    decreases list.len(),
{
    let all = insert_stable(list, e);
    if list.len() == 0 || !entry_before(e, list.last()) {
        assert forall|i: int, j: int| 0 <= i < j < all.len() implies !entry_before(
            #[trigger] all[j],
            #[trigger] all[i],
        ) by {
            if j == list.len() {
                let last = list.last();
                if i < list.len() - 1 {
                    assert(!entry_before(list[list.len() - 1], list[i]));
                    lemma_entry_order(list[i], e, last);
                    lemma_entry_order(e, list[i], last);
                    lemma_entry_order(last, e, list[i]);
                }
            } else {
                assert(!entry_before(list[j], list[i]));
            }
        }
    } else {
        let init = list.drop_last();
        let part = insert_stable(init, e);
        let last = list.last();
        assert(in_order(init)) by {
            assert forall|i: int, j: int| 0 <= i < j < init.len() implies !entry_before(
                #[trigger] init[j],
                #[trigger] init[i],
            ) by {
                assert(!entry_before(list[j], list[i]));
            }
        }
        lemma_insert_keeps_order(init, e);
        lemma_insert_stable_contains(init, e);
        assert forall|i: int, j: int| 0 <= i < j < all.len() implies !entry_before(
            #[trigger] all[j],
            #[trigger] all[i],
        ) by {
            if j == part.len() {
                assert(part.contains(part[i]));
                if part[i] == e {
                    lemma_entry_order(e, last, e);
                } else {
                    let k = choose|k: int| 0 <= k < init.len() && init[k] == part[i];
                    assert(!entry_before(list[list.len() - 1], list[k]));
                }
            } else {
                assert(!entry_before(part[j], part[i]));
            }
        }
    }
}

/// Sorting puts credentials in order and neither adds nor drops any.
pub proof fn law_sorted(list: Seq<EntryView>)
    ensures
        in_order(stable_sorted(list)),
        stable_sorted(list).len() == list.len(),
        forall|x: EntryView| #[trigger] stable_sorted(list).contains(x) <==> list.contains(x),
    decreases list.len(),
{
    if list.len() > 0 {
        let init = list.drop_last();
        law_sorted(init);
        lemma_insert_keeps_order(stable_sorted(init), list.last());
        lemma_insert_stable_contains(stable_sorted(init), list.last());
        assert forall|x: EntryView| #[trigger]
            stable_sorted(list).contains(x) <==> list.contains(x) by {
            assert(stable_sorted(init).contains(x) <==> init.contains(x));
            if list.contains(x) {
                let i = choose|i: int| 0 <= i < list.len() && list[i] == x;
                if i < init.len() {
                    assert(init[i] == x);
                }
            }
            if init.contains(x) {
                let i = choose|i: int| 0 <= i < init.len() && init[i] == x;
                assert(list[i] == x);
            }
            if x == list.last() {
                assert(list[list.len() - 1] == x);
            }
        }
    }
}

/// A credential that was stored is there, and every credential for another origin or user is
/// still there.
pub proof fn law_upsert_then_found(list: Seq<EntryView>, entry: EntryView)
    ensures
        upserted(list, entry).0.contains(upserted(list, entry).1),
        upserted(list, entry).1.password == entry.password,
        has_entry(upserted(list, entry).0, entry.origin, entry.username),
        forall|x: EntryView|
            list.contains(x) && !is_for(x, entry.origin, entry.username)
                ==> #[trigger] upserted(list, entry).0.contains(x),
{
    let (all, kept) = upserted(list, entry);
    if has_entry(list, entry.origin, entry.username) {
        lemma_first_exists(list, entry.origin, entry.username);
        let i = choose|i: int| first_for(list, entry.origin, entry.username, i);
        assert(all[i] == kept);
        assert(is_for(all[i], entry.origin, entry.username));
        assert forall|x: EntryView|
            list.contains(x) && !is_for(x, entry.origin, entry.username) implies #[trigger] all.contains(
            x,
        ) by {
            let j = choose|j: int| 0 <= j < list.len() && list[j] == x;
            assert(all[j] == x);
        }
    } else {
        law_sorted(list.push(entry));
        assert(list.push(entry)[list.len() as int] == entry);
        assert(list.push(entry).contains(entry));
        assert(all.contains(entry));
        let k = choose|k: int| 0 <= k < all.len() && all[k] == entry;
        assert(is_for(all[k], entry.origin, entry.username));
        assert forall|x: EntryView|
            list.contains(x) && !is_for(x, entry.origin, entry.username) implies #[trigger] all.contains(
            x,
        ) by {
            let j = choose|j: int| 0 <= j < list.len() && list[j] == x;
            assert(list.push(entry)[j] == x);
            assert(list.push(entry).contains(x));
        }
    }
}

proof fn lemma_first_exists(list: Seq<EntryView>, origin: Seq<char>, username: Seq<char>)
    requires
        has_entry(list, origin, username),
    ensures
        exists|i: int| first_for(list, origin, username, i),
    decreases list.len(),
{
    let i = choose|i: int| 0 <= i < list.len() && is_for(#[trigger] list[i], origin, username);
    let init = list.take(i);
    if has_entry(init, origin, username) {
        lemma_first_exists(init, origin, username);
        let k = choose|k: int| first_for(init, origin, username, k);
        assert forall|j: int| 0 <= j < k implies !is_for(
            #[trigger] list[j],
            origin,
            username,
        ) by {
            assert(!is_for(init[j], origin, username));
        }
        assert(first_for(list, origin, username, k));
    } else {
        assert forall|j: int| 0 <= j < i implies !is_for(
            #[trigger] list[j],
            origin,
            username,
        ) by {
            assert(init[j] == list[j]);
        }
        assert(first_for(list, origin, username, i));
    }
}

/// A credential that was removed is gone, and every other credential is still there.
pub proof fn law_remove_then_gone(list: Seq<EntryView>, origin: Seq<char>, username: Seq<char>)
    ensures
        !has_entry(without_entry(list, origin, username), origin, username),
        forall|x: EntryView| #[trigger]
            without_entry(list, origin, username).contains(x) <==> list.contains(x) && !is_for(
                x,
                origin,
                username,
            ),
    decreases list.len(),
{
    let rest = without_entry(list, origin, username);
    if list.len() > 0 {
        let init = list.drop_last();
        let part = without_entry(init, origin, username);
        law_remove_then_gone(init, origin, username);
        assert forall|x: EntryView| #[trigger]
            rest.contains(x) <==> list.contains(x) && !is_for(x, origin, username) by {
            assert(part.contains(x) <==> init.contains(x) && !is_for(x, origin, username));
            if list.contains(x) {
                let i = choose|i: int| 0 <= i < list.len() && list[i] == x;
                if i < init.len() {
                    assert(init[i] == x);
                } else if !is_for(x, origin, username) {
                    assert(rest[part.len() as int] == x);
                }
            }
            if init.contains(x) {
                let i = choose|i: int| 0 <= i < init.len() && init[i] == x;
                assert(list[i] == x);
            }
            if part.contains(x) {
                let i = choose|i: int| 0 <= i < part.len() && part[i] == x;
                assert(rest[i] == x);
            }
            if rest.contains(x) {
                let i = choose|i: int| 0 <= i < rest.len() && rest[i] == x;
                if i == part.len() {
                    assert(list[list.len() - 1] == x);
                } else {
                    assert(part[i] == x);
                }
            }
        }
    }
    if has_entry(rest, origin, username) {
        let i = choose|i: int| 0 <= i < rest.len() && is_for(#[trigger] rest[i], origin, username);
        assert(rest.contains(rest[i]));
    }
}

/// The file that storing a credential writes holds that credential when it is read again, and
/// every secret that is no credential as it was, where the secrets before are read back as they
/// are written.
pub proof fn law_stored_credential_is_read_back(
    change: SecretsChange,
    root: Seq<char>,
    profile: Seq<char>,
    file: SecretsRead,
    entry: EntryView,
)
    requires
        change_error(profile, file) is None,
        reads_back(stored_secrets(file), 126),
        writes(
            change,
            root,
            profile,
            file,
            upserted(read_credentials(stored_secrets(file)), entry).0,
        ),
    ensures
        ({
            let kept = upserted(read_credentials(stored_secrets(file)), entry).1;
            &&& document_in(change.bytes@) matches Some(secrets)
            &&& read_credentials(secrets).contains(kept)
            &&& kept.password == entry.password
            &&& forall|name: Seq<char>|
                name != "credentials"@ ==> #[trigger] member(secrets, name) == member(
                    stored_secrets(file),
                    name,
                )
        }),
{
    let before = read_credentials(stored_secrets(file));
    law_upsert_then_found(before, entry);
    law_credentials_round_trip(stored_secrets(file), upserted(before, entry).0);
}

/// The file that removing a credential writes does not hold that credential when it is read
/// again, where the secrets before are read back as they are written.
pub proof fn law_removed_credential_is_not_read_back(
    change: SecretsChange,
    root: Seq<char>,
    profile: Seq<char>,
    file: SecretsRead,
    origin: Seq<char>,
    username: Seq<char>,
)
    requires
        change_error(profile, file) is None,
        reads_back(stored_secrets(file), 126),
        writes(
            change,
            root,
            profile,
            file,
            without_entry(read_credentials(stored_secrets(file)), origin, username),
        ),
    ensures
        ({
            &&& document_in(change.bytes@) matches Some(secrets)
            &&& !has_entry(read_credentials(secrets), origin, username)
        }),
{
    law_remove_then_gone(read_credentials(stored_secrets(file)), origin, username);
}

/// A name is accepted exactly when it is not blank and plain; the message for any other says what
/// the name is for and what is wrong.
pub proof fn law_accepted_names(value: Seq<char>, label: Seq<char>)
    ensures
        name_error(value, label) is None <==> trimmed(value).len() > 0 && plain_name(value),
        trimmed(value).len() == 0 ==> name_error(value, label) == Some(
            label + " must not be empty"@,
        ),
        trimmed(value).len() > 0 && !plain_name(value) ==> name_error(value, label) == Some(
            label + " "@ + debug_quoted(value)
                + " must use only letters, numbers, '.', '-', or '_'"@,
        ),
{
}

/// A credential is accepted exactly when its origin and its user are not blank and its password is
/// not empty; the message names the first of them that is missing.
pub proof fn law_accepted_credentials(input: InputView)
    ensures
        input_error(input) is None <==> trimmed(input.origin).len() > 0 && trimmed(
            input.username,
        ).len() > 0 && input.password.len() > 0,
        trimmed(input.origin).len() == 0 ==> input_error(input) == Some(
            "credential origin must not be empty"@,
        ),
        trimmed(input.origin).len() > 0 && trimmed(input.username).len() == 0 ==> input_error(input)
            == Some("credential username must not be empty"@),
        trimmed(input.origin).len() > 0 && trimmed(input.username).len() > 0
            && input.password.len() == 0 ==> input_error(input) == Some(
            "credential password must not be empty"@,
        ),
{
}

/// A credential is stored with its origin and its user trimmed, its password as it is, the names of
/// its fields and its label trimmed or left out where they are blank, and the time as that of its
/// creation and its change.
pub proof fn law_stored_as_given(input: InputView, now_ms: u64)
    ensures
        ({
            let e = fresh_entry(input, now_ms);
            let kept = |given: Option<Seq<char>>, stored: Option<Seq<char>>|
                if given is Some && trimmed(given->Some_0).len() > 0 {
                    stored == Some(trimmed(given->Some_0))
                } else {
                    stored is None
                };
            &&& e.origin == trimmed(input.origin)
            &&& e.username == trimmed(input.username)
            &&& e.password == input.password
            &&& kept(input.username_field, e.username_field)
            &&& kept(input.password_field, e.password_field)
            &&& kept(input.form_label, e.form_label)
            &&& e.created_at_ms == now_ms
            &&& e.updated_at_ms == now_ms
        }),
{
}

/// A credential is for an origin and a user exactly when both agree with its own but for case.
pub proof fn law_credential_is_for(e: EntryView, origin: Seq<char>, username: Seq<char>)
    ensures
        is_for(e, origin, username) <==> same_ignoring_case(e.origin, origin) && same_ignoring_case(
            e.username,
            username,
        ),
{
}

proof fn lemma_first_for(list: Seq<EntryView>, origin: Seq<char>, username: Seq<char>, k: int)
    requires
        0 <= k < list.len(),
        is_for(list[k], origin, username),
    ensures
        exists|i: int| #[trigger] first_for(list, origin, username, i),
    decreases k,
{
    if exists|j: int| 0 <= j < k && is_for(#[trigger] list[j], origin, username) {
        let j = choose|j: int| 0 <= j < k && is_for(#[trigger] list[j], origin, username);
        lemma_first_for(list, origin, username, j);
    } else {
        assert(first_for(list, origin, username, k));
    }
}

/// Storing a credential for an origin and a user that are known replaces the first one for them,
/// in its place, by the new one with the old time of creation, and changes no other; one for an
/// origin or a user that is new is added as it is.
pub proof fn law_stored_in_place(list: Seq<EntryView>, entry: EntryView, i: int)
    ensures
        0 <= i < list.len() && is_for(list[i], entry.origin, entry.username) && (forall|j: int|
            0 <= j < i ==> !is_for(#[trigger] list[j], entry.origin, entry.username)) ==> {
            let kept = EntryView {
                origin: entry.origin,
                username: entry.username,
                password: entry.password,
                username_field: entry.username_field,
                password_field: entry.password_field,
                form_label: entry.form_label,
                created_at_ms: list[i].created_at_ms,
                updated_at_ms: entry.updated_at_ms,
            };
            upserted(list, entry) == (list.update(i, kept), kept)
        },
        (forall|j: int|
            0 <= j < list.len() ==> !is_for(#[trigger] list[j], entry.origin, entry.username)) ==> {
            &&& upserted(list, entry).1 == entry
            &&& upserted(list, entry).0.len() == list.len() + 1
            &&& upserted(list, entry).0.to_multiset() == list.push(entry).to_multiset()
            &&& in_order(upserted(list, entry).0)
        },
{
    if 0 <= i < list.len() && is_for(list[i], entry.origin, entry.username) && (forall|j: int|
        0 <= j < i ==> !is_for(#[trigger] list[j], entry.origin, entry.username)) {
        assert(first_for(list, entry.origin, entry.username, i));
        let k = choose|k: int| first_for(list, entry.origin, entry.username, k);
        assert(first_for(list, entry.origin, entry.username, k));
        assert(k == i) by {
            if k < i {
                assert(!is_for(list[k], entry.origin, entry.username));
            }
            if i < k {
                assert(!is_for(list[i], entry.origin, entry.username));
            }
        }
        assert(has_entry(list, entry.origin, entry.username));
    }
    if forall|j: int|
        0 <= j < list.len() ==> !is_for(#[trigger] list[j], entry.origin, entry.username) {
        law_sorted(list.push(entry));
        lemma_sorted_same(list.push(entry));
    }
}

proof fn lemma_insert_same(list: Seq<EntryView>, e: EntryView)
    ensures
        insert_stable(list, e).to_multiset() == list.push(e).to_multiset(),
    decreases list.len(),
{
    broadcast use vstd::seq_lib::group_to_multiset_ensures;

    if !(list.len() == 0 || !entry_before(e, list.last())) {
        let init = list.drop_last();
        lemma_insert_same(init, e);
        assert(init.push(list.last()) =~= list);
        assert(insert_stable(list, e).to_multiset() =~= list.push(e).to_multiset());
    }
}

proof fn lemma_sorted_same(list: Seq<EntryView>)
    ensures
        stable_sorted(list).to_multiset() == list.to_multiset(),
    decreases list.len(),
{
    broadcast use vstd::seq_lib::group_to_multiset_ensures;

    if list.len() == 0 {
        assert(list =~= Seq::empty());
    } else {
        let init = list.drop_last();
        lemma_sorted_same(init);
        lemma_insert_same(stable_sorted(init), list.last());
        assert(init.push(list.last()) =~= list);
        assert(stable_sorted(list).to_multiset() =~= list.to_multiset());
    }
}

/// Credentials are in the order of their origins, and of their users where the origins agree.
pub proof fn law_order_of_credentials(a: EntryView, b: EntryView)
    ensures
        entry_before(a, b) <==> text_less(a.origin, b.origin) || (a.origin == b.origin && text_less(
            a.username,
            b.username,
        )),
{
}

/// Removing the credentials for an origin and a user leaves the others, in their order.
pub proof fn law_removed_leaves_the_others(
    list: Seq<EntryView>,
    origin: Seq<char>,
    username: Seq<char>,
)
    ensures
        without_entry(list, origin, username) == list.filter(
            |e: EntryView|
                !(same_ignoring_case(e.origin, origin) && same_ignoring_case(e.username, username)),
        ),
        has_entry(list, origin, username) <==> exists|i: int|
            0 <= i < list.len() && same_ignoring_case((#[trigger] list[i]).origin, origin)
                && same_ignoring_case(list[i].username, username),
    decreases list.len(),
{
    reveal(Seq::filter);
    if list.len() > 0 {
        law_removed_leaves_the_others(list.drop_last(), origin, username);
    }
    if exists|i: int|
        0 <= i < list.len() && same_ignoring_case((#[trigger] list[i]).origin, origin)
            && same_ignoring_case(list[i].username, username) {
        let i = choose|i: int|
            0 <= i < list.len() && same_ignoring_case((#[trigger] list[i]).origin, origin)
                && same_ignoring_case(list[i].username, username);
        assert(is_for(list[i], origin, username));
    }
}

/// A credential is written under the names of its parts; parts that it lacks are left out.
pub proof fn law_written_credential(e: EntryView)
    ensures
        ({
            let v = entry_json(e);
            let text = |t: Option<Seq<char>>|
                match t {
                    Some(x) => Some(JsonView::Text(x)),
                    None => None,
                };
            &&& member(v, "origin"@) == Some(JsonView::Text(e.origin))
            &&& member(v, "username"@) == Some(JsonView::Text(e.username))
            &&& member(v, "password"@) == Some(JsonView::Text(e.password))
            &&& member(v, "username_field"@) == text(e.username_field)
            &&& member(v, "password_field"@) == text(e.password_field)
            &&& member(v, "form_label"@) == text(e.form_label)
            &&& member(v, "created_at_ms"@) == Some(JsonView::Unsigned(e.created_at_ms))
            &&& member(v, "updated_at_ms"@) == Some(JsonView::Unsigned(e.updated_at_ms))
        }),
{
    reveal_strlit("origin");
    reveal_strlit("username");
    reveal_strlit("password");
    reveal_strlit("username_field");
    reveal_strlit("password_field");
    reveal_strlit("form_label");
    reveal_strlit("created_at_ms");
    reveal_strlit("updated_at_ms");
    assert("origin"@.len() == 6 && "username"@.len() == 8 && "password"@.len() == 8 && "username_field"@.len() == 14 && "password_field"@.len() == 14 && "form_label"@.len() == 10 && "created_at_ms"@.len() == 13 && "updated_at_ms"@.len() == 13);
    assert("username"@[0] == 'u' && "password"@[0] == 'p' && "username_field"@[0] == 'u' && "password_field"@[0] == 'p' && "created_at_ms"@[0] == 'c' && "updated_at_ms"@[0] == 'u');
}

/// Secrets are written with their version; credentials among them with theirs, one entry for each
/// in order.
pub proof fn law_written_secrets(secrets: JsonView, list: Seq<EntryView>)
    ensures
        member(secrets_document(secrets), "version"@) == Some(JsonView::Unsigned(1)),
        member(secrets_document(secrets), "secrets"@) == Some(secrets),
        secrets is Object ==> {
            &&& member(with_credentials(secrets, list), "credentials"@) matches Some(c)
            &&& member(c, "version"@) == Some(JsonView::Unsigned(1))
            &&& member(c, "entries"@) matches Some(JsonView::Array(items))
            &&& items.len() == list.len()
            &&& forall|i: int| 0 <= i < list.len() ==> #[trigger] items[i] == entry_json(list[i])
        },
        document_bytes(secrets) == pretty_record(
            Seq::empty().push(("version"@, JsonView::Unsigned(1))).push(("secrets"@, secrets)),
        ),
{
    reveal_strlit("version");
    reveal_strlit("secrets");
    reveal_strlit("credentials");
    reveal_strlit("entries");
    assert("version"@.len() == 7 && "secrets"@.len() == 7 && "credentials"@.len() == 11 && "entries"@.len() == 7);
    assert("version"@[0] == 'v' && "secrets"@[0] == 's' && "entries"@[0] == 'e');
    assert(seq![("version"@, JsonView::Unsigned(1)), ("secrets"@, secrets)] =~= Seq::empty().push(
        ("version"@, JsonView::Unsigned(1)),
    ).push(("secrets"@, secrets)));
}

/// A profile without a file has no secrets at all, one with a malformed file the default, which
/// holds no credentials and replaces the file; any other the secrets in its file.
pub proof fn law_secrets_of_a_profile(file: SecretsRead)
    ensures
        file is Missing ==> stored_secrets(file) == JsonView::Object(Map::empty()) && !needs_repair(
            file,
        ),
        file is Corrupt ==> stored_secrets(file) == default_secrets() && needs_repair(file),
        file matches SecretsRead::Parsed(p) ==> stored_secrets(file) == p.secrets@ && !needs_repair(
            file,
        ),
        read_credentials(default_secrets()) == Seq::<EntryView>::empty(),
        read_credentials(JsonView::Object(Map::empty())) == Seq::<EntryView>::empty(),
{
    let none = JsonView::Object(Map::<Seq<char>, JsonView>::empty());
    law_credentials_round_trip(none, Seq::empty());
    assert(with_credentials(none, Seq::empty()) == default_secrets());
}

/// Changing the credentials of a profile is refused exactly when its name is not accepted or its
/// secrets are no object, with a message that says which.
pub proof fn law_refused_changes(profile: Seq<char>, file: SecretsRead)
    ensures
        change_error(profile, file) is None <==> name_error(profile, "profile"@) is None
            && stored_secrets(file) is Object,
        name_error(profile, "profile"@) is Some ==> change_error(profile, file) == name_error(
            profile,
            "profile"@,
        ),
        name_error(profile, "profile"@) is None && !(stored_secrets(file) is Object)
            ==> change_error(profile, file) == Some("secret payload must be a JSON object"@),
{
}

/// A change of credentials writes the secrets with just these credentials to the file of the
/// profile, which is set aside first where it is malformed.
pub proof fn law_written_change(
    change: SecretsChange,
    root: Seq<char>,
    profile: Seq<char>,
    file: SecretsRead,
    list: Seq<EntryView>,
)
    requires
        writes(change, root, profile, file, list),
    ensures
        change.path@ == secrets_file(root, profile),
        change.repair <==> file is Corrupt,
        change.bytes@ == document_bytes(with_credentials(stored_secrets(file), list)),
{
}

/// The settings that are there from the start: the agent has a default profile, the runtime a local
/// page and modes that persist, credentials are stored without being asked for; every other
/// concern starts empty.
pub proof fn law_settings_from_the_start(concern: Seq<char>)
    ensures
        ({
            let v = default_config(concern);
            &&& concern == "agent"@ ==> member(v, "version"@) == Some(JsonView::Unsigned(1))
                && member(v, "default_profile"@) == Some(JsonView::Text("default"@))
            &&& concern == "runtime"@ ==> member(v, "version"@) == Some(JsonView::Unsigned(1))
                && member(v, "bootstrap_page"@) == Some(JsonView::Text("local"@)) && (member(
                v,
                "modes"@,
            ) matches Some(modes) && member(modes, "headless"@) matches Some(a) && member(
                modes,
                "headful"@,
            ) matches Some(b) && member(a, "persistent"@) == Some(JsonView::Bool(true)) && member(
                b,
                "persistent"@,
            ) == Some(JsonView::Bool(true)))
            &&& concern == "credentials"@ ==> member(v, "version"@) == Some(JsonView::Unsigned(1))
                && member(v, "auto_store"@) == Some(JsonView::Bool(true)) && auto_store_of(Some(v))
            &&& concern != "agent"@ && concern != "runtime"@ && concern != "credentials"@ ==> v
                == JsonView::Object(Map::empty())
        }),
{
    reveal_strlit("agent");
    reveal_strlit("runtime");
    reveal_strlit("credentials");
    reveal_strlit("version");
    reveal_strlit("default_profile");
    reveal_strlit("bootstrap_page");
    reveal_strlit("modes");
    reveal_strlit("headless");
    reveal_strlit("headful");
    reveal_strlit("auto_store");
    assert("agent"@.len() == 5 && "runtime"@.len() == 7 && "credentials"@.len() == 11 && "version"@.len() == 7 && "default_profile"@.len() == 15 && "bootstrap_page"@.len() == 14 && "modes"@.len() == 5 && "headless"@.len() == 8 && "headful"@.len() == 7 && "auto_store"@.len() == 10);
    assert("agent"@[0] == 'a' && "runtime"@[0] == 'r' && "version"@[0] == 'v' && "modes"@[0] == 'm' && "headful"@[0] == 'h');
}

/// Credentials are stored without being asked for unless the settings say that they are not.
pub proof fn law_stored_unless_told_not_to(settings: Option<JsonView>)
    ensures
        !auto_store_of(settings) <==> settings is Some && member(settings->Some_0, "auto_store"@)
            == Some(JsonView::Bool(false)),
{
}

/// The contents of a stored credential are all its parts, each as it is.
pub proof fn law_contents_of_stored_credential_entry(x: StoredCredentialEntry)
    ensures
        ({
            &&& x@.origin == x.origin@
            &&& x@.username == x.username@
            &&& x@.password == x.password@
            &&& x.username_field is Some ==> x@.username_field == Some(x.username_field->Some_0@)
            &&& x.username_field is None ==> x@.username_field is None
            &&& x.password_field is Some ==> x@.password_field == Some(x.password_field->Some_0@)
            &&& x.password_field is None ==> x@.password_field is None
            &&& x.form_label is Some ==> x@.form_label == Some(x.form_label->Some_0@)
            &&& x.form_label is None ==> x@.form_label is None
            &&& x@.created_at_ms == x.created_at_ms
            &&& x@.updated_at_ms == x.updated_at_ms
        }),
{
}

/// The contents of a credential to be stored are all its parts, each as it is.
pub proof fn law_contents_of_credential_input(x: CredentialInput)
    ensures
        ({
            &&& x@.origin == x.origin@
            &&& x@.username == x.username@
            &&& x@.password == x.password@
            &&& x.username_field is Some ==> x@.username_field == Some(x.username_field->Some_0@)
            &&& x.username_field is None ==> x@.username_field is None
            &&& x.password_field is Some ==> x@.password_field == Some(x.password_field->Some_0@)
            &&& x.password_field is None ==> x@.password_field is None
            &&& x.form_label is Some ==> x@.form_label == Some(x.form_label->Some_0@)
            &&& x.form_label is None ==> x@.form_label is None
        }),
{
}

} // verus!
