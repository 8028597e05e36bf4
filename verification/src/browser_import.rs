//! Exchanging cookies and passwords with installed Chromium browsers.

use aes::Aes128;
use cbc::cipher::block_padding::Pkcs7;
use cbc::cipher::{BlockDecryptMut, BlockEncryptMut, KeyIvInit};
use vstd::prelude::*;
use vstd::slice::slice_subrange;
use vstd::utf8::{encode_utf8, valid_utf8};

use crate::json::{
    entries_view, lemma_json_view, member, members_map, parse_json_bytes, parsed_json_bytes,
    text_of, JsonValue, JsonView,
};
use crate::keyed::{is_merge, key_less, merge_by_key, Key, Keyed};
use crate::paths::{join_path, joined};
use crate::session::cookies::{cookies_view, session_error, Cookie, CookieView, SessionState};
use crate::text::{
    chars_of, clone_opt, concat2, concat3, opt_text, str_eq, str_less, string_from_utf8, text_less,
    trim, trim_end, trim_end_spec, trimmed, utf8_error_text,
};

verus! {

/// A browser that profiles are exchanged with.
#[derive(Debug, Clone, Copy, PartialEq, Eq, Structural)]
pub enum BrowserKind {
    Chrome,
    Brave,
}

/// The short name of a browser.
pub open spec fn slug_of(browser: BrowserKind) -> Seq<char> {
    match browser {
        BrowserKind::Chrome => "chrome"@,
        BrowserKind::Brave => "brave"@,
    }
}

/// The name of a browser's process.
pub open spec fn process_of(browser: BrowserKind) -> Seq<char> {
    match browser {
        BrowserKind::Chrome => "Google Chrome"@,
        BrowserKind::Brave => "Brave Browser"@,
    }
}

impl BrowserKind {
    /// The short name of a browser.
    pub fn slug(self) -> (res: &'static str)
        ensures
            res@ == slug_of(self),
    {
        match self {
            BrowserKind::Chrome => "chrome",
            BrowserKind::Brave => "brave",
        }
    }

    /// The name of a browser's process.
    pub fn process_name(self) -> (res: &'static str)
        ensures
            res@ == process_of(self),
    {
        match self {
            BrowserKind::Chrome => "Google Chrome",
            BrowserKind::Brave => "Brave Browser",
        }
    }

    /// The service under which a browser keeps its passphrase in the keychain.
    pub fn safe_storage_service(self) -> (res: &'static str)
        ensures
            res@ == match self {
                BrowserKind::Chrome => "Chrome Safe Storage"@,
                BrowserKind::Brave => "Brave Safe Storage"@,
            },
    {
        match self {
            BrowserKind::Chrome => "Chrome Safe Storage",
            BrowserKind::Brave => "Brave Safe Storage",
        }
    }

    /// The account under which a browser keeps its passphrase in the keychain.
    pub fn safe_storage_account(self) -> (res: &'static str)
        ensures
            res@ == match self {
                BrowserKind::Chrome => "Chrome"@,
                BrowserKind::Brave => "Brave"@,
            },
    {
        match self {
            BrowserKind::Chrome => "Chrome",
            BrowserKind::Brave => "Brave",
        }
    }
}

/// The directory of a browser's profiles below a home directory.
pub open spec fn root_of(home: Seq<char>, browser: BrowserKind) -> Seq<char> {
    let base = joined(home, "Library/Application Support"@);
    match browser {
        BrowserKind::Chrome => joined(base, "Google/Chrome"@),
        BrowserKind::Brave => joined(base, "BraveSoftware/Brave-Browser"@),
    }
}

/// The directory of a browser's profiles below a home directory.
pub fn browser_root(home: &str, browser: BrowserKind) -> (res: String)
    ensures
        res@ == root_of(home@, browser),
{
    let base = join_path(home, "Library/Application Support");
    match browser {
        BrowserKind::Chrome => join_path(base.as_str(), "Google/Chrome"),
        BrowserKind::Brave => join_path(base.as_str(), "BraveSoftware/Brave-Browser"),
    }
}

/// A profile of an installed browser.
#[derive(Debug, PartialEq, Eq)]
pub struct BrowserProfileInfo {
    pub browser: BrowserKind,
    pub profile: String,
    pub display_name: String,
    pub path: String,
}

/// The profiles that a browser lists in its local state, by directory name.
pub open spec fn listed_profiles(v: JsonView) -> Map<Seq<char>, JsonView> {
    match member(v, "profile"@) {
        Some(profile) => match member(profile, "info_cache"@) {
            Some(JsonView::Object(m)) => m,
            _ => Map::empty(),
        },
        None => Map::empty(),
    }
}

/// The name under which a profile is shown: the one it was given, or that of its directory.
pub open spec fn shown_name(profile: Seq<char>, info: JsonView) -> Seq<char> {
    match text_of(member(info, "name"@)) {
        Some(name) => name,
        None => profile,
    }
}

/// Whether a list holds each of a browser's profiles once, by directory name.
pub open spec fn lists_profiles(
    list: Seq<BrowserProfileInfo>,
    browser: BrowserKind,
    root: Seq<char>,
    profiles: Map<Seq<char>, JsonView>,
) -> bool {
    &&& forall|i: int, j: int|
        0 <= i < j < list.len() ==> text_less(
            (#[trigger] list[i]).profile@,
            (#[trigger] list[j]).profile@,
        )
    &&& forall|i: int|
        0 <= i < list.len() ==> describes((#[trigger] list[i]), browser, root, profiles)
    &&& forall|name: Seq<char>| #[trigger]
        profiles.contains_key(name) ==> lists_name(list, name)
}

/// Whether an entry describes a listed profile.
pub open spec fn describes(
    p: BrowserProfileInfo,
    browser: BrowserKind,
    root: Seq<char>,
    profiles: Map<Seq<char>, JsonView>,
) -> bool {
    &&& p.browser == browser
    &&& profiles.contains_key(p.profile@)
    &&& p.display_name@ == shown_name(p.profile@, profiles[p.profile@])
    &&& p.path@ == joined(root, p.profile@)
}

/// Whether an entry of a list has a name.
pub open spec fn lists_name(list: Seq<BrowserProfileInfo>, name: Seq<char>) -> bool {
    exists|i: int| 0 <= i < list.len() && (#[trigger] list[i]).profile@ == name
}

/// The profiles of a browser, from the bytes of its local state.
pub fn list_browser_profiles(browser: BrowserKind, home: &str, local_state: &[u8]) -> (res: Result<
    Vec<BrowserProfileInfo>,
    String,
>)
    ensures
        match parsed_json_bytes(local_state@) {
            Ok(v) => res matches Ok(list) && lists_profiles(
                list@,
                browser,
                root_of(home@, browser),
                listed_profiles(v),
            ),
            Err(m) => res matches Err(e) && e@ == "failed to parse "@ + joined(
                root_of(home@, browser),
                "Local State"@,
            ) + ": "@ + m,
        },
{
    broadcast use lemma_json_view;

    let root = browser_root(home, browser);
    let value = match parse_json_bytes(local_state) {
        Ok(v) => v,
        Err(m) => {
            let path = join_path(root.as_str(), "Local State");
            let mut message = concat3("failed to parse ", path.as_str(), ": ");
            message.append(m.as_str());
            return Err(message);
        },
    };
    let cache = match value.get("profile") {
        Some(profile) => profile.get("info_cache"),
        None => None,
    };
    match cache {
        Some(v) => match v {
            JsonValue::Object(entries) => Ok(
                profiles_of(browser, root.as_str(), v, entries),
            ),
            _ => Ok(Vec::new()),
        },
        None => Ok(Vec::new()),
    }
}

/// The profiles in a list of members.
fn profiles_of(
    browser: BrowserKind,
    root: &str,
    cache: &JsonValue,
    entries: &Vec<(String, JsonValue)>,
) -> (res: Vec<BrowserProfileInfo>)
    requires
        *cache == JsonValue::Object(*entries),
    ensures
        lists_profiles(res@, browser, root@, members_map(entries_view(entries@))),
{
    broadcast use lemma_json_view;

    let ghost pairs = entries_view(entries@);
    let ghost m = members_map(pairs);
    let mut out: Vec<BrowserProfileInfo> = Vec::new();
    let mut i: usize = 0;
    while i < entries.len()
        invariant
            i <= entries@.len(),
            *cache == JsonValue::Object(*entries),
            pairs == entries_view(entries@),
            m == members_map(pairs),
            cache@ == JsonView::Object(m),
            forall|a: int, b: int|
                0 <= a < b < out@.len() ==> text_less(
                    (#[trigger] out@[a]).profile@,
                    (#[trigger] out@[b]).profile@,
                ),
            forall|a: int|
                0 <= a < out@.len() ==> describes((#[trigger] out@[a]), browser, root@, m),
            forall|a: int| 0 <= a < i ==> lists_name(out@, (#[trigger] pairs[a]).0),
        decreases entries@.len() - i,
    {
        let name = &entries[i].0;
        let ghost before = out@;
        proof {
            crate::events::wire::lemma_member_present(pairs, i as int);
            assert(pairs[i as int].0 == name@);
        }
        let display_name = match cache.get(name.as_str()) {
            Some(info) => match info.get("name") {
                Some(given) => match given.as_str() {
                    Some(text) => text.to_owned(),
                    None => name.clone(),
                },
                None => name.clone(),
            },
            None => name.clone(),
        };
        let entry = BrowserProfileInfo {
            browser,
            profile: name.clone(),
            display_name,
            path: join_path(root, name.as_str()),
        };
        assert(describes(entry, browser, root@, m));
        let ghost added = entry;
        let placed = insert_profile(&mut out, entry);
        proof {
            assert forall|a: int| 0 <= a < i + 1 implies lists_name(
                out@,
                (#[trigger] pairs[a]).0,
            ) by {
                if a < i {
                    assert(lists_name(before, pairs[a].0));
                    let k = choose|k: int|
                        0 <= k < before.len() && (#[trigger] before[k]).profile@ == pairs[a].0;
                    assert(before.contains(before[k]));
                    assert(out@.contains(before[k]));
                }
            }
            assert forall|a: int| 0 <= a < out@.len() implies describes(
                (#[trigger] out@[a]),
                browser,
                root@,
                m,
            ) by {
                assert(out@.contains(out@[a]));
                if out@[a] != added {
                    assert(before.contains(out@[a]));
                    let k = choose|k: int| 0 <= k < before.len() && before[k] == out@[a];
                    assert(describes(before[k], browser, root@, m));
                }
            }
        }
        i += 1;
    }
    proof {
        assert forall|name: Seq<char>| #[trigger] m.contains_key(name) implies lists_name(
            out@,
            name,
        ) by {
            crate::events::wire::lemma_member_listed(pairs, name);
            let a = choose|a: int| 0 <= a < pairs.len() && (#[trigger] pairs[a]).0 == name;
            assert(lists_name(out@, pairs[a].0));
        }
    }
    out
}

/// Puts an entry at its place by name, unless its name is there.
fn insert_profile(list: &mut Vec<BrowserProfileInfo>, entry: BrowserProfileInfo) -> (res: bool)
    requires
        forall|a: int, b: int|
            0 <= a < b < old(list)@.len() ==> text_less(
                (#[trigger] old(list)@[a]).profile@,
                (#[trigger] old(list)@[b]).profile@,
            ),
    ensures
        forall|a: int, b: int|
            0 <= a < b < final(list)@.len() ==> text_less(
                (#[trigger] final(list)@[a]).profile@,
                (#[trigger] final(list)@[b]).profile@,
            ),
        lists_name(final(list)@, entry.profile@),
        forall|x: BrowserProfileInfo| #[trigger]
            old(list)@.contains(x) ==> final(list)@.contains(x),
        forall|x: BrowserProfileInfo| #[trigger]
            final(list)@.contains(x) ==> old(list)@.contains(x) || x == entry,
{
    let ghost before = list@;
    let ghost name = entry.profile@;
    let mut p: usize = list.len();
    while p > 0 && str_less(entry.profile.as_str(), list[p - 1].profile.as_str())
        invariant
            p <= list@.len(),
            list@ == before,
            name == entry.profile@,
            forall|j: int| p <= j < before.len() ==> text_less(name, (#[trigger] before[j]).profile@),
        decreases p,
    {
        p -= 1;
    }
    if p > 0 && str_eq(entry.profile.as_str(), list[p - 1].profile.as_str()) {
        assert(before[p - 1].profile@ == name);
        return false;
    }
    proof {
        if p > 0 {
            crate::text::lemma_text_less_total(name, before[p - 1].profile@);
            assert(text_less(before[p - 1].profile@, name));
        }
        assert forall|j: int| 0 <= j < p implies text_less(
            (#[trigger] before[j]).profile@,
            name,
        ) by {
            if j < p - 1 {
                assert(text_less(before[j].profile@, before[p - 1].profile@));
                crate::text::lemma_text_less_transitive(
                    before[j].profile@,
                    before[p - 1].profile@,
                    name,
                );
            }
        }
    }
    let ghost added = entry;
    list.insert(p, entry);
    proof {
        let after = list@;
        assert(after =~= before.insert(p as int, added));
        assert(after[p as int].profile@ == name);
        assert forall|i: int, j: int| 0 <= i < j < after.len() implies text_less(
            (#[trigger] after[i]).profile@,
            (#[trigger] after[j]).profile@,
        ) by {
            let a = if i < p { i } else { i - 1 };
            let b = if j < p { j } else { j - 1 };
            if i == p {
                assert(text_less(name, before[b].profile@));
            } else if j == p {
                assert(text_less(before[a].profile@, name));
            } else {
                assert(text_less(before[a].profile@, before[b].profile@));
            }
        }
        assert forall|x: BrowserProfileInfo| #[trigger] before.contains(x) implies after.contains(
            x,
        ) by {
            let i = choose|i: int| 0 <= i < before.len() && before[i] == x;
            let k = if i < p { i } else { i + 1 };
            assert(after[k] == x);
        }
        assert forall|x: BrowserProfileInfo| #[trigger] after.contains(x) implies before.contains(x)
            || x == added by {
            let i = choose|i: int| 0 <= i < after.len() && after[i] == x;
            if i != p {
                let k = if i < p { i } else { i - 1 };
                assert(before[k] == x);
            }
        }
    }
    true
}

/// A login that a browser stores.
#[derive(Debug, PartialEq, Eq)]
pub struct ImportedCredential {
    pub origin_url: String,
    pub action_url: Option<String>,
    pub username: String,
    pub password: String,
    pub signon_realm: String,
}

/// The contents of an `ImportedCredential`.
#[verifier::ext_equal]
pub struct LoginView {
    pub origin_url: Seq<char>,
    pub action_url: Option<Seq<char>>,
    pub username: Seq<char>,
    pub password: Seq<char>,
    pub signon_realm: Seq<char>,
}

impl View for ImportedCredential {
    type V = LoginView;

    open spec fn view(&self) -> LoginView {
        LoginView {
            origin_url: self.origin_url@,
            action_url: opt_text(self.action_url),
            username: self.username@,
            password: self.password@,
            signon_realm: self.signon_realm@,
        }
    }
}

impl Clone for ImportedCredential {
    fn clone(&self) -> (res: Self)
        ensures
            res@ == self@,
    {
        ImportedCredential {
            origin_url: self.origin_url.clone(),
            action_url: clone_opt(&self.action_url),
            username: self.username.clone(),
            password: self.password.clone(),
            signon_realm: self.signon_realm.clone(),
        }
    }
}

/// The contents of a list of logins.
pub open spec fn logins_view(list: Seq<ImportedCredential>) -> Seq<LoginView> {
    Seq::new(list.len(), |i: int| list[i]@)
}

/// What was imported.
#[derive(Debug, Clone)]
pub struct BrowserImportReport {
    pub browser: BrowserKind,
    pub source_profile: String,
    pub target_profile: String,
    pub imported_cookies: usize,
    pub imported_credentials: usize,
    pub session_path: String,
    pub credentials_path: String,
    pub bookmarks_path: Option<String>,
    pub preferences_path: Option<String>,
}

/// What was exported.
#[derive(Debug, Clone)]
pub struct BrowserExportReport {
    pub browser: BrowserKind,
    pub source_profile: String,
    pub target_profile: String,
    pub exported_cookies: usize,
    pub exported_credentials: usize,
    pub manifest_path: String,
    pub credentials_csv_path: String,
}

/// What `pbkdf2::pbkdf2_hmac` with SHA-1 derives: 16 bytes from a password, a salt and a
/// number of rounds.
pub uninterp spec fn pbkdf2_sha1_key(password: Seq<u8>, salt: Seq<u8>, rounds: u32) -> Seq<u8>;

/// `pbkdf2::pbkdf2_hmac::<Sha1>` into 16 bytes: the key depends on its three inputs alone.
#[verifier::external_body]
fn pbkdf2_sha1(password: &[u8], salt: &[u8], rounds: u32) -> (res: [u8; 16])
    ensures
        res@ == pbkdf2_sha1_key(password@, salt@, rounds),
{
    let mut key = [0u8; 16];
    pbkdf2::pbkdf2_hmac::<sha1::Sha1>(password, salt, rounds, &mut key);
    key
}

/// What AES-128 in CBC mode with PKCS#7 padding makes of a text under a key and an initial
/// vector (`encrypt_padded_vec_mut` of a `cbc::Encryptor<aes::Aes128>`).
pub uninterp spec fn aes_cbc_encrypted(key: Seq<u8>, iv: Seq<u8>, plain: Seq<u8>) -> Seq<u8>;

/// What AES-128 in CBC mode with PKCS#7 padding makes of a ciphertext, or the message of its
/// error (`decrypt_padded_vec_mut` of a `cbc::Decryptor<aes::Aes128>`).
pub uninterp spec fn aes_cbc_decrypted(key: Seq<u8>, iv: Seq<u8>, cipher: Seq<u8>) -> Result<
    Seq<u8>,
    Seq<char>,
>;

/// The outcome of decrypting with success.
pub open spec fn plain_ok(plain: Seq<u8>) -> Result<Seq<u8>, Seq<char>> {
    Ok(plain)
}

/// The outcome of decrypting.
pub open spec fn plain_result(res: Result<Vec<u8>, String>) -> Result<Seq<u8>, Seq<char>> {
    match res {
        Ok(plain) => Ok(plain@),
        Err(e) => Err(e@),
    }
}

/// `encrypt_padded_vec_mut::<Pkcs7>` of a `cbc::Encryptor<aes::Aes128>`: the ciphertext
/// depends on key, initial vector and text alone, and decrypts to the text again.
#[verifier::external_body]
fn aes_encrypt(key: &[u8; 16], iv: &[u8; 16], plain: &[u8]) -> (res: Vec<u8>)
    ensures
        res@ == aes_cbc_encrypted(key@, iv@, plain@),
        aes_cbc_decrypted(key@, iv@, res@) == plain_ok(plain@),
{
    cbc::Encryptor::<Aes128>::new(key.into(), iv.into()).encrypt_padded_vec_mut::<Pkcs7>(plain)
}

/// `decrypt_padded_vec_mut::<Pkcs7>` of a `cbc::Decryptor<aes::Aes128>`: the outcome depends
/// on key, initial vector and ciphertext alone.
#[verifier::external_body]
fn aes_decrypt(key: &[u8; 16], iv: &[u8; 16], cipher: &[u8]) -> (res: Result<Vec<u8>, String>)
    ensures
        plain_result(res) == aes_cbc_decrypted(key@, iv@, cipher@),
{
    let decryptor = cbc::Decryptor::<Aes128>::new(key.into(), iv.into());
    decryptor.decrypt_padded_vec_mut::<Pkcs7>(cipher).map_err(|e| e.to_string())
}

/// The bytes of `saltysalt`.
pub open spec fn key_salt() -> Seq<u8> {
    seq![115u8, 97u8, 108u8, 116u8, 121u8, 115u8, 97u8, 108u8, 116u8]
}

/// The key that a browser encrypts with, from the passphrase in the keychain.
pub fn derive_browser_key(passphrase: &str) -> (res: [u8; 16])
    ensures
        res@ == pbkdf2_sha1_key(encode_utf8(trim_end_spec(passphrase@)), key_salt(), 1003),
{
    let trimmed_passphrase = trim_end(passphrase);
    let salt: [u8; 9] = [115, 97, 108, 116, 121, 115, 97, 108, 116];
    assert(salt@ =~= key_salt());
    pbkdf2_sha1(trimmed_passphrase.as_str().as_bytes(), salt.as_slice(), 1003)
}

/// The initial vector: sixteen spaces.
pub open spec fn secret_iv() -> Seq<u8> {
    seq![
        32u8,
        32u8,
        32u8,
        32u8,
        32u8,
        32u8,
        32u8,
        32u8,
        32u8,
        32u8,
        32u8,
        32u8,
        32u8,
        32u8,
        32u8,
        32u8,
    ]
}

fn iv_bytes() -> (res: [u8; 16])
    ensures
        res@ == secret_iv(),
{
    let iv: [u8; 16] = [32, 32, 32, 32, 32, 32, 32, 32, 32, 32, 32, 32, 32, 32, 32, 32];
    assert(iv@ =~= secret_iv());
    iv
}

/// The mark `v10` before an encrypted secret.
pub open spec fn mark_v10() -> Seq<u8> {
    seq![118u8, 49u8, 48u8]
}

/// The mark `v11` before an encrypted secret.
pub open spec fn mark_v11() -> Seq<u8> {
    seq![118u8, 49u8, 49u8]
}

/// An encrypted secret: the mark and the ciphertext.
pub open spec fn encrypted_secret(value: Seq<char>, key: Seq<u8>) -> Seq<u8> {
    mark_v10() + aes_cbc_encrypted(key, secret_iv(), encode_utf8(value))
}

/// The ciphertext of an encrypted secret: what follows a mark, or all of it.
pub open spec fn secret_cipher(encrypted: Seq<u8>) -> Seq<u8> {
    if encrypted.len() >= 3 && (encrypted.take(3) == mark_v10() || encrypted.take(3)
        == mark_v11()) {
        encrypted.skip(3)
    } else {
        encrypted
    }
}

/// Encrypts a secret as a browser does. It decrypts to itself.
pub fn encrypt_chromium_secret(value: &str, key: &[u8; 16]) -> (res: Vec<u8>)
    ensures
        res@ == encrypted_secret(value@, key@),
        aes_cbc_decrypted(key@, secret_iv(), secret_cipher(res@)) == plain_ok(encode_utf8(value@)),
{
    let iv = iv_bytes();
    let mut cipher = aes_encrypt(key, &iv, value.as_bytes());
    let ghost body = cipher@;
    let mut out: Vec<u8> = Vec::new();
    out.push(118);
    out.push(49);
    out.push(48);
    assert(out@ =~= mark_v10());
    out.append(&mut cipher);
    assert(out@ =~= mark_v10() + body);
    assert(out@.take(3) =~= mark_v10());
    assert(out@.skip(3) =~= body);
    out
}

/// Whether a secret decrypts to a text, or with a message to none.
pub open spec fn decrypts_to(
    encrypted: Seq<u8>,
    key: Seq<u8>,
    res: Result<Seq<char>, Seq<char>>,
) -> bool {
    if encrypted.len() == 0 {
        res == Ok::<Seq<char>, Seq<char>>(Seq::empty())
    } else {
        match aes_cbc_decrypted(key, secret_iv(), secret_cipher(encrypted)) {
            Err(m) => res == Err::<Seq<char>, Seq<char>>(
                "failed to decrypt browser secret: "@ + m,
            ),
            Ok(plain) => if valid_utf8(plain) {
                res matches Ok(text) && encode_utf8(text) == plain
            } else {
                res == Err::<Seq<char>, Seq<char>>(
                    "browser secret is not valid utf-8: "@ + utf8_error_text(plain),
                )
            },
        }
    }
}

/// The outcome of a step that yields a text or a message.
pub open spec fn text_result(res: Result<String, String>) -> Result<Seq<char>, Seq<char>> {
    match res {
        Ok(s) => Ok(s@),
        Err(e) => Err(e@),
    }
}

/// Decrypts a secret that a browser encrypted. The empty secret is the empty text.
pub fn decrypt_chromium_secret(encrypted: &[u8], key: &[u8; 16]) -> (res: Result<String, String>)
    ensures
        decrypts_to(encrypted@, key@, text_result(res)),
{
    if encrypted.len() == 0 {
        let empty = String::new();
        assert(empty@ =~= Seq::<char>::empty());
        return Ok(empty);
    }
    let marked = encrypted.len() >= 3 && encrypted[0] == 118 && encrypted[1] == 49 && (encrypted[2]
        == 48 || encrypted[2] == 49);
    let cipher = if marked {
        slice_subrange(encrypted, 3, encrypted.len())
    } else {
        encrypted
    };
    proof {
        let bytes = encrypted@;
        if bytes.len() >= 3 {
            let head = bytes.take(3);
            assert(head[0] == bytes[0] && head[1] == bytes[1] && head[2] == bytes[2]);
            assert(mark_v10()[0] == 118 && mark_v10()[1] == 49 && mark_v10()[2] == 48);
            assert(mark_v11()[0] == 118 && mark_v11()[1] == 49 && mark_v11()[2] == 49);
            if marked {
                if bytes[2] == 48 {
                    assert(head =~= mark_v10());
                } else {
                    assert(head =~= mark_v11());
                }
            }
        }
        assert(bytes.len() >= 3 ==> bytes.subrange(3, bytes.len() as int) =~= bytes.skip(3));
        assert(cipher@ == secret_cipher(bytes));
    }
    let iv = iv_bytes();
    match aes_decrypt(key, &iv, cipher) {
        Err(m) => Err(concat2("failed to decrypt browser secret: ", m.as_str())),
        Ok(plain) => {
            let ghost bytes = plain@;
            match string_from_utf8(plain) {
                Ok(text) => {
                    proof {
                        vstd::utf8::encode_utf8_valid_utf8(text@);
                    }
                    Ok(text)
                },
                Err(m) => Err(concat2("browser secret is not valid utf-8: ", m.as_str())),
            }
        },
    }
}

/// A secret that was encrypted decrypts to itself under the same key.
pub proof fn law_secret_round_trip(
    value: Seq<char>,
    key: Seq<u8>,
    res: Result<Seq<char>, Seq<char>>,
)
    requires
        aes_cbc_decrypted(key, secret_iv(), secret_cipher(encrypted_secret(value, key)))
            == plain_ok(encode_utf8(value)),
        decrypts_to(encrypted_secret(value, key), key, res),
    ensures
        res == Ok::<Seq<char>, Seq<char>>(value),
{
    vstd::utf8::encode_utf8_valid_utf8(value);
    crate::text::lemma_encode_utf8_injective(res->Ok_0, value);
}

/// The microseconds between the epoch of Chromium's clock and that of Unix.
pub const EPOCH_OFFSET_MICROS: i64 = 11_644_473_600_000_000;

/// The seconds since the Unix epoch of a Chromium time, rounded towards the epoch; a time
/// before it is counted down from the largest number. A session cookie has no time.
pub open spec fn unix_seconds(chrome: i64) -> Option<u64> {
    if chrome <= 0 {
        None
    } else {
        let micros = chrome - EPOCH_OFFSET_MICROS;
        if micros >= 0 {
            Some((micros / 1_000_000) as u64)
        } else {
            let before = (-micros) / 1_000_000;
            Some(
                if before == 0 {
                    0u64
                } else {
                    (0x1_0000_0000_0000_0000 - before) as u64
                },
            )
        }
    }
}

/// The seconds since the Unix epoch of a Chromium time.
pub fn chrome_time_to_unix(value: i64) -> (res: Option<u64>)
    ensures
        res == unix_seconds(value),
{
    if value <= 0 {
        return None;
    }
    let micros: i64 = value - EPOCH_OFFSET_MICROS;
    if micros >= 0 {
        Some((micros as u64) / 1_000_000)
    } else {
        let before: u64 = ((-micros) as u64) / 1_000_000;
        if before == 0 {
            Some(0)
        } else {
            Some(u64::MAX - before + 1)
        }
    }
}

/// A number of seconds as a signed number: those beyond its range are negative.
pub open spec fn signed_seconds(value: u64) -> int {
    if value <= i64::MAX {
        value as int
    } else {
        value - 0x1_0000_0000_0000_0000
    }
}

/// Whether a Unix time has a Chromium time.
pub open spec fn has_chrome_time(value: u64) -> bool {
    i64::MIN <= signed_seconds(value) * 1_000_000 && signed_seconds(value) * 1_000_000
        + EPOCH_OFFSET_MICROS <= i64::MAX
}

/// The Chromium time of a Unix time in seconds.
pub fn unix_to_chrome_time(value: u64) -> (res: i64)
    requires
        has_chrome_time(value),
    ensures
        res == signed_seconds(value) * 1_000_000 + EPOCH_OFFSET_MICROS,
{
    let signed: i64 = if value <= i64::MAX as u64 {
        value as i64
    } else {
        -1 - ((u64::MAX - value) as i64)
    };
    signed * 1_000_000 + EPOCH_OFFSET_MICROS
}

/// Whether a Unix time has a Chromium time.
pub fn fits_chrome_time(value: u64) -> (res: bool)
    ensures
        res == has_chrome_time(value),
{
    if value <= i64::MAX as u64 {
        value <= 9_211_727_563_254
    } else {
        u64::MAX - value <= 9_223_372_036_853
    }
}

/// A Unix time is the same after it was turned into a Chromium time and back.
pub proof fn law_chrome_time_round_trip(value: u64)
    requires
        has_chrome_time(value),
        value <= i64::MAX,
    ensures
        unix_seconds((value * 1_000_000 + EPOCH_OFFSET_MICROS) as i64) == Some(value),
{
}

impl Keyed for Cookie {
    open spec fn key(&self) -> Key {
        (
            self.domain@,
            self.name@,
            match self.path {
                Some(p) => p@,
                None => "/"@,
            },
        )
    }

    fn key_before(&self, other: &Self) -> (res: bool) {
        let path = path_or_root(&self.path);
        let other_path = path_or_root(&other.path);
        before3(
            self.domain.as_str(),
            self.name.as_str(),
            path.as_str(),
            other.domain.as_str(),
            other.name.as_str(),
            other_path.as_str(),
        )
    }

    fn same_key(&self, other: &Self) -> (res: bool) {
        let path = path_or_root(&self.path);
        let other_path = path_or_root(&other.path);
        str_eq(self.domain.as_str(), other.domain.as_str()) && str_eq(
            self.name.as_str(),
            other.name.as_str(),
        ) && str_eq(path.as_str(), other_path.as_str())
    }
}

impl Keyed for ImportedCredential {
    open spec fn key(&self) -> Key {
        (self.signon_realm@, self.origin_url@, self.username@)
    }

    fn key_before(&self, other: &Self) -> (res: bool) {
        before3(
            self.signon_realm.as_str(),
            self.origin_url.as_str(),
            self.username.as_str(),
            other.signon_realm.as_str(),
            other.origin_url.as_str(),
            other.username.as_str(),
        )
    }

    fn same_key(&self, other: &Self) -> (res: bool) {
        str_eq(self.signon_realm.as_str(), other.signon_realm.as_str()) && str_eq(
            self.origin_url.as_str(),
            other.origin_url.as_str(),
        ) && str_eq(self.username.as_str(), other.username.as_str())
    }
}

fn before3(a0: &str, a1: &str, a2: &str, b0: &str, b1: &str, b2: &str) -> (res: bool)
    ensures
        res == key_less((a0@, a1@, a2@), (b0@, b1@, b2@)),
{
    if !str_eq(a0, b0) {
        str_less(a0, b0)
    } else if !str_eq(a1, b1) {
        str_less(a1, b1)
    } else {
        str_less(a2, b2)
    }
}

/// The path of a cookie, or the root.
fn path_or_root(path: &Option<String>) -> (res: String)
    ensures
        res@ == match path {
            Some(p) => p@,
            None => "/"@,
        },
{
    match path {
        Some(p) => p.clone(),
        None => "/".to_owned(),
    }
}

/// Adds cookies to a session: by domain, name and path, an imported cookie in the place of
/// one that the session has. Everything else in the session stays.
pub fn merge_cookies(session: &mut SessionState, imported: Vec<Cookie>)
    ensures
        is_merge(old(session).cookies@ + imported@, final(session).cookies@),
        final(session).local_storage == old(session).local_storage,
        final(session).session_storage == old(session).session_storage,
        final(session).network_overrides == old(session).network_overrides,
{
    let mut current: Vec<Cookie> = Vec::new();
    std::mem::swap(&mut current, &mut session.cookies);
    session.cookies = merge_by_key(current, imported);
}

/// The logins of two lists by realm, origin and user; an imported login takes the place of
/// one that exists.
pub fn merge_credentials(
    existing: Vec<ImportedCredential>,
    imported: Vec<ImportedCredential>,
) -> (res: Vec<ImportedCredential>)
    ensures
        is_merge(existing@ + imported@, res@),
{
    merge_by_key(existing, imported)
}

/// A text with every double quote doubled.
pub open spec fn quotes_doubled(s: Seq<char>) -> Seq<char>
    decreases s.len(),
{
    if s.len() == 0 {
        Seq::empty()
    } else if s.last() == '"' {
        quotes_doubled(s.drop_last()).push('"').push('"')
    } else {
        quotes_doubled(s.drop_last()).push(s.last())
    }
}

/// A cell of a CSV file: quoted, with quotes doubled.
pub open spec fn cell(s: Seq<char>) -> Seq<char> {
    seq!['"'] + quotes_doubled(s) + seq!['"']
}

/// A cell of a CSV file: quoted, with quotes doubled.
pub fn csv_cell(value: &str) -> (res: String)
    ensures
        res@ == cell(value@),
{
    let chars = chars_of(value);
    let mut out = String::new();
    out.push('"');
    let mut i: usize = 0;
    assert(chars@.take(0) =~= Seq::empty());
    assert(out@ =~= seq!['"'] + quotes_doubled(chars@.take(0)));
    while i < chars.len()
        invariant
            i <= chars@.len(),
            out@ == seq!['"'] + quotes_doubled(chars@.take(i as int)),
        decreases chars@.len() - i,
    {
        let ghost before = quotes_doubled(chars@.take(i as int));
        assert(chars@.take(i + 1).drop_last() =~= chars@.take(i as int));
        if chars[i] == '"' {
            out.push('"');
            out.push('"');
            assert(out@ =~= seq!['"'] + before.push('"').push('"'));
        } else {
            out.push(chars[i]);
            assert(out@ =~= seq!['"'] + before.push(chars@[i as int]));
        }
        i += 1;
    }
    assert(chars@.take(i as int) =~= chars@);
    out.push('"');
    assert(out@ =~= cell(value@));
    out
}

/// The line of a login: realm, address, user, password and an empty note.
pub open spec fn csv_line(c: LoginView) -> Seq<char> {
    cell(c.signon_realm) + seq![','] + cell(
        match c.action_url {
            Some(url) => url,
            None => c.origin_url,
        },
    ) + seq![','] + cell(c.username) + seq![','] + cell(c.password) + seq![','] + cell(Seq::empty())
        + seq!['\n']
}

/// The lines of logins below the heading.
pub open spec fn csv_text(list: Seq<LoginView>) -> Seq<char>
    decreases list.len(),
{
    if list.len() == 0 {
        "name,url,username,password,note\n"@
    } else {
        csv_text(list.drop_last()) + csv_line(list.last())
    }
}

fn csv_row(c: &ImportedCredential) -> (res: String)
    ensures
        res@ == csv_line(c@),
{
    let url = match &c.action_url {
        Some(u) => u.clone(),
        None => c.origin_url.clone(),
    };
    let mut out = csv_cell(c.signon_realm.as_str());
    out.push(',');
    let url_cell = csv_cell(url.as_str());
    out.append(url_cell.as_str());
    out.push(',');
    let user_cell = csv_cell(c.username.as_str());
    out.append(user_cell.as_str());
    out.push(',');
    let password_cell = csv_cell(c.password.as_str());
    out.append(password_cell.as_str());
    out.push(',');
    let empty = String::new();
    assert(empty@ =~= Seq::<char>::empty());
    let note_cell = csv_cell(empty.as_str());
    out.append(note_cell.as_str());
    out.push('\n');
    assert(out@ =~= csv_line(c@));
    out
}

/// Logins as a CSV file that browsers import.
pub fn encode_password_csv(credentials: &[ImportedCredential]) -> (res: String)
    ensures
        res@ == csv_text(logins_view(credentials@)),
{
    let ghost all = logins_view(credentials@);
    let mut csv = "name,url,username,password,note\n".to_owned();
    let mut i: usize = 0;
    assert(all.take(0) =~= Seq::empty());
    while i < credentials.len()
        invariant
            i <= credentials@.len(),
            all == logins_view(credentials@),
            csv@ == csv_text(all.take(i as int)),
        decreases credentials@.len() - i,
    {
        let row = csv_row(&credentials[i]);
        csv.append(row.as_str());
        assert(all.take(i + 1).drop_last() =~= all.take(i as int));
        assert(all.take(i + 1).last() == credentials@[i as int]@);
        i += 1;
    }
    assert(all.take(i as int) =~= all);
    csv
}

/// A row of a browser's table of cookies.
#[derive(Debug)]
pub struct CookieRow {
    pub host_key: String,
    pub name: String,
    pub value: String,
    pub encrypted_value: Vec<u8>,
    pub path: String,
    pub expires_utc: i64,
    pub is_secure: i64,
    pub is_httponly: i64,
}

/// A row of a browser's table of logins.
#[derive(Debug)]
pub struct LoginRow {
    pub origin_url: String,
    pub action_url: Option<String>,
    pub username: String,
    pub encrypted_password: Vec<u8>,
    pub signon_realm: String,
}

/// Whether a text is what a secret decrypts to, or empty where it does not decrypt.
pub open spec fn is_secret_text(encrypted: Seq<u8>, key: Seq<u8>, text: Seq<char>) -> bool {
    exists|res: Result<Seq<char>, Seq<char>>|
        #[trigger] decrypts_to(encrypted, key, res) && text == match res {
            Ok(t) => t,
            Err(_) => Seq::empty(),
        }
}

fn secret_or_empty(encrypted: &Vec<u8>, key: &[u8; 16]) -> (res: String)
    ensures
        is_secret_text(encrypted@, key@, res@),
{
    let decrypted = decrypt_chromium_secret(encrypted.as_slice(), key);
    assert(decrypts_to(encrypted@, key@, text_result(decrypted)));
    match decrypted {
        Ok(text) => text,
        Err(_) => {
            let empty = String::new();
            assert(empty@ =~= Seq::<char>::empty());
            empty
        },
    }
}

/// Whether a cookie is the one of a row: the value in clear, or else the decrypted one.
pub open spec fn cookie_of_row(row: CookieRow, key: Seq<u8>, c: Cookie) -> bool {
    &&& c.name@ == row.name@
    &&& c.domain@ == row.host_key@
    &&& opt_text(c.path) == Some(row.path@)
    &&& c.expires_unix == unix_seconds(row.expires_utc)
    &&& c.secure == (row.is_secure != 0)
    &&& c.http_only == (row.is_httponly != 0)
    &&& c.same_site is None
    &&& if row.value@.len() > 0 {
        c.value@ == row.value@
    } else {
        is_secret_text(row.encrypted_value@, key, c.value@)
    }
}

/// The cookie of a row.
pub fn cookie_from_row(row: &CookieRow, key: &[u8; 16]) -> (res: Cookie)
    ensures
        cookie_of_row(*row, key@, res),
{
    let value = if row.value.as_str().unicode_len() > 0 {
        row.value.clone()
    } else {
        secret_or_empty(&row.encrypted_value, key)
    };
    Cookie {
        name: row.name.clone(),
        value,
        domain: row.host_key.clone(),
        path: Some(row.path.clone()),
        expires_unix: chrome_time_to_unix(row.expires_utc),
        secure: row.is_secure != 0,
        http_only: row.is_httponly != 0,
        same_site: None,
    }
}

/// Whether a login is the one of a row.
pub open spec fn login_of_row(row: LoginRow, key: Seq<u8>, c: ImportedCredential) -> bool {
    &&& c.origin_url@ == row.origin_url@
    &&& opt_text(c.action_url) == opt_text(row.action_url)
    &&& c.username@ == row.username@
    &&& c.signon_realm@ == row.signon_realm@
    &&& is_secret_text(row.encrypted_password@, key, c.password@)
}

/// The login of a row.
pub fn login_from_row(row: &LoginRow, key: &[u8; 16]) -> (res: ImportedCredential)
    ensures
        login_of_row(*row, key@, res),
{
    ImportedCredential {
        origin_url: row.origin_url.clone(),
        action_url: clone_opt(&row.action_url),
        username: row.username.clone(),
        password: secret_or_empty(&row.encrypted_password, key),
        signon_realm: row.signon_realm.clone(),
    }
}

/// Whether a list holds the cookies of the rows, one for one.
pub open spec fn cookies_of_rows(rows: Seq<CookieRow>, key: Seq<u8>, list: Seq<Cookie>) -> bool {
    &&& list.len() == rows.len()
    &&& forall|i: int| 0 <= i < rows.len() ==> cookie_of_row(#[trigger] rows[i], key, list[i])
}

/// The cookies of the rows of a table.
pub fn read_cookies(rows: &Vec<CookieRow>, key: &[u8; 16]) -> (res: Vec<Cookie>)
    ensures
        cookies_of_rows(rows@, key@, res@),
{
    let mut out: Vec<Cookie> = Vec::new();
    let mut i: usize = 0;
    while i < rows.len()
        invariant
            i <= rows@.len(),
            out@.len() == i,
            forall|j: int| 0 <= j < i ==> cookie_of_row(#[trigger] rows@[j], key@, out@[j]),
        decreases rows@.len() - i,
    {
        out.push(cookie_from_row(&rows[i], key));
        i += 1;
    }
    out
}

/// Whether a login says anything: it names a user or has a password.
pub open spec fn says_anything(c: ImportedCredential) -> bool {
    c.username@.len() > 0 || c.password@.len() > 0
}

/// The logins of a list that say anything, in order.
pub open spec fn telling_logins(list: Seq<ImportedCredential>) -> Seq<ImportedCredential>
    decreases list.len(),
{
    if list.len() == 0 {
        Seq::empty()
    } else if says_anything(list.last()) {
        telling_logins(list.drop_last()).push(list.last())
    } else {
        telling_logins(list.drop_last())
    }
}

/// Whether a list holds the logins of the rows, one for one.
pub open spec fn logins_of_rows(
    rows: Seq<LoginRow>,
    key: Seq<u8>,
    list: Seq<ImportedCredential>,
) -> bool {
    &&& list.len() == rows.len()
    &&& forall|i: int| 0 <= i < rows.len() ==> login_of_row(#[trigger] rows[i], key, list[i])
}

/// The logins of the rows of a table, without those that say nothing.
pub fn read_credentials(rows: &Vec<LoginRow>, key: &[u8; 16]) -> (res: Vec<ImportedCredential>)
    ensures
        exists|all: Seq<ImportedCredential>|
            #[trigger] logins_of_rows(rows@, key@, all) && res@ == telling_logins(all),
{
    let mut out: Vec<ImportedCredential> = Vec::new();
    let ghost all: Seq<ImportedCredential> = Seq::empty();
    let mut i: usize = 0;
    while i < rows.len()
        invariant
            i <= rows@.len(),
            all.len() == i,
            forall|j: int| 0 <= j < i ==> login_of_row(#[trigger] rows@[j], key@, all[j]),
            out@ == telling_logins(all),
        decreases rows@.len() - i,
    {
        let login = login_from_row(&rows[i], key);
        proof {
            let before = all;
            all = all.push(login);
            assert(all.drop_last() =~= before);
        }
        if login.username.as_str().unicode_len() > 0 || login.password.as_str().unicode_len() > 0 {
            out.push(login);
        }
        i += 1;
    }
    assert(logins_of_rows(rows@, key@, all));
    out
}

/// The message for a profile directory that is not there.
pub open spec fn profile_missing(profile: Seq<char>, path: Seq<char>) -> Seq<char> {
    "browser profile "@ + profile + " not found at "@ + path
}

fn profile_missing_message(profile: &str, path: &str) -> (res: String)
    ensures
        res@ == profile_missing(profile@, path@),
{
    let mut message = concat3("browser profile ", profile, " not found at ");
    message.append(path);
    message
}

/// What an import leaves to be written.
#[derive(Debug)]
pub struct ImportPlan {
    /// The session of the target profile with the imported cookies.
    pub session: SessionState,
    /// The credentials of the target profile with the imported ones.
    pub credentials: Vec<ImportedCredential>,
    /// The number of cookies that were read.
    pub imported_cookies: usize,
    /// The number of credentials that were read.
    pub imported_credentials: usize,
}

/// What importing from a browser's profile comes to, given what was read: the rows of its
/// tables and the stored session and credentials of the target profile. A source directory
/// that is not there and a session that is not sound are refused.
pub fn import_browser_profile(
    browser: BrowserKind,
    home: &str,
    source_profile: &str,
    source_exists: bool,
    cookies: &Vec<CookieRow>,
    logins: &Vec<LoginRow>,
    key: &[u8; 16],
    session: SessionState,
    existing: Vec<ImportedCredential>,
) -> (res: Result<ImportPlan, String>)
    ensures
        !source_exists ==> (res matches Err(e) && e@ == profile_missing(
            source_profile@,
            joined(root_of(home@, browser), source_profile@),
        )),
        source_exists ==> exists|read: Seq<Cookie>, all: Seq<ImportedCredential>|
            #![trigger cookies_of_rows(cookies@, key@, read), logins_of_rows(logins@, key@, all)]
            {
                &&& cookies_of_rows(cookies@, key@, read)
                &&& logins_of_rows(logins@, key@, all)
                &&& match res {
                    Ok(plan) => {
                        &&& is_merge(session.cookies@ + read, plan.session.cookies@)
                        &&& plan.session.local_storage == session.local_storage
                        &&& plan.session.session_storage == session.session_storage
                        &&& plan.session.network_overrides == session.network_overrides
                        &&& session_error(plan.session@) is None
                        &&& is_merge(existing@ + telling_logins(all), plan.credentials@)
                        &&& plan.imported_cookies == cookies@.len()
                        &&& plan.imported_credentials == telling_logins(all).len()
                    },
                    Err(e) => exists|merged: SessionState|
                        {
                            &&& is_merge(session.cookies@ + read, merged.cookies@)
                            &&& merged.network_overrides == session.network_overrides
                            &&& #[trigger] session_error(merged@) is Some
                            &&& e@ == "invalid session profile data: "@ + session_error(
                                merged@,
                            )->Some_0
                        },
                }
            },
{
    if !source_exists {
        let root = browser_root(home, browser);
        let path = join_path(root.as_str(), source_profile);
        return Err(profile_missing_message(source_profile, path.as_str()));
    }
    let read = read_cookies(cookies, key);
    let ghost read_seq = read@;
    let imported = read_credentials(logins, key);
    let ghost all = choose|all: Seq<ImportedCredential>| #[trigger]
        logins_of_rows(logins@, key@, all) && imported@ == telling_logins(all);
    let imported_cookies: usize = read.len();
    let imported_credentials: usize = imported.len();
    let mut merged = session;
    merge_cookies(&mut merged, read);
    let credentials = merge_credentials(existing, imported);
    assert(cookies_of_rows(cookies@, key@, read_seq) && logins_of_rows(logins@, key@, all));
    match merged.validate() {
        Ok(()) => Ok(
            ImportPlan { session: merged, credentials, imported_cookies, imported_credentials },
        ),
        Err(e) => {
            assert(session_error(merged@) is Some);
            Err(concat2("invalid session profile data: ", e.as_str()))
        },
    }
}

/// A row to be written to a browser's table of cookies.
#[derive(Debug)]
pub struct CookieWrite {
    pub host_key: String,
    pub name: String,
    pub encrypted_value: Vec<u8>,
    pub path: String,
    pub expires_utc: i64,
    pub is_secure: bool,
    pub is_httponly: bool,
    pub has_expires: bool,
    pub source_scheme: i64,
    pub source_port: i64,
}

/// The contents of a `CookieWrite`.
#[verifier::ext_equal]
pub struct CookieWriteView {
    pub host_key: Seq<char>,
    pub name: Seq<char>,
    pub encrypted_value: Seq<u8>,
    pub path: Seq<char>,
    pub expires_utc: int,
    pub is_secure: bool,
    pub is_httponly: bool,
    pub has_expires: bool,
    pub source_scheme: int,
    pub source_port: int,
}

impl View for CookieWrite {
    type V = CookieWriteView;

    open spec fn view(&self) -> CookieWriteView {
        CookieWriteView {
            host_key: self.host_key@,
            name: self.name@,
            encrypted_value: self.encrypted_value@,
            path: self.path@,
            expires_utc: self.expires_utc as int,
            is_secure: self.is_secure,
            is_httponly: self.is_httponly,
            has_expires: self.has_expires,
            source_scheme: self.source_scheme as int,
            source_port: self.source_port as int,
        }
    }
}

/// The contents of a list of rows to be written.
pub open spec fn cookie_writes_view(list: Seq<CookieWrite>) -> Seq<CookieWriteView> {
    Seq::new(list.len(), |i: int| list[i]@)
}

/// Whether a cookie is exported: it has a domain and a name.
pub open spec fn exportable_cookie(c: CookieView) -> bool {
    trimmed(c.domain).len() > 0 && trimmed(c.name).len() > 0
}

/// The row of a cookie.
pub open spec fn cookie_write(c: CookieView, key: Seq<u8>) -> CookieWriteView {
    CookieWriteView {
        host_key: trimmed(c.domain),
        name: c.name,
        encrypted_value: encrypted_secret(c.value, key),
        path: match c.path {
            Some(p) => p,
            None => "/"@,
        },
        expires_utc: match c.expires_unix {
            Some(secs) => signed_seconds(secs) * 1_000_000 + EPOCH_OFFSET_MICROS,
            None => 0,
        },
        is_secure: c.secure,
        is_httponly: c.http_only,
        has_expires: c.expires_unix is Some,
        source_scheme: if c.secure {
            2
        } else {
            1
        },
        source_port: if c.secure {
            443
        } else {
            80
        },
    }
}

/// The rows of the cookies that are exported, in order.
pub open spec fn cookie_write_list(list: Seq<CookieView>, key: Seq<u8>) -> Seq<CookieWriteView>
    decreases list.len(),
{
    if list.len() == 0 {
        Seq::empty()
    } else if exportable_cookie(list.last()) {
        cookie_write_list(list.drop_last(), key).push(cookie_write(list.last(), key))
    } else {
        cookie_write_list(list.drop_last(), key)
    }
}

/// Whether the expiry of every exported cookie in a list has a Chromium time.
pub open spec fn expiries_fit(list: Seq<CookieView>) -> bool {
    forall|i: int|
        0 <= i < list.len() && exportable_cookie(#[trigger] list[i]) ==> (
        list[i].expires_unix matches Some(secs) ==> has_chrome_time(secs))
}

/// Whether the expiry of every exported cookie in a list has a Chromium time.
pub fn export_expiries_fit(cookies: &Vec<Cookie>) -> (res: bool)
    ensures
        res == expiries_fit(cookies_view(cookies@)),
{
    let ghost all = cookies_view(cookies@);
    let mut i: usize = 0;
    while i < cookies.len()
        invariant
            i <= cookies@.len(),
            all == cookies_view(cookies@),
            forall|j: int|
                0 <= j < i && exportable_cookie(#[trigger] all[j]) ==> (
                all[j].expires_unix matches Some(secs) ==> has_chrome_time(secs)),
        decreases cookies@.len() - i,
    {
        let cookie = &cookies[i];
        assert(all[i as int] == cookie@);
        if trim(cookie.domain.as_str()).as_str().unicode_len() > 0 && trim(
            cookie.name.as_str(),
        ).as_str().unicode_len() > 0 {
            if let Some(secs) = cookie.expires_unix {
                if !fits_chrome_time(secs) {
                    assert(exportable_cookie(all[i as int]));
                    return false;
                }
            }
        }
        i += 1;
    }
    true
}

/// The rows of the cookies that are exported.
pub fn cookies_to_write(cookies: &Vec<Cookie>, key: &[u8; 16]) -> (res: Vec<CookieWrite>)
    requires
        expiries_fit(cookies_view(cookies@)),
    ensures
        cookie_writes_view(res@) == cookie_write_list(cookies_view(cookies@), key@),
{
    let ghost all = cookies_view(cookies@);
    let mut out: Vec<CookieWrite> = Vec::new();
    let mut i: usize = 0;
    assert(all.take(0) =~= Seq::empty());
    assert(cookie_writes_view(out@) =~= Seq::empty());
    while i < cookies.len()
        invariant
            i <= cookies@.len(),
            all == cookies_view(cookies@),
            expiries_fit(all),
            cookie_writes_view(out@) == cookie_write_list(all.take(i as int), key@),
        decreases cookies@.len() - i,
    {
        let cookie = &cookies[i];
        let ghost done = cookie_writes_view(out@);
        proof {
            assert(all[i as int] == cookie@);
            assert(all.take(i + 1).drop_last() =~= all.take(i as int));
            assert(all.take(i + 1).last() == cookie@);
        }
        let domain = trim(cookie.domain.as_str());
        if domain.as_str().unicode_len() > 0 && trim(cookie.name.as_str()).as_str().unicode_len()
            > 0 {
            let expires_utc: i64 = match cookie.expires_unix {
                Some(secs) => unix_to_chrome_time(secs),
                None => 0,
            };
            let row = CookieWrite {
                host_key: domain,
                name: cookie.name.clone(),
                encrypted_value: encrypt_chromium_secret(cookie.value.as_str(), key),
                path: path_or_root(&cookie.path),
                expires_utc,
                is_secure: cookie.secure,
                is_httponly: cookie.http_only,
                has_expires: cookie.expires_unix.is_some(),
                source_scheme: if cookie.secure { 2 } else { 1 },
                source_port: if cookie.secure { 443 } else { 80 },
            };
            assert(row@ =~= cookie_write(cookie@, key@));
            out.push(row);
            assert(cookie_writes_view(out@) =~= done.push(cookie_write(cookie@, key@)));
        }
        i += 1;
    }
    assert(all.take(i as int) =~= all);
    out
}

/// A row to be written to a browser's table of logins.
#[derive(Debug)]
pub struct LoginWrite {
    pub origin_url: String,
    pub action_url: Option<String>,
    pub username: String,
    pub encrypted_password: Vec<u8>,
    pub signon_realm: String,
}

/// The contents of a `LoginWrite`.
#[verifier::ext_equal]
pub struct LoginWriteView {
    pub origin_url: Seq<char>,
    pub action_url: Option<Seq<char>>,
    pub username: Seq<char>,
    pub encrypted_password: Seq<u8>,
    pub signon_realm: Seq<char>,
}

impl View for LoginWrite {
    type V = LoginWriteView;

    open spec fn view(&self) -> LoginWriteView {
        LoginWriteView {
            origin_url: self.origin_url@,
            action_url: opt_text(self.action_url),
            username: self.username@,
            encrypted_password: self.encrypted_password@,
            signon_realm: self.signon_realm@,
        }
    }
}

/// The contents of a list of rows to be written.
pub open spec fn login_writes_view(list: Seq<LoginWrite>) -> Seq<LoginWriteView> {
    Seq::new(list.len(), |i: int| list[i]@)
}

/// The rows of the logins that are exported, in order: those with an origin and a realm.
pub open spec fn login_write_list(list: Seq<LoginView>, key: Seq<u8>) -> Seq<LoginWriteView>
    decreases list.len(),
{
    if list.len() == 0 {
        Seq::empty()
    } else {
        let before = login_write_list(list.drop_last(), key);
        let c = list.last();
        if trimmed(c.origin_url).len() > 0 && trimmed(c.signon_realm).len() > 0 {
            before.push(
                LoginWriteView {
                    origin_url: c.origin_url,
                    action_url: c.action_url,
                    username: c.username,
                    encrypted_password: encrypted_secret(c.password, key),
                    signon_realm: c.signon_realm,
                },
            )
        } else {
            before
        }
    }
}

/// The rows of the logins that are exported.
pub fn credentials_to_write(credentials: &Vec<ImportedCredential>, key: &[u8; 16]) -> (res: Vec<
    LoginWrite,
>)
    ensures
        login_writes_view(res@) == login_write_list(logins_view(credentials@), key@),
{
    let ghost all = logins_view(credentials@);
    let mut out: Vec<LoginWrite> = Vec::new();
    let mut i: usize = 0;
    assert(all.take(0) =~= Seq::empty());
    assert(login_writes_view(out@) =~= Seq::empty());
    while i < credentials.len()
        invariant
            i <= credentials@.len(),
            all == logins_view(credentials@),
            login_writes_view(out@) == login_write_list(all.take(i as int), key@),
        decreases credentials@.len() - i,
    {
        let login = &credentials[i];
        let ghost done = login_writes_view(out@);
        proof {
            assert(all.take(i + 1).drop_last() =~= all.take(i as int));
            assert(all.take(i + 1).last() == login@);
        }
        if trim(login.origin_url.as_str()).as_str().unicode_len() > 0 && trim(
            login.signon_realm.as_str(),
        ).as_str().unicode_len() > 0 {
            let row = LoginWrite {
                origin_url: login.origin_url.clone(),
                action_url: clone_opt(&login.action_url),
                username: login.username.clone(),
                encrypted_password: encrypt_chromium_secret(login.password.as_str(), key),
                signon_realm: login.signon_realm.clone(),
            };
            let ghost added = row@;
            out.push(row);
            assert(login_writes_view(out@) =~= done.push(added));
        }
        i += 1;
    }
    assert(all.take(i as int) =~= all);
    out
}

/// What an export leaves to be written.
#[derive(Debug)]
pub struct ExportPlan {
    pub cookies: Vec<CookieWrite>,
    pub logins: Vec<LoginWrite>,
    pub csv: String,
    pub exported_cookies: usize,
    pub exported_credentials: usize,
}

/// What exporting into a browser's profile comes to, given whether the browser runs, whether
/// the profile's directory is there, and the session and credentials to be exported.
pub fn export_browser_profile(
    browser: BrowserKind,
    home: &str,
    target_profile: &str,
    browser_runs: bool,
    target_exists: bool,
    session: &SessionState,
    credentials: &Vec<ImportedCredential>,
    key: &[u8; 16],
) -> (res: Result<ExportPlan, String>)
    requires
        expiries_fit(session@.cookies),
    ensures
        match res {
            Ok(plan) => {
                &&& !browser_runs && target_exists
                &&& cookie_writes_view(plan.cookies@) == cookie_write_list(
                    session@.cookies,
                    key@,
                )
                &&& login_writes_view(plan.logins@) == login_write_list(
                    logins_view(credentials@),
                    key@,
                )
                &&& plan.csv@ == csv_text(logins_view(credentials@))
                &&& plan.exported_cookies == session@.cookies.len()
                &&& plan.exported_credentials == credentials@.len()
            },
            Err(e) => if browser_runs {
                e@ == process_of(browser)
                    + " must be fully closed before exporting into its profile database"@
            } else {
                !target_exists && e@ == profile_missing(
                    target_profile@,
                    joined(root_of(home@, browser), target_profile@),
                )
            },
        },
{
    if browser_runs {
        return Err(
            concat2(
                browser.process_name(),
                " must be fully closed before exporting into its profile database",
            ),
        );
    }
    if !target_exists {
        let root = browser_root(home, browser);
        let path = join_path(root.as_str(), target_profile);
        return Err(profile_missing_message(target_profile, path.as_str()));
    }
    Ok(
        ExportPlan {
            cookies: cookies_to_write(&session.cookies, key),
            logins: credentials_to_write(credentials, key),
            csv: encode_password_csv(credentials.as_slice()),
            exported_cookies: session.cookies.len(),
            exported_credentials: credentials.len(),
        },
    )
}

/// The moment that a browser's time means: microseconds since the start of 1601, in whole seconds
/// since the start of 1970; a time that is not positive means none.
pub proof fn law_times_of_browsers(chrome: i64)
    ensures
        chrome <= 0 ==> unix_seconds(chrome) is None,
        chrome > 0 ==> unix_seconds(chrome) is Some,
        chrome >= 11_644_473_600_000_000 ==> {
            let secs = unix_seconds(chrome)->Some_0;
            secs * 1_000_000 <= chrome - 11_644_473_600_000_000 < (secs + 1) * 1_000_000
        },
{
}

/// The text that a quoted cell of a table holds: two quotes stand for one.
pub open spec fn cell_read(s: Seq<char>) -> Seq<char>
    decreases s.len(),
{
    if s.len() == 0 {
        Seq::empty()
    } else if s.len() >= 2 && s[0] == '"' && s[1] == '"' {
        seq!['"'] + cell_read(s.skip(2))
    } else {
        seq![s[0]] + cell_read(s.skip(1))
    }
}

proof fn lemma_quotes_from_the_start(c: char, s: Seq<char>)
    ensures
        quotes_doubled(seq![c] + s) == (if c == '"' {
            seq!['"', '"']
        } else {
            seq![c]
        }) + quotes_doubled(s),
    decreases s.len(),
{
    reveal_with_fuel(quotes_doubled, 2);
    let all = seq![c] + s;
    if s.len() == 0 {
        assert(all =~= seq![c]);
        assert(all.drop_last() =~= Seq::empty());
        assert(quotes_doubled(all.drop_last()) =~= Seq::empty());
        assert(quotes_doubled(all) =~= (if c == '"' {
            seq!['"', '"']
        } else {
            seq![c]
        }) + quotes_doubled(s));
    } else {
        lemma_quotes_from_the_start(c, s.drop_last());
        assert(all.drop_last() =~= seq![c] + s.drop_last());
        assert(all.last() == s.last());
        assert(quotes_doubled(all) =~= (if c == '"' {
            seq!['"', '"']
        } else {
            seq![c]
        }) + quotes_doubled(s));
    }
}

/// A cell is quoted, and what is between the quotes reads back as the text.
pub proof fn law_cells_are_read_back(s: Seq<char>)
    ensures
        cell(s).len() >= 2,
        cell(s)[0] == '"' && cell(s)[cell(s).len() - 1] == '"',
        cell_read(cell(s).subrange(1, cell(s).len() - 1)) == s,
{
    lemma_doubled_reads_back(s);
    assert(cell(s).subrange(1, cell(s).len() - 1) =~= quotes_doubled(s));
}

proof fn lemma_doubled_reads_back(s: Seq<char>)
    ensures
        cell_read(quotes_doubled(s)) == s,
        s.len() > 0 ==> quotes_doubled(s).len() > 0 && quotes_doubled(s)[0] == s[0],
    decreases s.len(),
{
    if s.len() > 0 {
        let c = s[0];
        let rest = s.drop_first();
        lemma_doubled_reads_back(rest);
        assert(s =~= seq![c] + rest);
        lemma_quotes_from_the_start(c, rest);
        let q = quotes_doubled(s);
        if c == '"' {
            assert(q[0] == '"' && q[1] == '"');
            assert(q.skip(2) =~= quotes_doubled(rest));
        } else {
            assert(q[0] == c);
            assert(q.skip(1) =~= quotes_doubled(rest));
        }
        assert(cell_read(q) =~= s);
    } else {
        assert(cell_read(quotes_doubled(s)) =~= s);
    }
}

/// The table of passwords has a heading and a line for each login, in order; a line holds the realm,
/// the address of the form or else that of the page, the user, the password and an empty note.
pub proof fn law_table_of_passwords(list: Seq<LoginView>, c: LoginView)
    ensures
        csv_text(Seq::empty()) == "name,url,username,password,note\n"@,
        csv_text(list.push(c)) == csv_text(list) + cell(c.signon_realm).push(',') + cell(
            if c.action_url is Some {
                c.action_url->Some_0
            } else {
                c.origin_url
            },
        ).push(',') + cell(c.username).push(',') + cell(c.password).push(',') + cell(
            Seq::empty(),
        ).push('\n'),
{
    assert(list.push(c).drop_last() =~= list);
    assert(csv_text(list.push(c)) =~= csv_text(list) + cell(c.signon_realm).push(',') + cell(
        if c.action_url is Some {
            c.action_url->Some_0
        } else {
            c.origin_url
        },
    ).push(',') + cell(c.username).push(',') + cell(c.password).push(',') + cell(Seq::empty()).push(
        '\n',
    ));
}

/// Browsers have their own short names, processes and directories below the home directory.
pub proof fn law_browsers_are_told_apart(home: Seq<char>)
    ensures
        slug_of(BrowserKind::Chrome) == "chrome"@ && slug_of(BrowserKind::Brave) == "brave"@,
        process_of(BrowserKind::Chrome) == "Google Chrome"@,
        process_of(BrowserKind::Brave) == "Brave Browser"@,
        root_of(home, BrowserKind::Chrome) == joined(
            joined(home, "Library/Application Support"@),
            "Google/Chrome"@,
        ),
        root_of(home, BrowserKind::Brave) == joined(
            joined(home, "Library/Application Support"@),
            "BraveSoftware/Brave-Browser"@,
        ),
{
}

/// A browser's secrets are marked as `v10`; a mark of `v10` or `v11` is taken off before a secret is
/// decrypted, and an unmarked one is taken as it is.
pub proof fn law_marks_of_secrets(cipher: Seq<u8>, value: Seq<char>, key: Seq<u8>)
    ensures
        secret_cipher(encode_utf8("v10"@) + cipher) == cipher,
        secret_cipher(encode_utf8("v11"@) + cipher) == cipher,
        cipher.len() < 3 || !(cipher[0] == 118 && cipher[1] == 49 && (cipher[2] == 48 || cipher[2]
            == 49)) ==> secret_cipher(cipher) == cipher,
        secret_cipher(encrypted_secret(value, key)) == aes_cbc_encrypted(
            key,
            secret_iv(),
            encode_utf8(value),
        ),
        secret_iv().len() == 16,
        forall|i: int| 0 <= i < 16 ==> #[trigger] secret_iv()[i] == 32,
{
    lemma_marks();
    let a = mark_v10();
    let b = mark_v11();
    assert((a + cipher).take(3) =~= a);
    assert((a + cipher).skip(3) =~= cipher);
    assert((b + cipher).take(3) =~= b);
    assert((b + cipher).skip(3) =~= cipher);
    let e = aes_cbc_encrypted(key, secret_iv(), encode_utf8(value));
    assert((a + e).take(3) =~= a);
    assert((a + e).skip(3) =~= e);
    if cipher.len() >= 3 {
        assert(cipher.take(3)[0] == cipher[0]);
        assert(cipher.take(3)[1] == cipher[1]);
        assert(cipher.take(3)[2] == cipher[2]);
    }
}

proof fn lemma_marks()
    ensures
        encode_utf8("v10"@) == mark_v10(),
        encode_utf8("v11"@) == mark_v11(),
{
    reveal_strlit("v10");
    reveal_strlit("v11");
    reveal_with_fuel(encode_utf8, 4);
    assert("v10"@ =~= seq!['v', '1', '0']);
    assert("v11"@ =~= seq!['v', '1', '1']);
    vstd::utf8::is_ascii_chars_encode_utf8("v10"@);
    vstd::utf8::is_ascii_chars_encode_utf8("v11"@);
    assert(encode_utf8("v10"@) =~= mark_v10());
    assert(encode_utf8("v11"@) =~= mark_v11());
}

/// A cookie that is exported goes under its trimmed domain with its name, its encrypted value, its
/// path or the root, its flags, and its moment of expiry in the browser's time where it has one;
/// secure cookies belong to https.
pub proof fn law_exported_cookie(c: CookieView, key: Seq<u8>)
    ensures
        ({
            let w = cookie_write(c, key);
            &&& w.host_key == trimmed(c.domain) && w.name == c.name
            &&& w.encrypted_value == encrypted_secret(c.value, key)
            &&& c.path is Some ==> w.path == c.path->Some_0
            &&& c.path is None ==> w.path == "/"@
            &&& w.is_secure == c.secure && w.is_httponly == c.http_only
            &&& w.has_expires <==> c.expires_unix is Some
            &&& c.expires_unix is None ==> w.expires_utc == 0
            &&& c.expires_unix is Some && c.expires_unix->Some_0 <= i64::MAX ==> w.expires_utc
                == c.expires_unix->Some_0 * 1_000_000 + 11_644_473_600_000_000
            &&& c.secure ==> w.source_scheme == 2 && w.source_port == 443
            &&& !c.secure ==> w.source_scheme == 1 && w.source_port == 80
        }),
{
}

/// Cookies are exported in order, those with a domain and a name that are not blank; logins in
/// order, those with an address and a realm that are not blank.
pub proof fn law_exported_in_order(
    cookies: Seq<CookieView>,
    c: CookieView,
    logins: Seq<LoginView>,
    l: LoginView,
    key: Seq<u8>,
)
    ensures
        cookie_write_list(Seq::empty(), key).len() == 0,
        cookie_write_list(cookies.push(c), key) == if trimmed(c.domain).len() > 0 && trimmed(
            c.name,
        ).len() > 0 {
            cookie_write_list(cookies, key).push(cookie_write(c, key))
        } else {
            cookie_write_list(cookies, key)
        },
        login_write_list(Seq::empty(), key).len() == 0,
        trimmed(l.origin_url).len() == 0 || trimmed(l.signon_realm).len() == 0 ==> login_write_list(
            logins.push(l),
            key,
        ) == login_write_list(logins, key),
        trimmed(l.origin_url).len() > 0 && trimmed(l.signon_realm).len() > 0 ==> {
            let after = login_write_list(logins.push(l), key);
            &&& after.drop_last() == login_write_list(logins, key)
            &&& after.len() == login_write_list(logins, key).len() + 1
            &&& after.last().origin_url == l.origin_url && after.last().action_url == l.action_url
            &&& after.last().username == l.username && after.last().signon_realm == l.signon_realm
            &&& after.last().encrypted_password == encrypted_secret(l.password, key)
        },
{
    assert(cookies.push(c).drop_last() =~= cookies);
    assert(logins.push(l).drop_last() =~= logins);
    if trimmed(l.origin_url).len() > 0 && trimmed(l.signon_realm).len() > 0 {
        assert(login_write_list(logins.push(l), key).drop_last() =~= login_write_list(logins, key));
    }
}

/// A cookie that is imported has the name, the domain, the path, the flags and the moment of expiry
/// of its row, and its plain value, or where that is empty what its secret decrypts to.
pub proof fn law_imported_cookie(row: CookieRow, key: Seq<u8>, c: Cookie)
    requires
        cookie_of_row(row, key, c),
    ensures
        c.name@ == row.name@ && c.domain@ == row.host_key@,
        c.path is Some && c.path->Some_0@ == row.path@,
        c.expires_unix == unix_seconds(row.expires_utc),
        c.secure <==> row.is_secure != 0,
        c.http_only <==> row.is_httponly != 0,
        c.same_site is None,
        row.value@.len() > 0 ==> c.value@ == row.value@,
        row.value@.len() == 0 && row.encrypted_value@.len() == 0 ==> c.value@.len() == 0,
        row.value@.len() == 0 && row.encrypted_value@.len() > 0 ==> match aes_cbc_decrypted(
            key,
            secret_iv(),
            secret_cipher(row.encrypted_value@),
        ) {
            Ok(plain) => if valid_utf8(plain) {
                encode_utf8(c.value@) == plain
            } else {
                c.value@.len() == 0
            },
            Err(_) => c.value@.len() == 0,
        },
{
}

/// Of the logins that are read, those without a user and without a password are left out; the others
/// stay, in order.
pub proof fn law_empty_logins_are_left_out(list: Seq<ImportedCredential>)
    ensures
        telling_logins(list) == list.filter(
            |c: ImportedCredential| !(c.username@.len() == 0 && c.password@.len() == 0),
        ),
    decreases list.len(),
{
    reveal(Seq::filter);
    if list.len() > 0 {
        law_empty_logins_are_left_out(list.drop_last());
    }
}

/// A login that is imported has the addresses, the user and the realm of its row and what its secret
/// decrypts to, or an empty password where it cannot be decrypted.
pub proof fn law_imported_login(row: LoginRow, key: Seq<u8>, c: ImportedCredential)
    requires
        login_of_row(row, key, c),
    ensures
        c.origin_url@ == row.origin_url@ && c.username@ == row.username@ && c.signon_realm@
            == row.signon_realm@,
        row.action_url is Some ==> c.action_url is Some && c.action_url->Some_0@
            == row.action_url->Some_0@,
        row.action_url is None ==> c.action_url is None,
        row.encrypted_password@.len() == 0 ==> c.password@.len() == 0,
        row.encrypted_password@.len() > 0 ==> match aes_cbc_decrypted(
            key,
            secret_iv(),
            secret_cipher(row.encrypted_password@),
        ) {
            Ok(plain) => if valid_utf8(plain) {
                encode_utf8(c.password@) == plain
            } else {
                c.password@.len() == 0
            },
            Err(_) => c.password@.len() == 0,
        },
{
    if row.action_url is None {
        assert(opt_text(c.action_url) is None);
    }
}

/// The profiles of a browser are those that its state lists, in the order of their names, each with
/// the name that it is shown under, or else its own, and its directory below the browser's.
pub proof fn law_profiles_of_a_browser(
    list: Seq<BrowserProfileInfo>,
    browser: BrowserKind,
    root: Seq<char>,
    v: JsonView,
    name: Seq<char>,
    i: int,
)
    requires
        lists_profiles(list, browser, root, listed_profiles(v)),
    ensures
        ({
            let cache = match member(v, "profile"@) {
                Some(p) => member(p, "info_cache"@),
                None => None,
            };
            let known = |n: Seq<char>| cache is Some && member(cache->Some_0, n) is Some;
            &&& known(name) <==> exists|k: int|
                0 <= k < list.len() && (#[trigger] list[k]).profile@ == name
            &&& 0 <= i < list.len() ==> {
                let p = list[i];
                let info = member(cache->Some_0, p.profile@);
                &&& p.browser == browser
                &&& known(p.profile@)
                &&& p.path@ == joined(root, p.profile@)
                &&& member(info->Some_0, "name"@) matches Some(JsonView::Text(t))
                    ==> p.display_name@ == t
                &&& !(member(info->Some_0, "name"@) matches Some(JsonView::Text(_)))
                    ==> p.display_name@ == p.profile@
                &&& forall|j: int| i < j < list.len() ==> text_less(
                    p.profile@,
                    (#[trigger] list[j]).profile@,
                )
            }
        }),
{
    let profiles = listed_profiles(v);
    if profiles.contains_key(name) {
        assert(lists_name(list, name));
    }
    if exists|k: int| 0 <= k < list.len() && (#[trigger] list[k]).profile@ == name {
        let k = choose|k: int| 0 <= k < list.len() && (#[trigger] list[k]).profile@ == name;
        assert(describes(list[k], browser, root, profiles));
    }
    if 0 <= i < list.len() {
        assert(describes(list[i], browser, root, profiles));
    }
}

/// The words that the keys of browsers are made with, and what is said of a profile that is missing.
pub proof fn law_words_of_the_exchange(profile: Seq<char>, path: Seq<char>)
    ensures
        key_salt() == encode_utf8("saltysalt"@),
        profile_missing(profile, path) == "browser profile "@ + profile + " not found at "@ + path,
{
    reveal_strlit("saltysalt");
    vstd::utf8::is_ascii_chars_encode_utf8("saltysalt"@);
    assert(encode_utf8("saltysalt"@) =~= key_salt());
}

} // verus!
