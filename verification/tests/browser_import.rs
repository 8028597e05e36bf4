use aegis::browser_import::{
    browser_root, chrome_time_to_unix, credentials_to_write, csv_cell, decrypt_chromium_secret,
    derive_browser_key, encode_password_csv, encrypt_chromium_secret, export_browser_profile,
    export_expiries_fit, fits_chrome_time, import_browser_profile, list_browser_profiles, merge_cookies,
    merge_credentials, unix_to_chrome_time, BrowserKind, CookieRow, ImportedCredential, LoginRow,
};
use aegis::{Cookie, SessionState};

fn credential(username: &str, password: &str) -> ImportedCredential {
    ImportedCredential {
        origin_url: "https://example.com/login".into(),
        action_url: Some("https://example.com/session".into()),
        username: username.into(),
        password: password.into(),
        signon_realm: "https://example.com/".into(),
    }
}

fn cookie(name: &str, value: &str, domain: &str) -> Cookie {
    Cookie {
        name: name.into(),
        value: value.into(),
        domain: domain.into(),
        path: Some("/".into()),
        expires_unix: None,
        secure: true,
        http_only: false,
        same_site: None,
    }
}

#[test]
fn chromium_secret_round_trip() {
    let key = [7u8; 16];
    let encrypted = encrypt_chromium_secret("secret-value", &key);
    assert!(encrypted.starts_with(b"v10"));
    let decrypted = decrypt_chromium_secret(&encrypted, &key).unwrap();
    assert_eq!(decrypted, "secret-value");
}

#[test]
fn merge_credentials_overwrites_same_identity() {
    let existing = vec![ImportedCredential {
        origin_url: "https://example.com/login".into(),
        action_url: Some("https://example.com/session".into()),
        username: "saint".into(),
        password: "old".into(),
        signon_realm: "https://example.com/".into(),
    }];
    let imported = vec![ImportedCredential {
        origin_url: "https://example.com/login".into(),
        action_url: Some("https://example.com/session".into()),
        username: "saint".into(),
        password: "new".into(),
        signon_realm: "https://example.com/".into(),
    }];
    let merged = merge_credentials(existing, imported);
    assert_eq!(merged.len(), 1);
    assert_eq!(merged[0].password, "new");
}

#[test]
fn password_csv_matches_browser_import_shape() {
    let csv = encode_password_csv(&[ImportedCredential {
        origin_url: "https://example.com/login".into(),
        action_url: Some("https://example.com/session".into()),
        username: "saint".into(),
        password: "pw".into(),
        signon_realm: "Example".into(),
    }]);
    assert!(csv.starts_with("name,url,username,password,note\n"));
    assert!(csv.contains(&csv_cell("Example")));
    assert!(csv.contains(&csv_cell("https://example.com/session")));
}

#[test]
fn cells_double_their_quotes() {
    assert_eq!(csv_cell("a\"b"), "\"a\"\"b\"");
    assert_eq!(csv_cell(""), "\"\"");
}

#[test]
fn secrets_are_encrypted_in_blocks() {
    let key = derive_browser_key("peanuts");
    assert_ne!(key, [0u8; 16]);
    assert_eq!(key, derive_browser_key("peanuts"));
    assert_ne!(key, derive_browser_key("Peanuts"));
    let encrypted = encrypt_chromium_secret("0123456789abcdef", &key);
    assert_eq!(encrypted.len(), 3 + 32);
    assert_ne!(&encrypted[3..19], b"0123456789abcdef");
    assert!(decrypt_chromium_secret(&encrypted, &[9u8; 16])
        .map_or(true, |text| text != "0123456789abcdef"));
    assert_eq!(decrypt_chromium_secret(b"", &key), Ok(String::new()));
}

#[test]
fn the_key_is_the_one_that_chromium_derives() {
    assert_eq!(
        derive_browser_key("peanuts"),
        [
            0xd9, 0xa0, 0x9d, 0x49, 0x9b, 0x4e, 0x1b, 0x74, 0x61, 0xf2, 0x8e, 0x67, 0x97, 0x2c,
            0x6d, 0xbd
        ]
    );
}

#[test]
fn times_are_counted_from_the_browsers_epoch() {
    assert_eq!(chrome_time_to_unix(0), None);
    assert_eq!(chrome_time_to_unix(11_644_473_600_000_000), Some(0));
    assert_eq!(chrome_time_to_unix(11_644_473_601_000_000), Some(1));
    assert!(fits_chrome_time(1_700_000_000));
    assert_eq!(unix_to_chrome_time(1_700_000_000), 13_344_473_600_000_000);
    assert_eq!(chrome_time_to_unix(unix_to_chrome_time(1_700_000_000)), Some(1_700_000_000));
    assert!(!fits_chrome_time(9_211_727_563_255));
}

#[test]
fn profiles_are_listed_by_directory() {
    let state = b"{\"profile\":{\"info_cache\":{\"Profile 1\":{\"name\":\"Work\"},\"Default\":{}}}}";
    let list = list_browser_profiles(BrowserKind::Chrome, "/home/x", state).expect("well-formed");
    assert_eq!(list.len(), 2);
    assert_eq!(list[0].profile, "Default");
    assert_eq!(list[0].display_name, "Default");
    assert_eq!(list[1].display_name, "Work");
    assert_eq!(
        list[1].path,
        "/home/x/Library/Application Support/Google/Chrome/Profile 1"
    );
    assert!(list_browser_profiles(BrowserKind::Brave, "/home/x", b"{").is_err());
    assert_eq!(
        browser_root("/h", BrowserKind::Brave),
        "/h/Library/Application Support/BraveSoftware/Brave-Browser"
    );
}

#[test]
fn imported_cookies_replace_those_with_their_key() {
    let mut session = SessionState::default();
    session.cookies.push(cookie("sid", "old", "example.com"));
    session.cookies.push(cookie("other", "kept", "example.com"));
    merge_cookies(&mut session, vec![cookie("sid", "new", "example.com")]);
    let mut values: Vec<String> = session.cookies.iter().map(|c| c.value.clone()).collect();
    values.sort();
    assert_eq!(values, vec!["kept", "new"]);
}

#[test]
fn merging_twice_changes_nothing() {
    let once = merge_credentials(vec![credential("a", "1")], vec![credential("b", "2")]);
    assert_eq!(once.len(), 2);
    let twice = merge_credentials(once, vec![credential("b", "2")]);
    assert_eq!(twice.len(), 2);
}

#[test]
fn importing_decrypts_what_the_browser_stored() {
    let key = derive_browser_key("peanuts");
    let cookies = vec![CookieRow {
        host_key: "example.com".into(),
        name: "sid".into(),
        value: "".into(),
        encrypted_value: encrypt_chromium_secret("cookie", &key),
        path: "/".into(),
        expires_utc: 0,
        is_secure: 1,
        is_httponly: 0,
    }];
    let logins = vec![LoginRow {
        origin_url: "https://example.com/login".into(),
        action_url: None,
        username: "saint".into(),
        encrypted_password: encrypt_chromium_secret("pw", &key),
        signon_realm: "https://example.com/".into(),
    }];
    let plan = import_browser_profile(
        BrowserKind::Chrome,
        "/home/x",
        "Default",
        true,
        &cookies,
        &logins,
        &key,
        SessionState::default(),
        vec![],
    )
    .expect("imported");
    assert_eq!(plan.imported_cookies, 1);
    assert_eq!(plan.imported_credentials, 1);
    assert_eq!(plan.session.cookies[0].value, "cookie");
    assert!(plan.session.cookies[0].secure);
    assert_eq!(plan.credentials[0].password, "pw");
    assert!(import_browser_profile(
        BrowserKind::Chrome,
        "/home/x",
        "Default",
        false,
        &cookies,
        &logins,
        &key,
        SessionState::default(),
        vec![],
    )
    .is_err());
}

#[test]
fn exporting_encrypts_and_needs_the_browser_closed() {
    let key = derive_browser_key("peanuts");
    let mut session = SessionState::default();
    session.cookies.push(cookie("sid", "cookie", "example.com"));
    let logins = vec![credential("saint", "pw")];
    let plan = export_browser_profile(
        BrowserKind::Brave,
        "/home/x",
        "Default",
        false,
        true,
        &session,
        &logins,
        &key,
    )
    .expect("exported");
    assert_eq!(plan.exported_cookies, 1);
    assert_eq!(
        decrypt_chromium_secret(&plan.cookies[0].encrypted_value, &key),
        Ok("cookie".to_string())
    );
    assert_eq!(
        decrypt_chromium_secret(&plan.logins[0].encrypted_password, &key),
        Ok("pw".to_string())
    );
    assert!(plan.csv.contains("\"saint\""));
    assert_eq!(credentials_to_write(&logins, &key).len(), 1);
    assert!(export_browser_profile(
        BrowserKind::Brave,
        "/home/x",
        "Default",
        true,
        true,
        &session,
        &logins,
        &key,
    )
    .is_err());
}

#[test]
fn only_exported_cookies_need_a_fitting_expiry() {
    let mut far = cookie("sid", "x", " ");
    far.expires_unix = Some(u64::MAX / 2);
    let mut near = cookie("sid", "x", "example.com");
    near.expires_unix = Some(1_700_000_000);
    assert!(export_expiries_fit(&vec![far, near]));
    let mut kept = cookie("sid", "x", "example.com");
    kept.expires_unix = Some(u64::MAX / 2);
    assert!(!export_expiries_fit(&vec![kept]));
}
