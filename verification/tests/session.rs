use aegis::json::write_out;
use aegis::session::cookies::{Cookie, CookieSameSite, SessionState};
use aegis::session::profile::{
    default_session_payload, validate_profile_name, ProfileLoad, StoredProfileRead,
    StoredSessionProfile,
};
use aegis::{AegisStatePaths, NetworkOverride, SessionProfileStore, StorageArea};

fn cookie(name: &str, value: &str, domain: &str) -> Cookie {
    Cookie {
        name: name.into(),
        value: value.into(),
        domain: domain.into(),
        path: Some("/".into()),
        expires_unix: None,
        secure: true,
        http_only: true,
        same_site: None,
    }
}

fn store(profile: &str) -> SessionProfileStore {
    SessionProfileStore::new(profile.into(), &AegisStatePaths::at("/state".into()))
        .expect("session profile store should initialize")
}

#[test]
fn validates_session_state() {
    let mut session = SessionState::default()
        .with_storage(StorageArea::Local, "token".into(), "abc123".into())
        .with_storage(StorageArea::Session, "tab".into(), "primary".into());
    session.network_overrides.push(NetworkOverride {
        header: "Authorization".into(),
        value: "Bearer test".into(),
    });
    session.cookies.push(Cookie {
        name: "sid".into(),
        value: "cookie".into(),
        domain: "example.com".into(),
        path: Some("/".into()),
        expires_unix: None,
        secure: true,
        http_only: true,
        same_site: None,
    });

    assert!(session.validate().is_ok());
}

#[test]
fn normalized_deduplicates_and_drops_expired_cookies() {
    let session = SessionState {
        cookies: vec![
            Cookie {
                name: "sid".into(),
                value: "old".into(),
                domain: ".Accounts.Shopify.com".into(),
                path: Some(String::new()),
                expires_unix: Some(1),
                secure: true,
                http_only: true,
                same_site: Some(CookieSameSite::NoRestriction),
            },
            Cookie {
                name: "sid".into(),
                value: "fresh".into(),
                domain: "accounts.shopify.com".into(),
                path: None,
                expires_unix: None,
                secure: true,
                http_only: true,
                same_site: Some(CookieSameSite::NoRestriction),
            },
            Cookie {
                name: "sid".into(),
                value: "latest".into(),
                domain: ".accounts.shopify.com".into(),
                path: Some("/".into()),
                expires_unix: None,
                secure: true,
                http_only: true,
                same_site: Some(CookieSameSite::NoRestriction),
            },
        ],
        ..SessionState::default()
    };

    let normalized = session.normalized();
    assert_eq!(normalized.cookies.len(), 1);
    assert_eq!(normalized.cookies[0].value, "latest");
    assert_eq!(normalized.cookies[0].domain, "accounts.shopify.com");
    assert_eq!(normalized.cookies[0].path.as_deref(), Some("/"));
}

#[test]
fn cookies_expire_at_their_second() {
    let mut dated = cookie("a", "1", "example.com");
    dated.expires_unix = Some(100);
    let session = SessionState {
        cookies: vec![dated, cookie("b", "2", "example.com")],
        ..SessionState::default()
    };
    assert_eq!(session.normalized_at(99).cookies.len(), 2);
    assert_eq!(session.normalized_at(100).cookies.len(), 1);
    assert_eq!(session.normalized_at(100).cookies[0].name, "b");
}

#[test]
fn unsound_sessions_are_refused() {
    let mut session = SessionState::default();
    session.cookies.push(cookie("", "x", "example.com"));
    assert!(session.validate().is_err());
    let mut session = SessionState::default();
    session.cookies.push(cookie("a", "x", " "));
    assert!(session.validate().is_err());
    let mut session = SessionState::default();
    session.network_overrides.push(NetworkOverride { header: " ".into(), value: "x".into() });
    assert!(session.validate().is_err());
}

#[test]
fn load_repairs_corrupt_session_profile() {
    let store = store("default");
    let session = match store.load(StoredProfileRead::Corrupt) {
        ProfileLoad::Reset(session) => session,
        other => panic!("corrupt session should be repaired, got {other:?}"),
    };
    assert!(session.cookies.is_empty());
    let backup = aegis::state::corrupt_backup_path(&store.info().path, 1_700_000_000_000);
    assert_eq!(backup, "/state/profiles/default/session.json.corrupt.1700000000000");
}

#[test]
fn load_resets_legacy_session_profile_versions() {
    let mut session = SessionState::default();
    session.cookies.push(cookie("shopify", "bad", "accounts.shopify.com"));
    let stored = StoredSessionProfile { version: 1, session };
    let session = match store("brave-import").load(StoredProfileRead::Parsed(stored)) {
        ProfileLoad::Reset(session) => session,
        other => panic!("legacy session should be reset, got {other:?}"),
    };
    assert!(session.cookies.is_empty());
}

#[test]
fn a_saved_profile_is_loaded_again() {
    let mut session = SessionState::default();
    session.cookies.push(cookie("sid", "1", "example.com"));
    let store = store("work");
    let stored = store.save(&session).expect("sound sessions are saved");
    assert_eq!(stored.version, 2);
    match store.load(StoredProfileRead::Parsed(stored)) {
        ProfileLoad::Use(loaded) => assert_eq!(loaded.cookies, session.cookies),
        other => panic!("expected the session, got {other:?}"),
    }
    assert!(matches!(store.load(StoredProfileRead::Missing), ProfileLoad::Absent));
    session.cookies.push(cookie("", "1", "example.com"));
    assert!(store.save(&session).is_err());
}

#[test]
fn profile_names_are_plain() {
    assert!(validate_profile_name("work-1.a_b").is_ok());
    assert_eq!(
        validate_profile_name(" "),
        Err("profile name must not be empty".to_string())
    );
    assert_eq!(
        validate_profile_name("a/b"),
        Err("profile name \"a/b\" must use only letters, numbers, '.', '-', or '_'".to_string())
    );
    assert!(SessionProfileStore::new("../x".into(), &AegisStatePaths::at("/s".into())).is_err());
}

#[test]
fn the_default_profile_holds_an_empty_session() {
    let payload = default_session_payload();
    assert_eq!(payload.get("version").and_then(|v| v.as_u64()), Some(2));
    assert!(payload.get("session").and_then(|s| s.get("cookies")).is_some());
}

#[test]
fn state_lies_below_the_configured_root() {
    let paths = AegisStatePaths::detect(Some("/a".into()), Some("/home/x".into())).unwrap();
    assert_eq!(paths.root(), "/a");
    let paths = AegisStatePaths::detect(None, Some("/home/x".into())).unwrap();
    assert_eq!(paths.root(), "/home/x/.aegis");
    assert_eq!(paths.settings_file("agent"), "/home/x/.aegis/settings/agent.json");
    assert_eq!(paths.session_file("p"), "/home/x/.aegis/profiles/p/session.json");
    assert_eq!(AegisStatePaths::detect(None, None).err(), Some("HOME is not set".to_string()));
}

#[test]
fn normalizing_twice_changes_nothing_more() {
    let mut session = SessionState::default();
    session.cookies.push(cookie(" sid ", "1", ".Example.com"));
    session.cookies.push(cookie("SID", "2", "example.com"));
    session.cookies.push(cookie("other", "3", "example.org"));
    let once = session.normalized_at(10);
    assert_eq!(once.cookies.len(), 2);
    assert_eq!(once.normalized_at(10), once);
}

#[test]
fn sessions_list_their_members_in_order() {
    let mut session = SessionState::default();
    session.cookies.push(Cookie {
        expires_unix: Some(9),
        same_site: Some(CookieSameSite::NoRestriction),
        ..cookie("n", "v", "d")
    });
    session.local_storage.insert("b".into(), "2".into());
    session.local_storage.insert("a".into(), "1".into());
    session.network_overrides.push(NetworkOverride { header: "h".into(), value: "x".into() });
    let written = write_out(&session.to_out());
    assert!(written.starts_with(
        "{\"cookies\":[{\"name\":\"n\",\"value\":\"v\",\"domain\":\"d\",\"path\":\"/\",\"expires_unix\":9,\"secure\":true,"
    ));
    assert!(written.ends_with(
        "\"same_site\":\"none\"}],\"local_storage\":{\"a\":\"1\",\"b\":\"2\"},\"session_storage\":{},\"network_overrides\":[{\"header\":\"h\",\"value\":\"x\"}]}"
    ));
}
