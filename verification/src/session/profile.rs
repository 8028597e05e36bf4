//! Stored session profiles.

use vstd::prelude::*;

use crate::json::{
    empty_array, empty_object, entries_view, members_map, object, put, JsonValue, JsonView,
};
use crate::paths::{is_plain_name, plain_name};
use crate::session::cookies::{empty_session, fault_of, session_error, SessionState, SessionView};
use crate::state::{profile_file, AegisStatePaths};
use crate::text::{concat2, concat3, debug_quote, debug_quoted, trim, trimmed};

verus! {

/// The version of the profile files that this library reads and writes.
pub const PROFILE_VERSION: u32 = 2;

/// A profile and the path of its file.
#[derive(Debug)]
pub struct SessionProfileInfo {
    pub profile: String,
    pub path: String,
}

impl Clone for SessionProfileInfo {
    fn clone(&self) -> (res: Self)
        ensures
            res.profile@ == self.profile@,
            res.path@ == self.path@,
    {
        SessionProfileInfo { profile: self.profile.clone(), path: self.path.clone() }
    }
}

/// The contents of a profile file.
#[derive(Debug, PartialEq, Eq)]
pub struct StoredSessionProfile {
    pub version: u32,
    pub session: SessionState,
}

/// What reading a profile file gave.
#[derive(Debug)]
pub enum StoredProfileRead {
    /// There is no such file.
    Missing,
    /// The file does not hold a profile.
    Corrupt,
    /// The file holds a profile.
    Parsed(StoredSessionProfile),
}

/// What is to be done with a profile file that was read.
#[derive(Debug)]
pub enum ProfileLoad {
    /// There is no stored session.
    Absent,
    /// Use the stored session.
    Use(SessionState),
    /// Set the file aside, write the default profile in its place and use the empty session.
    Reset(SessionState),
}

/// A profile's file.
#[derive(Debug)]
pub struct SessionProfileStore {
    info: SessionProfileInfo,
}

/// What is wrong with a profile's name: it is blank, or holds a character that is not allowed.
pub open spec fn profile_name_error(profile: Seq<char>) -> Option<Seq<char>> {
    if trimmed(profile).len() == 0 {
        Some("profile name must not be empty"@)
    } else if !plain_name(profile) {
        Some(
            "profile name "@ + debug_quoted(profile)
                + " must use only letters, numbers, '.', '-', or '_'"@,
        )
    } else {
        None
    }
}

/// Whether a profile's name is allowed; the error says what is wrong with it.
pub fn validate_profile_name(profile: &str) -> (res: Result<(), String>)
    ensures
        fault_of(res) == profile_name_error(profile@),
{
    if trim(profile).as_str().unicode_len() == 0 {
        return Err("profile name must not be empty".to_owned());
    }
    if !is_plain_name(profile) {
        let quoted = debug_quote(profile);
        return Err(
            concat3(
                "profile name ",
                quoted.as_str(),
                " must use only letters, numbers, '.', '-', or '_'",
            ),
        );
    }
    Ok(())
}

/// The JSON form of a profile file without a session.
pub open spec fn default_profile_json() -> JsonView {
    let session = Map::<Seq<char>, JsonView>::empty().insert(
        "cookies"@,
        JsonView::Array(Seq::empty()),
    ).insert("local_storage"@, JsonView::Object(Map::empty())).insert(
        "session_storage"@,
        JsonView::Object(Map::empty()),
    ).insert("network_overrides"@, JsonView::Array(Seq::empty()));
    JsonView::Object(
        Map::<Seq<char>, JsonView>::empty().insert(
            "version"@,
            JsonView::Unsigned(PROFILE_VERSION as u64),
        ).insert("session"@, JsonView::Object(session)),
    )
}

/// The JSON form of a profile file without a session.
pub fn default_session_payload() -> (res: JsonValue)
    ensures
        res@ == default_profile_json(),
{
    let mut session: Vec<(String, JsonValue)> = Vec::new();
    assert(members_map(entries_view(session@)) =~= Map::<Seq<char>, JsonView>::empty());
    put(&mut session, "cookies", empty_array());
    put(&mut session, "local_storage", empty_object());
    put(&mut session, "session_storage", empty_object());
    put(&mut session, "network_overrides", empty_array());
    let mut entries: Vec<(String, JsonValue)> = Vec::new();
    assert(members_map(entries_view(entries@)) =~= Map::<Seq<char>, JsonView>::empty());
    put(&mut entries, "version", JsonValue::Unsigned(PROFILE_VERSION as u64));
    put(&mut entries, "session", object(session));
    object(entries)
}

/// Whether a stored profile is used as it is: its version is the current one and its session
/// is sound.
pub open spec fn profile_accepted(version: u32, session: SessionView) -> bool {
    version == PROFILE_VERSION && session_error(session) is None
}

impl SessionProfileStore {
    /// The name of the profile.
    pub closed spec fn name(&self) -> Seq<char> {
        self.info.profile@
    }

    /// The path of its file.
    pub closed spec fn file(&self) -> Seq<char> {
        self.info.path@
    }

    /// The store of a profile below a state directory; a name that is not allowed is refused.
    pub fn new(profile: String, paths: &AegisStatePaths) -> (res: Result<Self, String>)
        ensures
            match res {
                Ok(store) => profile_name_error(profile@) is None && store.name() == profile@
                    && store.file() == profile_file(
                    paths.root_view(),
                    profile@,
                    "session.json"@,
                ),
                Err(e) => profile_name_error(profile@) == Some(e@),
            },
    {
        match validate_profile_name(profile.as_str()) {
            Ok(()) => {
                let path = paths.session_file(profile.as_str());
                Ok(SessionProfileStore { info: SessionProfileInfo { profile, path } })
            },
            Err(e) => Err(e),
        }
    }

    /// The profile and the path of its file.
    pub fn info(&self) -> (res: SessionProfileInfo)
        ensures
            res.profile@ == self.name(),
            res.path@ == self.file(),
    {
        self.info.clone()
    }

    /// What is to be done with a profile file that was read: a file of another version, a
    /// corrupt one, and one whose session is not sound are all reset.
    pub fn load(&self, stored: StoredProfileRead) -> (res: ProfileLoad)
        ensures
            match stored {
                StoredProfileRead::Missing => res is Absent,
                StoredProfileRead::Corrupt => res is Reset,
                StoredProfileRead::Parsed(p) => if profile_accepted(p.version, p.session@) {
                    res == ProfileLoad::Use(p.session)
                } else {
                    res is Reset
                },
            },
            res matches ProfileLoad::Reset(session) ==> session@ == empty_session(),
    {
        match stored {
            StoredProfileRead::Missing => ProfileLoad::Absent,
            StoredProfileRead::Corrupt => ProfileLoad::Reset(SessionState::default()),
            StoredProfileRead::Parsed(p) => {
                if p.version != PROFILE_VERSION || p.session.validate().is_err() {
                    ProfileLoad::Reset(SessionState::default())
                } else {
                    ProfileLoad::Use(p.session)
                }
            },
        }
    }

    /// What is to be written for a session; a session that is not sound is refused.
    pub fn save(&self, session: &SessionState) -> (res: Result<StoredSessionProfile, String>)
        ensures
            match res {
                Ok(p) => session_error(session@) is None && p.version == PROFILE_VERSION
                    && p.session@ == session@,
                Err(e) => session_error(session@) is Some && e@ == "invalid session profile data: "@
                    + session_error(session@)->Some_0,
            },
    {
        match session.validate() {
            Ok(()) => Ok(
                StoredSessionProfile { version: PROFILE_VERSION, session: session.clone() },
            ),
            Err(e) => Err(concat2("invalid session profile data: ", e.as_str())),
        }
    }
}

/// What is saved is used as it is when it is loaded.
pub proof fn law_saved_profile_is_accepted(session: SessionView)
    requires
        session_error(session) is None,
    ensures
        profile_accepted(PROFILE_VERSION, session),
{
}

/// The empty session is sound, so what a reset leaves behind can be saved and loaded again.
pub proof fn law_empty_session_is_sound()
    ensures
        session_error(empty_session()) is None,
{
}

/// A profile's name is refused exactly when it is blank or holds a character other than letters,
/// digits, dots, dashes and underscores, and the message says which.
pub proof fn law_profile_names(profile: Seq<char>)
    ensures
        profile_name_error(profile) is None <==> trimmed(profile).len() > 0 && plain_name(profile),
        trimmed(profile).len() == 0 ==> profile_name_error(profile) == Some(
            "profile name must not be empty"@,
        ),
        trimmed(profile).len() > 0 && !plain_name(profile) ==> profile_name_error(profile) == Some(
            "profile name "@ + debug_quoted(profile)
                + " must use only letters, numbers, '.', '-', or '_'"@,
        ),
{
}

/// A stored profile is used exactly when it is of the second version and its session is sound.
pub proof fn law_profiles_of_the_version(version: u32, session: SessionView)
    ensures
        profile_accepted(version, session) <==> version == 2 && session_error(session) is None,
{
}

/// A profile that is written anew is of the version that is read and holds an empty session.
pub proof fn law_fresh_profile_is_empty()
    ensures
        ({
            let v = default_profile_json();
            &&& crate::json::member(v, "version"@) == Some(JsonView::Unsigned(2))
            &&& crate::json::member(v, "session"@) matches Some(s)
            &&& crate::json::member(s, "cookies"@) == Some(JsonView::Array(Seq::empty()))
            &&& crate::json::member(s, "local_storage"@) == Some(JsonView::Object(Map::empty()))
            &&& crate::json::member(s, "session_storage"@) == Some(JsonView::Object(Map::empty()))
            &&& crate::json::member(s, "network_overrides"@) == Some(JsonView::Array(Seq::empty()))
            &&& crate::session::cookies::session_read(s) == empty_session()
        }),
{
    reveal_strlit("version");
    reveal_strlit("session");
    reveal_strlit("cookies");
    reveal_strlit("local_storage");
    reveal_strlit("session_storage");
    reveal_strlit("network_overrides");
    assert("version"@.len() == 7 && "session"@.len() == 7 && "cookies"@.len() == 7 && "local_storage"@.len() == 13 && "session_storage"@.len() == 15 && "network_overrides"@.len() == 17);
    assert("version"@[0] == 'v' && "session"@[0] == 's' && "cookies"@[0] == 'c');
    let s = crate::json::member(default_profile_json(), "session"@)->Some_0;
    let back = crate::session::cookies::session_read(s);
    assert(back.cookies =~= Seq::empty());
    assert(back.network_overrides =~= Seq::empty());
    assert(back.local_storage =~= Map::empty());
    assert(back.session_storage =~= Map::empty());
}

} // verus!
