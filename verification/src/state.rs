//! Where the runtime keeps its files.

use vstd::prelude::*;

use crate::paths::{join_path, joined};
use crate::text::{concat2, concat3, decimal, decimal_text};

verus! {

/// The directory that holds all state, and the places of files below it.
#[derive(Debug, Clone)]
pub struct AegisStatePaths {
    root: String,
}

/// The root of the state directory: the configured one, or else `.aegis` in the home
/// directory.
pub open spec fn state_root(aegis_home: Option<Seq<char>>, home: Option<Seq<char>>) -> Option<
    Seq<char>,
> {
    match aegis_home {
        Some(root) => Some(root),
        None => match home {
            Some(h) => Some(joined(h, ".aegis"@)),
            None => None,
        },
    }
}

/// The file of a profile below a root.
pub open spec fn profile_file(root: Seq<char>, profile: Seq<char>, file: Seq<char>) -> Seq<char> {
    joined(joined(joined(root, "profiles"@), profile), file)
}

/// The file of a settings concern below a root.
pub open spec fn concern_file(root: Seq<char>, concern: Seq<char>) -> Seq<char> {
    joined(joined(root, "settings"@), concern + ".json"@)
}

/// The secrets of a profile below a root.
pub open spec fn secrets_file(root: Seq<char>, profile: Seq<char>) -> Seq<char> {
    joined(joined(joined(joined(root, "secrets"@), "profiles"@), profile), "secrets.json"@)
}

impl AegisStatePaths {
    /// The root of the state directory.
    pub closed spec fn root_view(&self) -> Seq<char> {
        self.root@
    }

    /// The places below a root.
    pub fn at(root: String) -> (res: Self)
        ensures
            res.root_view() == root@,
    {
        AegisStatePaths { root }
    }

    /// The places below the root that the environment gives: `aegis_home` is the value of
    /// `AEGIS_HOME`, `home` that of `HOME`.
    pub fn detect(aegis_home: Option<String>, home: Option<String>) -> (res: Result<Self, String>)
        ensures
            match res {
                Ok(paths) => state_root(
                    crate::text::opt_text(aegis_home),
                    crate::text::opt_text(home),
                ) == Some(paths.root_view()),
                Err(e) => aegis_home is None && home is None && e@ == "HOME is not set"@,
            },
    {
        match aegis_home {
            Some(root) => Ok(AegisStatePaths { root }),
            None => match home {
                Some(h) => Ok(AegisStatePaths { root: join_path(h.as_str(), ".aegis") }),
                None => Err("HOME is not set".to_owned()),
            },
        }
    }

    /// The root of the state directory.
    pub fn root(&self) -> (res: &str)
        ensures
            res@ == self.root_view(),
    {
        self.root.as_str()
    }

    /// The directory of the settings.
    pub fn settings_dir(&self) -> (res: String)
        ensures
            res@ == joined(self.root_view(), "settings"@),
    {
        join_path(self.root.as_str(), "settings")
    }

    /// The settings file of a concern.
    pub fn settings_file(&self, concern: &str) -> (res: String)
        ensures
            res@ == concern_file(self.root_view(), concern@),
    {
        let file = concat2(concern, ".json");
        join_path(self.settings_dir().as_str(), file.as_str())
    }

    /// The directory of the profiles.
    pub fn profiles_dir(&self) -> (res: String)
        ensures
            res@ == joined(self.root_view(), "profiles"@),
    {
        join_path(self.root.as_str(), "profiles")
    }

    /// The directory of a profile.
    pub fn profile_dir(&self, profile: &str) -> (res: String)
        ensures
            res@ == joined(joined(self.root_view(), "profiles"@), profile@),
    {
        join_path(self.profiles_dir().as_str(), profile)
    }

    /// The session file of a profile.
    pub fn session_file(&self, profile: &str) -> (res: String)
        ensures
            res@ == profile_file(self.root_view(), profile@, "session.json"@),
    {
        join_path(self.profile_dir(profile).as_str(), "session.json")
    }

    /// The secrets file of a profile.
    pub fn profile_secrets_file(&self, profile: &str) -> (res: String)
        ensures
            res@ == secrets_file(self.root_view(), profile@),
    {
        let secrets = join_path(self.root.as_str(), "secrets");
        let profiles = join_path(secrets.as_str(), "profiles");
        let dir = join_path(profiles.as_str(), profile);
        join_path(dir.as_str(), "secrets.json")
    }

    /// The directory that downloads go to by default.
    pub fn downloads_dir(&self) -> (res: String)
        ensures
            res@ == joined(joined(self.root_view(), "files"@), "downloads"@),
    {
        let files = join_path(self.root.as_str(), "files");
        join_path(files.as_str(), "downloads")
    }

    /// The directory that uploads are staged in by default.
    pub fn uploads_dir(&self) -> (res: String)
        ensures
            res@ == joined(joined(self.root_view(), "files"@), "uploads"@),
    {
        let files = join_path(self.root.as_str(), "files");
        join_path(files.as_str(), "uploads")
    }
}

/// Where a malformed file is set aside.
pub open spec fn aside_path(path: Seq<char>, now_ms: u64) -> Seq<char> {
    path + ".corrupt."@ + decimal_text(now_ms as nat)
}

/// Where a malformed file is set aside at a time.
pub fn corrupt_backup_path(path: &str, now_ms: u64) -> (res: String)
    ensures
        res@ == aside_path(path@, now_ms),
{
    concat3(path, ".corrupt.", decimal(now_ms).as_str())
}

/// The state directory is the one that is named, or else `.aegis` in the home directory.
pub proof fn law_state_directory(aegis_home: Option<Seq<char>>, home: Option<Seq<char>>)
    ensures
        aegis_home is Some ==> state_root(aegis_home, home) == aegis_home,
        aegis_home is None && home is Some ==> state_root(aegis_home, home) == Some(
            joined(home->Some_0, ".aegis"@),
        ),
        aegis_home is None && home is None ==> state_root(aegis_home, home) is None,
{
}

/// What belongs to a profile or a concern lies in files of its own: below a root that does not end
/// in a slash, settings are in `settings`, sessions in `profiles` and secrets in `secrets/profiles`,
/// each under the plain name that they belong to.
pub proof fn law_state_files(root: Seq<char>, name: Seq<char>)
    requires
        root.len() > 0,
        root.last() != '/',
        name.len() > 0,
        crate::paths::plain_name(name),
    ensures
        concern_file(root, name) == root + "/settings/"@ + name + ".json"@,
        profile_file(root, name, "session.json"@) == root + "/profiles/"@ + name + "/session.json"@,
        secrets_file(root, name) == root + "/secrets/profiles/"@ + name + "/secrets.json"@,
{
    reveal_strlit("/");
    reveal_strlit("settings");
    reveal_strlit("/settings/");
    reveal_strlit(".json");
    reveal_strlit("profiles");
    reveal_strlit("/profiles/");
    reveal_strlit("session.json");
    reveal_strlit("/session.json");
    reveal_strlit("secrets");
    reveal_strlit("/secrets/profiles/");
    reveal_strlit("secrets.json");
    reveal_strlit("/secrets.json");
    assert(name[0] != '/') by {
        assert(crate::paths::plain_char(name[0]));
    }
    assert(name.last() != '/') by {
        assert(crate::paths::plain_char(name[name.len() - 1]));
    }
    let s = joined(root, "settings"@);
    assert(s == root + "/"@ + "settings"@);
    assert((name + ".json"@)[0] == name[0]);
    assert(concern_file(root, name) =~= root + "/settings/"@ + name + ".json"@);
    let p = joined(root, "profiles"@);
    assert(p == root + "/"@ + "profiles"@);
    let d = joined(p, name);
    assert(d == p + "/"@ + name);
    assert(profile_file(root, name, "session.json"@) =~= root + "/profiles/"@ + name
        + "/session.json"@);
    let x = joined(root, "secrets"@);
    let y = joined(x, "profiles"@);
    let z = joined(y, name);
    assert(x == root + "/"@ + "secrets"@);
    assert(y == x + "/"@ + "profiles"@);
    assert(z == y + "/"@ + name);
    assert(secrets_file(root, name) =~= root + "/secrets/profiles/"@ + name + "/secrets.json"@);
}

/// A malformed file is set aside beside where it was, marked as corrupt and with the time, so that
/// two times give two files.
pub proof fn law_aside_files_are_kept_apart(path: Seq<char>, a: u64, b: u64)
    ensures
        aside_path(path, a).take(path.len() as int) == path,
        aside_path(path, a).skip(path.len() as int) == ".corrupt."@ + decimal_text(a as nat),
        aside_path(path, a) == aside_path(path, b) ==> a == b,
{
    let mark = path + ".corrupt."@;
    assert(aside_path(path, a).take(path.len() as int) =~= path);
    assert(aside_path(path, a).skip(path.len() as int) =~= ".corrupt."@ + decimal_text(a as nat));
    if aside_path(path, a) == aside_path(path, b) {
        assert(aside_path(path, a).skip(mark.len() as int) =~= decimal_text(a as nat));
        assert(aside_path(path, b).skip(mark.len() as int) =~= decimal_text(b as nat));
        crate::text::law_decimal_text(a as nat);
        crate::text::law_decimal_text(b as nat);
    }
}

} // verus!
