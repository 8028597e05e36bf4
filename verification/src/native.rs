//! The native browser host: where its files lie, how it is built and how it is installed.

use vstd::prelude::*;

use crate::paths::{
    after_last_dot, file_name, file_name_of, join_path, joined, last_dot, PathFacts,
};
use crate::string_map::StringMap;
use crate::text::{chars_of, concat3, contains, opt_text, str_eq, string_of, texts, texts_contain};

verus! {

/// A platform that the native host is built for.
#[derive(Debug, Clone, Copy, PartialEq, Eq, Structural)]
pub enum NativePlatform {
    Macos,
    Linux,
}

/// The name of a platform.
pub open spec fn platform_name(p: NativePlatform) -> Seq<char> {
    match p {
        NativePlatform::Macos => "macos"@,
        NativePlatform::Linux => "linux"@,
    }
}

impl NativePlatform {
    /// The name of the platform.
    pub fn as_str(self) -> (res: &'static str)
        ensures
            res@ == platform_name(self),
    {
        match self {
            NativePlatform::Macos => "macos",
            NativePlatform::Linux => "linux",
        }
    }
}

/// The platform with a name, if the native host is built for it.
pub open spec fn platform_named(os: Seq<char>) -> Option<NativePlatform> {
    if os == "macos"@ {
        Some(NativePlatform::Macos)
    } else if os == "linux"@ {
        Some(NativePlatform::Linux)
    } else {
        None
    }
}

/// The platform of an operating system, if the native host is built for it.
pub fn current_platform(os: &str) -> (res: Option<NativePlatform>)
    ensures
        res == platform_named(os@),
{
    if str_eq(os, "macos") {
        Some(NativePlatform::Macos)
    } else if str_eq(os, "linux") {
        Some(NativePlatform::Linux)
    } else {
        None
    }
}

/// How the native host is built.
#[derive(Debug, Clone, Copy, PartialEq, Eq, Structural)]
pub enum NativeConfiguration {
    Debug,
    Release,
}

/// The name of a configuration.
pub open spec fn configuration_name(c: NativeConfiguration) -> Seq<char> {
    match c {
        NativeConfiguration::Debug => "Debug"@,
        NativeConfiguration::Release => "Release"@,
    }
}

/// The name of the directory of a configuration on a platform.
pub open spec fn configuration_dir(p: NativePlatform, c: NativeConfiguration) -> Seq<char> {
    match (p, c) {
        (NativePlatform::Macos, _) => configuration_name(c),
        (NativePlatform::Linux, NativeConfiguration::Debug) => "debug"@,
        (NativePlatform::Linux, NativeConfiguration::Release) => "release"@,
    }
}

impl NativeConfiguration {
    /// The name of the configuration.
    pub fn as_str(self) -> (res: &'static str)
        ensures
            res@ == configuration_name(self),
    {
        match self {
            NativeConfiguration::Debug => "Debug",
            NativeConfiguration::Release => "Release",
        }
    }

    fn dir(self, platform: NativePlatform) -> (res: &'static str)
        ensures
            res@ == configuration_dir(platform, self),
    {
        match (platform, self) {
            (NativePlatform::Macos, _) => self.as_str(),
            (NativePlatform::Linux, NativeConfiguration::Debug) => "debug",
            (NativePlatform::Linux, NativeConfiguration::Release) => "release",
        }
    }
}

/// What is known of the machine: its platform, the home directory, which paths exist, the
/// executables that app bundles name, and which tools are installed.
#[derive(Debug)]
pub struct NativeFacts {
    pub platform: NativePlatform,
    pub home: Option<String>,
    pub paths: PathFacts,
    pub bundles: StringMap,
    pub tools: Vec<String>,
}

/// The directory of the browser engine's SDK, below a workspace.
pub open spec fn sdk_dir(p: NativePlatform) -> Seq<char> {
    match p {
        NativePlatform::Macos => "third_party/cef/cef_binary_146.0.6+g68649e2+chromium-146.0.7680.154_macosarm64"@,
        NativePlatform::Linux => "third_party/cef/cef_binary_146.0.6+g68649e2+chromium-146.0.7680.154_linux64"@,
    }
}

/// The directory of the browser engine's SDK, below a workspace.
pub fn cef_sdk_dir(platform: NativePlatform) -> (res: &'static str)
    ensures
        res@ == sdk_dir(platform),
{
    match platform {
        NativePlatform::Macos => "third_party/cef/cef_binary_146.0.6+g68649e2+chromium-146.0.7680.154_macosarm64",
        NativePlatform::Linux => "third_party/cef/cef_binary_146.0.6+g68649e2+chromium-146.0.7680.154_linux64",
    }
}

/// The build directory of a workspace.
pub open spec fn build_path(root: Seq<char>, p: NativePlatform) -> Seq<char> {
    joined(joined(joined(root, "native"@), "build"@), platform_name(p))
}

/// The build directory of a workspace.
pub fn build_dir(root: &str, platform: NativePlatform) -> (res: String)
    ensures
        res@ == build_path(root@, platform),
{
    join_path(join_path(join_path(root, "native").as_str(), "build").as_str(), platform.as_str())
}

/// The file that tells that a workspace was configured.
pub open spec fn configured_path(root: Seq<char>, p: NativePlatform) -> Seq<char> {
    match p {
        NativePlatform::Macos => joined(build_path(root, p), "aegis_native.xcodeproj"@),
        NativePlatform::Linux => joined(build_path(root, p), "CMakeCache.txt"@),
    }
}

/// The file that tells that a workspace was configured.
pub fn configure_artifact(root: &str, platform: NativePlatform) -> (res: String)
    ensures
        res@ == configured_path(root@, platform),
{
    let dir = build_dir(root, platform);
    match platform {
        NativePlatform::Macos => join_path(dir.as_str(), "aegis_native.xcodeproj"),
        NativePlatform::Linux => join_path(dir.as_str(), "CMakeCache.txt"),
    }
}

/// The directory that what is built goes to.
pub open spec fn output_path(root: Seq<char>, p: NativePlatform, c: NativeConfiguration) -> Seq<
    char,
> {
    joined(build_path(root, p), configuration_dir(p, c))
}

fn artifact_output_dir(
    root: &str,
    platform: NativePlatform,
    configuration: NativeConfiguration,
) -> (res: String)
    ensures
        res@ == output_path(root@, platform, configuration),
{
    join_path(build_dir(root, platform).as_str(), configuration.dir(platform))
}

/// The file that a target builds.
pub open spec fn target_file(p: NativePlatform, target: Seq<char>) -> Seq<char> {
    match p {
        NativePlatform::Macos => if target == "aegis_host"@ {
            "libaegis_host.dylib"@
        } else {
            "aegis_native.app"@
        },
        NativePlatform::Linux => if target == "aegis_host"@ {
            "libaegis_host.so"@
        } else if target == "aegis_helper"@ {
            "aegis_helper"@
        } else {
            "aegis_native"@
        },
    }
}

/// What a target builds.
pub open spec fn target_path(
    root: Seq<char>,
    p: NativePlatform,
    c: NativeConfiguration,
    target: Seq<char>,
) -> Seq<char> {
    joined(output_path(root, p, c), target_file(p, target))
}

/// What a target builds.
pub fn artifact_for_target(
    root: &str,
    platform: NativePlatform,
    configuration: NativeConfiguration,
    target: &str,
) -> (res: String)
    ensures
        res@ == target_path(root@, platform, configuration, target@),
{
    let file = match platform {
        NativePlatform::Macos => if str_eq(target, "aegis_host") {
            "libaegis_host.dylib"
        } else {
            "aegis_native.app"
        },
        NativePlatform::Linux => if str_eq(target, "aegis_host") {
            "libaegis_host.so"
        } else if str_eq(target, "aegis_helper") {
            "aegis_helper"
        } else {
            "aegis_native"
        },
    };
    join_path(artifact_output_dir(root, platform, configuration).as_str(), file)
}

/// The host library that a workspace builds.
pub open spec fn workspace_library(root: Seq<char>, p: NativePlatform) -> Seq<char> {
    target_path(root, p, NativeConfiguration::Release, "aegis_host"@)
}

/// The host library that a workspace builds.
pub fn workspace_host_library(root: &str, platform: NativePlatform) -> (res: String)
    ensures
        res@ == workspace_library(root@, platform),
{
    artifact_for_target(root, platform, NativeConfiguration::Release, "aegis_host")
}

/// The app that a workspace builds.
pub open spec fn workspace_app(root: Seq<char>, p: NativePlatform) -> Seq<char> {
    match p {
        NativePlatform::Macos => target_path(
            root,
            p,
            NativeConfiguration::Release,
            "aegis_native"@,
        ),
        NativePlatform::Linux => joined(root, "native/build/linux/release"@),
    }
}

/// The app that a workspace builds.
pub fn default_workspace_app_dir(root: &str, platform: NativePlatform) -> (res: String)
    ensures
        res@ == workspace_app(root@, platform),
{
    match platform {
        NativePlatform::Macos => artifact_for_target(
            root,
            platform,
            NativeConfiguration::Release,
            "aegis_native",
        ),
        NativePlatform::Linux => join_path(root, "native/build/linux/release"),
    }
}

/// Where the app is installed, if there is a home directory.
pub open spec fn install_path(p: NativePlatform, home: Option<Seq<char>>) -> Option<Seq<char>> {
    match home {
        None => None,
        Some(h) => Some(
            match p {
                NativePlatform::Macos => joined(joined(h, "Applications"@), "Aegis.app"@),
                NativePlatform::Linux => joined(
                    joined(joined(joined(h, ".local"@), "share"@), "aegis"@),
                    "Aegis"@,
                ),
            },
        ),
    }
}

/// Where the app is installed, if there is a home directory.
pub fn canonical_install_dir(facts: &NativeFacts) -> (res: Option<String>)
    ensures
        opt_text(res) == install_path(facts.platform, opt_text(facts.home)),
{
    match &facts.home {
        None => None,
        Some(h) => {
            match facts.platform {
                NativePlatform::Macos => Some(
                    join_path(join_path(h.as_str(), "Applications").as_str(), "Aegis.app"),
                ),
                NativePlatform::Linux => {
                    let share = join_path(join_path(h.as_str(), ".local").as_str(), "share");
                    Some(join_path(join_path(share.as_str(), "aegis").as_str(), "Aegis"))
                },
            }
        },
    }
}

/// The host library of an app.
pub open spec fn bundled_library(app: Seq<char>, p: NativePlatform) -> Seq<char> {
    match p {
        NativePlatform::Macos => joined(
            joined(joined(app, "Contents"@), "Frameworks"@),
            "libaegis_host.dylib"@,
        ),
        NativePlatform::Linux => joined(joined(app, "lib"@), "libaegis_host.so"@),
    }
}

/// The host library of an app.
pub fn bundled_host_library(app_dir: &str, platform: NativePlatform) -> (res: String)
    ensures
        res@ == bundled_library(app_dir@, platform),
{
    match platform {
        NativePlatform::Macos => {
            let dir = join_path(join_path(app_dir, "Contents").as_str(), "Frameworks");
            join_path(dir.as_str(), "libaegis_host.dylib")
        },
        NativePlatform::Linux => join_path(join_path(app_dir, "lib").as_str(), "libaegis_host.so"),
    }
}

/// The command line tool of an app.
pub open spec fn bundled_cli(app: Seq<char>, p: NativePlatform) -> Seq<char> {
    match p {
        NativePlatform::Macos => joined(joined(joined(app, "Contents"@), "MacOS"@), "aegis_cli"@),
        NativePlatform::Linux => joined(joined(app, "bin"@), "aegis_cli"@),
    }
}

/// The command line tool of an app.
pub fn bundled_cli_path(app_dir: &str, platform: NativePlatform) -> (res: String)
    ensures
        res@ == bundled_cli(app_dir@, platform),
{
    match platform {
        NativePlatform::Macos => {
            let dir = join_path(join_path(app_dir, "Contents").as_str(), "MacOS");
            join_path(dir.as_str(), "aegis_cli")
        },
        NativePlatform::Linux => join_path(join_path(app_dir, "bin").as_str(), "aegis_cli"),
    }
}

/// The host library of the installed app, if there is a home directory.
pub fn canonical_install_host_library(facts: &NativeFacts) -> (res: Option<String>)
    ensures
        opt_text(res) == match install_path(facts.platform, opt_text(facts.home)) {
            Some(dir) => Some(bundled_library(dir, facts.platform)),
            None => None,
        },
{
    match canonical_install_dir(facts) {
        Some(dir) => Some(bundled_host_library(dir.as_str(), facts.platform)),
        None => None,
    }
}

/// A file name without its extension: what stands before the last dot, unless that is
/// nothing.
pub open spec fn stem_of(name: Seq<char>) -> Seq<char> {
    if last_dot(name) > 0 {
        name.take(last_dot(name))
    } else {
        name
    }
}

/// A file name without its extension.
pub fn file_stem(name: &str) -> (res: String)
    ensures
        res@ == stem_of(name@),
{
    let chars = chars_of(name);
    let n: usize = after_last_dot(&chars);
    if n > 1 {
        string_of(&chars, 0, n - 1)
    } else {
        name.to_owned()
    }
}

/// The name of the executable of a bundle: the one that it names, else that of the bundle
/// itself.
pub open spec fn bundle_executable(f: NativeFacts, app: Seq<char>) -> Seq<char> {
    if f.bundles@.contains_key(app) {
        f.bundles@[app]
    } else {
        match file_name_of(app) {
            Some(name) => stem_of(name),
            None => "aegis_native"@,
        }
    }
}

/// The executable of an app.
pub open spec fn executable_path(f: NativeFacts, app: Seq<char>) -> Seq<char> {
    match f.platform {
        NativePlatform::Macos => joined(
            joined(joined(app, "Contents"@), "MacOS"@),
            bundle_executable(f, app),
        ),
        NativePlatform::Linux => {
            let bin = joined(app, "bin"@);
            let bundled = joined(bin, "aegis_native"@);
            if f.paths.has(bundled) || f.paths.has(bin) {
                bundled
            } else {
                joined(app, "aegis_native"@)
            }
        },
    }
}

/// The executable of an app.
pub fn app_executable(app_dir: &str, facts: &NativeFacts) -> (res: String)
    ensures
        res@ == executable_path(*facts, app_dir@),
{
    match facts.platform {
        NativePlatform::Macos => {
            let name = match facts.bundles.get(app_dir) {
                Some(name) => name.clone(),
                None => match file_name(app_dir) {
                    Some(file) => file_stem(file.as_str()),
                    None => "aegis_native".to_owned(),
                },
            };
            let dir = join_path(join_path(app_dir, "Contents").as_str(), "MacOS");
            join_path(dir.as_str(), name.as_str())
        },
        NativePlatform::Linux => {
            let bin = join_path(app_dir, "bin");
            let bundled = join_path(bin.as_str(), "aegis_native");
            if facts.paths.knows(bundled.as_str()) || facts.paths.knows(bin.as_str()) {
                bundled
            } else {
                join_path(app_dir, "aegis_native")
            }
        },
    }
}

/// The app that is used: the installed one if it is there, else that of the workspace.
pub open spec fn preferred_app(f: NativeFacts, root: Seq<char>) -> Seq<char> {
    match install_path(f.platform, opt_text(f.home)) {
        Some(dir) => if f.paths.has(dir) {
            dir
        } else {
            workspace_app(root, f.platform)
        },
        None => workspace_app(root, f.platform),
    }
}

/// The app that is used.
pub fn preferred_app_dir(root: &str, facts: &NativeFacts) -> (res: String)
    ensures
        res@ == preferred_app(*facts, root@),
{
    if let Some(dir) = canonical_install_dir(facts) {
        if facts.paths.knows(dir.as_str()) {
            return dir;
        }
    }
    default_workspace_app_dir(root, facts.platform)
}

/// The host library that is used: on macOS that of the workspace if it is there, else that of
/// the installed app; on Linux that of the app if it is there, else that of the workspace.
pub open spec fn preferred_library(f: NativeFacts, root: Seq<char>, app: Seq<char>) -> Seq<char> {
    let workspace = workspace_library(root, f.platform);
    match f.platform {
        NativePlatform::Macos => if f.paths.has(workspace) {
            workspace
        } else {
            match install_path(f.platform, opt_text(f.home)) {
                Some(dir) => bundled_library(dir, f.platform),
                None => bundled_library(app, f.platform),
            }
        },
        NativePlatform::Linux => if f.paths.has(bundled_library(app, f.platform)) {
            bundled_library(app, f.platform)
        } else {
            workspace
        },
    }
}

/// The host library that is used.
pub fn preferred_host_library(root: &str, app_dir: &str, facts: &NativeFacts) -> (res: String)
    ensures
        res@ == preferred_library(*facts, root@, app_dir@),
{
    let workspace = workspace_host_library(root, facts.platform);
    match facts.platform {
        NativePlatform::Macos => {
            if facts.paths.knows(workspace.as_str()) {
                return workspace;
            }
            match canonical_install_host_library(facts) {
                Some(library) => library,
                None => bundled_host_library(app_dir, facts.platform),
            }
        },
        NativePlatform::Linux => {
            let bundled = bundled_host_library(app_dir, facts.platform);
            if facts.paths.knows(bundled.as_str()) {
                return bundled;
            }
            workspace
        },
    }
}

/// Where the native host stands.
#[derive(Debug)]
pub struct NativeStatus {
    pub platform: NativePlatform,
    pub cef_sdk_root: String,
    pub cef_sdk_present: bool,
    pub build_dir: String,
    pub configure_artifact: String,
    pub configure_artifact_present: bool,
    pub default_app_dir: String,
    pub default_app_dir_present: bool,
    pub default_app_executable: String,
    pub default_app_executable_present: bool,
    pub default_host_library: String,
    pub default_host_library_present: bool,
}

/// The contents of a `NativeStatus`.
#[verifier::ext_equal]
pub struct NativeStatusView {
    pub platform: NativePlatform,
    pub cef_sdk_root: Seq<char>,
    pub cef_sdk_present: bool,
    pub build_dir: Seq<char>,
    pub configure_artifact: Seq<char>,
    pub configure_artifact_present: bool,
    pub default_app_dir: Seq<char>,
    pub default_app_dir_present: bool,
    pub default_app_executable: Seq<char>,
    pub default_app_executable_present: bool,
    pub default_host_library: Seq<char>,
    pub default_host_library_present: bool,
}

impl View for NativeStatus {
    type V = NativeStatusView;

    open spec fn view(&self) -> NativeStatusView {
        NativeStatusView {
            platform: self.platform,
            cef_sdk_root: self.cef_sdk_root@,
            cef_sdk_present: self.cef_sdk_present,
            build_dir: self.build_dir@,
            configure_artifact: self.configure_artifact@,
            configure_artifact_present: self.configure_artifact_present,
            default_app_dir: self.default_app_dir@,
            default_app_dir_present: self.default_app_dir_present,
            default_app_executable: self.default_app_executable@,
            default_app_executable_present: self.default_app_executable_present,
            default_host_library: self.default_host_library@,
            default_host_library_present: self.default_host_library_present,
        }
    }
}

/// Where the native host of a workspace stands.
pub open spec fn native_status(f: NativeFacts, root: Seq<char>) -> NativeStatusView {
    let sdk = joined(root, sdk_dir(f.platform));
    let configured = configured_path(root, f.platform);
    let app = preferred_app(f, root);
    let executable = executable_path(f, app);
    let library = preferred_library(f, root, app);
    NativeStatusView {
        platform: f.platform,
        cef_sdk_root: sdk,
        cef_sdk_present: f.paths.has(sdk),
        build_dir: build_path(root, f.platform),
        configure_artifact: configured,
        configure_artifact_present: f.paths.has(configured),
        default_app_dir: app,
        default_app_dir_present: f.paths.has(app),
        default_app_executable: executable,
        default_app_executable_present: f.paths.has(executable),
        default_host_library: library,
        default_host_library_present: f.paths.has(library),
    }
}

/// Where the native host of a workspace stands.
pub fn status(root: &str, facts: &NativeFacts) -> (res: NativeStatus)
    ensures
        res@ == native_status(*facts, root@),
{
    let cef_sdk_root = join_path(root, cef_sdk_dir(facts.platform));
    let configure_artifact = configure_artifact(root, facts.platform);
    let default_app_dir = preferred_app_dir(root, facts);
    let default_app_executable = app_executable(default_app_dir.as_str(), facts);
    let default_host_library = preferred_host_library(root, default_app_dir.as_str(), facts);
    NativeStatus {
        platform: facts.platform,
        cef_sdk_present: facts.paths.knows(cef_sdk_root.as_str()),
        cef_sdk_root,
        build_dir: build_dir(root, facts.platform),
        configure_artifact_present: facts.paths.knows(configure_artifact.as_str()),
        configure_artifact,
        default_app_dir_present: facts.paths.knows(default_app_dir.as_str()),
        default_app_dir,
        default_app_executable_present: facts.paths.knows(default_app_executable.as_str()),
        default_app_executable,
        default_host_library_present: facts.paths.knows(default_host_library.as_str()),
        default_host_library,
    }
}

/// A tool, and whether it is installed.
#[derive(Debug)]
pub struct NativeToolStatus {
    pub name: String,
    pub found: bool,
}

/// The contents of a `NativeToolStatus`.
#[verifier::ext_equal]
pub struct ToolView {
    pub name: Seq<char>,
    pub found: bool,
}

impl View for NativeToolStatus {
    type V = ToolView;

    open spec fn view(&self) -> ToolView {
        ToolView { name: self.name@, found: self.found }
    }
}

/// The contents of a list of tools.
pub open spec fn tools_view(list: Seq<NativeToolStatus>) -> Seq<ToolView> {
    Seq::new(list.len(), |i: int| list[i]@)
}

/// The tools that a platform needs.
pub open spec fn needed_tools(p: NativePlatform) -> Seq<Seq<char>> {
    match p {
        NativePlatform::Macos => seq![
            "cargo"@,
            "cmake"@,
            "python3"@,
            "xcodebuild"@,
            "codesign"@,
        ],
        NativePlatform::Linux => seq!["cargo"@, "cmake"@, "python3"@],
    }
}

/// The contents of a list of borrowed texts.
pub open spec fn str_views(list: Seq<&'static str>) -> Seq<Seq<char>> {
    Seq::new(list.len(), |i: int| list[i]@)
}

/// The tools that a platform needs.
pub fn required_command_names(platform: NativePlatform) -> (res: Vec<&'static str>)
    ensures
        str_views(res@) == needed_tools(platform),
{
    let mut names: Vec<&'static str> = Vec::new();
    names.push("cargo");
    names.push("cmake");
    names.push("python3");
    if platform == NativePlatform::Macos {
        names.push("xcodebuild");
        names.push("codesign");
    }
    assert(str_views(names@) =~= needed_tools(platform));
    names
}

/// Which of the needed tools are installed.
pub open spec fn tool_table(f: NativeFacts) -> Seq<ToolView> {
    let names = needed_tools(f.platform);
    Seq::new(
        names.len(),
        |i: int| ToolView { name: names[i], found: texts(f.tools@).contains(names[i]) },
    )
}

/// The names of the tools in a list that are not installed.
pub open spec fn not_found(tools: Seq<ToolView>) -> Seq<Seq<char>>
    decreases tools.len(),
{
    if tools.len() == 0 {
        Seq::empty()
    } else if tools.last().found {
        not_found(tools.drop_last())
    } else {
        not_found(tools.drop_last()).push(tools.last().name)
    }
}

/// What a check of the native host comes to.
#[derive(Debug)]
pub struct NativeDoctor {
    pub status: NativeStatus,
    pub canonical_install_dir: Option<String>,
    pub canonical_install_app_executable: Option<String>,
    pub canonical_install_cli: Option<String>,
    pub canonical_install_host_library: Option<String>,
    pub workspace_app_dir: String,
    pub workspace_app_executable: String,
    pub workspace_app_executable_present: bool,
    pub workspace_host_library: String,
    pub workspace_host_library_present: bool,
    pub required_tools: Vec<NativeToolStatus>,
    pub missing_tools: Vec<String>,
    pub ready_for_configure: bool,
    pub ready_for_build: bool,
    pub ready_for_install: bool,
    pub notes: Vec<String>,
}

/// The contents of a `NativeDoctor`.
#[verifier::ext_equal]
pub struct DoctorView {
    pub status: NativeStatusView,
    pub canonical_install_dir: Option<Seq<char>>,
    pub canonical_install_app_executable: Option<Seq<char>>,
    pub canonical_install_cli: Option<Seq<char>>,
    pub canonical_install_host_library: Option<Seq<char>>,
    pub workspace_app_dir: Seq<char>,
    pub workspace_app_executable: Seq<char>,
    pub workspace_app_executable_present: bool,
    pub workspace_host_library: Seq<char>,
    pub workspace_host_library_present: bool,
    pub required_tools: Seq<ToolView>,
    pub missing_tools: Seq<Seq<char>>,
    pub ready_for_configure: bool,
    pub ready_for_build: bool,
    pub ready_for_install: bool,
    pub notes: Seq<Seq<char>>,
}

impl View for NativeDoctor {
    type V = DoctorView;

    open spec fn view(&self) -> DoctorView {
        DoctorView {
            status: self.status@,
            canonical_install_dir: opt_text(self.canonical_install_dir),
            canonical_install_app_executable: opt_text(self.canonical_install_app_executable),
            canonical_install_cli: opt_text(self.canonical_install_cli),
            canonical_install_host_library: opt_text(self.canonical_install_host_library),
            workspace_app_dir: self.workspace_app_dir@,
            workspace_app_executable: self.workspace_app_executable@,
            workspace_app_executable_present: self.workspace_app_executable_present,
            workspace_host_library: self.workspace_host_library@,
            workspace_host_library_present: self.workspace_host_library_present,
            required_tools: tools_view(self.required_tools@),
            missing_tools: texts(self.missing_tools@),
            ready_for_configure: self.ready_for_configure,
            ready_for_build: self.ready_for_build,
            ready_for_install: self.ready_for_install,
            notes: texts(self.notes@),
        }
    }
}

/// The executable of the installed app.
pub open spec fn installed_executable(f: NativeFacts, app: Seq<char>) -> Seq<char> {
    match f.platform {
        NativePlatform::Macos => executable_path(f, app),
        NativePlatform::Linux => joined(joined(app, "bin"@), "aegis_native"@),
    }
}

fn canonical_app_executable_path(app_dir: &str, facts: &NativeFacts) -> (res: String)
    ensures
        res@ == installed_executable(*facts, app_dir@),
{
    match facts.platform {
        NativePlatform::Macos => app_executable(app_dir, facts),
        NativePlatform::Linux => join_path(join_path(app_dir, "bin").as_str(), "aegis_native"),
    }
}

/// A note, where it applies.
pub open spec fn note_if(applies: bool, note: Seq<char>) -> Seq<Seq<char>> {
    if applies {
        seq![note]
    } else {
        Seq::empty()
    }
}

/// What is still to be done for the native host of a workspace.
pub open spec fn doctor_notes(f: NativeFacts, root: Seq<char>) -> Seq<Seq<char>> {
    let s = native_status(f, root);
    let library = workspace_library(root, f.platform);
    let executable = executable_path(f, workspace_app(root, f.platform));
    note_if(
        !s.cef_sdk_present,
        "Install the platform CEF bundle under "@ + s.cef_sdk_root
            + " before configuring or building native artifacts."@,
    ) + note_if(
        !s.configure_artifact_present,
        "Run `aegis native configure` to generate native build files."@,
    ) + note_if(
        !f.paths.has(library),
        "Build the native host library so "@ + library + " exists."@,
    ) + note_if(
        !f.paths.has(executable),
        "Build the native app target so "@ + executable + " exists."@,
    ) + note_if(
        install_path(f.platform, opt_text(f.home)) matches Some(dir) && !f.paths.has(
            bundled_cli(dir, f.platform),
        ),
        "Run `aegis native install` or `./install.sh` to refresh the canonical local app."@,
    )
}

/// What a check of the native host of a workspace comes to.
pub open spec fn doctor_report(f: NativeFacts, root: Seq<char>) -> DoctorView {
    let s = native_status(f, root);
    let install = install_path(f.platform, opt_text(f.home));
    let app = workspace_app(root, f.platform);
    let executable = executable_path(f, app);
    let library = workspace_library(root, f.platform);
    let tools = tool_table(f);
    let configurable = not_found(tools).len() == 0 && s.cef_sdk_present;
    DoctorView {
        status: s,
        canonical_install_dir: install,
        canonical_install_app_executable: match install {
            Some(dir) => Some(installed_executable(f, dir)),
            None => None,
        },
        canonical_install_cli: match install {
            Some(dir) => Some(bundled_cli(dir, f.platform)),
            None => None,
        },
        canonical_install_host_library: match install {
            Some(dir) => Some(bundled_library(dir, f.platform)),
            None => None,
        },
        workspace_app_dir: app,
        workspace_app_executable: executable,
        workspace_app_executable_present: f.paths.has(executable),
        workspace_host_library: library,
        workspace_host_library_present: f.paths.has(library),
        required_tools: tools,
        missing_tools: not_found(tools),
        ready_for_configure: configurable,
        ready_for_build: configurable && s.configure_artifact_present,
        ready_for_install: configurable && f.paths.has(library) && f.paths.has(executable),
        notes: doctor_notes(f, root),
    }
}

fn check_tools(facts: &NativeFacts) -> (res: (Vec<NativeToolStatus>, Vec<String>))
    ensures
        tools_view(res.0@) == tool_table(*facts),
        texts(res.1@) == not_found(tool_table(*facts)),
{
    let names = required_command_names(facts.platform);
    let ghost table = tool_table(*facts);
    let mut tools: Vec<NativeToolStatus> = Vec::new();
    let mut missing: Vec<String> = Vec::new();
    let mut i: usize = 0;
    proof {
        assert(texts(missing@) =~= Seq::empty());
        assert(table.take(0) =~= Seq::empty());
        assert(table.len() == str_views(names@).len());
    }
    while i < names.len()
        invariant
            i <= names@.len(),
            table == tool_table(*facts),
            str_views(names@) == needed_tools(facts.platform),
            table.len() == names@.len(),
            tools@.len() == i,
            forall|j: int| 0 <= j < i ==> (#[trigger] tools@[j])@ == table[j],
            texts(missing@) == not_found(table.take(i as int)),
        decreases names@.len() - i,
    {
        let name = names[i];
        proof {
            assert(name@ == str_views(names@)[i as int]);
            assert(table.take(i + 1).drop_last() =~= table.take(i as int));
            assert(table.take(i + 1).last() == table[i as int]);
        }
        let found = texts_contain(&facts.tools, name);
        let ghost before = missing@;
        if !found {
            missing.push(name.to_owned());
            assert(texts(missing@) =~= texts(before).push(name@));
        }
        tools.push(NativeToolStatus { name: name.to_owned(), found });
        i += 1;
    }
    assert(table.take(i as int) =~= table);
    assert(tools_view(tools@) =~= table);
    (tools, missing)
}

fn add_note(notes: &mut Vec<String>, applies: bool, note: String)
    ensures
        texts(final(notes)@) == texts(old(notes)@) + note_if(applies, note@),
{
    let ghost before = notes@;
    if applies {
        let ghost n = note@;
        notes.push(note);
        assert(texts(notes@) =~= texts(before) + seq![n]);
    } else {
        assert(texts(notes@) =~= texts(before) + Seq::<Seq<char>>::empty());
    }
}

/// Checks the native host of a workspace.
pub fn doctor(root: &str, facts: &NativeFacts) -> (res: NativeDoctor)
    ensures
        res@ == doctor_report(*facts, root@),
{
    let platform = facts.platform;
    let status = status(root, facts);
    let canonical_install_dir = canonical_install_dir(facts);
    let (canonical_install_app_executable, canonical_install_cli, canonical_install_host_library) =
        match &canonical_install_dir {
        Some(dir) => (
            Some(canonical_app_executable_path(dir.as_str(), facts)),
            Some(bundled_cli_path(dir.as_str(), platform)),
            Some(bundled_host_library(dir.as_str(), platform)),
        ),
        None => (None, None, None),
    };
    let workspace_app_dir = default_workspace_app_dir(root, platform);
    let workspace_app_executable = app_executable(workspace_app_dir.as_str(), facts);
    let workspace_host_library = workspace_host_library(root, platform);
    let executable_present = facts.paths.knows(workspace_app_executable.as_str());
    let library_present = facts.paths.knows(workspace_host_library.as_str());
    let (required_tools, missing_tools) = check_tools(facts);
    let cli_missing = match &canonical_install_cli {
        Some(path) => !facts.paths.knows(path.as_str()),
        None => false,
    };
    let mut notes: Vec<String> = Vec::new();
    assert(texts(notes@) =~= Seq::<Seq<char>>::empty());
    add_note(
        &mut notes,
        !status.cef_sdk_present,
        concat3(
            "Install the platform CEF bundle under ",
            status.cef_sdk_root.as_str(),
            " before configuring or building native artifacts.",
        ),
    );
    assert(Seq::<Seq<char>>::empty() + texts(notes@) =~= texts(notes@));
    add_note(
        &mut notes,
        !status.configure_artifact_present,
        "Run `aegis native configure` to generate native build files.".to_owned(),
    );
    add_note(
        &mut notes,
        !library_present,
        concat3(
            "Build the native host library so ",
            workspace_host_library.as_str(),
            " exists.",
        ),
    );
    add_note(
        &mut notes,
        !executable_present,
        concat3(
            "Build the native app target so ",
            workspace_app_executable.as_str(),
            " exists.",
        ),
    );
    add_note(
        &mut notes,
        cli_missing,
        "Run `aegis native install` or `./install.sh` to refresh the canonical local app.".to_owned(),
    );
    assert(texts(notes@) =~= doctor_notes(*facts, root@));
    let ready_for_configure = missing_tools.len() == 0 && status.cef_sdk_present;
    assert(texts(missing_tools@).len() == missing_tools@.len());
    let ready_for_build = ready_for_configure && status.configure_artifact_present;
    NativeDoctor {
        status,
        canonical_install_dir,
        canonical_install_app_executable,
        canonical_install_cli,
        canonical_install_host_library,
        workspace_app_dir,
        workspace_app_executable,
        workspace_app_executable_present: executable_present,
        workspace_host_library,
        workspace_host_library_present: library_present,
        required_tools,
        missing_tools,
        ready_for_configure,
        ready_for_build,
        ready_for_install: ready_for_configure && library_present && executable_present,
        notes,
    }
}

/// Platforms and configurations by their names; any other system has no native host.
pub proof fn law_platforms_and_configurations(os: Seq<char>)
    ensures
        platform_name(NativePlatform::Macos) == "macos"@,
        platform_name(NativePlatform::Linux) == "linux"@,
        platform_named("macos"@) == Some(NativePlatform::Macos),
        platform_named("linux"@) == Some(NativePlatform::Linux),
        os != "macos"@ && os != "linux"@ ==> platform_named(os) is None,
        configuration_name(NativeConfiguration::Debug) == "Debug"@,
        configuration_name(NativeConfiguration::Release) == "Release"@,
        configuration_dir(NativePlatform::Macos, NativeConfiguration::Debug) == "Debug"@,
        configuration_dir(NativePlatform::Macos, NativeConfiguration::Release) == "Release"@,
        configuration_dir(NativePlatform::Linux, NativeConfiguration::Debug) == "debug"@,
        configuration_dir(NativePlatform::Linux, NativeConfiguration::Release) == "release"@,
{
    reveal_strlit("macos");
    reveal_strlit("linux");
    assert("macos"@.len() == 5 && "linux"@.len() == 5);
    assert("macos"@[0] == 'm' && "linux"@[0] == 'l');
}

/// Where what is built stands: below `native/build` in the directory of the platform, and there in
/// that of the configuration, under the name that the platform gives to each target.
pub proof fn law_places_of_builds(root: Seq<char>, c: NativeConfiguration, target: Seq<char>)
    ensures
        build_path(root, NativePlatform::Macos) == joined(
            joined(joined(root, "native"@), "build"@),
            "macos"@,
        ),
        build_path(root, NativePlatform::Linux) == joined(
            joined(joined(root, "native"@), "build"@),
            "linux"@,
        ),
        configured_path(root, NativePlatform::Macos) == joined(
            build_path(root, NativePlatform::Macos),
            "aegis_native.xcodeproj"@,
        ),
        configured_path(root, NativePlatform::Linux) == joined(
            build_path(root, NativePlatform::Linux),
            "CMakeCache.txt"@,
        ),
        forall|p: NativePlatform| #[trigger]
            target_path(root, p, c, target) == joined(
                joined(build_path(root, p), configuration_dir(p, c)),
                target_file(p, target),
            ),
        target_file(NativePlatform::Macos, "aegis_host"@) == "libaegis_host.dylib"@,
        target_file(NativePlatform::Linux, "aegis_host"@) == "libaegis_host.so"@,
        target_file(NativePlatform::Linux, "aegis_helper"@) == "aegis_helper"@,
        target != "aegis_host"@ ==> target_file(NativePlatform::Macos, target)
            == "aegis_native.app"@,
        target != "aegis_host"@ && target != "aegis_helper"@ ==> target_file(
            NativePlatform::Linux,
            target,
        ) == "aegis_native"@,
        forall|p: NativePlatform| #[trigger]
            workspace_library(root, p) == target_path(
                root,
                p,
                NativeConfiguration::Release,
                "aegis_host"@,
            ),
        workspace_app(root, NativePlatform::Macos) == target_path(
            root,
            NativePlatform::Macos,
            NativeConfiguration::Release,
            "aegis_native"@,
        ),
        workspace_app(root, NativePlatform::Linux) == joined(root, "native/build/linux/release"@),
{
    reveal_strlit("aegis_host");
    reveal_strlit("aegis_helper");
    assert("aegis_host"@.len() == 10 && "aegis_helper"@.len() == 12);
}

/// Where the host is installed, and where in an installation the library and the tool stand.
pub proof fn law_places_of_installations(home: Option<Seq<char>>, app: Seq<char>)
    ensures
        forall|p: NativePlatform| home is None ==> #[trigger] install_path(p, home) is None,
        home is Some ==> install_path(NativePlatform::Macos, home) == Some(
            joined(joined(home->Some_0, "Applications"@), "Aegis.app"@),
        ),
        home is Some ==> install_path(NativePlatform::Linux, home) == Some(
            joined(
                joined(joined(joined(home->Some_0, ".local"@), "share"@), "aegis"@),
                "Aegis"@,
            ),
        ),
        bundled_library(app, NativePlatform::Macos) == joined(
            joined(joined(app, "Contents"@), "Frameworks"@),
            "libaegis_host.dylib"@,
        ),
        bundled_library(app, NativePlatform::Linux) == joined(
            joined(app, "lib"@),
            "libaegis_host.so"@,
        ),
        bundled_cli(app, NativePlatform::Macos) == joined(
            joined(joined(app, "Contents"@), "MacOS"@),
            "aegis_cli"@,
        ),
        bundled_cli(app, NativePlatform::Linux) == joined(joined(app, "bin"@), "aegis_cli"@),
{
}

/// The app that is used is the installed one where it is there, and else that of the workspace.
/// The library on macOS is that of the workspace where it is there, and else the installed one;
/// on Linux it is that of the app where it is there, and else that of the workspace.
pub proof fn law_what_is_used(f: NativeFacts, root: Seq<char>, app: Seq<char>)
    ensures
        ({
            let installed = install_path(f.platform, opt_text(f.home));
            let there = installed is Some && f.paths.has(installed->Some_0);
            let workspace = workspace_library(root, f.platform);
            let library = preferred_library(f, root, app);
            &&& there ==> preferred_app(f, root) == installed->Some_0
            &&& !there ==> preferred_app(f, root) == workspace_app(root, f.platform)
            &&& f.platform == NativePlatform::Macos && f.paths.has(workspace) ==> library
                == workspace
            &&& f.platform == NativePlatform::Macos && !f.paths.has(workspace) && installed is Some
                ==> library == bundled_library(installed->Some_0, f.platform)
            &&& f.platform == NativePlatform::Macos && !f.paths.has(workspace) && installed is None
                ==> library == bundled_library(app, f.platform)
            &&& f.platform == NativePlatform::Linux && f.paths.has(bundled_library(app, f.platform))
                ==> library == bundled_library(app, f.platform)
            &&& f.platform == NativePlatform::Linux && !f.paths.has(
                bundled_library(app, f.platform),
            ) ==> library == workspace
        }),
{
}

/// The executable of an app on macOS is the one that its bundle names, or else it is named like the
/// app without its extension; on Linux it is in `bin` where that is there, and else in the app
/// itself.
pub proof fn law_executable_of_an_app(f: NativeFacts, app: Seq<char>)
    ensures
        f.platform == NativePlatform::Macos ==> {
            let dir = joined(joined(app, "Contents"@), "MacOS"@);
            &&& f.bundles@.contains_key(app) ==> executable_path(f, app) == joined(
                dir,
                f.bundles@[app],
            )
            &&& !f.bundles@.contains_key(app) && file_name_of(app) is Some ==> executable_path(
                f,
                app,
            ) == joined(dir, stem_of(file_name_of(app)->Some_0))
            &&& !f.bundles@.contains_key(app) && file_name_of(app) is None ==> executable_path(
                f,
                app,
            ) == joined(dir, "aegis_native"@)
        },
        f.platform == NativePlatform::Linux ==> {
            let bin = joined(app, "bin"@);
            let inside = f.paths.has(bin) || f.paths.has(joined(bin, "aegis_native"@));
            &&& inside ==> executable_path(f, app) == joined(bin, "aegis_native"@)
            &&& !inside ==> executable_path(f, app) == joined(app, "aegis_native"@)
        },
{
}

/// What the status says of each place is where it is and whether it is there.
pub proof fn law_status_of_the_host(f: NativeFacts, root: Seq<char>)
    ensures
        ({
            let s = native_status(f, root);
            &&& s.platform == f.platform
            &&& s.cef_sdk_root == joined(root, sdk_dir(f.platform))
            &&& s.build_dir == build_path(root, f.platform)
            &&& s.configure_artifact == configured_path(root, f.platform)
            &&& s.default_app_dir == preferred_app(f, root)
            &&& s.default_app_executable == executable_path(f, s.default_app_dir)
            &&& s.default_host_library == preferred_library(f, root, s.default_app_dir)
            &&& s.cef_sdk_present == f.paths.has(s.cef_sdk_root)
            &&& s.configure_artifact_present == f.paths.has(s.configure_artifact)
            &&& s.default_app_dir_present == f.paths.has(s.default_app_dir)
            &&& s.default_app_executable_present == f.paths.has(s.default_app_executable)
            &&& s.default_host_library_present == f.paths.has(s.default_host_library)
        }),
{
}

proof fn lemma_not_found(tools: Seq<ToolView>)
    ensures
        forall|t: ToolView|
            tools.contains(t) && !t.found ==> #[trigger] not_found(tools).contains(t.name),
        not_found(tools).len() == 0 <==> forall|i: int|
            0 <= i < tools.len() ==> (#[trigger] tools[i]).found,
    decreases tools.len(),
{
    if tools.len() > 0 {
        let init = tools.drop_last();
        lemma_not_found(init);
        let before = not_found(init);
        assert forall|t: ToolView| tools.contains(t) && !t.found implies #[trigger] not_found(
            tools,
        ).contains(t.name) by {
            let i = choose|i: int| 0 <= i < tools.len() && tools[i] == t;
            if i < init.len() {
                assert(init[i] == t);
                assert(before.contains(t.name));
                let k = choose|k: int| 0 <= k < before.len() && before[k] == t.name;
                assert(before.push(tools.last().name)[k] == t.name);
            } else {
                assert(before.push(tools.last().name)[before.len() as int] == t.name);
            }
        }
        if forall|i: int| 0 <= i < tools.len() ==> (#[trigger] tools[i]).found {
            assert forall|i: int| 0 <= i < init.len() implies (#[trigger] init[i]).found by {
                assert(tools[i].found);
            }
            assert(tools[tools.len() - 1].found);
        }
        if not_found(tools).len() == 0 {
            assert forall|i: int| 0 <= i < tools.len() implies (#[trigger] tools[i]).found by {
                if i < init.len() {
                    assert(init[i].found);
                }
            }
        }
    }
}

/// The tools that are needed are cargo, cmake and python3, and on macOS also xcodebuild and
/// codesign; each is told as found exactly when it was, and what is missing is listed.
pub proof fn law_tools_that_are_needed(f: NativeFacts, name: Seq<char>)
    ensures
        needed_tools(NativePlatform::Linux).contains(name) <==> name == "cargo"@ || name
            == "cmake"@ || name == "python3"@,
        needed_tools(NativePlatform::Macos).contains(name) <==> name == "cargo"@ || name
            == "cmake"@ || name == "python3"@ || name == "xcodebuild"@ || name == "codesign"@,
        tool_table(f).len() == needed_tools(f.platform).len(),
        forall|i: int|
            0 <= i < tool_table(f).len() ==> (#[trigger] tool_table(f)[i]).name == needed_tools(
                f.platform,
            )[i] && (tool_table(f)[i].found <==> texts(f.tools@).contains(
                needed_tools(f.platform)[i],
            )),
        needed_tools(f.platform).contains(name) && !texts(f.tools@).contains(name) ==> not_found(
            tool_table(f),
        ).contains(name),
        not_found(tool_table(f)).len() == 0 <==> forall|i: int|
            0 <= i < needed_tools(f.platform).len() ==> texts(f.tools@).contains(
                #[trigger] needed_tools(f.platform)[i],
            ),
{
    let l = needed_tools(NativePlatform::Linux);
    let m = needed_tools(NativePlatform::Macos);
    assert(l[0] == "cargo"@ && l[1] == "cmake"@ && l[2] == "python3"@);
    assert(m[0] == "cargo"@ && m[1] == "cmake"@ && m[2] == "python3"@ && m[3] == "xcodebuild"@
        && m[4] == "codesign"@);
    let t = tool_table(f);
    let n = needed_tools(f.platform);
    lemma_not_found(t);
    if n.contains(name) && !texts(f.tools@).contains(name) {
        let i = choose|i: int| 0 <= i < n.len() && n[i] == name;
        assert(t.contains(t[i]));
        assert(t[i].name == name && !t[i].found);
        assert(not_found(t).contains(t[i].name));
    }
    if not_found(t).len() == 0 {
        assert forall|i: int| 0 <= i < n.len() implies texts(f.tools@).contains(
            #[trigger] n[i],
        ) by {
            assert(t[i].found);
        }
    }
}

/// The doctor finds a workspace ready to be configured when all tools and the browser's kit are
/// there, ready to be built when it is configured besides, and ready to be installed when library
/// and app are built.
pub proof fn law_doctor_findings(f: NativeFacts, root: Seq<char>)
    ensures
        ({
            let d = doctor_report(f, root);
            let s = native_status(f, root);
            let app = workspace_app(root, f.platform);
            let installed = install_path(f.platform, opt_text(f.home));
            let ready = not_found(tool_table(f)).len() == 0 && s.cef_sdk_present;
            &&& d.status == s && d.required_tools == tool_table(f) && d.missing_tools == not_found(
                tool_table(f),
            )
            &&& d.canonical_install_dir == installed
            &&& installed is None ==> d.canonical_install_app_executable is None
                && d.canonical_install_cli is None && d.canonical_install_host_library is None
            &&& installed is Some ==> d.canonical_install_cli == Some(
                bundled_cli(installed->Some_0, f.platform),
            ) && d.canonical_install_host_library == Some(
                bundled_library(installed->Some_0, f.platform),
            )
            &&& installed is Some && f.platform == NativePlatform::Linux
                ==> d.canonical_install_app_executable == Some(
                joined(joined(installed->Some_0, "bin"@), "aegis_native"@),
            )
            &&& installed is Some && f.platform == NativePlatform::Macos
                ==> d.canonical_install_app_executable == Some(
                executable_path(f, installed->Some_0),
            )
            &&& d.workspace_app_dir == app && d.workspace_app_executable == executable_path(f, app)
            &&& d.workspace_host_library == workspace_library(root, f.platform)
            &&& d.workspace_app_executable_present == f.paths.has(d.workspace_app_executable)
            &&& d.workspace_host_library_present == f.paths.has(d.workspace_host_library)
            &&& d.ready_for_configure <==> ready
            &&& d.ready_for_build <==> ready && s.configure_artifact_present
            &&& d.ready_for_install <==> ready && d.workspace_host_library_present
                && d.workspace_app_executable_present
        }),
{
}

} // verus!
