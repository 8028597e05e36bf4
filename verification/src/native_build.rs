//! How the native host is configured, built, installed and signed.

use vstd::prelude::*;

use crate::native::{
    app_executable, artifact_for_target, build_dir, build_path, bundled_cli, bundled_cli_path,
    bundled_host_library, bundled_library, canonical_install_dir, cef_sdk_dir, configuration_name,
    configure_artifact, configured_path, executable_path, install_path, output_path, platform_name,
    preferred_app, preferred_app_dir, preferred_library, sdk_dir, str_views, target_path,
    workspace_host_library, workspace_library, NativeConfiguration, NativeFacts, NativePlatform,
};
use crate::paths::{join_path, joined};
use crate::text::{
    concat2, concat3, contains, contains_text, decimal, decimal_text, ends_with, ends_with_text,
    opt_text, str_eq, texts, trim, trimmed,
};
use crate::transport::bridge::{AegisError, ErrorView};

verus! {

/// How a build directory is configured.
#[derive(Debug)]
pub struct ConfigurePlan {
    pub build_dir: String,
    pub configure_artifact: String,
    pub args: Vec<String>,
}

/// The arguments with which a build directory is configured.
pub open spec fn configure_arguments(
    root: Seq<char>,
    p: NativePlatform,
    c: NativeConfiguration,
    arch: Seq<char>,
) -> Seq<Seq<char>> {
    seq![
        "-S"@,
        joined(root, "native"@),
        "-B"@,
        build_path(root, p),
        "-DAEGIS_TARGET_PLATFORM="@ + platform_name(p),
        "-DCEF_ROOT="@ + joined(root, sdk_dir(p)),
    ] + match p {
        NativePlatform::Macos => seq!["-G"@, "Xcode"@, "-DPROJECT_ARCH="@ + apple_name(arch)],
        NativePlatform::Linux => seq!["-DCMAKE_BUILD_TYPE="@ + configuration_name(c)],
    }
}

/// What Apple calls an architecture.
pub open spec fn apple_name(arch: Seq<char>) -> Seq<char> {
    if arch == "aarch64"@ {
        "arm64"@
    } else {
        arch
    }
}

/// What Apple calls an architecture.
pub fn apple_arch(arch: &str) -> (res: String)
    ensures
        res@ == apple_name(arch@),
{
    if str_eq(arch, "aarch64") {
        "arm64".to_owned()
    } else {
        arch.to_owned()
    }
}

/// How the build directory of a workspace is configured for a release.
pub fn configure_native(root: &str, platform: NativePlatform, arch: &str) -> (res: ConfigurePlan)
    ensures
        res.build_dir@ == build_path(root@, platform),
        res.configure_artifact@ == configured_path(root@, platform),
        texts(res.args@) == configure_arguments(
            root@,
            platform,
            NativeConfiguration::Release,
            arch@,
        ),
{
    configure_native_for(root, platform, NativeConfiguration::Release, arch)
}

/// How the build directory of a workspace is configured.
pub fn configure_native_for(
    root: &str,
    platform: NativePlatform,
    configuration: NativeConfiguration,
    arch: &str,
) -> (res: ConfigurePlan)
    ensures
        res.build_dir@ == build_path(root@, platform),
        res.configure_artifact@ == configured_path(root@, platform),
        texts(res.args@) == configure_arguments(root@, platform, configuration, arch@),
{
    let dir = build_dir(root, platform);
    let sdk = join_path(root, cef_sdk_dir(platform));
    let mut args: Vec<String> = Vec::new();
    args.push("-S".to_owned());
    args.push(join_path(root, "native"));
    args.push("-B".to_owned());
    args.push(dir.clone());
    args.push(concat2("-DAEGIS_TARGET_PLATFORM=", platform.as_str()));
    args.push(concat2("-DCEF_ROOT=", sdk.as_str()));
    match platform {
        NativePlatform::Macos => {
            args.push("-G".to_owned());
            args.push("Xcode".to_owned());
            args.push(concat2("-DPROJECT_ARCH=", apple_arch(arch).as_str()));
        },
        NativePlatform::Linux => {
            args.push(concat2("-DCMAKE_BUILD_TYPE=", configuration.as_str()));
        },
    }
    assert(texts(args@) =~= configure_arguments(root@, platform, configuration, arch@));
    ConfigurePlan {
        build_dir: dir,
        configure_artifact: configure_artifact(root, platform),
        args,
    }
}

/// Whether a build directory can be used again: it was configured, or its cache was written
/// with the generator of the platform.
pub open spec fn tree_healthy(configured: bool, cache: Option<Seq<char>>, p: NativePlatform) -> bool {
    configured || (cache matches Some(text) && contains_text(
        text,
        match p {
            NativePlatform::Macos => "CMAKE_GENERATOR:INTERNAL=Xcode"@,
            NativePlatform::Linux => "CMAKE_GENERATOR:INTERNAL=Unix Makefiles"@,
        },
    ))
}

/// Whether a build directory can be used again.
pub fn native_build_tree_healthy(
    configured: bool,
    cache: &Option<String>,
    platform: NativePlatform,
) -> (res: bool)
    ensures
        res == tree_healthy(configured, opt_text(*cache), platform),
{
    if configured {
        return true;
    }
    match cache {
        None => false,
        Some(text) => match platform {
            NativePlatform::Macos => contains(text.as_str(), "CMAKE_GENERATOR:INTERNAL=Xcode"),
            NativePlatform::Linux => contains(
                text.as_str(),
                "CMAKE_GENERATOR:INTERNAL=Unix Makefiles",
            ),
        },
    }
}

/// Whether one of some files, as far as they are there, changed after a time.
pub open spec fn changed_after(times: Seq<Option<i128>>, time: i128) -> bool {
    exists|i: int| 0 <= i < times.len() && (#[trigger] times[i] matches Some(t) && t > time)
}

/// Whether one of some files, as far as they are there, changed after a time.
pub fn any_changed_after(times: &[Option<i128>], time: i128) -> (res: bool)
    ensures
        res == changed_after(times@, time),
{
    let mut i: usize = 0;
    while i < times.len()
        invariant
            i <= times@.len(),
            forall|j: int|
                0 <= j < i ==> !(#[trigger] times@[j] matches Some(t) && t > time),
        decreases times@.len() - i,
    {
        if let Some(t) = times[i] {
            if t > time {
                assert(times@[i as int] matches Some(t) && t > time);
                return true;
            }
        }
        i += 1;
    }
    false
}

/// The files whose change makes a configured build directory stale.
pub open spec fn configure_inputs(root: Seq<char>) -> Seq<Seq<char>> {
    let native = joined(root, "native"@);
    seq![
        joined(native, "CMakeLists.txt"@),
        joined(joined(native, "mac"@), "Info.plist.in"@),
        joined(joined(native, "mac"@), "helper-Info.plist.in"@),
    ]
}

/// The files whose change makes a configured build directory stale.
pub fn native_configure_inputs(root: &str) -> (res: Vec<String>)
    ensures
        texts(res@) == configure_inputs(root@),
{
    let native = join_path(root, "native");
    let mac = join_path(native.as_str(), "mac");
    let mut list: Vec<String> = Vec::new();
    list.push(join_path(native.as_str(), "CMakeLists.txt"));
    list.push(join_path(mac.as_str(), "Info.plist.in"));
    list.push(join_path(mac.as_str(), "helper-Info.plist.in"));
    assert(texts(list@) =~= configure_inputs(root@));
    list
}

/// Whether a build directory is to be removed before it is configured: it is there, and cannot
/// be used again or is older than what it was configured from.
pub fn native_build_tree_to_remove(
    build_dir_exists: bool,
    configured_at: Option<i128>,
    cache: &Option<String>,
    input_times: &[Option<i128>],
    platform: NativePlatform,
) -> (res: bool)
    ensures
        res == (build_dir_exists && (!tree_healthy(
            configured_at is Some,
            opt_text(*cache),
            platform,
        ) || (configured_at matches Some(t) && changed_after(input_times@, t)))),
{
    if !build_dir_exists {
        return false;
    }
    if !native_build_tree_healthy(configured_at.is_some(), cache, platform) {
        return true;
    }
    match configured_at {
        Some(t) => any_changed_after(input_times, t),
        None => false,
    }
}

/// Whether configuring is tried once more, in a new directory, after it failed.
pub fn native_build_tree_can_retry(build_dir_exists: bool, configured: bool) -> (res: bool)
    ensures
        res == (build_dir_exists && !configured),
{
    build_dir_exists && !configured
}

/// How a target is built.
#[derive(Debug)]
pub struct BuildPlan {
    pub args: Vec<String>,
    pub artifact: String,
}

/// The target that is built where none is named.
pub open spec fn chosen_target(target: Option<&str>) -> Seq<char> {
    match target {
        Some(t) => t@,
        None => "aegis_native"@,
    }
}

/// The arguments with which a target is built.
pub open spec fn build_arguments(
    root: Seq<char>,
    p: NativePlatform,
    c: NativeConfiguration,
    target: Seq<char>,
    parallelism: Option<u64>,
) -> Seq<Seq<char>> {
    seq!["--build"@, build_path(root, p), "--target"@, target] + match p {
        NativePlatform::Macos => seq!["--config"@, configuration_name(c)],
        NativePlatform::Linux => match parallelism {
            Some(n) => seq!["--parallel"@, decimal_text(n as nat)],
            None => Seq::empty(),
        },
    }
}

/// How a target is built.
pub fn build_native(
    root: &str,
    platform: NativePlatform,
    configuration: NativeConfiguration,
    target: Option<&str>,
    parallelism: Option<u64>,
) -> (res: BuildPlan)
    ensures
        texts(res.args@) == build_arguments(
            root@,
            platform,
            configuration,
            chosen_target(target),
            parallelism,
        ),
        res.artifact@ == target_path(root@, platform, configuration, chosen_target(target)),
{
    let target = match target {
        Some(t) => t,
        None => "aegis_native",
    };
    let mut args: Vec<String> = Vec::new();
    args.push("--build".to_owned());
    args.push(build_dir(root, platform));
    args.push("--target".to_owned());
    args.push(target.to_owned());
    match platform {
        NativePlatform::Macos => {
            args.push("--config".to_owned());
            args.push(configuration.as_str().to_owned());
        },
        NativePlatform::Linux => {
            if let Some(n) = parallelism {
                args.push("--parallel".to_owned());
                args.push(decimal(n));
            }
        },
    }
    assert(texts(args@) =~= build_arguments(root@, platform, configuration, target@, parallelism));
    BuildPlan { args, artifact: artifact_for_target(root, platform, configuration, target) }
}

/// The files whose change makes a built runtime stale.
pub open spec fn runtime_inputs(root: Seq<char>) -> Seq<Seq<char>> {
    let native = joined(root, "native"@);
    seq![
        joined(joined(joined(root, "assets"@), "js"@), "aegis_runtime.js"@),
        joined(joined(root, "scripts"@), "generate_runtime_header.py"@),
        joined(native, "CMakeLists.txt"@),
        joined(native, "aegis_app.cc"@),
        joined(native, "aegis_client.cc"@),
        joined(joined(native, "src"@), "aegis_cef_host.cpp"@),
        joined(joined(native, "src"@), "aegis_protocol.cpp"@),
        joined(joined(native, "include"@), "aegis_cef_host.hpp"@),
        joined(joined(native, "include"@), "aegis_protocol.hpp"@),
    ]
}

/// The files whose change makes a built runtime stale.
pub fn workspace_runtime_inputs(root: &str) -> (res: Vec<String>)
    ensures
        texts(res@) == runtime_inputs(root@),
{
    let native = join_path(root, "native");
    let src = join_path(native.as_str(), "src");
    let headers = join_path(native.as_str(), "include");
    let js = join_path(join_path(root, "assets").as_str(), "js");
    let mut list: Vec<String> = Vec::new();
    list.push(join_path(js.as_str(), "aegis_runtime.js"));
    list.push(join_path(join_path(root, "scripts").as_str(), "generate_runtime_header.py"));
    list.push(join_path(native.as_str(), "CMakeLists.txt"));
    list.push(join_path(native.as_str(), "aegis_app.cc"));
    list.push(join_path(native.as_str(), "aegis_client.cc"));
    list.push(join_path(src.as_str(), "aegis_cef_host.cpp"));
    list.push(join_path(src.as_str(), "aegis_protocol.cpp"));
    list.push(join_path(headers.as_str(), "aegis_cef_host.hpp"));
    list.push(join_path(headers.as_str(), "aegis_protocol.hpp"));
    assert(texts(list@) =~= runtime_inputs(root@));
    list
}

/// Whether a built runtime is current: the app and the library are there, and nothing that
/// they are built from changed after the older of them.
pub open spec fn runtime_current(
    app_time: Option<i128>,
    library_time: Option<i128>,
    input_times: Seq<Option<i128>>,
) -> bool {
    match (app_time, library_time) {
        (Some(a), Some(l)) => !changed_after(
            input_times,
            if l < a {
                l
            } else {
                a
            },
        ),
        _ => false,
    }
}

/// Whether a built runtime is current.
pub fn workspace_runtime_is_current(
    app_time: Option<i128>,
    library_time: Option<i128>,
    input_times: &[Option<i128>],
) -> (res: bool)
    ensures
        res == runtime_current(app_time, library_time, input_times@),
{
    match (app_time, library_time) {
        (Some(a), Some(l)) => {
            let older: i128 = if l < a {
                l
            } else {
                a
            };
            !any_changed_after(input_times, older)
        },
        _ => false,
    }
}

/// How a workspace gets a current runtime: the targets to build, and the library then.
#[derive(Debug)]
pub struct ServeRuntimePlan {
    pub host_library: String,
    pub builds: Vec<&'static str>,
}

/// How a workspace gets a current runtime: nothing is built where it is current.
pub fn ensure_workspace_serve_runtime(
    root: &str,
    platform: NativePlatform,
    app_time: Option<i128>,
    library_time: Option<i128>,
    input_times: &[Option<i128>],
) -> (res: ServeRuntimePlan)
    ensures
        res.host_library@ == workspace_library(root@, platform),
        str_views(res.builds@) == if runtime_current(app_time, library_time, input_times@) {
            Seq::<Seq<char>>::empty()
        } else {
            seq!["aegis_host"@, "aegis_native"@]
        },
{
    let mut builds: Vec<&'static str> = Vec::new();
    if !workspace_runtime_is_current(app_time, library_time, input_times) {
        builds.push("aegis_host");
        builds.push("aegis_native");
        assert(str_views(builds@) =~= seq!["aegis_host"@, "aegis_native"@]);
    } else {
        assert(str_views(builds@) =~= Seq::<Seq<char>>::empty());
    }
    ServeRuntimePlan { host_library: workspace_host_library(root, platform), builds }
}

/// A file or directory to copy.
#[derive(Debug)]
pub struct CopyStep {
    pub source: String,
    pub target: String,
}

/// The contents of a list of copies.
pub open spec fn copies_view(list: Seq<CopyStep>) -> Seq<(Seq<char>, Seq<char>)> {
    Seq::new(list.len(), |i: int| (list[i].source@, list[i].target@))
}

/// How the app is installed: a whole directory that is copied first, the directory whose
/// runtime files are copied last, and the files that are copied in between.
#[derive(Debug)]
pub struct InstallPlan {
    pub install_dir: String,
    pub tree: Option<CopyStep>,
    pub files: Vec<CopyStep>,
    pub runtime: Option<CopyStep>,
    pub sign: bool,
}

/// The contents of an `InstallPlan`.
#[verifier::ext_equal]
pub struct InstallView {
    pub install_dir: Seq<char>,
    pub tree: Option<(Seq<char>, Seq<char>)>,
    pub files: Seq<(Seq<char>, Seq<char>)>,
    pub runtime: Option<(Seq<char>, Seq<char>)>,
    pub sign: bool,
}

/// The contents of an optional copy.
pub open spec fn opt_copy(c: Option<CopyStep>) -> Option<(Seq<char>, Seq<char>)> {
    match c {
        Some(x) => Some((x.source@, x.target@)),
        None => None,
    }
}

impl View for InstallPlan {
    type V = InstallView;

    open spec fn view(&self) -> InstallView {
        InstallView {
            install_dir: self.install_dir@,
            tree: opt_copy(self.tree),
            files: copies_view(self.files@),
            runtime: opt_copy(self.runtime),
            sign: self.sign,
        }
    }
}

/// How the app is installed in a directory: on macOS the bundle is copied, filled and signed,
/// on Linux the directory is filled file by file.
pub open spec fn installation(
    root: Seq<char>,
    p: NativePlatform,
    executable: Seq<char>,
    dir: Seq<char>,
) -> InstallView {
    let release = NativeConfiguration::Release;
    let app = target_path(root, p, release, "aegis_native"@);
    let library = target_path(root, p, release, "aegis_host"@);
    match p {
        NativePlatform::Macos => InstallView {
            install_dir: dir,
            tree: Some((app, dir)),
            files: seq![
                (executable, bundled_cli(dir, p)),
                (library, bundled_library(dir, p)),
            ],
            runtime: None,
            sign: true,
        },
        NativePlatform::Linux => InstallView {
            install_dir: dir,
            tree: None,
            files: seq![
                (app, joined(joined(dir, "bin"@), "aegis_native"@)),
                (executable, bundled_cli(dir, p)),
                (library, bundled_library(dir, p)),
            ],
            runtime: Some((output_path(root, p, release), joined(dir, "lib"@))),
            sign: false,
        },
    }
}

fn copy_step(source: String, target: String) -> (res: CopyStep)
    ensures
        res.source@ == source@,
        res.target@ == target@,
{
    CopyStep { source, target }
}

/// How the app is installed from a workspace; without a home directory it is not.
pub fn install_local_release(root: &str, source_executable: &str, facts: &NativeFacts) -> (res:
    Result<InstallPlan, AegisError>)
    ensures
        match res {
            Ok(plan) => install_path(facts.platform, opt_text(facts.home)) matches Some(dir)
                && plan@ == installation(root@, facts.platform, source_executable@, dir),
            Err(e) => facts.home is None && e@ == ErrorView::Bridge(
                "HOME is not set; cannot resolve local app install path"@,
            ),
        },
{
    let platform = facts.platform;
    let release = NativeConfiguration::Release;
    let dir = match canonical_install_dir(facts) {
        Some(dir) => dir,
        None => {
            return Err(
                AegisError::Bridge(
                    "HOME is not set; cannot resolve local app install path".to_owned(),
                ),
            );
        },
    };
    let app = artifact_for_target(root, platform, release, "aegis_native");
    let library = artifact_for_target(root, platform, release, "aegis_host");
    let cli_target = bundled_cli_path(dir.as_str(), platform);
    let library_target = bundled_host_library(dir.as_str(), platform);
    let mut files: Vec<CopyStep> = Vec::new();
    let (tree, runtime, sign) = match platform {
        NativePlatform::Macos => (Some(copy_step(app, dir.clone())), None, true),
        NativePlatform::Linux => {
            let bin = join_path(dir.as_str(), "bin");
            files.push(copy_step(app, join_path(bin.as_str(), "aegis_native")));
            let output = join_path(build_dir(root, platform).as_str(), "release");
            (None, Some(copy_step(output, join_path(dir.as_str(), "lib"))), false)
        },
    };
    files.push(copy_step(source_executable.to_owned(), cli_target));
    files.push(copy_step(library, library_target));
    let plan = InstallPlan { install_dir: dir, tree, files, runtime, sign };
    assert(plan@.files =~= installation(
        root@,
        platform,
        source_executable@,
        plan.install_dir@,
    ).files);
    Ok(plan)
}

/// Whether a file or directory beside the app is part of the browser engine's runtime.
pub open spec fn runtime_artifact(name: Seq<char>) -> bool {
    name == "libcef.so"@ || name == "chrome-sandbox"@ || name == "snapshot_blob.bin"@ || name
        == "v8_context_snapshot.bin"@ || name == "icudtl.dat"@ || name
        == "vk_swiftshader_icd.json"@ || ends_with_text(name, ".pak"@) || name == "locales"@ || name
        == "swiftshader"@
}

/// Whether a file or directory beside the app is part of the browser engine's runtime.
pub fn is_runtime_artifact(name: &str) -> (res: bool)
    ensures
        res == runtime_artifact(name@),
{
    str_eq(name, "libcef.so") || str_eq(name, "chrome-sandbox") || str_eq(
        name,
        "snapshot_blob.bin",
    ) || str_eq(name, "v8_context_snapshot.bin") || str_eq(name, "icudtl.dat") || str_eq(
        name,
        "vk_swiftshader_icd.json",
    ) || ends_with(name, ".pak") || str_eq(name, "locales") || str_eq(name, "swiftshader")
}

/// Whether something in a bundle's frameworks is signed on its own: a bundle or framework
/// directory, or a library file.
pub open spec fn nested_code(name: Seq<char>, is_dir: bool, is_file: bool) -> bool {
    (is_dir && (ends_with_text(name, ".app"@) || ends_with_text(name, ".framework"@))) || (is_file
        && ends_with_text(name, ".dylib"@))
}

/// Whether something in a bundle's frameworks is signed on its own.
pub fn is_nested_code(name: &str, is_dir: bool, is_file: bool) -> (res: bool)
    ensures
        res == nested_code(name@, is_dir, is_file),
{
    (is_dir && (ends_with(name, ".app") || ends_with(name, ".framework"))) || (is_file && ends_with(
        name,
        ".dylib",
    ))
}

/// How a bundle is signed.
#[derive(Debug)]
pub struct CodeSigningConfig {
    pub identity: String,
    pub options: Option<String>,
    pub entitlements: Option<String>,
}

/// A setting, unless it is blank.
pub open spec fn unless_blank(value: Option<Seq<char>>) -> Option<Seq<char>> {
    match value {
        Some(v) => if trimmed(v).len() > 0 {
            Some(v)
        } else {
            None
        },
        None => None,
    }
}

/// The identity with which a bundle is signed; a dash signs it for this machine only.
pub open spec fn signing_identity(identity: Option<Seq<char>>) -> Seq<char> {
    match unless_blank(identity) {
        Some(i) => i,
        None => "-"@,
    }
}

/// The options with which a bundle is signed; with a real identity there are always some.
pub open spec fn signing_options(identity: Option<Seq<char>>, options: Option<Seq<char>>) -> Option<
    Seq<char>,
> {
    match unless_blank(options) {
        Some(o) => Some(o),
        None => if signing_identity(identity) != "-"@ {
            Some("runtime"@)
        } else {
            None
        },
    }
}

fn keep_unless_blank(value: Option<String>) -> (res: Option<String>)
    ensures
        opt_text(res) == unless_blank(opt_text(value)),
{
    match value {
        Some(v) => {
            if trim(v.as_str()).as_str().unicode_len() > 0 {
                Some(v)
            } else {
                None
            }
        },
        None => None,
    }
}

/// How a bundle is signed, from the settings.
pub fn load_code_signing_config(
    identity: Option<String>,
    options: Option<String>,
    entitlements: Option<String>,
) -> (res: CodeSigningConfig)
    ensures
        res.identity@ == signing_identity(opt_text(identity)),
        opt_text(res.options) == signing_options(opt_text(identity), opt_text(options)),
        opt_text(res.entitlements) == match opt_text(entitlements) {
            Some(e) => if e.len() > 0 {
                Some(e)
            } else {
                None
            },
            None => None,
        },
{
    let identity = match keep_unless_blank(identity) {
        Some(i) => i,
        None => "-".to_owned(),
    };
    let options = match keep_unless_blank(options) {
        Some(o) => Some(o),
        None => {
            if !str_eq(identity.as_str(), "-") {
                Some("runtime".to_owned())
            } else {
                None
            }
        },
    };
    let entitlements = match entitlements {
        Some(e) => {
            if e.as_str().unicode_len() > 0 {
                Some(e)
            } else {
                None
            }
        },
        None => None,
    };
    CodeSigningConfig { identity, options, entitlements }
}

/// An option and its value, if there is one.
pub open spec fn option_args(name: Seq<char>, value: Option<Seq<char>>) -> Seq<Seq<char>> {
    match value {
        Some(v) => seq![name, v],
        None => Seq::empty(),
    }
}

/// The arguments with which something is signed.
pub open spec fn sign_arguments(
    path: Seq<char>,
    identity: Seq<char>,
    options: Option<Seq<char>>,
    entitlements: Option<Seq<char>>,
) -> Seq<Seq<char>> {
    seq!["--force"@, "--sign"@, identity, "--timestamp=none"@] + option_args(
        "--options"@,
        options,
    ) + option_args("--entitlements"@, entitlements) + seq![path]
}

/// The arguments with which something is signed; only the bundle itself gets entitlements.
pub fn sign_args(path: &str, config: &CodeSigningConfig, apply_entitlements: bool) -> (res: Vec<
    String,
>)
    ensures
        texts(res@) == sign_arguments(
            path@,
            config.identity@,
            opt_text(config.options),
            if apply_entitlements {
                opt_text(config.entitlements)
            } else {
                None
            },
        ),
{
    let mut args: Vec<String> = Vec::new();
    args.push("--force".to_owned());
    args.push("--sign".to_owned());
    args.push(config.identity.clone());
    args.push("--timestamp=none".to_owned());
    if let Some(options) = &config.options {
        args.push("--options".to_owned());
        args.push(options.clone());
    }
    if apply_entitlements {
        if let Some(entitlements) = &config.entitlements {
            args.push("--entitlements".to_owned());
            args.push(entitlements.clone());
        }
    }
    args.push(path.to_owned());
    assert(texts(args@) =~= sign_arguments(
        path@,
        config.identity@,
        opt_text(config.options),
        if apply_entitlements {
            opt_text(config.entitlements)
        } else {
            None
        },
    ));
    args
}

/// The app to open and its executable.
#[derive(Debug)]
pub struct OpenPlan {
    pub app_dir: String,
    pub executable: String,
}

/// The app to open; one whose executable is not there is not opened.
pub fn open_local_app(root: &str, facts: &NativeFacts) -> (res: Result<OpenPlan, AegisError>)
    ensures
        ({
            let app = preferred_app(*facts, root@);
            let executable = executable_path(*facts, app);
            match res {
                Ok(plan) => facts.paths.has(executable) && plan.app_dir@ == app
                    && plan.executable@ == executable,
                Err(e) => !facts.paths.has(executable) && e@ == ErrorView::Bridge(
                    "app executable not found at "@ + executable
                        + ". Run `./install.sh` to install the canonical local release first."@,
                ),
            }
        }),
{
    let app_dir = preferred_app_dir(root, facts);
    let executable = app_executable(app_dir.as_str(), facts);
    if !facts.paths.knows(executable.as_str()) {
        return Err(
            AegisError::Bridge(
                concat3(
                    "app executable not found at ",
                    executable.as_str(),
                    ". Run `./install.sh` to install the canonical local release first.",
                ),
            ),
        );
    }
    Ok(OpenPlan { app_dir, executable })
}

/// A signed number in decimal.
pub open spec fn signed_text(n: int) -> Seq<char> {
    if n < 0 {
        "-"@ + decimal_text((-n) as nat)
    } else {
        decimal_text(n as nat)
    }
}

/// A signed number in decimal.
pub fn signed_decimal(n: i32) -> (res: String)
    ensures
        res@ == signed_text(n as int),
{
    if n < 0 {
        let magnitude: i64 = -(n as i64);
        concat2("-", decimal(magnitude as u64).as_str())
    } else {
        decimal(n as u64)
    }
}

/// The error for a program that failed: its status, and what it wrote.
pub open spec fn failure_text(
    program: Seq<char>,
    code: Option<i32>,
    stdout: Seq<char>,
    stderr: Seq<char>,
) -> Seq<char> {
    let out = trimmed(stdout);
    let err = trimmed(stderr);
    program + " failed with status "@ + match code {
        Some(c) => signed_text(c as int),
        None => "signal"@,
    } + ": "@ + out + if out.len() > 0 && err.len() > 0 {
        " | "@
    } else {
        ""@
    } + err
}

/// The error for a program that failed.
pub fn command_failure(program: &str, code: Option<i32>, stdout: &str, stderr: &str) -> (res:
    AegisError)
    ensures
        res@ == ErrorView::Bridge(failure_text(program@, code, stdout@, stderr@)),
{
    let out = trim(stdout);
    let err = trim(stderr);
    let status = match code {
        Some(c) => signed_decimal(c),
        None => "signal".to_owned(),
    };
    let between = if out.as_str().unicode_len() > 0 && err.as_str().unicode_len() > 0 {
        " | "
    } else {
        ""
    };
    let head = concat3(program, " failed with status ", status.as_str());
    let body = concat3(head.as_str(), ": ", out.as_str());
    AegisError::Bridge(concat3(body.as_str(), between, err.as_str()))
}

/// The error for a path that is not text.
pub fn path_encoding_error() -> (res: AegisError)
    ensures
        res@ == ErrorView::Bridge("path is not valid utf-8"@),
{
    AegisError::Bridge("path is not valid utf-8".to_owned())
}

/// A runtime that was built after everything it is built from is current, and building nothing
/// keeps it so.
pub proof fn law_built_last_is_current(app: i128, library: i128, inputs: Seq<Option<i128>>)
    requires
        forall|i: int|
            0 <= i < inputs.len() ==> (#[trigger] inputs[i] matches Some(t) ==> t <= app && t
                <= library),
    ensures
        runtime_current(Some(app), Some(library), inputs),
{
}

/// On Linux the host library that an installation puts in place is the one that is used
/// afterwards, whatever the workspace holds.
pub proof fn law_installed_library_is_used(
    f: NativeFacts,
    root: Seq<char>,
    executable: Seq<char>,
    dir: Seq<char>,
)
    requires
        f.platform is Linux,
        install_path(f.platform, opt_text(f.home)) == Some(dir),
        f.paths.has(dir),
        forall|i: int|
            0 <= i < 3 ==> f.paths.has(
                #[trigger] installation(root, f.platform, executable, dir).files[i].1,
            ),
    ensures
        preferred_library(f, root, preferred_app(f, root)) == installation(
            root,
            f.platform,
            executable,
            dir,
        ).files[2].1,
{
    let files = installation(root, f.platform, executable, dir).files;
    assert(f.paths.has(files[2].1));
}

/// A build that is current has its app and its library, and none of what they are made of is newer
/// than the older of the two.
pub proof fn law_current_builds(
    app_time: Option<i128>,
    library_time: Option<i128>,
    input_times: Seq<Option<i128>>,
)
    ensures
        runtime_current(app_time, library_time, input_times) <==> app_time is Some && library_time
            is Some && forall|i: int|
            0 <= i < input_times.len() && (#[trigger] input_times[i]) is Some
                ==> input_times[i]->Some_0 <= app_time->Some_0 && input_times[i]->Some_0
                <= library_time->Some_0,
{
    if app_time is Some && library_time is Some {
        let a = app_time->Some_0;
        let l = library_time->Some_0;
        let t = if l < a {
            l
        } else {
            a
        };
        if exists|i: int|
            0 <= i < input_times.len() && (#[trigger] input_times[i]) is Some && !(
            input_times[i]->Some_0 <= a && input_times[i]->Some_0 <= l) {
            let i = choose|i: int|
                0 <= i < input_times.len() && (#[trigger] input_times[i]) is Some && !(
                input_times[i]->Some_0 <= a && input_times[i]->Some_0 <= l);
            assert(input_times[i] matches Some(x) && x > t);
            assert(changed_after(input_times, t));
        }
        if changed_after(input_times, t) {
            let i = choose|i: int|
                0 <= i < input_times.len() && (#[trigger] input_times[i] matches Some(x) && x > t);
            assert(input_times[i] is Some);
        }
    }
}

/// A build directory can be used when it is configured, or when its cache names the generator of the
/// platform.
pub proof fn law_usable_build_directories(configured: bool, cache: Option<Seq<char>>)
    ensures
        tree_healthy(configured, cache, NativePlatform::Macos) <==> configured || (cache is Some
            && contains_text(cache->Some_0, "CMAKE_GENERATOR:INTERNAL=Xcode"@)),
        tree_healthy(configured, cache, NativePlatform::Linux) <==> configured || (cache is Some
            && contains_text(cache->Some_0, "CMAKE_GENERATOR:INTERNAL=Unix Makefiles"@)),
{
}

/// How a build is configured and made: from the sources into the directory of the platform, with the
/// kit and, by platform, the generator and the processor, or the configuration.
pub proof fn law_arguments_of_builds(
    root: Seq<char>,
    c: NativeConfiguration,
    arch: Seq<char>,
    target: Seq<char>,
    parallelism: Option<u64>,
)
    ensures
        ({
            let m = configure_arguments(root, NativePlatform::Macos, c, arch);
            let l = configure_arguments(root, NativePlatform::Linux, c, arch);
            &&& m.len() == 9 && l.len() == 7
            &&& m[0] == "-S"@ && m[1] == joined(root, "native"@)
            &&& m[2] == "-B"@ && m[3] == build_path(root, NativePlatform::Macos)
            &&& m[4] == "-DAEGIS_TARGET_PLATFORM="@ + "macos"@
            &&& m[5] == "-DCEF_ROOT="@ + joined(root, sdk_dir(NativePlatform::Macos))
            &&& m[6] == "-G"@ && m[7] == "Xcode"@
            &&& arch == "aarch64"@ ==> m[8] == "-DPROJECT_ARCH="@ + "arm64"@
            &&& arch != "aarch64"@ ==> m[8] == "-DPROJECT_ARCH="@ + arch
            &&& l[0] == "-S"@ && l[1] == joined(root, "native"@)
            &&& l[2] == "-B"@ && l[3] == build_path(root, NativePlatform::Linux)
            &&& l[4] == "-DAEGIS_TARGET_PLATFORM="@ + "linux"@
            &&& l[5] == "-DCEF_ROOT="@ + joined(root, sdk_dir(NativePlatform::Linux))
            &&& l[6] == "-DCMAKE_BUILD_TYPE="@ + configuration_name(c)
        }),
        ({
            let m = build_arguments(root, NativePlatform::Macos, c, target, parallelism);
            let l = build_arguments(root, NativePlatform::Linux, c, target, parallelism);
            &&& m.len() == 6 && m[0] == "--build"@ && m[1] == build_path(root, NativePlatform::Macos)
            &&& m[2] == "--target"@ && m[3] == target
            &&& m[4] == "--config"@ && m[5] == configuration_name(c)
            &&& l[0] == "--build"@ && l[1] == build_path(root, NativePlatform::Linux)
            &&& l[2] == "--target"@ && l[3] == target
            &&& parallelism is Some ==> l.len() == 6 && l[4] == "--parallel"@ && l[5]
                == decimal_text(parallelism->Some_0 as nat)
            &&& parallelism is None ==> l.len() == 4
        }),
{
}

/// Code is signed with the identity that is given, or ad hoc where that is blank; with the options
/// that are given, or else, where there is an identity, as hardened; the path comes last.
pub proof fn law_arguments_of_signing(
    path: Seq<char>,
    identity: Option<Seq<char>>,
    options: Option<Seq<char>>,
    entitlements: Option<Seq<char>>,
)
    ensures
        ({
            let named = identity is Some && trimmed(identity->Some_0).len() > 0;
            let given = options is Some && trimmed(options->Some_0).len() > 0;
            let who = signing_identity(identity);
            let how = signing_options(identity, options);
            let a = sign_arguments(path, who, how, entitlements);
            &&& named ==> who == identity->Some_0
            &&& !named ==> who == "-"@
            &&& given ==> how == options
            &&& !given && named && identity->Some_0 != "-"@ ==> how == Some("runtime"@)
            &&& !given && !named ==> how is None
            &&& a[0] == "--force"@ && a[1] == "--sign"@ && a[2] == who && a[3] == "--timestamp=none"@
            &&& how is Some ==> a[4] == "--options"@ && a[5] == how->Some_0
            &&& entitlements is Some ==> a[a.len() - 3] == "--entitlements"@ && a[a.len() - 2]
                == entitlements->Some_0
            &&& a[a.len() - 1] == path
            &&& a.len() == 5 + (if how is Some {
                2int
            } else {
                0int
            }) + (if entitlements is Some {
                2int
            } else {
                0int
            })
        }),
{
}

/// On macOS an installation copies the app as it is, and then the tool and the library into it,
/// and is signed.
pub proof fn law_installation_on_macos(root: Seq<char>, executable: Seq<char>, dir: Seq<char>)
    ensures
        ({
            let p = NativePlatform::Macos;
            let i = installation(root, p, executable, dir);
            let release = NativeConfiguration::Release;
            &&& i.install_dir == dir && i.sign && i.runtime is None && i.tree is Some
            &&& i.tree->Some_0.0 == target_path(root, p, release, "aegis_native"@)
            &&& i.tree->Some_0.1 == dir
            &&& i.files.len() == 2
            &&& i.files[0].0 == executable && i.files[0].1 == bundled_cli(dir, p)
            &&& i.files[1].0 == target_path(root, p, release, "aegis_host"@)
            &&& i.files[1].1 == bundled_library(dir, p)
        }),
{
}

/// On Linux an installation copies app, tool and library, and what the browser needs beside the
/// library, and is not signed.
pub proof fn law_installation_on_linux(root: Seq<char>, executable: Seq<char>, dir: Seq<char>)
    ensures
        ({
            let p = NativePlatform::Linux;
            let i = installation(root, p, executable, dir);
            let release = NativeConfiguration::Release;
            &&& i.install_dir == dir && !i.sign && i.tree is None && i.runtime is Some
            &&& i.files.len() == 3
            &&& i.files[0].0 == target_path(root, p, release, "aegis_native"@)
            &&& i.files[0].1 == joined(joined(dir, "bin"@), "aegis_native"@)
            &&& i.files[1].0 == executable && i.files[1].1 == bundled_cli(dir, p)
            &&& i.files[2].0 == target_path(root, p, release, "aegis_host"@)
            &&& i.files[2].1 == bundled_library(dir, p)
            &&& i.runtime->Some_0.0 == output_path(root, p, release)
            &&& i.runtime->Some_0.1 == joined(dir, "lib"@)
        }),
{
}

/// A program that failed is told by its name, its status, or that it was stopped by a signal, and
/// what it printed, trimmed, with a bar between the two outputs where both are there.
pub proof fn law_failed_programs(
    program: Seq<char>,
    code: Option<i32>,
    stdout: Seq<char>,
    stderr: Seq<char>,
)
    ensures
        ({
            let status = if code is None {
                "signal"@
            } else if code->Some_0 < 0 {
                "-"@ + decimal_text((-code->Some_0) as nat)
            } else {
                decimal_text(code->Some_0 as nat)
            };
            let head = program + " failed with status "@ + status + ": "@;
            let out = trimmed(stdout);
            let err = trimmed(stderr);
            &&& out.len() > 0 && err.len() > 0 ==> failure_text(program, code, stdout, stderr)
                == head + out + " | "@ + err
            &&& out.len() == 0 ==> failure_text(program, code, stdout, stderr) == head + err
            &&& err.len() == 0 ==> failure_text(program, code, stdout, stderr) == head + out
        }),
{
    reveal_strlit("");
    let status = match code {
        Some(c) => signed_text(c as int),
        None => "signal"@,
    };
    let head = program + " failed with status "@ + status + ": "@;
    let out = trimmed(stdout);
    let err = trimmed(stderr);
    if out.len() == 0 {
        assert(head + out + ""@ + err =~= head + err);
    }
    if err.len() == 0 {
        assert(head + out + ""@ + err =~= head + out);
    }
}

/// Which files of a build the browser needs, and which parts of an app are signed by themselves.
pub proof fn law_parts_of_builds(name: Seq<char>, is_dir: bool, is_file: bool)
    ensures
        runtime_artifact(name) <==> name == "libcef.so"@ || name == "chrome-sandbox"@ || name
            == "snapshot_blob.bin"@ || name == "v8_context_snapshot.bin"@ || name == "icudtl.dat"@
            || name == "vk_swiftshader_icd.json"@ || name == "locales"@ || name == "swiftshader"@
            || ends_with_text(name, ".pak"@),
        nested_code(name, is_dir, is_file) <==> (is_dir && ends_with_text(name, ".app"@)) || (is_dir
            && ends_with_text(name, ".framework"@)) || (is_file && ends_with_text(name, ".dylib"@)),
{
}

} // verus!
