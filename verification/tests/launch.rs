use aegis::cli::config::ConfigCommands;
use aegis::cli::launch::{
    addr_slug, default_serve_runtime_source, detach_log_path, detached_serve_child_args,
    effective_mode, find_aegis_workspace_root, is_aegis_workspace_root, judge_detached_serve,
    missing_host_library, probe_answered, probe_request, read_log_tail,
    resolve_default_serve_host_lib, resolve_workspace_root, resolved_command_for_shortcut,
    Commands, DetachedState, DetachedVerdict, NativeCommands, ServeHost, ServeRuntimeSource,
};
use aegis::cli::native::{build_reply, doctor_reply, open_reply, paths_reply, status_reply};
use aegis::json::{parse_json, write_out};
use aegis::native::{
    app_executable, artifact_for_target, build_dir, bundled_host_library,
    canonical_install_host_library, current_platform, doctor, file_stem, status,
    workspace_host_library, NativeConfiguration, NativeFacts, NativePlatform,
};
use aegis::native_build::{
    build_native, command_failure, configure_native, ensure_workspace_serve_runtime,
    install_local_release, is_nested_code, is_runtime_artifact, load_code_signing_config,
    native_build_tree_can_retry, native_build_tree_to_remove, open_local_app, sign_args,
    workspace_runtime_inputs,
};
use aegis::paths::PathFacts;
use aegis::string_map::StringMap;
use aegis::BrowserMode;

fn facts(platform: NativePlatform, home: Option<&str>, existing: &[&str]) -> NativeFacts {
    NativeFacts {
        platform,
        home: home.map(str::to_owned),
        paths: PathFacts { existing: existing.iter().map(|p| p.to_string()).collect() },
        bundles: StringMap::new(),
        tools: vec!["cargo".into(), "cmake".into(), "python3".into()],
    }
}

fn workspace(root: &str) -> Vec<String> {
    vec![format!("{root}/Cargo.toml"), format!("{root}/native/CMakeLists.txt")]
}

fn serve() -> Commands {
    Commands::Serve { addr: "127.0.0.1:7878".into(), detach: false, log_path: None }
}

#[test]
fn no_args_defaults_to_open_shortcut() {
    assert!(matches!(resolved_command_for_shortcut(None, true), Commands::Open));
}

#[test]
fn explicit_serve_is_preserved() {
    assert!(matches!(
        resolved_command_for_shortcut(Some(serve()), false),
        Commands::Serve { .. }
    ));
}

#[test]
fn runtime_flags_without_subcommand_default_to_serve() {
    assert!(matches!(
        resolved_command_for_shortcut(None, false),
        Commands::Serve { .. }
    ));
}

#[test]
fn a_command_that_was_given_runs() {
    for command in [
        Commands::Usage,
        Commands::Version,
        Commands::Examples,
        Commands::Replay { path: "t".into() },
        Commands::Config(ConfigCommands::GetValue { concern: "agent".into() }),
        Commands::Native(NativeCommands::Paths),
    ] {
        let name = format!("{command:?}");
        assert_eq!(format!("{:?}", resolved_command_for_shortcut(Some(command), true)), name);
    }
    assert_eq!(effective_mode(&Commands::Open, BrowserMode::Headless), BrowserMode::Headful);
    assert_eq!(effective_mode(&serve(), BrowserMode::Headless), BrowserMode::Headless);
}

#[test]
fn detects_workspace_root_shape() {
    let root = "/CARGO_MANIFEST_DIR";
    let facts = PathFacts { existing: workspace(root) };
    assert!(is_aegis_workspace_root(root, &facts));
    let half = PathFacts { existing: vec![format!("{root}/Cargo.toml")] };
    assert!(!is_aegis_workspace_root(root, &half));
}

#[test]
fn finds_workspace_root_from_built_binary_path() {
    let root = "/CARGO_MANIFEST_DIR";
    let facts = PathFacts { existing: workspace(root) };
    let binary = format!("{root}/{}", "target/debug/aegis");
    assert_eq!(find_aegis_workspace_root(&binary, &facts).as_deref(), Some(root));
    assert_eq!(find_aegis_workspace_root("/bin/aegis", &facts), None);
}

#[test]
fn serve_prefers_workspace_runtime_source_for_workspace_binary() {
    let root = "/CARGO_MANIFEST_DIR";
    let mut facts = facts(NativePlatform::Linux, Some("/home/x"), &[]);
    facts.paths.existing = workspace(root);
    let binary = format!("{root}/{}", "target/debug/aegis");
    assert_eq!(
        default_serve_runtime_source(None, &binary, &facts),
        ServeRuntimeSource::Workspace(root.to_string())
    );
}

#[test]
fn serve_prefers_installed_runtime_source_for_non_workspace_binary() {
    let facts = facts(NativePlatform::Macos, Some("/tmp/home"), &[]);
    assert_eq!(
        default_serve_runtime_source(None, "/tmp/bin/aegis", &facts),
        ServeRuntimeSource::Installed(
            "/tmp/home/Applications/Aegis.app/Contents/Frameworks/libaegis_host.dylib".into()
        )
    );
}

#[test]
fn the_host_of_a_server_has_to_be_there() {
    let library = "/tmp/home/.local/share/aegis/Aegis/lib/libaegis_host.so";
    let installed = || ServeRuntimeSource::Installed(library.into());
    let there = facts(NativePlatform::Linux, Some("/tmp/home"), &[library]);
    assert!(matches!(
        resolve_default_serve_host_lib(installed(), &there),
        Ok(ServeHost::Library(path)) if path == library
    ));
    let gone = facts(NativePlatform::Linux, Some("/tmp/home"), &[]);
    assert!(resolve_default_serve_host_lib(installed(), &gone)
        .is_err_and(|e| e.starts_with("installed Aegis runtime not found at ")));
    assert!(resolve_default_serve_host_lib(ServeRuntimeSource::MissingInstalled, &gone)
        .is_err_and(|e| e.starts_with("unable to resolve")));
    assert!(matches!(
        resolve_default_serve_host_lib(ServeRuntimeSource::Workspace("/w".into()), &gone),
        Ok(ServeHost::Workspace(root)) if root == "/w"
    ));
    let homeless = facts(NativePlatform::Linux, None, &[]);
    assert_eq!(
        default_serve_runtime_source(None, "/bin/aegis", &homeless),
        ServeRuntimeSource::MissingInstalled
    );
    assert_eq!(
        default_serve_runtime_source(Some("/w".into()), "/bin/aegis", &homeless),
        ServeRuntimeSource::Workspace("/w".into())
    );
    assert!(missing_host_library("/x").contains("not found at /x."));
}

#[test]
fn detached_serve_child_args_preserve_runtime_flags() {
    let args = detached_serve_child_args(
        BrowserMode::Headful,
        "work",
        "/tmp/libaegis_host.dylib",
        &Some("http://127.0.0.1:3000".into()),
        "127.0.0.1:7900",
    );
    assert_eq!(
        args,
        vec![
            "--mode".to_string(),
            "headful".to_string(),
            "--profile".to_string(),
            "work".to_string(),
            "--host-lib".to_string(),
            "/tmp/libaegis_host.dylib".to_string(),
            "--start-url".to_string(),
            "http://127.0.0.1:3000".to_string(),
            "serve".to_string(),
            "--addr".to_string(),
            "127.0.0.1:7900".to_string(),
        ]
    );
}

#[test]
fn logs_lie_below_the_home_directory() {
    assert_eq!(addr_slug("127.0.0.1:7878"), "127_0_0_1_7878");
    let home = Some("/home/x".to_string());
    assert_eq!(
        detach_log_path("work", "127.0.0.1:7900", None, &home, "/tmp"),
        "/home/x/.aegis/logs/serve-work-127_0_0_1_7900.log"
    );
    assert_eq!(
        detach_log_path("work", "127.0.0.1:7900", None, &None, "/tmp"),
        "/tmp/serve-work-127_0_0_1_7900.log"
    );
    assert_eq!(
        detach_log_path("work", "127.0.0.1:7900", Some("/tmp/aegis.log".into()), &home, "/tmp"),
        "/tmp/aegis.log"
    );
}

#[test]
fn the_end_of_a_log_is_shown() {
    assert_eq!(read_log_tail(""), "");
    assert_eq!(read_log_tail("a\r\nb\n"), "a\nb");
    assert_eq!(read_log_tail("a\n\nb\r"), "a\n\nb\r");
    let log: String = (1..=20).map(|n| format!("line {n}\n")).collect();
    let tail = read_log_tail(&log);
    assert_eq!(tail.lines().count(), 12);
    assert!(tail.starts_with("line 9\n"));
    assert!(tail.ends_with("line 20"));
    for text in ["a\nb", "\n", "\r\n", "x", "a\r\r\nb\n\n"] {
        assert_eq!(read_log_tail(text), text.lines().collect::<Vec<_>>().join("\n"), "{text:?}");
    }
}

#[test]
fn servers_in_the_background_are_waited_for() {
    let judge = |state, waited| judge_detached_serve(state, waited, "127.0.0.1:1", "/log", "end");
    assert!(matches!(judge(DetachedState::Reachable, 99_999), DetachedVerdict::Running));
    assert!(matches!(judge(DetachedState::Silent, 14_999), DetachedVerdict::Wait));
    match judge(DetachedState::Silent, 15_000) {
        DetachedVerdict::GiveUp(reason) => assert_eq!(
            reason,
            "detached Aegis serve did not become reachable at http://127.0.0.1:1 within 15s. Log: /log\nend"
        ),
        other => panic!("expected an end, got {other:?}"),
    }
    match judge_detached_serve(DetachedState::Exited("exit status: 1".into()), 0, "a", "/log", "") {
        DetachedVerdict::GiveUp(reason) => assert_eq!(
            reason,
            "detached Aegis serve exited before it became reachable (status: exit status: 1). Log: /log"
        ),
        other => panic!("expected an end, got {other:?}"),
    }
    assert!(probe_request("127.0.0.1:1").starts_with("GET /version HTTP/1.1\r\nHost: 127.0.0.1:1\r\n"));
    assert!(probe_answered(b"HTTP/1.1 200 OK\r\n".to_vec()));
    assert!(!probe_answered(b"SSH-2.0".to_vec()));
    assert!(!probe_answered(b"HTTP/1.1 \xff".to_vec()));
}

#[test]
fn the_workspace_is_the_one_set_or_around() {
    let mut existing = workspace("/w");
    existing.extend(workspace("/tool"));
    let known = PathFacts { existing };
    let root = |asked: Option<&str>, cwd: &str| {
        resolve_workspace_root(asked.map(str::to_owned), cwd.into(), "/tool/target/aegis", &known)
    };
    assert_eq!(root(Some("/set"), "/w"), "/set");
    assert_eq!(root(None, "/w"), "/w");
    assert_eq!(root(None, "/elsewhere"), "/tool");
    let nothing = PathFacts { existing: vec![] };
    assert_eq!(resolve_workspace_root(None, "/cwd".into(), "/bin/aegis", &nothing), "/cwd");
}

#[test]
fn linux_status_falls_back_to_workspace_host_library_without_installed_bundle() {
    let workspace_host = workspace_host_library("/tmp/repo", NativePlatform::Linux);
    assert_eq!(workspace_host, "/tmp/repo/native/build/linux/release/libaegis_host.so");
    let facts = facts(NativePlatform::Linux, None, &[&workspace_host]);
    let status = status("/tmp/repo", &facts);
    assert_eq!(status.default_host_library, workspace_host);
    assert!(status.default_host_library_present);
}

#[test]
fn linux_doctor_reports_expected_canonical_install_paths() {
    let facts = facts(NativePlatform::Linux, Some("/tmp/home"), &[]);
    let doctor = doctor("/tmp/repo", &facts);
    assert_eq!(
        doctor.canonical_install_dir.as_deref(),
        Some("/tmp/home/.local/share/aegis/Aegis")
    );
    assert_eq!(
        doctor.canonical_install_host_library.as_deref(),
        Some("/tmp/home/.local/share/aegis/Aegis/lib/libaegis_host.so")
    );
    assert_eq!(
        doctor.canonical_install_cli.as_deref(),
        Some("/tmp/home/.local/share/aegis/Aegis/bin/aegis_cli")
    );
}

#[test]
fn macos_status_prefers_workspace_host_library_for_runtime() {
    let install_dir = "/tmp/home/Applications/Aegis.app";
    let installed_host = bundled_host_library(install_dir, NativePlatform::Macos);
    let workspace_host = workspace_host_library("/tmp/repo", NativePlatform::Macos);
    let facts = facts(
        NativePlatform::Macos,
        Some("/tmp/home"),
        &[install_dir, &installed_host, &workspace_host],
    );
    let status = status("/tmp/repo", &facts);
    assert_eq!(status.default_host_library, workspace_host);
    assert!(status.default_host_library_present);
}

#[test]
fn macos_status_falls_back_to_installed_host_library_when_workspace_missing() {
    let install_dir = "/tmp/home/Applications/Aegis.app";
    let expected_host = bundled_host_library(install_dir, NativePlatform::Macos);
    let facts = facts(
        NativePlatform::Macos,
        Some("/tmp/home"),
        &[install_dir, &expected_host],
    );
    let status = status("/tmp/repo", &facts);
    assert_eq!(status.default_host_library, expected_host);
    assert!(status.default_host_library_present);
}

#[test]
fn the_doctor_tells_what_is_missing() {
    let known = facts(NativePlatform::Macos, Some("/h"), &[]);
    let report = doctor("/w", &known);
    assert_eq!(report.missing_tools, vec!["xcodebuild", "codesign"]);
    assert_eq!(report.notes.len(), 5);
    assert!(!report.ready_for_configure && !report.ready_for_build && !report.ready_for_install);
    let linux = NativePlatform::Linux;
    let sdk = doctor("/w", &facts(linux, None, &[])).status.cef_sdk_root;
    let library = workspace_host_library("/w", linux);
    let executable = "/w/native/build/linux/release/aegis_native";
    let cache = "/w/native/build/linux/CMakeCache.txt";
    let whole = facts(linux, None, &[&sdk, &library, executable, cache]);
    let report = doctor("/w", &whole);
    assert!(report.notes.is_empty());
    assert!(report.ready_for_configure && report.ready_for_build && report.ready_for_install);
    let reply = write_out(&doctor_reply(&report));
    assert!(reply.starts_with("{\"status\":{\"platform\":\"linux\",\"cef_sdk_root\":"));
    let reply = parse_json(&reply).expect("well-formed");
    assert_eq!(
        reply.get("status").and_then(|s| s.get("platform")).and_then(|p| p.as_str()),
        Some("linux")
    );
    assert!(reply.get("notes").is_some());
    let paths = paths_reply(&report.status);
    assert_eq!(
        paths.get("default_host_library").and_then(|p| p.as_str()),
        Some(library.as_str())
    );
    assert!(paths.get("build_dir").is_none());
    let told = parse_json(&write_out(&status_reply(&report.status))).expect("well-formed");
    assert!(told.get("build_dir").is_some());
    let built = build_reply(NativeConfiguration::Debug, &None, "/x");
    assert_eq!(built.get("target").and_then(|t| t.as_str()), Some("aegis_native"));
    assert!(open_reply("/a", linux).get("opened_app_dir").is_some());
}

#[test]
fn targets_build_their_files() {
    let path = |platform, configuration, target| {
        artifact_for_target("/w", platform, configuration, target)
    };
    assert_eq!(
        path(NativePlatform::Macos, NativeConfiguration::Debug, "aegis_host"),
        "/w/native/build/macos/Debug/libaegis_host.dylib"
    );
    assert_eq!(
        path(NativePlatform::Linux, NativeConfiguration::Release, "aegis_helper"),
        "/w/native/build/linux/release/aegis_helper"
    );
    assert_eq!(
        path(NativePlatform::Linux, NativeConfiguration::Debug, "anything"),
        "/w/native/build/linux/debug/aegis_native"
    );
    assert_eq!(build_dir("/w", NativePlatform::Linux), "/w/native/build/linux");
    assert_eq!(current_platform("macos"), Some(NativePlatform::Macos));
    assert_eq!(current_platform("windows"), None);
}

#[test]
fn bundles_name_their_executables() {
    let mut known = facts(NativePlatform::Macos, Some("/h"), &[]);
    assert_eq!(
        app_executable("/w/Aegis.app", &known),
        "/w/Aegis.app/Contents/MacOS/Aegis"
    );
    known.bundles.insert("/w/Aegis.app".into(), "aegis_native".into());
    assert_eq!(
        app_executable("/w/Aegis.app", &known),
        "/w/Aegis.app/Contents/MacOS/aegis_native"
    );
    assert_eq!(app_executable("/", &known), "/Contents/MacOS/aegis_native");
    for name in ["a.b", "a", ".a", ".a.b", "a.", "x.y.z"] {
        assert_eq!(
            file_stem(name),
            std::path::Path::new(name).file_stem().unwrap().to_str().unwrap()
        );
    }
    let flat = facts(NativePlatform::Linux, None, &[]);
    assert_eq!(app_executable("/d", &flat), "/d/aegis_native");
    let nested = facts(NativePlatform::Linux, None, &["/d/bin"]);
    assert_eq!(app_executable("/d", &nested), "/d/bin/aegis_native");
    assert_eq!(canonical_install_host_library(&flat), None);
}

#[test]
fn builds_are_configured_for_their_platform() {
    let plan = configure_native("/w", NativePlatform::Linux, "x86_64");
    assert_eq!(plan.configure_artifact, "/w/native/build/linux/CMakeCache.txt");
    assert_eq!(
        plan.args[..4],
        ["-S", "/w/native", "-B", "/w/native/build/linux"].map(str::to_owned)
    );
    assert_eq!(plan.args.last().map(String::as_str), Some("-DCMAKE_BUILD_TYPE=Release"));
    let plan = configure_native("/w", NativePlatform::Macos, "aarch64");
    assert_eq!(
        plan.args[6..],
        ["-G", "Xcode", "-DPROJECT_ARCH=arm64"].map(str::to_owned)
    );
    let built = build_native(
        "/w",
        NativePlatform::Linux,
        NativeConfiguration::Release,
        None,
        Some(8),
    );
    assert_eq!(
        built.args,
        ["--build", "/w/native/build/linux", "--target", "aegis_native", "--parallel", "8"]
            .map(str::to_owned)
    );
    assert_eq!(built.artifact, "/w/native/build/linux/release/aegis_native");
}

#[test]
fn stale_builds_are_made_anew() {
    let linux = NativePlatform::Linux;
    let cache = Some("CMAKE_GENERATOR:INTERNAL=Unix Makefiles".to_string());
    assert!(!native_build_tree_to_remove(false, None, &None, &[], linux));
    assert!(native_build_tree_to_remove(true, None, &None, &[], linux));
    assert!(!native_build_tree_to_remove(true, None, &cache, &[], linux));
    assert!(native_build_tree_to_remove(true, None, &cache, &[], NativePlatform::Macos));
    assert!(!native_build_tree_to_remove(true, Some(5), &None, &[Some(5), None], linux));
    assert!(native_build_tree_to_remove(true, Some(5), &None, &[Some(6)], linux));
    assert!(native_build_tree_can_retry(true, false));
    assert!(!native_build_tree_can_retry(true, true));
    let plan = |app, library, inputs: &[Option<i128>]| {
        ensure_workspace_serve_runtime("/w", linux, app, library, inputs).builds
    };
    assert!(plan(Some(5), Some(6), &[Some(5), None]).is_empty());
    assert_eq!(plan(Some(5), Some(4), &[Some(5)]), vec!["aegis_host", "aegis_native"]);
    assert_eq!(plan(None, Some(4), &[]).len(), 2);
    assert_eq!(workspace_runtime_inputs("/w").len(), 9);
}

#[test]
fn the_app_is_installed_below_the_home_directory() {
    let linux = facts(NativePlatform::Linux, Some("/h"), &[]);
    let plan = install_local_release("/w", "/w/aegis", &linux).expect("a home");
    assert_eq!(plan.install_dir, "/h/.local/share/aegis/Aegis");
    assert_eq!(plan.files.len(), 3);
    assert_eq!(plan.files[1].source, "/w/aegis");
    assert_eq!(plan.files[1].target, "/h/.local/share/aegis/Aegis/bin/aegis_cli");
    assert!(plan.tree.is_none() && !plan.sign && plan.runtime.is_some());
    let mac = facts(NativePlatform::Macos, Some("/h"), &[]);
    let plan = install_local_release("/w", "/w/aegis", &mac).expect("a home");
    assert!(plan.tree.is_some() && plan.sign && plan.runtime.is_none());
    let homeless = facts(NativePlatform::Macos, None, &[]);
    assert_eq!(
        install_local_release("/w", "/w/aegis", &homeless).err().map(|e| e.message()).as_deref(),
        Some("bridge error: HOME is not set; cannot resolve local app install path")
    );
    assert!(is_runtime_artifact("resources.pak") && is_runtime_artifact("locales"));
    assert!(!is_runtime_artifact("aegis_native"));
    assert!(is_nested_code("a.framework", true, false) && is_nested_code("a.dylib", false, true));
    assert!(!is_nested_code("a.dylib", true, false));
}

#[test]
fn bundles_are_signed_as_set() {
    let own = load_code_signing_config(None, None, Some("".into()));
    assert_eq!((own.identity.as_str(), own.options.is_none()), ("-", true));
    assert_eq!(
        sign_args("/b", &own, true),
        ["--force", "--sign", "-", "--timestamp=none", "/b"].map(str::to_owned)
    );
    let real = load_code_signing_config(Some("Me".into()), Some(" ".into()), Some("/e".into()));
    assert_eq!(
        sign_args("/b", &real, true),
        [
            "--force",
            "--sign",
            "Me",
            "--timestamp=none",
            "--options",
            "runtime",
            "--entitlements",
            "/e",
            "/b"
        ]
        .map(str::to_owned)
    );
    assert_eq!(sign_args("/b", &real, false).len(), 7);
}

#[test]
fn failed_programs_tell_what_they_wrote() {
    let message = |code, out, err| command_failure("cmake", code, out, err).message();
    assert_eq!(
        message(Some(1), " out\n", "err\n"),
        "bridge error: cmake failed with status 1: out | err"
    );
    assert_eq!(message(Some(-6), "", "err"), "bridge error: cmake failed with status -6: err");
    assert_eq!(message(None, "out", " "), "bridge error: cmake failed with status signal: out");
    let nothing = facts(NativePlatform::Linux, None, &[]);
    assert!(open_local_app("/w", &nothing).is_err());
    let there = facts(
        NativePlatform::Linux,
        None,
        &["/w/native/build/linux/release/aegis_native"],
    );
    let plan = open_local_app("/w", &there).expect("there");
    assert_eq!(plan.executable, "/w/native/build/linux/release/aegis_native");
}
