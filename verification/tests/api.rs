use aegis::api::contexts::{
    seed_error, validate_context_name, ApiState, CreateContextBody, EventStreamQuery,
    ServeRootState, ServeStartupMetrics,
};
use aegis::api::credentials::{
    classify_credential_field, credential_hint_text, is_submit_like_node, origin_key,
    AutoCredentialCapture, CredentialFieldKind,
};
use aegis::api::diagnostics::{
    default_runtime_status, failure_from_error, parse_native_operation_error, DiagnosticsChange,
    NativeOperationError, RuntimeDiagnosticsResponse, RuntimeOperationalState, ServeDiagnostics, COMMAND_TIMEOUT_MS,
};
use aegis::api::errors::{context_is_ready, ApiError};
use aegis::api::manifest::{api_manifest, list_capabilities, list_commands, list_routes};
use aegis::api::requests::{
    completion, commands_touch_forms, ContextAction, ContextAnswer, ContextEvent, ContextRequest,
    ContextRun, ContextStep,
};
use aegis::api::serving::{
    downloads_response, event_push, health, overdue_reply, pump_due, pump_failure,
    runtime_identity, startup_failure, EventPoll, EventPush,
};
use aegis::dom::node::{DomNode, DomNodeSemantics, DomSnapshot};
use aegis::events::stream::EventReadWindow;
use aegis::json::parse_json;
use aegis::string_map::StringMap;
use aegis::{
    AegisError, BrowserConfig, BrowserMode, Command, CommandTarget, SessionProfileInfo,
    SessionState,
};

fn native_in(text: &str) -> Option<NativeOperationError> {
    let value = parse_json(text).ok()?;
    let word = |name: &str| value.get(name).and_then(|v| v.as_str()).map(str::to_owned);
    let flag = |name: &str| value.get(name).and_then(|v| v.as_bool());
    Some(NativeOperationError {
        kind: word("kind")?,
        operation: word("operation")?,
        stage: word("stage")?,
        message: word("message")?,
        elapsed_ms: value.get("elapsed_ms").and_then(|v| v.as_u64())?,
        timed_out: flag("timed_out")?,
        restart_recommended: flag("restart_recommended")?,
    })
}

fn dummy_api_state(profile: &str) -> ApiState {
    ApiState {
        host_library: "/tmp/aegis_host.dylib".into(),
        browser: BrowserConfig::default(),
        startup: ServeStartupMetrics {
            client_connect_ms: 0,
            api_bind_ms: 0,
            total_ready_ms: 0,
        },
        profile: SessionProfileInfo {
            profile: profile.into(),
            path: format!("/tmp/{profile}.json"),
        },
        diagnostics: ServeDiagnostics::new(default_runtime_status()),
    }
}

fn root() -> ServeRootState {
    ServeRootState::new(
        "/tmp/aegis_host.dylib".into(),
        BrowserConfig::default(),
        "default".into(),
        dummy_api_state("default"),
    )
}

fn ready() -> ServeDiagnostics {
    let mut runtime = default_runtime_status();
    runtime.bootstrapped = true;
    runtime.last_successful_bridge_roundtrip_at_ms = Some(1);
    runtime.host.browser_available = true;
    runtime.host.page_ready = true;
    runtime.host.renderer_ready = true;
    runtime.host.runtime_ready = true;
    ServeDiagnostics::new(runtime)
}

fn ready_diagnostics() -> RuntimeDiagnosticsResponse {
    ready().snapshot(0)
}

#[test]
fn validate_context_name_rejects_invalid_characters() {
    assert!(validate_context_name("guest-1").is_ok());
    assert!(validate_context_name("guest/admin").is_err());
    assert!(validate_context_name("").is_err());
}

#[test]
fn list_contexts_sorts_and_marks_default() {
    let mut root = root();
    root.insert_context("guest".into(), dummy_api_state("guest"));

    let contexts = root.list_contexts();
    assert_eq!(contexts.len(), 2);
    assert_eq!(contexts[0].id, "default");
    assert!(contexts[0].default);
    assert_eq!(contexts[0].runtime_state, "starting");
    assert!(!contexts[0].command_ready);
    assert_eq!(contexts[1].id, "guest");
    assert!(!contexts[1].default);
}

#[test]
fn readiness_error_reports_bootstrap_shell_truthfully() {
    let mut diagnostics = ready_diagnostics();
    diagnostics.document_loaded = true;
    diagnostics.synthetic_shell_active = true;
    diagnostics.inspectable_dom_ready = false;
    diagnostics.module_scripts_present = false;

    let error = ApiError::readiness(&diagnostics);
    assert_eq!(error.status, 503);
    assert_eq!(error.body.code, "not_ready");
    assert_eq!(
        error.body.error,
        "runtime is attached, but is still on the synthetic bootstrap shell"
    );
    assert_eq!(
        error.body.stage.as_deref(),
        Some("stuck_on_bootstrap_shell")
    );
    assert!(!context_is_ready(&diagnostics));
}

#[test]
fn readiness_error_reports_uninspectable_module_page_truthfully() {
    let mut diagnostics = ready_diagnostics();
    diagnostics.document_loaded = true;
    diagnostics.module_scripts_present = true;
    diagnostics.inspectable_dom_ready = false;
    diagnostics.synthetic_shell_active = false;

    let error = ApiError::readiness(&diagnostics);
    assert_eq!(error.status, 503);
    assert_eq!(error.body.code, "not_ready");
    assert_eq!(
        error.body.error,
        "runtime is attached, but the page is not yet inspectable"
    );
    assert_eq!(error.body.stage.as_deref(), Some("awaiting_page_bootstrap"));
    assert!(!context_is_ready(&diagnostics));
}

#[test]
fn a_runtime_that_is_whole_is_ready() {
    let diagnostics = ready_diagnostics();
    assert_eq!(diagnostics.state, RuntimeOperationalState::Ready);
    assert!(diagnostics.command_ready);
    assert!(diagnostics.bridge_healthy);
    assert!(diagnostics.browser_backend_healthy);
    assert!(context_is_ready(&diagnostics));
    let starting = ServeDiagnostics::new(default_runtime_status()).snapshot(0);
    assert_eq!(starting.state.name(), "starting");
    assert!(!context_is_ready(&starting));
    assert_eq!(ApiError::readiness(&starting).body.error, "runtime is not command-ready");
}

#[test]
fn a_busy_runtime_still_accepts_commands() {
    let mut diagnostics = ready();
    diagnostics.begin_operation("navigate", "navigating to x", 100, 50);
    let report = diagnostics.snapshot(80);
    assert_eq!(report.state, RuntimeOperationalState::Busy);
    assert!(report.command_ready);
    let active = report.active_operation.expect("active");
    assert_eq!((active.id, active.elapsed_ms, active.started_at_ms), (1, 30, 100));
}

#[test]
fn operations_are_counted() {
    let mut diagnostics = ready();
    diagnostics.begin_operation("a", "doing a", 1, 1);
    let runtime = ready().snapshot(0).runtime;
    diagnostics.complete_success(runtime);
    diagnostics.begin_operation("b", "doing b", 2, 2);
    let failure = failure_from_error("b", "doing b", &AegisError::Bridge("gone".into()), native_in, 7);
    assert_eq!(failure.message, "bridge error: gone");
    diagnostics.complete_failure(failure, None);
    let report = diagnostics.snapshot(9);
    assert_eq!(report.state, RuntimeOperationalState::Degraded);
    assert_eq!((report.total_operations, report.successful_operations), (2, 1));
    assert!(report.active_operation.is_none());
    let later = failure_from_error("c", "doing c", &AegisError::Io("x".into()), native_in, 20);
    diagnostics.complete_failure(later, None);
    let seen = diagnostics.snapshot(9).last_failure.expect("a failure");
    assert_eq!((seen.first_seen_at_ms, seen.last_seen_at_ms), (7, 20));
    assert!(diagnostics.snapshot(9).event_decoder_ok);
}

#[test]
fn a_reply_that_does_not_come_cancels() {
    let mut diagnostics = ready();
    diagnostics.begin_operation("execute", "running", 1, 1);
    diagnostics.mark_timeout("execute", COMMAND_TIMEOUT_MS, 30);
    let report = diagnostics.snapshot(40);
    assert_eq!(report.state, RuntimeOperationalState::Cancelling);
    assert!(!report.command_ready);
    assert_eq!(report.timed_out_operations, 1);
    let failure = report.last_failure.expect("a failure");
    assert!(failure.timed_out);
    assert_eq!(failure.elapsed_ms, 20_000);
    assert_eq!(report.active_operation.map(|op| op.stage).as_deref(), Some("awaiting_control_plane_reply"));
    let runtime = ready().snapshot(0).runtime;
    diagnostics.record_runtime_snapshot(runtime);
    assert!(diagnostics.snapshot(40).last_failure.is_none());
    assert_eq!(diagnostics.state(), RuntimeOperationalState::Wedged);
    diagnostics.mark_cancel_requested();
    assert_eq!(diagnostics.state(), RuntimeOperationalState::Cancelling);
}

#[test]
fn native_errors_are_read_from_the_message() {
    let text = "bridge error: {\"kind\":\"operation_error\",\"operation\":\"navigate\",\"stage\":\"loading\",\"message\":\"too slow\",\"elapsed_ms\":9,\"timed_out\":true,\"restart_recommended\":true}";
    let native = parse_native_operation_error(text, native_in).expect("a native error");
    assert_eq!((native.operation.as_str(), native.elapsed_ms), ("navigate", 9));
    let error = AegisError::Bridge(text["bridge error: ".len()..].into());
    let answer = ApiError::from_error(&error, native_in);
    assert_eq!(answer.status, 504);
    assert_eq!(answer.body.code, "native_operation_error");
    assert_eq!(answer.body.error, "too slow");
    assert!(answer.body.restart_recommended);
    let mut diagnostics = ready();
    diagnostics.complete_failure(failure_from_error("x", "y", &error, native_in, 1), None);
    assert_eq!(diagnostics.state(), RuntimeOperationalState::Wedged);
    let other = text.replace("operation_error", "other");
    assert!(native_in(&other["bridge error: ".len()..]).is_some());
    assert!(parse_native_operation_error(&other, native_in).is_none());
    assert!(parse_native_operation_error("bridge error: x", native_in).is_none());
}

#[test]
fn errors_have_their_status() {
    let refused = ApiError::from_error(&AegisError::InvalidSession("bad".into()), native_in);
    assert_eq!((refused.status, refused.body.code.as_str()), (400, "aegis_error"));
    assert_eq!(refused.body.error, "invalid session: bad");
    assert_eq!(ApiError::from_error(&AegisError::Protocol("x".into()), native_in).status, 502);
    assert_eq!(ApiError::not_found("gone".into()).status, 404);
    let late = ApiError::timeout("navigate");
    assert_eq!((late.status, late.body.elapsed_ms), (504, Some(20_000)));
    assert_eq!(
        late.body.error,
        "operation `navigate` exceeded the server timeout and a runtime cancellation request was sent"
    );
}

fn ask() -> CreateContextBody {
    CreateContextBody {
        id: None,
        profile: None,
        seed_from_context: None,
        mode: None,
        start_url: None,
        download_dir: None,
        upload_dir: None,
    }
}

#[test]
fn contexts_are_made_as_asked() {
    let mut root = root();
    let plan = root.create_context(ask()).expect("a plan");
    assert_eq!((plan.context_id.as_str(), plan.profile.as_str()), ("context-2", "context-2"));
    assert_eq!(plan.browser.mode, BrowserMode::Headless);
    let plan = root
        .create_context(CreateContextBody {
            profile: Some("work".into()),
            mode: Some(BrowserMode::Headful),
            start_url: Some("https://a".into()),
            seed_from_context: Some("default".into()),
            ..ask()
        })
        .expect("a plan");
    assert_eq!((plan.context_id.as_str(), plan.profile.as_str()), ("work", "work"));
    assert_eq!(plan.browser.mode, BrowserMode::Headful);
    assert_eq!(plan.seed_from_context.as_deref(), Some("default"));
    let summary = root.register_context(plan.context_id, dummy_api_state("work"));
    assert_eq!(summary.id, "work");
    assert_eq!(root.len(), 2);
    let taken = root
        .create_context(CreateContextBody { id: Some("work".into()), ..ask() })
        .expect_err("taken");
    assert_eq!(taken.body.error, "bridge error: context `work` already exists");
    let bad = root
        .create_context(CreateContextBody { id: Some("a b".into()), ..ask() })
        .expect_err("not plain");
    assert_eq!(
        bad.body.error,
        "bridge error: context id \"a b\" must use only letters, numbers, '.', '-', or '_'"
    );
    assert!(root.get_context("work").is_ok());
    assert!(root.delete_context("work").is_ok());
    assert_eq!(root.delete_context("default").err().map(|e| e.status), Some(502));
    assert_eq!(root.delete_context("none").err().map(|e| e.status), Some(404));
    assert!(root.remove_context("work").is_some());
    let gone = root.get_context("work").expect_err("gone");
    assert_eq!(gone.body.error, "context `work` was not found");
    assert!(root.require_default_context_state().is_ok());
    root.clear();
    assert!(root.require_default_context_state().is_err());
    assert_eq!(
        seed_error("x").message(),
        "bridge error: context `x` is not available for seeding"
    );
}

#[test]
fn what_happens_to_a_context_stays_with_it() {
    let mut root = root();
    root.insert_context("guest".into(), dummy_api_state("guest"));
    root.record(
        "guest",
        DiagnosticsChange::Begin {
            name: "a".into(),
            stage: "b".into(),
            now_ms: 1,
            tick_ms: 1,
        },
    );
    root.record("nobody", DiagnosticsChange::CancelAsked);
    let total = |id: &str| {
        root.context_state(id)
            .map(|state| state.diagnostics.snapshot(0).total_operations)
    };
    assert_eq!(total("guest"), Some(1));
    assert_eq!(total("default"), Some(0));
    assert_eq!(total("nobody"), None);
}

fn click(id: u64) -> Command {
    Command::Click { target: CommandTarget::Id { id } }
}

fn type_in(id: u64, value: &str) -> Command {
    Command::SetValue { target: CommandTarget::Id { id }, value: value.into() }
}

fn field(id: u64, control_type: &str, name: &str, actions: Vec<String>) -> DomNode {
    let mut attrs = StringMap::new();
    attrs.insert("name".into(), name.into());
    DomNode {
        id,
        tag: "input".into(),
        attrs,
        text: None,
        semantic: Some(DomNodeSemantics {
            role: None,
            name: None,
            label: Some(name.into()),
            control_type: Some(control_type.into()),
            actionable: true,
            disabled: false,
            visible: true,
            actions,
        }),
        children: vec![],
    }
}

fn login_page() -> DomSnapshot {
    DomSnapshot {
        nodes: vec![
            field(1, "text", "username", vec![]),
            field(2, "password", "secret", vec![]),
            field(3, "submit", "go", vec!["submit".into()]),
        ],
    }
}

#[test]
fn logins_are_noticed_and_stored_after_they_are_submitted() {
    let mut capture = AutoCredentialCapture::new();
    let commands = vec![type_in(1, "saint"), type_in(2, "pw"), click(3)];
    let (run, action) = ContextRun::begin(ContextRequest::Execute(commands), true, &mut capture);
    assert!(matches!(action, ContextAction::CaptureDom));
    let dom = ContextEvent::Dom(login_page());
    assert!(run.expects(&dom));
    assert!(!run.expects(&ContextEvent::Done));
    let (run, step) = run.advance(dom, Some("https://example.com/login"), &mut capture);
    assert!(matches!(step, ContextStep::Act(ContextAction::Execute(ref c)) if c.len() == 3));
    let (run, step) = run.advance(ContextEvent::Done, None, &mut capture);
    match step {
        ContextStep::Act(ContextAction::StoreCredential(input)) => {
            assert_eq!(input.origin, "https://example.com");
            assert_eq!((input.username.as_str(), input.password.as_str()), ("saint", "pw"));
            assert_eq!(input.password_field.as_deref(), Some("secret"));
        }
        other => panic!("expected a login, got {other:?}"),
    }
    let (_, step) = run.advance(ContextEvent::Done, None, &mut capture);
    assert!(matches!(step, ContextStep::Answer(ContextAnswer::Report)));
    assert!(capture.username.is_none());
}

#[test]
fn logins_are_left_alone_where_they_are_not_stored() {
    let mut capture = AutoCredentialCapture::new();
    let commands = vec![type_in(1, "saint"), type_in(2, "pw"), click(3)];
    assert!(commands_touch_forms(&commands));
    let (run, action) = ContextRun::begin(ContextRequest::Execute(commands), false, &mut capture);
    assert!(matches!(action, ContextAction::Execute(_)));
    let (_, step) = run.advance(ContextEvent::Done, Some("https://e"), &mut capture);
    assert!(matches!(step, ContextStep::Answer(ContextAnswer::Report)));
    assert!(!commands_touch_forms(&[Command::Eval { code: "1".into() }]));
}

#[test]
fn requests_run_to_their_answers() {
    let mut capture = AutoCredentialCapture::new();
    let begin = |request: ContextRequest, capture: &mut AutoCredentialCapture| {
        ContextRun::begin(request, true, capture)
    };
    let (run, action) = begin(ContextRequest::InjectSession(SessionState::default()), &mut capture);
    assert!(matches!(action, ContextAction::Inject(_)));
    assert_eq!(run.request().operation(), "inject_session");
    let (run, step) = run.advance(ContextEvent::Done, None, &mut capture);
    assert!(matches!(step, ContextStep::Act(ContextAction::SaveProfile(_))));
    let (_, step) = run.advance(ContextEvent::Done, None, &mut capture);
    assert!(matches!(step, ContextStep::Answer(ContextAnswer::Nothing)));

    let (run, _) = begin(ContextRequest::SnapshotSession, &mut capture);
    let (_, step) =
        run.advance(ContextEvent::Session(SessionState::default()), None, &mut capture);
    assert!(matches!(step, ContextStep::Answer(ContextAnswer::Session(_))));

    let (run, _) = begin(ContextRequest::SaveSessionProfile, &mut capture);
    let (run, step) =
        run.advance(ContextEvent::Session(SessionState::default()), None, &mut capture);
    assert!(matches!(step, ContextStep::Act(ContextAction::SaveProfile(_))));
    let (_, step) = run.advance(ContextEvent::Done, None, &mut capture);
    assert!(matches!(step, ContextStep::Answer(ContextAnswer::Profile)));

    let (run, _) = begin(ContextRequest::LoadSessionProfile, &mut capture);
    let (run, step) = run.advance(
        ContextEvent::Profile(Some(SessionState::default())),
        None,
        &mut capture,
    );
    assert!(matches!(step, ContextStep::Act(ContextAction::Inject(_))));
    let (_, step) = run.advance(ContextEvent::Done, None, &mut capture);
    assert!(matches!(step, ContextStep::Answer(ContextAnswer::Profile)));
    let (run, _) = begin(ContextRequest::LoadSessionProfile, &mut capture);
    let (_, step) = run.advance(ContextEvent::Profile(None), None, &mut capture);
    assert!(matches!(step, ContextStep::Answer(ContextAnswer::Profile)));

    let (run, action) = begin(ContextRequest::Navigate("https://x".into()), &mut capture);
    assert!(matches!(action, ContextAction::Navigate(_)));
    assert_eq!(run.request().stage(), "navigating to https://x");
    let (_, step) = run.advance(ContextEvent::Done, None, &mut capture);
    assert!(matches!(step, ContextStep::Answer(ContextAnswer::NavigationEvents)));

    let (run, _) = begin(ContextRequest::SnapshotDom, &mut capture);
    let (_, step) = run.advance(ContextEvent::Dom(login_page()), None, &mut capture);
    assert!(matches!(step, ContextStep::Answer(ContextAnswer::Dom(_))));
    let (run, _) = begin(ContextRequest::Events(3), &mut capture);
    let (_, step) = run.advance(ContextEvent::Done, None, &mut capture);
    assert!(matches!(step, ContextStep::Answer(ContextAnswer::EventWindow)));
    let (run, _) = begin(ContextRequest::EnableTrace("/t".into()), &mut capture);
    let (_, step) = run.advance(ContextEvent::Done, None, &mut capture);
    assert!(matches!(step, ContextStep::Answer(ContextAnswer::Nothing)));
}

#[test]
fn failures_name_their_stage() {
    let mut capture = AutoCredentialCapture::new();
    let (run, _) = ContextRun::begin(ContextRequest::Execute(vec![click(1)]), true, &mut capture);
    let gone = || ContextEvent::Failed(AegisError::Bridge("gone".into()));
    match run.advance(gone(), None, &mut capture).1 {
        ContextStep::Fail { stage, .. } => {
            assert_eq!(stage, "capturing pre-execution DOM snapshot")
        }
        other => panic!("expected a failure, got {other:?}"),
    }
    let (run, _) = ContextRun::begin(ContextRequest::SnapshotDom, true, &mut capture);
    match run.advance(gone(), None, &mut capture).1 {
        ContextStep::Fail { stage, error } => {
            assert_eq!(stage, "native operation failed");
            let change = completion("snapshot_dom", Some((&error, stage)), default_runtime_status(), native_in, 4);
            match change {
                DiagnosticsChange::Fail { failure, .. } => {
                    assert_eq!(failure.operation, "snapshot_dom");
                    assert_eq!(failure.last_seen_at_ms, 4);
                }
                other => panic!("expected a failure, got {other:?}"),
            }
        }
        other => panic!("expected a failure, got {other:?}"),
    }
    assert!(matches!(
        completion("x", None, default_runtime_status(), native_in, 4),
        DiagnosticsChange::Succeed { .. }
    ));
}

#[test]
fn fields_of_logins_are_told_by_type_and_hint() {
    let page = login_page();
    assert_eq!(
        classify_credential_field(&page.nodes[0]),
        Some(CredentialFieldKind::Username)
    );
    assert_eq!(
        classify_credential_field(&page.nodes[1]),
        Some(CredentialFieldKind::Password)
    );
    assert_eq!(classify_credential_field(&page.nodes[2]), None);
    assert!(is_submit_like_node(&page.nodes[2]));
    assert!(!is_submit_like_node(&page.nodes[0]));
    assert_eq!(credential_hint_text(&page.nodes[0]), "username username text");
    assert_eq!(origin_key(" https://example.com/a/b "), "https://example.com");
    assert_eq!(origin_key("about:blank"), "about:blank");
}

#[test]
fn notices_do_not_cross_origins() {
    let mut capture = AutoCredentialCapture::new();
    capture.capture_fields(&login_page(), Some("https://a/x"), &[type_in(1, "saint")]);
    assert!(capture.username.is_some());
    capture.capture_fields(&login_page(), Some("https://b/x"), &[type_in(2, "pw")]);
    assert!(capture.username.is_none());
    assert_eq!(capture.origin.as_deref(), Some("https://b"));
    capture.reset_on_explicit_navigation("https://b/y");
    assert!(capture.password.is_some());
    capture.reset_on_explicit_navigation("https://c");
    assert!(capture.password.is_none());
}

#[test]
fn streams_of_events_send_what_is_new() {
    let window = |count: u64, gap: bool| EventReadWindow {
        requested_since: 0,
        oldest_available_sequence: None,
        latest_sequence: count,
        gap_detected: gap,
        events: vec![],
    };
    assert!(matches!(event_push(EventPoll::Window(window(4, false))), EventPush::Wait(4)));
    assert!(matches!(event_push(EventPoll::Window(window(4, true))), EventPush::Send(_)));
    for (poll, text) in [
        (EventPoll::Closed, "runtime event channel closed"),
        (EventPoll::Cancelled, "runtime event stream cancelled"),
        (EventPoll::TimedOut, "runtime event stream timed out"),
        (EventPoll::Failed(AegisError::Bridge("x".into())), "bridge error: x"),
    ] {
        match event_push(poll) {
            EventPush::End(message) => assert_eq!(message, text),
            other => panic!("expected the end, got {other:?}"),
        }
    }
    let asked = |poll_ms| EventStreamQuery { since: 0, poll_ms }.poll_interval_ms();
    assert_eq!(
        (asked(None), asked(Some(1)), asked(Some(50)), asked(Some(9_999))),
        (100, 25, 50, 1_000)
    );
}

#[test]
fn idle_contexts_are_pumped() {
    assert!(pump_due(false, 10, BrowserMode::Headless));
    assert!(!pump_due(false, 9, BrowserMode::Headless));
    assert!(pump_due(false, 2, BrowserMode::Headful));
    assert!(!pump_due(true, 100, BrowserMode::Headful));
    let error = AegisError::Bridge("x".into());
    assert_eq!(pump_failure(&error, native_in, 1).stage, "pumping browser event loop");
    assert_eq!(startup_failure(&error, native_in, 1).operation, "startup_restore_session");
    assert!(matches!(
        overdue_reply("navigate".into(), 5),
        DiagnosticsChange::Overdue { elapsed_ms: 20_000, .. }
    ));
}

#[test]
fn health_is_the_short_report() {
    let told = health(ready_diagnostics());
    assert!(told.control_plane_up && told.command_ready && told.bridge_healthy);
    assert_eq!(told.runtime_state, RuntimeOperationalState::Ready);
    let downloads = downloads_response(&ready_diagnostics());
    assert!(downloads.downloads.is_empty());
    let identity = runtime_identity(7, None, 100, 250);
    assert_eq!((identity.process_id, identity.uptime_ms), (7, 150));
    assert_eq!(runtime_identity(7, None, 100, 50).uptime_ms, 0);
}

#[test]
fn the_manifest_tells_routes_capabilities_and_commands() {
    let manifest = api_manifest(&root(), runtime_identity(1, None, 0, 0));
    assert_eq!(manifest.service, "aegis");
    assert_eq!(manifest.routes, list_routes());
    assert_eq!(manifest.routes.len(), 39);
    assert_eq!(manifest.routes[5].path, "/contexts/{context_id}");
    assert_eq!(manifest.capabilities, list_capabilities());
    let names: Vec<&str> = manifest.capability_status.iter().map(|c| c.name).collect();
    assert_eq!(names, manifest.capabilities);
    assert!(manifest.capability_status.iter().all(|c| !c.runtime_validated));
    assert_eq!(manifest.commands, list_commands());
    assert_eq!(manifest.commands[5].fields.len(), 2);
    let mut state = dummy_api_state("default");
    state.diagnostics = ready();
    let healthy = ServeRootState::new("x".into(), BrowserConfig::default(), "default".into(), state);
    let manifest = api_manifest(&healthy, runtime_identity(1, None, 0, 0));
    assert_eq!(manifest.capability_status[0].status, "validated");
    assert_eq!(manifest.capability_status[6].status, "experimental");
}
