use aegis::dom::diff::DomMutation;
use aegis::dom::node::{DomNode, DomNodeSemantics, DomSnapshot};
use aegis::json::JsonValue;
use aegis::runtime::command_stream::{
    plan_after_refresh_error, plan_with_files, CommandStep, CommandStream,
};
use aegis::runtime::executor::{
    command_target_needs_fresh_snapshot, command_target_requires_snapshot,
    commands_require_dom_snapshot, needs_bridge_recovery, resolve_target_id,
    target_resolved_here,
};
use aegis::runtime::page::{
    live_state_script, parse_wait_state, wait_state_script, MediaDiagnostics, WaitLiveState,
};
use aegis::runtime::wait::{begin_wait, WaitStage, WaitStep, WaitVerdict};
use aegis::string_map::StringMap;
use aegis::transport::protocol::HostRuntimeState;
use aegis::{
    AegisError, AegisRuntime, BatchRequest, BatchResponse, BridgeEventEnvelope, BrowserConfig,
    Command, CommandMatcher, CommandResult, CommandTarget, RuntimeEvent, SessionState,
    UploadFilePayload,
};

fn runtime() -> AegisRuntime {
    let mut host = HostRuntimeState::default();
    host.runtime_ready = true;
    AegisRuntime::new(BrowserConfig::default(), Some(5), host)
}

fn button(id: u64, name: &str) -> DomNode {
    DomNode {
        id,
        tag: "button".into(),
        attrs: StringMap::new(),
        text: Some(name.into()),
        semantic: Some(DomNodeSemantics {
            role: Some("button".into()),
            name: Some(name.into()),
            label: None,
            control_type: Some("button".into()),
            actionable: true,
            disabled: false,
            visible: true,
            actions: vec!["click".into()],
        }),
        children: vec![],
    }
}

fn named(name: &str) -> CommandTarget {
    CommandTarget::Match {
        matcher: CommandMatcher {
            selector: None,
            test_id: None,
            role: None,
            name: Some(name.into()),
            label: None,
            control_type: None,
            tag: None,
            text: None,
            placeholder: None,
            href_contains: None,
            actionable: None,
            disabled: None,
            exact: None,
        },
    }
}

fn envelope(event: RuntimeEvent) -> BridgeEventEnvelope {
    BridgeEventEnvelope { event }
}

fn navigation(url: &str) -> BridgeEventEnvelope {
    envelope(RuntimeEvent::Navigation { url: url.into() })
}

fn wait(text: Option<&str>, url: Option<&str>) -> Command {
    Command::WaitFor {
        target: None,
        selector: None,
        url_contains: url.map(str::to_owned),
        title_contains: None,
        text: text.map(str::to_owned),
        ready_state: None,
        scroll_x: None,
        scroll_y: None,
        scroll_changed: None,
        media_current_src_contains: None,
        media_ready_state_at_least: None,
        media_duration_known: None,
        animation_idle_ms: None,
        timeout_ms: Some(100),
        poll_interval_ms: Some(25),
    }
}

fn still() -> WaitLiveState {
    WaitLiveState {
        scroll_x: Some(0),
        scroll_y: Some(0),
        selector_found: false,
        animations_running: false,
    }
}

#[test]
fn events_are_numbered_on() {
    let mut runtime = runtime();
    let first = runtime.apply_event_batch(&vec![navigation("a"), navigation("b")], 10);
    assert_eq!(first.iter().map(|e| e.sequence).collect::<Vec<_>>(), vec![1, 2]);
    let second = runtime.apply_event_batch(&vec![navigation("c")], 20);
    assert_eq!(second[0].sequence, 3);
    assert_eq!(runtime.event_numbering(), (4, 3));
    let window = runtime.read_events_from(2);
    assert_eq!(window.events.len(), 1);
    assert_eq!(window.latest_sequence, 3);
    assert_eq!(runtime.runtime_status().last_event_at_ms, Some(20));
}

#[test]
fn a_navigation_without_a_document_forgets_the_old_one() {
    let mut runtime = runtime();
    runtime.apply_snapshot(DomSnapshot { nodes: vec![button(1, "Go")] }, 10);
    assert!(runtime.dom_snapshot_available());
    let response = BatchResponse {
        batch_id: 1,
        results: vec![],
        snapshot: None,
        events: vec![navigation("https://a"), navigation("https://b")],
    };
    runtime.apply_response(&response, 11);
    assert!(!runtime.dom_snapshot_available());
    assert!(runtime.dom_snapshot().nodes.is_empty());
    assert_eq!(runtime.current_url(), Some("https://b"));
}

#[test]
fn a_known_document_follows_its_changes() {
    let mut runtime = runtime();
    let change = envelope(RuntimeEvent::DomMutation {
        changes: vec![DomMutation::SetText { id: 1, text: Some("Stop".into()) }],
    });
    runtime.apply_event_batch(&vec![envelope(RuntimeEvent::DomMutation { changes: vec![] })], 1);
    runtime.apply_snapshot(DomSnapshot { nodes: vec![button(1, "Go")] }, 10);
    runtime.apply_event_batch(&vec![change], 11);
    assert_eq!(runtime.dom_snapshot().nodes[0].text.as_deref(), Some("Stop"));
    assert_eq!(runtime.runtime_status().dom_nodes, 1);
    assert_eq!(runtime.runtime_status().last_dom_refresh_at_ms, Some(10));
}

fn selected(selector: &str) -> CommandTarget {
    match named("x") {
        CommandTarget::Match { matcher } => CommandTarget::Match {
            matcher: CommandMatcher { selector: Some(selector.into()), ..matcher },
        },
        other => other,
    }
}

#[test]
fn commands_on_nodes_renew_the_document_first() {
    let mut runtime = runtime();
    runtime.apply_snapshot(
        DomSnapshot { nodes: vec![button(1, "Go"), button(2, "Stop")] },
        10,
    );
    let by_id = Command::Click { target: CommandTarget::Id { id: 7 } };
    assert!(command_target_needs_fresh_snapshot(&by_id));
    assert!(matches!(runtime.plan_command(&by_id), CommandStep::RefreshDocument));
    assert!(matches!(
        runtime.plan_on_document(&by_id),
        CommandStep::Send(Command::Click { target: CommandTarget::Id { id: 7 } })
    ));
    let by_name = Command::Click { target: named("stop") };
    assert!(command_target_needs_fresh_snapshot(&by_name));
    assert!(matches!(runtime.plan_command(&by_name), CommandStep::RefreshDocument));
    assert!(matches!(
        runtime.plan_on_document(&by_name),
        CommandStep::Send(Command::Click { target: CommandTarget::Id { id: 2 } })
    ));
    let missing = Command::Click { target: named("elsewhere") };
    match runtime.plan_on_document(&missing) {
        CommandStep::Failed(result) => assert!(!result.ok),
        other => panic!("expected a failure, got {other:?}"),
    }
}

#[test]
fn batches_ask_for_the_document_where_they_act_on_nodes() {
    let id = || CommandTarget::Id { id: 9 };
    assert!(commands_require_dom_snapshot(&[Command::Click { target: id() }]));
    assert!(commands_require_dom_snapshot(&[Command::SetValue {
        target: id(),
        value: "x".into(),
    }]));
    assert!(commands_require_dom_snapshot(&[Command::Hover { target: named("stop") }]));
    assert!(commands_require_dom_snapshot(&[Command::Geometry { target: id() }]));
    assert!(!commands_require_dom_snapshot(&[
        Command::Eval { code: "1".into() },
        Command::Scroll { x: 0, y: 480 },
    ]));
    assert!(!commands_require_dom_snapshot(&[Command::Click { target: selected("#go") }]));
    assert!(!commands_require_dom_snapshot(&[wait(None, None)]));
    let sent = Command::Click { target: selected("#go") };
    assert!(matches!(runtime().plan_command(&sent), CommandStep::Send(_)));
    let scroll = Command::Scroll { x: 0, y: 480 };
    assert!(matches!(runtime().plan_command(&scroll), CommandStep::Send(_)));
    assert!(target_resolved_here(&named("stop")));
    assert!(!target_resolved_here(&id()) && !target_resolved_here(&selected("#go")));
    assert!(command_target_requires_snapshot(&id()));
}

#[test]
fn waits_and_media_are_answered_here() {
    let runtime = runtime();
    assert!(matches!(runtime.plan_command(&wait(None, None)), CommandStep::Wait));
    assert!(matches!(
        runtime.plan_command(&Command::MediaState { target: None }),
        CommandStep::Media(None)
    ));
}

#[test]
fn uploads_are_sent_with_their_files() {
    let command = Command::SetFiles {
        target: CommandTarget::Id { id: 1 },
        paths: vec!["/a".into()],
        files: None,
    };
    assert!(matches!(runtime().plan_command(&command), CommandStep::RefreshDocument));
    assert!(matches!(runtime().plan_on_document(&command), CommandStep::LoadFiles(_)));
    let file = UploadFilePayload {
        name: "a".into(),
        mime_type: None,
        base64: "".into(),
        last_modified_ms: None,
    };
    match plan_with_files(command, Ok(vec![file])) {
        CommandStep::Send(Command::SetFiles { files: Some(files), .. }) => {
            assert_eq!(files.len(), 1)
        }
        other => panic!("expected the upload, got {other:?}"),
    }
    let refused = plan_with_files(
        Command::Eval { code: "1".into() },
        Err(CommandResult::err("no file".into())),
    );
    assert!(matches!(refused, CommandStep::Failed(_)));
}

#[test]
fn a_failed_command_does_not_stop_the_batch() {
    let mut stream = CommandStream::new(4);
    match plan_after_refresh_error(&AegisError::Bridge("gone".into())) {
        CommandStep::Failed(result) => {
            assert_eq!(result.error.as_deref(), Some("bridge error: gone"));
            stream.command_failed(result);
        }
        other => panic!("expected a failure, got {other:?}"),
    }
    let request = stream.request_for(Command::Eval { code: "1".into() });
    assert_eq!((request.batch_id, request.commands.len()), (4, 1));
    stream.command_answered(
        BatchResponse {
            batch_id: 4,
            results: vec![CommandResult::ok(JsonValue::Unsigned(1))],
            snapshot: None,
            events: vec![],
        },
        vec![],
    );
    stream.command_run_here(
        CommandResult::ok(JsonValue::Null),
        DomSnapshot { nodes: vec![button(1, "Go")] },
    );
    let (response, results, events) = stream.finish();
    assert_eq!(results.len(), 3);
    assert!(!results[0].ok);
    assert!(results[1].ok);
    assert!(events.is_empty());
    assert_eq!(response.snapshot.map(|s| s.nodes.len()), Some(1));
}

#[test]
fn waits_end_with_the_condition_or_the_time() {
    let mut runtime = runtime();
    let command = wait(None, Some("example"));
    let (condition, timer) = begin_wait(&command, 1_000).expect("a wait");
    assert_eq!((timer.timeout_ms, timer.poll_interval_ms, timer.deadline_ms), (100, 25, 1_100));
    let mut since = None;
    let step = runtime.wait_condition_satisfied(
        &condition,
        WaitStage::Page,
        None,
        &still(),
        &mut since,
        1_000,
    );
    assert_eq!(step, WaitStep::NotYet);
    assert!(matches!(runtime.conclude_wait(&timer, false, 1_050), WaitVerdict::Sleep(25)));
    match runtime.conclude_wait(&timer, false, 1_100) {
        WaitVerdict::Done(result) => {
            assert_eq!(result.error.as_deref(), Some("wait_for timed out"))
        }
        other => panic!("expected the end, got {other:?}"),
    }
    runtime.apply_event_batch(&vec![], 1);
    runtime
        .apply_live_text("{\"url\":\"https://example.com\",\"title\":\"T\",\"ready_state\":\"complete\"}", |_| String::new())
        .expect("a page");
    let step = runtime.wait_condition_satisfied(
        &condition,
        WaitStage::Page,
        None,
        &still(),
        &mut since,
        1_050,
    );
    assert_eq!(step, WaitStep::Satisfied);
    match runtime.conclude_wait(&timer, true, 1_060) {
        WaitVerdict::Done(result) => {
            let value = result.value.expect("a value");
            assert_eq!(value.get("waited_ms").and_then(|v| v.as_u64()), Some(60));
            assert_eq!(
                value.get("current_url").and_then(|v| v.as_str()),
                Some("https://example.com")
            );
        }
        other => panic!("expected the end, got {other:?}"),
    }
    assert!(begin_wait(&Command::Eval { code: "1".into() }, 0).is_none());
}

#[test]
fn waits_for_text_look_at_the_document() {
    let mut runtime = runtime();
    let (condition, _) = begin_wait(&wait(Some("go"), None), 0).expect("a wait");
    let mut since = None;
    let mut look = |runtime: &AegisRuntime, stage: WaitStage| {
        runtime.wait_condition_satisfied(&condition, stage, None, &still(), &mut since, 0)
    };
    assert_eq!(look(&runtime, WaitStage::Page), WaitStep::NeedDocument);
    assert_eq!(look(&runtime, WaitStage::Document), WaitStep::NotYet);
    runtime.apply_snapshot(DomSnapshot { nodes: vec![button(1, "Go")] }, 1);
    assert_eq!(look(&runtime, WaitStage::Document), WaitStep::Satisfied);
}

#[test]
fn a_cancelled_wait_fails() {
    let mut runtime = runtime();
    assert!(runtime.wait_cancelled().is_none());
    let mut host = HostRuntimeState::default();
    host.cancel_requested = true;
    runtime.apply_host_state(host, 1);
    let result = runtime.wait_cancelled().expect("cancelled");
    assert_eq!(result.error.as_deref(), Some("wait_for cancelled"));
}

#[test]
fn media_is_reported_for_a_node_or_all() {
    let mut runtime = runtime();
    let media = |id: u64| MediaDiagnostics {
        node_id: Some(id),
        current_src: None,
        ready_state: Some(4),
        duration_known: true,
        report: JsonValue::Unsigned(id),
    };
    runtime.finish_live_refresh(Ok(vec![media(1), media(2)]), 5).expect("media");
    assert_eq!(runtime.media().len(), 2);
    let all = runtime.media_state(None).value.expect("a value");
    let one = runtime.media_state(Some(2)).value.expect("a value");
    assert_ne!(all, one);
    assert!(runtime.finish_live_refresh(Err("bad".into()), 6).is_err());
    assert!(!runtime.live_refresh_due(false, 5));
    assert!(runtime.live_refresh_due(true, 5));
    assert!(runtime.media_target(&named("x")).is_err());
}

#[test]
fn pages_that_cannot_be_read_are_errors() {
    let mut runtime = runtime();
    match runtime.apply_live_text("{", |_| String::new()) {
        Err(AegisError::Bridge(message)) => {
            assert!(message.starts_with("live state json parse error: "))
        }
        other => panic!("expected an error, got {other:?}"),
    }
    assert_eq!(
        runtime.apply_live_text("{\"bootstrap\":3}", |v| format!("not {v:?}")),
        Err(AegisError::Bridge("page bootstrap json parse error: not Unsigned(3)".into()))
    );
    assert_eq!(
        parse_wait_state("{", |raw| Err(format!("cannot read {raw}"))),
        Err(AegisError::Bridge("wait state json parse error: cannot read {".into()))
    );
    let state = WaitLiveState {
        scroll_x: Some(1),
        scroll_y: None,
        selector_found: true,
        animations_running: false,
    };
    assert_eq!(parse_wait_state("x", |_| Ok(state)), Ok(state));
    assert!(wait_state_script(Some("a'b")).contains("a'b"));
    assert!(!live_state_script().is_empty());
}

#[test]
fn sessions_are_checked_and_recorded() {
    let mut runtime = runtime();
    runtime.enable_trace_recording("/t".into());
    assert!(runtime.captures_network_events());
    assert_eq!(runtime.trace_recorder().map(|r| r.path()), Some("/t"));
    runtime.prepare_session(&SessionState::default()).expect("sound");
    assert!(runtime
        .trace_recorder()
        .is_some_and(|r| r.trace().initial_session.is_some()));
    let id = runtime.next_batch_id();
    assert_eq!((id, runtime.next_batch_id()), (1, 2));
    runtime.record_trace(
        BatchRequest { batch_id: 1, commands: vec![] },
        BatchResponse { batch_id: 1, results: vec![], snapshot: None, events: vec![] },
        &[],
    );
    assert!(runtime.trace_recorder().is_some_and(|r| r.trace().batches.len() == 1));
    let mut unsound = SessionState::default();
    unsound.network_overrides.push(aegis::NetworkOverride { header: "".into(), value: "".into() });
    assert!(matches!(
        runtime.prepare_session(&unsound),
        Err(AegisError::InvalidSession(_))
    ));
}

#[test]
fn the_report_of_a_batch_tells_the_latest_event() {
    let mut runtime = runtime();
    runtime.apply_event_batch(&vec![navigation("a"), navigation("b")], 1);
    let report = runtime.execution_report(3, vec![CommandResult::ok(JsonValue::Null)]);
    assert_eq!((report.batch_id, report.results.len(), report.latest_event_sequence), (3, 1, 2));
    runtime.mark_successful_command(9);
    let status = runtime.runtime_status();
    assert_eq!(status.last_successful_command_at_ms, Some(9));
    assert_eq!(status.last_successful_bridge_roundtrip_at_ms, Some(9));
    assert_eq!(status.retained_event_count, 2);
    assert_eq!(status.bootstrap_duration_ms, Some(5));
}

#[test]
fn a_host_that_lost_its_runtime_is_recovered() {
    let mut host = HostRuntimeState::default();
    assert!(!needs_bridge_recovery(&host));
    host.startup_complete = true;
    host.browser_available = true;
    host.page_ready = true;
    host.renderer_ready = true;
    assert!(needs_bridge_recovery(&host));
    host.runtime_ready = true;
    assert!(!needs_bridge_recovery(&host));
}

#[test]
fn a_target_that_is_not_there_is_described_by_name() {
    let mut target = named("a\"b");
    if let CommandTarget::Match { matcher } = &mut target {
        matcher.label = Some("l".into());
        matcher.exact = Some(true);
    }
    let result = resolve_target_id(&DomSnapshot { nodes: vec![] }, &target, None)
        .expect_err("no such node");
    assert_eq!(
        result.error.as_deref(),
        Some("no node matched {\"exact\":true,\"label\":\"l\",\"name\":\"a\\\"b\"}")
    );
}
