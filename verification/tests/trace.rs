use aegis::dom::node::{DomNode, DomSnapshot};
use aegis::json::JsonValue;
use aegis::string_map::StringMap;
use aegis::{
    replay_trace, BatchRequest, BatchResponse, BrowserConfig, BrowserMode,
    Command, CommandResult, CommandTarget, RuntimeEvent, SequencedEvent, SessionState, TraceFile,
    TraceRecorder,
};

fn config(mode: BrowserMode, start_url: Option<&str>) -> BrowserConfig {
    BrowserConfig {
        mode,
        start_url: start_url.map(str::to_owned),
        download_dir: None,
        upload_dir: None,
    }
}

fn page(children: Vec<u64>) -> DomSnapshot {
    DomSnapshot {
        nodes: vec![DomNode {
            id: 1,
            tag: "html".into(),
            attrs: StringMap::new(),
            text: None,
            semantic: None,
            children,
        }],
    }
}

fn response(batch_id: u64, snapshot: Option<DomSnapshot>) -> BatchResponse {
    BatchResponse {
        batch_id,
        results: Vec::new(),
        snapshot,
        events: Vec::new(),
    }
}

#[test]
fn trace_recorder_persists_batches() {
    let mut recorder = TraceRecorder::new(
        "aegis-trace-test.json".into(),
        config(BrowserMode::Headless, None),
    );
    recorder.set_initial_session(SessionState::default());
    recorder.record_batch(
        BatchRequest {
            batch_id: 7,
            commands: vec![Command::Click {
                target: CommandTarget::Id { id: 3 },
            }],
        },
        BatchResponse {
            batch_id: 7,
            results: vec![CommandResult::ok(JsonValue::Object(vec![(
                "clicked".into(),
                JsonValue::Unsigned(3),
            )]))],
            snapshot: Some(DomSnapshot { nodes: vec![] }),
            events: Vec::new(),
        },
        &[SequencedEvent {
            sequence: 1,
            timestamp_ms: 1,
            event: RuntimeEvent::Log {
                level: "info".into(),
                message: "batch".into(),
                data: None,
            },
        }],
    );

    let trace: &TraceFile = recorder.trace();
    assert_eq!(trace.batches.len(), 1);
    assert_eq!(trace.batches[0].batch_id, 7);
    assert_eq!(trace.browser_config.mode, BrowserMode::Headless);
    assert_eq!(trace.batches[0].emitted_events.len(), 1);
    assert!(trace.initial_session.is_some());
    assert_eq!(recorder.path(), "aegis-trace-test.json");
}

#[test]
fn replay_trace_rebuilds_final_state() {
    let mut recorder = TraceRecorder::new(
        "aegis-trace-replay-test.json".into(),
        config(BrowserMode::Headful, Some("https://example.com")),
    );
    recorder.record_batch(
        BatchRequest {
            batch_id: 9,
            commands: vec![],
        },
        response(9, Some(page(vec![]))),
        &[SequencedEvent {
            sequence: 2,
            timestamp_ms: 2,
            event: RuntimeEvent::Navigation {
                url: "https://example.com".into(),
            },
        }],
    );

    let replay = replay_trace(recorder.trace());
    assert_eq!(replay.final_snapshot.nodes.len(), 1);
    assert_eq!(replay.events.latest_sequence(), 2);
    assert_eq!(replay.browser_config.mode, BrowserMode::Headful);
}

#[test]
fn replay_trace_retains_last_non_null_snapshot() {
    let mut recorder = TraceRecorder::new(
        "aegis-trace-replay-null-snapshot-test.json".into(),
        config(BrowserMode::Headful, Some("https://example.com")),
    );
    recorder.record_batch(
        BatchRequest {
            batch_id: 1,
            commands: vec![],
        },
        response(1, Some(page(vec![2]))),
        &[],
    );
    recorder.record_batch(
        BatchRequest {
            batch_id: 2,
            commands: vec![Command::Scroll { x: 0, y: 480 }],
        },
        response(2, None),
        &[],
    );

    let replay = replay_trace(recorder.trace());
    assert_eq!(replay.final_snapshot.nodes.len(), 1);
    assert_eq!(replay.final_snapshot.nodes[0].tag, "html");
    assert_eq!(replay.final_snapshot.nodes[0].children, vec![2]);
}

#[test]
fn replay_trace_clears_snapshot_on_navigation_without_snapshot() {
    let mut recorder = TraceRecorder::new(
        "aegis-trace-replay-nav-clear-test.json".into(),
        config(BrowserMode::Headful, Some("https://example.com")),
    );
    recorder.record_batch(
        BatchRequest {
            batch_id: 1,
            commands: vec![],
        },
        response(1, Some(page(vec![2]))),
        &[],
    );
    recorder.record_batch(
        BatchRequest {
            batch_id: 2,
            commands: vec![],
        },
        response(2, None),
        &[SequencedEvent {
            sequence: 3,
            timestamp_ms: 3,
            event: RuntimeEvent::Navigation {
                url: "https://www.wikipedia.org".into(),
            },
        }],
    );

    let replay = replay_trace(recorder.trace());
    assert!(replay.final_snapshot.nodes.is_empty());
    assert_eq!(replay.events.latest_sequence(), 3);
}

#[test]
fn a_resumed_recording_goes_on() {
    let mut recorder = TraceRecorder::new("t".into(), config(BrowserMode::Headless, None));
    recorder.record_batch(
        BatchRequest { batch_id: 1, commands: vec![] },
        response(1, None),
        &[],
    );
    let trace = TraceFile {
        protocol_version: 1,
        browser_config: config(BrowserMode::Headless, None),
        initial_session: None,
        batches: vec![],
    };
    let mut resumed = TraceRecorder::resume("t".into(), trace);
    resumed.record_batch(
        BatchRequest { batch_id: 2, commands: vec![] },
        response(2, None),
        &[],
    );
    assert_eq!(resumed.trace().batches.len(), 1);
    assert_eq!(recorder.trace().protocol_version, 1);
}
