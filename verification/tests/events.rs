use aegis::dom::diff::DomMutation;
use aegis::events::stream::{
    EventStream, EventType, NetworkResourcePhase, SequencedEvent, WebSocketFrameDirection,
};
use aegis::events::wire::EventError;
use aegis::json::{parse_json, JsonValue};
use aegis::string_map::StringMap;
use aegis::RuntimeEvent;

fn log(sequence: u64, timestamp_ms: u64, message: &str) -> SequencedEvent {
    SequencedEvent {
        sequence,
        timestamp_ms,
        event: RuntimeEvent::Log {
            level: "info".into(),
            message: message.into(),
            data: None,
        },
    }
}

#[test]
fn filters_event_stream_by_type() {
    let mut stream = EventStream::default();
    stream.push(SequencedEvent {
        sequence: 1,
        timestamp_ms: 10,
        event: RuntimeEvent::Navigation {
            url: "https://example.com".into(),
        },
    });
    stream.push(log(2, 11, "ready"));

    let only_nav = stream.read_from(0, Some(EventType::Navigation));
    assert!(!only_nav.gap_detected);
    assert_eq!(only_nav.events.len(), 1);
    assert_eq!(only_nav.events[0].sequence, 1);
}

#[test]
fn websocket_events_are_filterable() {
    let mut stream = EventStream::default();
    stream.push(SequencedEvent {
        sequence: 1,
        timestamp_ms: 10,
        event: RuntimeEvent::WebSocketFrame {
            request_id: "ws-1".into(),
            url: "wss://example.com/socket".into(),
            direction: WebSocketFrameDirection::Received,
            opcode: Some(1),
            mask: Some(false),
            payload_preview: "hello".into(),
            payload_length: 5,
            truncated: false,
        },
    });
    stream.push(log(2, 11, "ready"));

    let only_ws = stream.read_from(0, Some(EventType::WebSocket));
    assert_eq!(only_ws.events.len(), 1);
    assert_eq!(only_ws.events[0].sequence, 1);
}

#[test]
fn unknown_runtime_events_round_trip_without_parse_failure() {
    let value = JsonValue::Object(vec![
        ("type".into(), JsonValue::Text("websocket_frame_v2".into())),
        ("request_id".into(), JsonValue::Text("ws-2".into())),
        ("url".into(), JsonValue::Text("wss://example.com/socket".into())),
        ("payload_preview".into(), JsonValue::Text("future".into())),
        (
            "custom".into(),
            JsonValue::Object(vec![("seen".into(), JsonValue::Bool(true))]),
        ),
    ]);
    let event = RuntimeEvent::from_json(&value).expect("unknown event parses");
    match &event {
        RuntimeEvent::Unknown { event_type, payload } => {
            assert_eq!(event_type, "websocket_frame_v2");
            assert_eq!(payload, &value);
        }
        other => panic!("expected unknown event, got {other:?}"),
    }
    assert_eq!(event.to_json(), value);
}

#[test]
fn network_event_serializes_optional_fields() {
    let event = RuntimeEvent::Network {
        request_id: "req-7".into(),
        url: "https://example.com/api".into(),
        method: Some("GET".into()),
        resource_type: Some("XHR".into()),
        phase: Some(NetworkResourcePhase::Response),
        status: Some(200),
        status_text: Some("OK".into()),
        mime_type: Some("application/json".into()),
        from_cache: Some(false),
        error_text: None,
    };

    let json = event.to_text();
    assert!(json.contains("\"phase\":\"response\""));
    assert!(json.contains("\"status\":200"));
}

#[test]
fn detects_event_gaps_when_history_is_truncated() {
    let mut stream = EventStream::with_max_retained(2);
    for sequence in 1..=3 {
        stream.push(log(sequence, sequence, &format!("event-{sequence}")));
    }

    let window = stream.read_from(0, None);
    assert!(window.gap_detected);
    assert_eq!(window.oldest_available_sequence, Some(2));
    assert_eq!(window.latest_sequence, 3);
    assert_eq!(window.events.len(), 2);
}

#[test]
fn reading_on_from_the_latest_gives_only_what_is_new() {
    let mut stream = EventStream::default();
    stream.push_all(vec![log(1, 1, "a"), log(2, 2, "b")]);
    let first = stream.read_from(0, None);
    assert_eq!(first.events.len(), 2);
    stream.push_all(vec![log(3, 3, "c")]);
    let next = stream.read_from(first.latest_sequence, None);
    assert_eq!(next.events.len(), 1);
    assert_eq!(next.events[0].sequence, 3);
    assert!(!next.gap_detected);
    assert_eq!(next.requested_since, 2);
}

#[test]
fn pushing_many_is_pushing_one_by_one() {
    let mut together = EventStream::with_max_retained(3);
    together.push_all((1..=5).map(|n| log(n, n, "x")).collect());
    let mut single = EventStream::with_max_retained(3);
    for n in 1..=5 {
        single.push(log(n, n, "x"));
    }
    assert_eq!(together.read_from(0, None), single.read_from(0, None));
    assert_eq!(together.retained_len(), 3);
    assert_eq!(together.oldest_sequence(), Some(3));
    assert_eq!(together.latest_sequence(), 5);
    assert_eq!(EventStream::default().latest_sequence(), 0);
    assert_eq!(EventStream::unbounded().oldest_sequence(), None);
}

#[test]
fn every_event_is_read_back_from_its_text() {
    let events = vec![
        RuntimeEvent::DomMutation {
            changes: vec![
                DomMutation::Upsert {
                    id: 1,
                    tag: "a".into(),
                    attrs: {
                        let mut attrs = StringMap::new();
                        attrs.insert("$ref".into(), "x".into());
                        attrs
                    },
                    text: None,
                    semantic: None,
                    children: vec![2],
                },
                DomMutation::Remove { id: 1 },
                DomMutation::SetText { id: 2, text: None },
                DomMutation::SetAttr {
                    id: 2,
                    name: "class".into(),
                    value: Some("x".into()),
                },
                DomMutation::SetChildren {
                    id: 2,
                    children: vec![3, 4],
                },
            ],
        },
        RuntimeEvent::Navigation { url: "https://example.com".into() },
        RuntimeEvent::WebSocketOpen { request_id: "1".into(), url: "wss://e".into() },
        RuntimeEvent::WebSocketHandshake {
            request_id: "1".into(),
            url: "wss://e".into(),
            status: Some(101),
            status_text: None,
        },
        RuntimeEvent::WebSocketFrame {
            request_id: "1".into(),
            url: "wss://e".into(),
            direction: WebSocketFrameDirection::Sent,
            opcode: None,
            mask: None,
            payload_preview: "p".into(),
            payload_length: 1,
            truncated: true,
        },
        RuntimeEvent::WebSocketClose { request_id: "1".into(), url: "wss://e".into() },
        RuntimeEvent::Log {
            level: "warn".into(),
            message: "m".into(),
            data: Some(JsonValue::Array(vec![JsonValue::Unsigned(1)])),
        },
    ];
    for event in events {
        assert_eq!(RuntimeEvent::from_text(&event.to_text()), Ok(event));
    }
}

#[test]
fn events_without_their_fields_are_refused() {
    assert_eq!(
        RuntimeEvent::from_text("{\"type\":\"navigation\"}"),
        Err(EventError::Malformed("navigation".into()))
    );
    let reported = parse_json("{").expect_err("no json");
    assert_eq!(RuntimeEvent::from_text("{"), Err(EventError::Json(reported)));
    assert_eq!(
        RuntimeEvent::from_text("{\"type\":\"navigation\",\"url\":\"x\"}")
            .map(|event| event.event_type()),
        Ok(EventType::Navigation)
    );
}
