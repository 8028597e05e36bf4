use aegis::json::{
    parse_json, parse_json_bytes, write_json, write_json_pretty, write_out, write_record_pretty,
    JsonOut, JsonValue,
};
use aegis::transport::bridge::{AegisError, BufferAction, HostBuffer};
use aegis::transport::protocol::{
    decode_frame, decode_message, encode_frame, encode_message, ActivateBrowserRequest,
    DrainEventsRequest, EvalJsRequest, HostRuntimeState, MessageEnvelope, MessageKind,
    NavigateRequest,
};

fn object(members: Vec<(&str, JsonValue)>) -> JsonValue {
    JsonValue::Object(members.into_iter().map(|(k, v)| (k.to_string(), v)).collect())
}

fn record(members: Vec<(&str, JsonOut)>) -> JsonOut {
    JsonOut::Record(members.into_iter().map(|(k, v)| (k.to_string(), v)).collect())
}

fn values(members: Vec<(&str, JsonValue)>) -> JsonOut {
    record(members.into_iter().map(|(k, v)| (k, JsonOut::Value(v))).collect())
}

fn text(value: &str) -> JsonValue {
    JsonValue::Text(value.into())
}

fn envelope(body: &[u8]) -> Result<MessageEnvelope<JsonValue>, String> {
    let kinds = [
        MessageKind::EnsureRuntime,
        MessageKind::EvalJs,
        MessageKind::SendBatch,
        MessageKind::SnapshotDom,
        MessageKind::InjectSession,
        MessageKind::SnapshotSession,
        MessageKind::DrainEvents,
        MessageKind::Navigate,
        MessageKind::SnapshotHostState,
        MessageKind::ActivateBrowser,
    ];
    let value = parse_json_bytes(body)?;
    let name = value.get("kind").and_then(|v| v.as_str()).ok_or("missing field `kind`")?;
    let kind = kinds.into_iter().find(|k| k.name() == name).ok_or("unknown variant")?;
    let payload = value.get("payload").ok_or("missing field `payload`")?.clone();
    Ok(MessageEnvelope { kind, payload })
}

fn decode(kind: MessageKind, frame: &[u8]) -> Result<JsonValue, AegisError> {
    decode_message(kind, frame, envelope)
}

#[test]
fn activate_browser_request_round_trips() {
    let frame = encode_message(
        MessageKind::ActivateBrowser,
        ActivateBrowserRequest { browser_id: 17 }.to_out(),
    );

    let payload = decode(MessageKind::ActivateBrowser, &frame).expect("frame decodes");
    assert_eq!(payload.get("browser_id").and_then(|v| v.as_u64()), Some(17));
}

#[test]
fn binary_protocol_round_trips() {
    let frame = encode_message(
        MessageKind::EvalJs,
        EvalJsRequest { script: "return document.title".into() }.to_out(),
    );

    let payload = decode(MessageKind::EvalJs, &frame).expect("frame decodes");
    assert_eq!(payload.get("script").and_then(|v| v.as_str()), Some("return document.title"));
}

#[test]
fn batch_wire_response_decodes_null_snapshot() {
    let frame = encode_message(
        MessageKind::SendBatch,
        values(vec![
            ("batch_id", JsonValue::Unsigned(5)),
            ("results", JsonValue::Array(vec![])),
            ("snapshot", JsonValue::Null),
            ("events", JsonValue::Array(vec![])),
        ]),
    );

    let payload = decode(MessageKind::SendBatch, &frame).expect("frame decodes");
    assert_eq!(payload.get("batch_id").and_then(|v| v.as_u64()), Some(5));
    assert!(payload.get("snapshot").is_some_and(|v| v.is_null()));
}

#[test]
fn navigate_response_decodes_null_snapshot() {
    let frame = encode_message(
        MessageKind::Navigate,
        values(vec![
            ("url", text("https://example.com")),
            ("snapshot", JsonValue::Null),
            ("events", JsonValue::Array(vec![])),
        ]),
    );

    let payload = decode(MessageKind::Navigate, &frame).expect("frame decodes");
    assert_eq!(payload.get("url").and_then(|v| v.as_str()), Some("https://example.com"));
    assert!(payload.get("snapshot").is_some_and(|v| v.is_null()));
}

#[test]
fn host_runtime_state_round_trips() {
    let sent = values(vec![
        ("startup_complete", JsonValue::Bool(true)),
        ("browser_available", JsonValue::Bool(true)),
        ("active_context_id", text("primary")),
        ("active_browser_id", JsonValue::Unsigned(41)),
        ("context_id", text("primary")),
        ("browser_id", JsonValue::Unsigned(41)),
        ("request_context_available", JsonValue::Bool(true)),
        ("attached_browser_ids", JsonValue::Array(vec![JsonValue::Unsigned(41)])),
        ("known_context_ids", JsonValue::Array(vec![text("primary")])),
        ("page_ready", JsonValue::Bool(false)),
        ("renderer_ready", JsonValue::Bool(true)),
        ("runtime_installed", JsonValue::Bool(true)),
        ("runtime_ready", JsonValue::Bool(true)),
        ("load_in_progress", JsonValue::Bool(true)),
        ("browser_closed", JsonValue::Bool(false)),
        ("cancel_requested", JsonValue::Bool(true)),
        ("current_url", text("https://example.com/login")),
        ("download_dir", text("/tmp/downloads")),
        (
            "downloads",
            JsonValue::Array(vec![object(vec![
                ("id", JsonValue::Unsigned(7)),
                ("url", text("https://example.com/file.pdf")),
                ("suggested_name", text("file.pdf")),
                ("target_path", text("/tmp/downloads/file.pdf")),
                ("mime_type", text("application/pdf")),
                ("state", text("completed")),
                ("received_bytes", JsonValue::Unsigned(1024)),
                ("total_bytes", JsonValue::Unsigned(1024)),
                ("percent_complete", JsonValue::Unsigned(100)),
                ("interrupt_reason", JsonValue::Null),
                ("complete", JsonValue::Bool(true)),
                ("canceled", JsonValue::Bool(false)),
            ])]),
        ),
        ("active_operation", text("navigate")),
        ("active_stage", text("waiting for ready renderer context")),
    ]);
    let frame = encode_message(MessageKind::SnapshotHostState, sent);

    let payload = decode(MessageKind::SnapshotHostState, &frame).expect("frame decodes");
    let flag = |name: &str| payload.get(name).and_then(|v| v.as_bool());
    let word = |name: &str| payload.get(name).and_then(|v| v.as_str());
    let number = |name: &str| payload.get(name).and_then(|v| v.as_u64());
    assert_eq!(flag("startup_complete"), Some(true));
    assert_eq!(flag("browser_available"), Some(true));
    assert_eq!(word("active_context_id"), Some("primary"));
    assert_eq!(number("active_browser_id"), Some(41));
    assert_eq!(word("context_id"), Some("primary"));
    assert_eq!(number("browser_id"), Some(41));
    assert_eq!(flag("request_context_available"), Some(true));
    assert_eq!(
        payload.get("attached_browser_ids"),
        Some(&JsonValue::Array(vec![JsonValue::Unsigned(41)]))
    );
    assert_eq!(
        payload.get("known_context_ids"),
        Some(&JsonValue::Array(vec![text("primary")]))
    );
    assert_eq!(flag("renderer_ready"), Some(true));
    assert_eq!(flag("cancel_requested"), Some(true));
    assert_eq!(word("current_url"), Some("https://example.com/login"));
}

#[test]
fn an_unknown_host_is_neither_available_nor_ready() {
    let host = HostRuntimeState::default();
    assert!(!host.browser_available);
    assert!(!host.runtime_ready);
    assert!(host.downloads.is_empty());
}

#[test]
fn frames_have_a_fixed_shape() {
    let frame = encode_frame(MessageKind::EvalJs, b"xyz");
    assert_eq!(frame.len(), 19);
    assert_eq!(&frame[8..16], &[3, 0, 0, 0, 0, 0, 0, 0]);
    assert_eq!(&frame[16..], b"xyz");
    assert_eq!(decode_frame(MessageKind::EvalJs, &frame), Ok(&b"xyz"[..]));
}

#[test]
fn frames_of_another_kind_are_refused() {
    let frame = encode_frame(MessageKind::EvalJs, b"xyz");
    assert!(matches!(
        decode_frame(MessageKind::Navigate, &frame),
        Err(AegisError::Protocol(_))
    ));
    assert_eq!(
        decode_frame(MessageKind::EvalJs, &frame[..15]),
        Err(AegisError::Protocol("frame too short".into()))
    );
    assert_eq!(
        decode_frame(MessageKind::EvalJs, &frame[..18]),
        Err(AegisError::Protocol("frame length mismatch".into()))
    );
    let mut other = frame;
    other[0] ^= 1;
    assert!(matches!(
        decode_frame(MessageKind::EvalJs, &other),
        Err(AegisError::Protocol(_))
    ));
}

#[test]
fn a_frame_with_a_body_that_is_no_json_is_refused() {
    let frame = encode_frame(MessageKind::EvalJs, b"{");
    let reported = parse_json_bytes(b"{").expect_err("no json");
    assert_eq!(decode(MessageKind::EvalJs, &frame), Err(AegisError::Protocol(reported)));
}

#[test]
fn what_the_reader_of_envelopes_says_is_handed_on() {
    let frame = encode_frame(MessageKind::EvalJs, b"{\"payload\":1}");
    assert_eq!(
        decode(MessageKind::EvalJs, &frame),
        Err(AegisError::Protocol("missing field `kind`".into()))
    );
}

#[test]
fn an_envelope_of_another_kind_than_its_frame_is_refused() {
    let frame =
        encode_frame(MessageKind::EvalJs, b"{\"kind\":\"Navigate\",\"payload\":null}");
    assert_eq!(
        decode(MessageKind::EvalJs, &frame),
        Err(AegisError::Protocol("envelope kind mismatch".into()))
    );
}

#[test]
fn messages_list_their_members_in_order() {
    let body = |frame: Vec<u8>| String::from_utf8(frame[16..].to_vec()).expect("text");
    let navigate = NavigateRequest { url: "u".into(), capture_network_events: true };
    assert_eq!(
        body(encode_message(MessageKind::Navigate, navigate.to_out())),
        "{\"kind\":\"Navigate\",\"payload\":{\"url\":\"u\",\"capture_network_events\":true}}"
    );
    let quiet = NavigateRequest { url: "u".into(), capture_network_events: false };
    assert_eq!(write_out(&quiet.to_out()), "{\"url\":\"u\"}");
    let drain = DrainEventsRequest { enable_network_capture: true };
    assert_eq!(write_out(&drain.to_out()), "{\"enable_network_capture\":true}");
    let drain = DrainEventsRequest { enable_network_capture: false };
    assert_eq!(write_out(&drain.to_out()), "{}");
    assert_eq!(
        body(encode_message(MessageKind::SnapshotDom, JsonOut::Value(JsonValue::Null))),
        "{\"kind\":\"SnapshotDom\",\"payload\":null}"
    );
}

#[test]
fn buffers_of_the_host_are_checked_before_they_are_read() {
    assert_eq!(HostBuffer::empty().action(), BufferAction::Empty);
    assert_eq!(HostBuffer { is_null: false, len: 8 }.action(), BufferAction::CopyAndFree);
    assert_eq!(
        HostBuffer { is_null: true, len: 8 }.action(),
        BufferAction::Fail(AegisError::Bridge(
            "native host returned an invalid buffer shape".into()
        ))
    );
    assert_eq!(
        HostBuffer { is_null: false, len: 0 }.action(),
        BufferAction::Fail(AegisError::Bridge(
            "native host returned an invalid buffer shape".into()
        ))
    );
    assert_eq!(
        HostBuffer { is_null: false, len: 67_108_865 }.action(),
        BufferAction::FreeAndFail(AegisError::Bridge(
            "native host returned an oversized buffer: 67108865 bytes".into()
        ))
    );
}

#[test]
fn errors_say_what_they_are() {
    let cases = [
        (AegisError::Serialize("x".into()), "serialization error: x"),
        (AegisError::Deserialize("x".into()), "deserialization error: x"),
        (AegisError::Bridge("x".into()), "bridge error: x"),
        (AegisError::InvalidSession("x".into()), "invalid session: x"),
        (AegisError::Io("x".into()), "io error: x"),
        (AegisError::Utf8("x".into()), "utf8 error: x"),
        (AegisError::Protocol("x".into()), "protocol error: x"),
    ];
    for (error, message) in cases {
        assert_eq!(error.message(), message);
    }
}

#[test]
fn json_is_read_and_written() {
    let value = parse_json(" {\"b\":[1,-2,1.5,null,true],\"a\":\"x\\n\"} ").expect("well-formed");
    assert_eq!(
        value.get("b"),
        Some(&JsonValue::Array(vec![
            JsonValue::Unsigned(1),
            JsonValue::Negative(-2),
            JsonValue::Fraction("1.5".into()),
            JsonValue::Null,
            JsonValue::Bool(true),
        ]))
    );
    assert_eq!(write_json(&value), "{\"a\":\"x\\n\",\"b\":[1,-2,1.5,null,true]}");
    let out = record(vec![
        ("z", JsonOut::Value(value.clone())),
        ("a", JsonOut::List(vec![JsonOut::Value(JsonValue::Unsigned(1)), record(vec![])])),
    ]);
    let written = write_out(&out);
    assert_eq!(written, "{\"z\":{\"a\":\"x\\n\",\"b\":[1,-2,1.5,null,true]},\"a\":[1,{}]}");
    assert_eq!(parse_json(&written).expect("well-formed").get("z"), Some(&value));
    assert_eq!(
        write_record_pretty(&vec![
            ("b".to_string(), JsonValue::Unsigned(1)),
            ("a".to_string(), object(vec![("y", JsonValue::Null), ("x", JsonValue::Null)])),
        ]),
        b"{\n  \"b\": 1,\n  \"a\": {\n    \"x\": null,\n    \"y\": null\n  }\n}".to_vec()
    );
    assert_eq!(
        write_json_pretty(&object(vec![("a", JsonValue::Unsigned(1))])),
        b"{\n  \"a\": 1\n}".to_vec()
    );
    assert!(parse_json("{bad-json").is_err());
}

#[test]
fn an_object_under_the_reserved_name_is_read_as_its_text() {
    let reserved = object(vec![("$serde_json::private::RawValue", text("1"))]);
    let written = write_json(&reserved);
    assert_eq!(written, "{\"$serde_json::private::RawValue\":\"1\"}");
    assert_ne!(parse_json(&written), Ok(reserved));
    let ordinary = object(vec![("$serde_json::private", text("1"))]);
    assert_eq!(parse_json(&write_json(&ordinary)), Ok(ordinary));
}
