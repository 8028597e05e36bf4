use aegis::commands::encoder::encode_batch;
use aegis::json::{parse_json, write_out, JsonValue};
use aegis::{
    BatchRequest, BrowserConfig, BrowserMode, Command, CommandMatcher, CommandTarget,
    UploadFilePayload,
};

fn empty() -> CommandMatcher {
    CommandMatcher {
        selector: None,
        test_id: None,
        role: None,
        name: None,
        label: None,
        control_type: None,
        tag: None,
        text: None,
        placeholder: None,
        href_contains: None,
        actionable: Some(true),
        disabled: Some(false),
        exact: None,
    }
}

fn batch() -> BatchRequest {
    BatchRequest {
        batch_id: 42,
        commands: vec![
            Command::Click {
                target: CommandTarget::Id { id: 9 },
            },
            Command::Hover {
                target: CommandTarget::Match {
                    matcher: CommandMatcher {
                        role: Some("button".into()),
                        name: Some("Open".into()),
                        exact: Some(true),
                        ..empty()
                    },
                },
            },
            Command::SetValue {
                target: CommandTarget::Match {
                    matcher: CommandMatcher {
                        control_type: Some("searchbox".into()),
                        name: Some("Search".into()),
                        ..empty()
                    },
                },
                value: "hello".into(),
            },
            Command::PressKey {
                target: Some(CommandTarget::Id { id: 9 }),
                key: "Enter".into(),
                code: Some("Enter".into()),
                alt_key: false,
                ctrl_key: false,
                meta_key: false,
                shift_key: false,
            },
            Command::SetFiles {
                target: CommandTarget::Match {
                    matcher: CommandMatcher {
                        selector: Some("input[type='file']".into()),
                        test_id: Some("upload-input".into()),
                        name: Some("Upload".into()),
                        tag: Some("input".into()),
                        ..empty()
                    },
                },
                paths: vec!["/tmp/example.pdf".into()],
                files: Some(vec![UploadFilePayload {
                    name: "example.pdf".into(),
                    mime_type: Some("application/pdf".into()),
                    base64: "SGVsbG8=".into(),
                    last_modified_ms: Some(1_717_171_717_000),
                }]),
            },
            Command::WaitFor {
                target: Some(CommandTarget::Match {
                    matcher: CommandMatcher {
                        name: Some("Results".into()),
                        ..empty()
                    },
                }),
                selector: Some("[data-ready='true']".into()),
                url_contains: Some("search".into()),
                title_contains: Some("Results".into()),
                text: Some("browser automation".into()),
                ready_state: Some("complete".into()),
                scroll_x: Some(0),
                scroll_y: Some(480),
                scroll_changed: Some(true),
                media_current_src_contains: Some("episode".into()),
                media_ready_state_at_least: Some(1),
                media_duration_known: Some(true),
                animation_idle_ms: Some(100),
                timeout_ms: Some(1_500),
                poll_interval_ms: Some(25),
            },
            Command::Scroll { x: 0, y: 480 },
            Command::Drag {
                target: CommandTarget::Match {
                    matcher: CommandMatcher {
                        selector: Some("[data-testid='timeline-slider']".into()),
                        test_id: Some("timeline-slider".into()),
                        role: Some("slider".into()),
                        name: Some("Timeline".into()),
                        ..empty()
                    },
                },
                delta_x: Some("240.0".into()),
                delta_y: Some("0.0".into()),
                to_x: None,
                to_y: None,
                steps: Some(8),
                handle: Some("end".into()),
            },
            Command::Geometry {
                target: CommandTarget::Id { id: 12 },
            },
            Command::MediaState {
                target: Some(CommandTarget::Id { id: 44 }),
            },
        ],
    }
}

#[test]
fn encodes_batch_request_with_stable_shape() {
    let encoded = encode_batch(&batch());
    assert!(encoded.contains("\"batch_id\":42"));
    assert!(encoded.contains("\"type\":\"click\""));
    assert!(encoded.contains("\"type\":\"hover\""));
    assert!(encoded.contains("\"type\":\"set_value\""));
    assert!(encoded.contains("\"type\":\"press_key\""));
    assert!(encoded.contains("\"type\":\"set_files\""));
    assert!(encoded.contains("\"type\":\"wait_for\""));
    assert!(encoded.contains("\"type\":\"scroll\""));
    assert!(encoded.contains("\"type\":\"drag\""));
    assert!(encoded.contains("\"type\":\"geometry\""));
    assert!(encoded.contains("\"type\":\"media_state\""));
    assert!(encoded.contains("\"match\""));
    assert!(encoded.contains("\"selector\":\"[data-testid='timeline-slider']\""));
    assert!(encoded.contains("\"test_id\":\"timeline-slider\""));
    assert!(encoded.contains("\"mime_type\":\"application/pdf\""));
    assert!(encoded.contains("\"control_type\":\"searchbox\""));
    assert!(encoded.contains("\"exact\":true"));
    assert!(encoded.contains("\"handle\":\"end\""));
    assert!(encoded.contains("\"delta_x\":240.0"));
}

#[test]
fn batches_list_their_members_in_order() {
    let small = BatchRequest {
        batch_id: 7,
        commands: vec![
            Command::SetValue { target: CommandTarget::Id { id: 9 }, value: "v".into() },
            Command::Hover {
                target: CommandTarget::Match {
                    matcher: CommandMatcher {
                        test_id: Some("t".into()),
                        name: Some("n".into()),
                        ..empty()
                    },
                },
            },
            Command::Scroll { x: -3, y: 4 },
        ],
    };
    assert_eq!(
        encode_batch(&small),
        "{\"batch_id\":7,\"commands\":[{\"type\":\"set_value\",\"id\":9,\"value\":\"v\"},\
{\"type\":\"hover\",\"match\":{\"test_id\":\"t\",\"name\":\"n\",\"actionable\":true,\"disabled\":false}},\
{\"type\":\"scroll\",\"x\":-3,\"y\":4}]}"
    );
}

#[test]
fn network_capture_is_asked_for_beside_the_batch() {
    let written = write_out(&batch().to_message(true));
    assert!(written.starts_with("{\"batch_id\":42,\"capture_network_events\":true,"));
    let sent = parse_json(&written).expect("well-formed");
    let commands = match sent.get("commands") {
        Some(JsonValue::Array(items)) => items.len(),
        other => panic!("expected commands, got {other:?}"),
    };
    assert_eq!(commands, 10);
    let plain = parse_json(&write_out(&batch().to_message(false))).expect("well-formed");
    assert_eq!(plain.get("capture_network_events"), None);
}

#[test]
fn browser_config_serializes_mode() {
    let config = BrowserConfig {
        mode: BrowserMode::Headful,
        start_url: None,
        download_dir: None,
        upload_dir: None,
    };
    let encoded = write_out(&config.to_out());
    assert!(encoded.contains("\"mode\":\"headful\""));
    assert_eq!(encoded, "{\"mode\":\"headful\",\"start_url\":null}");
}

#[test]
fn matchers_are_written_without_what_is_not_set() {
    let matcher = CommandMatcher {
        name: Some("a\"b".into()),
        ..empty()
    };
    assert_eq!(
        matcher.to_json_text(),
        "{\"actionable\":true,\"disabled\":false,\"name\":\"a\\\"b\"}"
    );
}

#[test]
fn signed_numbers_keep_their_sign() {
    let scrolled = write_out(&Command::Scroll { x: -3, y: 4 }.to_out());
    assert_eq!(scrolled, "{\"type\":\"scroll\",\"x\":-3,\"y\":4}");
}
