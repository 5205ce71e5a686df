use picocode::event::{
    BranchSummaryEvent, CompactionEvent, Event, EventMsg, FileEditAction, FileEditEvent,
    ImageAttachmentEvent, ToolCallEvent, ToolResultEvent,
};
use picocode::session::{SessionItem, SessionLine, SessionMeta};
use picocode::session_json::{event_from_payload_json, event_payload_to_json, session_line_from_json, session_line_to_json};
use picocode::tool::ToolResultStatus;
use picocode::workspace::EditCheckpoint;

fn checkpoint() -> EditCheckpoint {
    EditCheckpoint {
        checkpoint_id: "checkpoint-1".to_owned(),
        path: "main.rs".to_owned(),
        base_hash: "base".to_owned(),
        result_hash: "result".to_owned(),
        before_content: "before".to_owned(),
        after_content: "after".to_owned(),
        diff: "--- a/main.rs\n+++ b/main.rs".to_owned(),
    }
}

#[test]
fn session_line_json_round_trips_event_msg() {
    let line = SessionLine {
        timestamp: "123".to_owned(),
        item: SessionItem::EventMsg(Event::new("evt-1", EventMsg::user("hello\nthere"))),
    };

    let json = session_line_to_json(&line);
    let parsed = session_line_from_json(&json).unwrap();

    assert_eq!(parsed.timestamp, "123");
    match parsed.item {
        SessionItem::EventMsg(event) => {
            assert_eq!(event.id, "evt-1");
            assert_eq!(event.msg.content(), "hello\nthere");
        }
        SessionItem::SessionMeta(_) => panic!("expected event msg"),
    }
}

#[test]
fn session_line_json_round_trips_session_meta() {
    let line = SessionLine {
        timestamp: "123".to_owned(),
        item: SessionItem::SessionMeta(SessionMeta {
            session_id: "session-1".to_owned(),
            parent_session_id: Some("session-root".to_owned()),
            cwd: ".".to_owned(),
            app_version: "0.1.0".to_owned(),
            ai_provider: Some("openai".to_owned()),
            ai_model: Some("gpt-5".to_owned()),
        }),
    };

    let json = session_line_to_json(&line);
    let parsed = session_line_from_json(&json).unwrap();

    assert_eq!(parsed.timestamp, "123");
    match parsed.item {
        SessionItem::SessionMeta(meta) => {
            assert_eq!(meta.session_id, "session-1");
            assert_eq!(meta.parent_session_id.as_deref(), Some("session-root"));
            assert_eq!(meta.cwd, ".");
            assert_eq!(meta.ai_provider.as_deref(), Some("openai"));
            assert_eq!(meta.ai_model.as_deref(), Some("gpt-5"));
        }
        SessionItem::EventMsg(_) => panic!("expected session meta"),
    }
}

#[test]
fn session_line_json_round_trips_tool_call() {
    let line = SessionLine {
        timestamp: "123".to_owned(),
        item: SessionItem::EventMsg(Event::new(
            "evt-1",
            EventMsg::ToolCall(ToolCallEvent::new("call-0", "read", "path=Cargo.toml")),
        )),
    };

    let json = session_line_to_json(&line);
    let parsed = session_line_from_json(&json).unwrap();

    match parsed.item {
        SessionItem::EventMsg(event) => match event.msg {
            EventMsg::ToolCall(call) => {
                assert_eq!(call.call_id, "call-0");
                assert_eq!(call.name, "read");
                assert_eq!(call.arguments, "path=Cargo.toml");
            }
            _ => panic!("expected tool call"),
        },
        SessionItem::SessionMeta(_) => panic!("expected event msg"),
    }
}

#[test]
fn session_line_json_round_trips_image_attachment() {
    let line = SessionLine {
        timestamp: "123".to_owned(),
        item: SessionItem::EventMsg(Event::new(
            "evt-img",
            EventMsg::ImageAttachment(ImageAttachmentEvent::new(
                "./shot.png",
                "shot.png",
                "image/png",
                12,
                "data:image/png;base64,AAAA",
            )),
        )),
    };

    let json = session_line_to_json(&line);
    let parsed = session_line_from_json(&json).unwrap();

    match parsed.item {
        SessionItem::EventMsg(event) => match event.msg {
            EventMsg::ImageAttachment(image) => {
                assert_eq!(image.source_path, "./shot.png");
                assert_eq!(image.file_name, "shot.png");
                assert_eq!(image.mime_type, "image/png");
                assert_eq!(image.byte_len, 12);
                assert_eq!(image.data_url, "data:image/png;base64,AAAA");
            }
            _ => panic!("expected image attachment"),
        },
        SessionItem::SessionMeta(_) => panic!("expected event msg"),
    }
}

#[test]
fn session_line_json_round_trips_tool_result() {
    let line = SessionLine {
        timestamp: "123".to_owned(),
        item: SessionItem::EventMsg(Event::new(
            "evt-2",
            EventMsg::ToolResult(ToolResultEvent {
                call_id: "call-0".to_owned(),
                status: ToolResultStatus::Truncated,
                content: "path: Cargo.toml\n[package]".to_owned(),
                truncated: true,
                next_offset: Some(42),
                edits: Vec::new(),
            }),
        )),
    };

    let json = session_line_to_json(&line);
    let parsed = session_line_from_json(&json).unwrap();

    match parsed.item {
        SessionItem::EventMsg(event) => match event.msg {
            EventMsg::ToolResult(result) => {
                assert_eq!(result.call_id, "call-0");
                assert_eq!(result.status, ToolResultStatus::Truncated);
                assert_eq!(result.content, "path: Cargo.toml\n[package]");
                assert!(result.truncated);
                assert_eq!(result.next_offset, Some(42));
            }
            _ => panic!("expected tool result"),
        },
        SessionItem::SessionMeta(_) => panic!("expected event msg"),
    }
}

#[test]
fn session_line_json_round_trips_compaction_event() {
    let line = SessionLine {
        timestamp: "123".to_owned(),
        item: SessionItem::EventMsg(Event::new(
            "evt-4",
            EventMsg::Compaction(CompactionEvent {
                summary: "Folded 18 events".to_owned(),
                folded_event_count: 18,
            }),
        )),
    };

    let json = session_line_to_json(&line);
    let parsed = session_line_from_json(&json).unwrap();

    match parsed.item {
        SessionItem::EventMsg(event) => match event.msg {
            EventMsg::Compaction(compaction) => {
                assert_eq!(compaction.summary, "Folded 18 events");
                assert_eq!(compaction.folded_event_count, 18);
            }
            _ => panic!("expected compaction event"),
        },
        SessionItem::SessionMeta(_) => panic!("expected event msg"),
    }
}

#[test]
fn session_line_json_round_trips_branch_summary_event() {
    let line = SessionLine {
        timestamp: "123".to_owned(),
        item: SessionItem::EventMsg(Event::new(
            "evt-4b",
            EventMsg::branch_summary(BranchSummaryEvent {
                source_session_id: "session-parent".to_owned(),
                summary: "Branched from parent".to_owned(),
                folded_event_count: 4,
            }),
        )),
    };

    let json = session_line_to_json(&line);
    let parsed = session_line_from_json(&json).unwrap();

    match parsed.item {
        SessionItem::EventMsg(event) => match event.msg {
            EventMsg::BranchSummary(summary) => {
                assert_eq!(summary.source_session_id, "session-parent");
                assert_eq!(summary.summary, "Branched from parent");
                assert_eq!(summary.folded_event_count, 4);
            }
            _ => panic!("expected branch summary event"),
        },
        SessionItem::SessionMeta(_) => panic!("expected event msg"),
    }
}

#[test]
fn session_line_json_round_trips_tool_result_edits() {
    let line = SessionLine {
        timestamp: "123".to_owned(),
        item: SessionItem::EventMsg(Event::new(
            "evt-2b",
            EventMsg::ToolResult(ToolResultEvent {
                call_id: "call-0".to_owned(),
                status: ToolResultStatus::Success,
                content: "modified 1 files".to_owned(),
                truncated: false,
                next_offset: None,
                edits: vec![FileEditEvent {
                    action: FileEditAction::Applied,
                    checkpoint: checkpoint(),
                    rewound_checkpoint_id: None,
                    summary: "applied edit to main.rs".to_owned(),
                }],
            }),
        )),
    };

    let json = session_line_to_json(&line);
    let parsed = session_line_from_json(&json).unwrap();

    match parsed.item {
        SessionItem::EventMsg(event) => match event.msg {
            EventMsg::ToolResult(result) => {
                assert_eq!(result.edits.len(), 1);
                assert_eq!(result.edits[0].checkpoint.path, "main.rs");
            }
            _ => panic!("expected tool result"),
        },
        SessionItem::SessionMeta(_) => panic!("expected event msg"),
    }
}

#[test]
fn session_line_json_round_trips_file_edit_checkpoint() {
    let line = SessionLine {
        timestamp: "123".to_owned(),
        item: SessionItem::EventMsg(Event::new(
            "evt-3",
            EventMsg::file_edit(FileEditEvent {
                action: FileEditAction::Applied,
                checkpoint: checkpoint(),
                rewound_checkpoint_id: None,
                summary: "applied edit to main.rs".to_owned(),
            }),
        )),
    };

    let json = session_line_to_json(&line);
    let parsed = session_line_from_json(&json).unwrap();

    match parsed.item {
        SessionItem::EventMsg(event) => match event.msg {
            EventMsg::FileEdit(edit) => {
                assert_eq!(edit.checkpoint.checkpoint_id, "checkpoint-1");
                assert_eq!(edit.checkpoint.path, "main.rs");
                assert_eq!(edit.checkpoint.before_content, "before");
                assert_eq!(edit.checkpoint.after_content, "after");
            }
            _ => panic!("expected file edit"),
        },
        SessionItem::SessionMeta(_) => panic!("expected event msg"),
    }
}

#[test]
fn session_line_json_round_trips_escaped_tool_result_without_offset() {
    let line = SessionLine {
        timestamp: "123".to_owned(),
        item: SessionItem::EventMsg(Event::new(
            "evt-2",
            EventMsg::ToolResult(ToolResultEvent {
                call_id: "call-0".to_owned(),
                status: ToolResultStatus::Success,
                content: "quote: \"hello\" slash: \\ newline:\nend".to_owned(),
                truncated: false,
                next_offset: None,
                edits: Vec::new(),
            }),
        )),
    };

    let json = session_line_to_json(&line);
    let parsed = session_line_from_json(&json).unwrap();

    match parsed.item {
        SessionItem::EventMsg(event) => match event.msg {
            EventMsg::ToolResult(result) => {
                assert_eq!(result.content, "quote: \"hello\" slash: \\ newline:\nend");
                assert_eq!(result.next_offset, None);
            }
            _ => panic!("expected tool result"),
        },
        SessionItem::SessionMeta(_) => panic!("expected event msg"),
    }
}

#[test]
fn session_line_text_has_sorted_keys_and_null_for_missing_values() {
    let line = SessionLine {
        timestamp: "7".to_owned(),
        item: SessionItem::SessionMeta(SessionMeta {
            session_id: "s".to_owned(),
            parent_session_id: None,
            cwd: ".".to_owned(),
            app_version: "0.1.0".to_owned(),
            ai_provider: None,
            ai_model: None,
        }),
    };
    assert_eq!(
        session_line_to_json(&line),
        "{\"payload\":{\"ai_model\":null,\"ai_provider\":null,\"app_version\":\"0.1.0\",\"cwd\":\".\",\"format_version\":1,\"parent_session_id\":null,\"session_id\":\"s\"},\"timestamp\":\"7\",\"type\":\"session_meta\"}"
    );
}

#[test]
fn event_payload_text_for_a_user_message() {
    let event = Event::new("evt-0", EventMsg::user("hi \"you\""));
    assert_eq!(
        event_payload_to_json(&event),
        "{\"content\":\"hi \\\"you\\\"\",\"id\":\"evt-0\",\"type\":\"user_message\"}"
    );
}

#[test]
fn reading_refuses_unknown_types_and_missing_fields() {
    assert!(session_line_from_json("not json").is_none());
    assert!(session_line_from_json("[1,2]").is_none());
    assert!(session_line_from_json("{\"timestamp\":\"1\",\"type\":\"other\",\"payload\":{}}").is_none());
    assert!(session_line_from_json("{\"type\":\"event_msg\",\"payload\":{\"id\":\"e\",\"type\":\"final\",\"summary\":\"x\"}}").is_none());
    assert!(event_from_payload_json("{\"id\":\"e\",\"type\":\"user_message\"}").is_none());
    assert!(event_from_payload_json("{\"id\":\"e\",\"type\":\"tool_result\",\"call_id\":\"c\",\"status\":\"odd\",\"content\":\"\"}").is_none());
}

#[test]
fn reading_falls_back_to_legacy_edit_fields() {
    let payload = "{\"id\":\"e\",\"type\":\"file_edit\",\"action\":\"rolled_back\",\"path\":\"a.rs\",\"backup_path\":\"b-1\",\"summary\":\"undo\"}";
    let event = event_from_payload_json(payload).unwrap();
    match event.msg {
        EventMsg::FileEdit(edit) => {
            assert_eq!(edit.action, FileEditAction::RolledBack);
            assert_eq!(edit.checkpoint.path, "a.rs");
            assert_eq!(edit.checkpoint.checkpoint_id, "b-1");
            assert_eq!(edit.checkpoint.diff, "");
        }
        _ => panic!("expected file edit"),
    }
    let single = "{\"id\":\"e\",\"type\":\"tool_result\",\"call_id\":\"c\",\"status\":\"success\",\"content\":\"ok\",\"edit\":{\"action\":\"applied\",\"path\":\"m.rs\",\"summary\":\"s\"}}";
    match event_from_payload_json(single).unwrap().msg {
        EventMsg::ToolResult(result) => {
            assert_eq!(result.edits.len(), 1);
            assert_eq!(result.edits[0].checkpoint.checkpoint_id, "legacy-checkpoint");
            assert!(!result.truncated);
        }
        _ => panic!("expected tool result"),
    }
}

#[test]
fn session_lines_are_written_as_serde_json_writes_them() {
    let tricky = "quote \" slash \\ nl \n cr \r tab \t bs \u{8} ff \u{c} nul \u{0} us \u{1f} del \u{7f} c1 \u{85} é";
    let lines = vec![
        SessionLine { timestamp: "1".to_owned(), item: SessionItem::EventMsg(Event::new("evt-0", EventMsg::user(tricky))) },
        SessionLine {
            timestamp: "2".to_owned(),
            item: SessionItem::EventMsg(Event::new(
                "evt-1",
                EventMsg::ToolResult(ToolResultEvent {
                    call_id: "c".to_owned(),
                    status: ToolResultStatus::Success,
                    content: tricky.to_owned(),
                    truncated: false,
                    next_offset: Some(7),
                    edits: vec![FileEditEvent {
                        action: FileEditAction::Applied,
                        checkpoint: checkpoint(),
                        rewound_checkpoint_id: Some("r".to_owned()),
                        summary: tricky.to_owned(),
                    }],
                }),
            )),
        },
    ];
    for line in &lines {
        let text = session_line_to_json(line);
        let value: serde_json::Value = serde_json::from_str(&text).unwrap();
        assert_eq!(serde_json::to_string(&value).unwrap(), text);
    }
}
