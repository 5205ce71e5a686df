use picocode::event::{Event, EventMsg, FileEditAction, FileEditEvent};
use picocode::submission::{Op, Submission};
use picocode::tool::{ToolCall, ToolResult, ToolResultStatus};
use picocode::workspace::EditCheckpoint;

#[test]
fn event_wraps_id_and_payload() {
    let event = Event::new("turn-1", EventMsg::user("hello"));

    assert_eq!(event.id, "turn-1");
    assert_eq!(event.msg.label(), "you");
    assert_eq!(event.msg.content(), "hello");
}

#[test]
fn error_event_exposes_message_content() {
    let msg = EventMsg::error("something failed");

    assert_eq!(msg.label(), "error");
    assert_eq!(msg.content(), "something failed");
}

#[test]
fn assistant_event_exposes_label_and_content() {
    let msg = EventMsg::assistant("hello");

    assert_eq!(msg.label(), "assistant");
    assert_eq!(msg.content(), "hello");
}

#[test]
fn image_attachment_event_exposes_summary() {
    let msg = EventMsg::image_attachment(
        "./shot.png",
        "shot.png",
        "image/png",
        12,
        "data:image/png;base64,AAAA",
    );

    assert_eq!(msg.label(), "image");
    assert!(msg.content().contains("attached image: shot.png"));
    assert!(msg.content().contains("image/png"));
}

#[test]
fn tool_call_event_exposes_summary() {
    let msg = EventMsg::tool_call(ToolCall::new("call-0", "read", "path=Cargo.toml"));

    assert_eq!(msg.label(), "tool");
    assert_eq!(msg.content(), "read path=Cargo.toml");
}

#[test]
fn tool_result_event_exposes_content() {
    let msg = EventMsg::tool_result(ToolResult {
        call_id: "call-0".to_owned(),
        status: ToolResultStatus::Success,
        content: "path: Cargo.toml".to_owned(),
        truncated: false,
        next_offset: None,
        edits: Vec::new(),
    });

    assert_eq!(msg.label(), "tool result");
    assert_eq!(msg.content(), "path: Cargo.toml");
}

#[test]
fn file_edit_event_exposes_summary() {
    let msg = EventMsg::file_edit(FileEditEvent {
        action: FileEditAction::Applied,
        checkpoint: EditCheckpoint {
            checkpoint_id: "checkpoint-1".to_owned(),
            path: "src/main.rs".to_owned(),
            base_hash: "base".to_owned(),
            result_hash: "result".to_owned(),
            before_content: "old".to_owned(),
            after_content: "new".to_owned(),
            diff: "--- a/src/main.rs\n+++ b/src/main.rs".to_owned(),
        },
        rewound_checkpoint_id: None,
        summary: "applied edit to src/main.rs".to_owned(),
    });

    assert_eq!(msg.label(), "file edit");
    assert!(msg.content().contains("applied edit"));
}

#[test]
fn submission_wraps_id_and_operation() {
    let submission = Submission::new("sub-0", Op::user_input("hello"));

    assert_eq!(submission.id, "sub-0");
    assert_eq!(
        submission.op,
        Op::UserInput {
            content: "hello".to_owned()
        }
    );
}

fn size_as_floats_print(byte_len: usize) -> String {
    const KB: usize = 1024;
    const MB: usize = KB * 1024;
    if byte_len as f64 >= MB as f64 {
        format!("{:.1} MB", byte_len as f64 / MB as f64)
    } else if byte_len >= KB {
        format!("{:.1} KB", byte_len as f64 / KB as f64)
    } else {
        format!("{byte_len} bytes")
    }
}

#[test]
fn image_sizes_read_as_floats_print_them_even_when_huge() {
    let sizes = [
        0usize,
        12,
        1023,
        1024,
        1536,
        1048575,
        1048576,
        5 * 1048576 + 52429,
        (1usize << 53) - 1,
        1usize << 53,
        (1usize << 53) + 1,
        (1usize << 53) + 3,
        (1usize << 60) + 12345,
        usize::MAX,
    ];
    for n in sizes {
        let e = picocode::event::ImageAttachmentEvent::new("p", "f.png", "image/png", n, "d");
        assert_eq!(e.summary, format!("attached image: f.png (image/png, {})", size_as_floats_print(n)), "size {n}");
        assert_eq!(e.byte_len, n);
    }
}
