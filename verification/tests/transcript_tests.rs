use picocode::app::AppState;
use picocode::event::{
    CommandOutputEvent, CommandRunEvent, Event, EventMsg, ImageAttachmentEvent, ToolCallEvent,
    ToolResultEvent,
};
use picocode::tool::ToolResultStatus;
use picocode::transcript::{
    content_lines, editor_cursor_position, image_attachment_lines, picker_visible_window,
    runtime_elapsed_text, tool_call_lines, tool_result_display_limit, tool_result_lines,
    transcript_lines, user_message_lines, visible_transcript_lines, Area, Piece, ShownLine, Tone,
    ToolName,
};

fn raw(text: &str) -> ShownLine {
    ShownLine {
        pieces: vec![Piece { text: text.to_owned(), tone: Tone::Plain, bold: false }],
    }
}

fn texts(lines: &[ShownLine]) -> Vec<String> {
    lines.iter().map(|line| line.text()).collect()
}

fn four_lines() -> Vec<ShownLine> {
    vec![raw("one"), raw("two"), raw("three"), raw("four")]
}

#[test]
fn visible_transcript_defaults_to_latest_lines() {
    let lines = four_lines();

    let visible = visible_transcript_lines(&lines, 2, 0);

    assert_eq!(visible, vec![raw("three"), raw("four")]);
}

#[test]
fn visible_transcript_can_scroll_up_from_bottom() {
    let lines = four_lines();

    let visible = visible_transcript_lines(&lines, 2, 1);

    assert_eq!(visible, vec![raw("two"), raw("three")]);
}

#[test]
fn visible_transcript_clamps_large_scroll_to_top() {
    let lines = four_lines();

    let visible = visible_transcript_lines(&lines, 2, usize::MAX);

    assert_eq!(visible, vec![raw("one"), raw("two")]);
}

#[test]
fn visible_transcript_shows_everything_when_it_fits() {
    let lines = four_lines();

    let visible = visible_transcript_lines(&lines, 10, 3);

    assert_eq!(visible, four_lines());
}

#[test]
fn editor_cursor_uses_display_width_without_left_padding() {
    let area = Area { x: 10, y: 20, width: 20, height: 3 };

    assert_eq!(editor_cursor_position(area, "abc"), (16, 21));
    assert_eq!(editor_cursor_position(area, "你是谁"), (19, 21));
}

#[test]
fn editor_cursor_stops_before_the_right_border() {
    let area = Area { x: 0, y: 0, width: 8, height: 3 };

    assert_eq!(editor_cursor_position(area, "abcdefghij"), (6, 1));
}

#[test]
fn content_lines_preserve_multiline_event_content() {
    let lines = content_lines("first\nsecond\nthird", Tone::Plain, None);

    assert_eq!(texts(&lines), vec!["first", "second", "third"]);
}

#[test]
fn content_lines_of_empty_text_give_one_empty_line() {
    let lines = content_lines("", Tone::Plain, Some("> "));

    assert_eq!(texts(&lines), vec!["> "]);
}

#[test]
fn tool_call_lines_render_semantic_action() {
    let event = ToolCallEvent::new("call-0", "search_text", "query=ToolRuntime\npath=src");
    let lines = tool_call_lines(&event);

    assert_eq!(lines[0].text(), "# Search text");
    assert_eq!(lines[1].text(), "$ search_text query=ToolRuntime path=src");
}

#[test]
fn user_message_lines_omit_label() {
    let lines = user_message_lines("hello");

    assert_eq!(texts(&lines), vec!["▌ hello"]);
}

#[test]
fn image_attachment_lines_render_queue_hint() {
    let event = ImageAttachmentEvent {
        source_path: "./shot.png".to_owned(),
        file_name: "shot.png".to_owned(),
        mime_type: "image/png".to_owned(),
        byte_len: 12,
        data_url: "data:image/png;base64,AAAA".to_owned(),
        summary: "attached image: shot.png".to_owned(),
    };
    let lines = image_attachment_lines(&event);

    assert!(texts(&lines).contains(&"▌ image attached".to_owned()));
    assert!(texts(&lines).contains(&"queued for the next prompt".to_owned()));
}

#[test]
fn tool_result_lines_indent_multiline_output() {
    let event = ToolResultEvent {
        call_id: "call-0".to_owned(),
        status: ToolResultStatus::Success,
        content: "path: src\nsrc/tool.rs:1:hit".to_owned(),
        truncated: false,
        next_offset: None,
        edits: Vec::new(),
    };
    let lines = tool_result_lines(&event, ToolName::SearchText);

    assert_eq!(
        texts(&lines),
        vec!["tool result success", "│ path: src", "│ src/tool.rs:1:hit"]
    );
}

#[test]
fn tool_result_lines_fold_large_grep_output() {
    let content = (1..=18)
        .map(|index| format!("src/lib.rs:{index}:hit"))
        .collect::<Vec<_>>()
        .join("\n");
    let event = ToolResultEvent {
        call_id: "call-0".to_owned(),
        status: ToolResultStatus::Success,
        content,
        truncated: false,
        next_offset: None,
        edits: Vec::new(),
    };
    let lines = tool_result_lines(&event, ToolName::SearchText);
    let text = texts(&lines);

    assert_eq!(text.len(), 17);
    assert_eq!(text[1], "│ src/lib.rs:1:hit");
    assert_eq!(text[15], "│ src/lib.rs:15:hit");
    assert_eq!(text[16], "│ ... 3 more lines (collapsed)");
}

#[test]
fn transcript_lines_collapses_command_stream_by_call_id() {
    let app = AppState::from_events(vec![
        Event::new(
            "evt-0",
            EventMsg::command_output(CommandOutputEvent {
                call_id: "call-1".to_owned(),
                stream: "stdout".to_owned(),
                content: "alpha".to_owned(),
                summary: "stdout: alpha".to_owned(),
            }),
        ),
        Event::new("evt-1", EventMsg::system("interleaving event")),
        Event::new(
            "evt-2",
            EventMsg::command_run(CommandRunEvent {
                call_id: "call-1".to_owned(),
                command: "cat file.txt".to_owned(),
                cwd: "/tmp/project".to_owned(),
                timeout_seconds: 120,
                summary: "$ cat file.txt".to_owned(),
            }),
        ),
        Event::new(
            "evt-3",
            EventMsg::command_output(CommandOutputEvent {
                call_id: "call-1".to_owned(),
                stream: "stderr".to_owned(),
                content: "beta".to_owned(),
                summary: "stderr: beta".to_owned(),
            }),
        ),
    ]);

    let lines = transcript_lines(&app.events);
    let text = texts(&lines);

    assert!(text.contains(&"# Run command".to_owned()));
    assert!(text.iter().any(|line| line == "stdout: 1 line(s)"));
    assert!(text.iter().any(|line| line == "stderr: 1 line(s)"));
    assert!(text.iter().any(|line| line == "│ alpha"));
    assert!(text.iter().any(|line| line == "│ beta"));
    assert!(!text.iter().any(|line| line == "stdout alpha"));
    assert!(!text.iter().any(|line| line == "stderr beta"));
    assert!(text.iter().any(|line| line == "interleaving event"));
}

#[test]
fn tool_result_display_limit_follows_tool_type() {
    assert_eq!(tool_result_display_limit(ToolName::SearchText), 15);
    assert_eq!(tool_result_display_limit(ToolName::FindFiles), 20);
    assert_eq!(tool_result_display_limit(ToolName::ProposeEdit), 40);
    assert_eq!(tool_result_display_limit(ToolName::ApplyPatch), 40);
    assert_eq!(tool_result_display_limit(ToolName::Read), 40);
    assert_eq!(tool_result_display_limit(ToolName::Other), 20);
}

#[test]
fn tool_names_are_recognised_with_aliases() {
    assert_eq!(ToolName::from_str("grep"), ToolName::SearchText);
    assert_eq!(ToolName::from_str("find"), ToolName::FindFiles);
    assert_eq!(ToolName::from_str("read"), ToolName::Read);
}

#[test]
fn runtime_elapsed_text_switches_to_minutes() {
    assert_eq!(runtime_elapsed_text(42), "42s");
    assert_eq!(runtime_elapsed_text(125), "2m05s");
}

#[test]
fn picker_window_keeps_selection_visible() {
    assert_eq!(picker_visible_window(10, 4, 0), (0, 4));
    assert_eq!(picker_visible_window(10, 4, 9), (6, 10));
    assert_eq!(picker_visible_window(3, 10, 2), (0, 3));
}
