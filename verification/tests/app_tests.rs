use picocode::app::{parse_local_command, should_quit, AppState, RuntimeStatus};
use picocode::event::{Event, EventMsg};
use picocode::keys::{KeyCode, KeyInput};
use picocode::submission::{LocalCommand, Op};

#[test]
fn app_starts_with_intro_messages() {
    let app = AppState::new();

    assert!(app.events.is_empty());
}

#[test]
fn quit_commands_are_recognized() {
    assert!(should_quit("/quit"));
    assert!(should_quit("/exit"));
    assert!(should_quit(":q"));
    assert!(!should_quit("hello"));
}

#[test]
fn enter_records_user_input() {
    let mut app = AppState::new();
    app.input = "hello ratatui".to_owned();

    app.handle_key(KeyInput::plain(KeyCode::Enter));

    assert_eq!(app.events.last().unwrap().msg.content(), "hello ratatui");
    assert!(app.input.is_empty());
    assert!(!app.should_exit);
}

#[test]
fn enter_with_quit_command_exits_without_recording_message() {
    let mut app = AppState::new();
    app.input = "/quit".to_owned();

    app.handle_key(KeyInput::plain(KeyCode::Enter));

    assert!(app.events.is_empty());
    assert!(app.input.is_empty());
    assert!(app.should_exit);
}

#[test]
fn control_character_input_is_ignored() {
    let mut app = AppState::new();

    app.handle_key(KeyInput::ctrl(KeyCode::Char('j')));

    assert!(app.input.is_empty());
    assert!(!app.should_exit);
}

#[test]
fn transcript_scrolls_up_and_down() {
    let mut app = AppState::new();

    app.handle_key(KeyInput::plain(KeyCode::Up));
    app.handle_key(KeyInput::plain(KeyCode::Up));
    assert_eq!(app.transcript_scroll, 2);

    app.handle_key(KeyInput::plain(KeyCode::Down));
    assert_eq!(app.transcript_scroll, 1);
}

#[test]
fn submitting_input_returns_to_bottom() {
    let mut app = AppState::new();
    app.handle_key(KeyInput::plain(KeyCode::PageUp));
    app.input = "new message".to_owned();

    app.handle_key(KeyInput::plain(KeyCode::Enter));

    assert_eq!(app.transcript_scroll, 0);
}

#[test]
fn events_get_stable_sequential_ids() {
    let mut app = AppState::default();

    app.push_user_message("first");
    app.push_user_message("second");

    assert_eq!(app.events[0].id, "evt-0");
    assert_eq!(app.events[1].id, "evt-1");
}

#[test]
fn submitted_input_creates_submission_and_event() {
    let mut app = AppState::new();
    app.input = "hello submission".to_owned();

    app.handle_key(KeyInput::plain(KeyCode::Enter));

    assert_eq!(app.submissions.len(), 1);
    assert_eq!(app.submissions[0].id, "sub-0");
    assert!(matches!(app.submissions[0].op, Op::UserInput { .. }));
    assert_eq!(app.events.last().unwrap().msg.content(), "hello submission");
}

#[test]
fn slash_resume_creates_local_command_submission() {
    let mut app = AppState::new();
    app.input = "/resume".to_owned();

    app.handle_key(KeyInput::plain(KeyCode::Enter));

    let pending = app.take_pending_submissions();
    assert_eq!(pending.len(), 1);
    assert!(matches!(
        pending[0].op,
        Op::LocalCommand {
            command: LocalCommand::Resume
        }
    ));
}

#[test]
fn slash_new_creates_local_command_submission() {
    let mut app = AppState::new();
    app.input = "/new".to_owned();

    app.handle_key(KeyInput::plain(KeyCode::Enter));

    let pending = app.take_pending_submissions();
    assert_eq!(pending.len(), 1);
    assert!(matches!(
        pending[0].op,
        Op::LocalCommand {
            command: LocalCommand::New
        }
    ));
}

#[test]
fn slash_continue_creates_local_command_submission() {
    let mut app = AppState::new();
    app.input = "/continue".to_owned();

    app.handle_key(KeyInput::plain(KeyCode::Enter));

    let pending = app.take_pending_submissions();
    assert_eq!(pending.len(), 1);
    assert!(matches!(
        pending[0].op,
        Op::LocalCommand {
            command: LocalCommand::Continue
        }
    ));
}

#[test]
fn slash_image_creates_local_command_submission() {
    let mut app = AppState::new();
    app.input = "/image screenshot.png".to_owned();

    app.handle_key(KeyInput::plain(KeyCode::Enter));

    let pending = app.take_pending_submissions();
    assert_eq!(pending.len(), 1);
    assert!(matches!(
        pending[0].op,
        Op::LocalCommand {
            command: LocalCommand::Image { .. }
        }
    ));
}

#[test]
fn slash_image_clipboard_creates_local_command_submission() {
    let mut app = AppState::new();
    app.input = "/image clipboard".to_owned();

    app.handle_key(KeyInput::plain(KeyCode::Enter));

    let pending = app.take_pending_submissions();
    assert_eq!(pending.len(), 1);
    assert!(matches!(
        pending[0].op,
        Op::LocalCommand {
            command: LocalCommand::ImageClipboard
        }
    ));
}

#[test]
fn slash_image_clip_creates_local_command_submission() {
    let mut app = AppState::new();
    app.input = "/image clip".to_owned();

    app.handle_key(KeyInput::plain(KeyCode::Enter));

    let pending = app.take_pending_submissions();
    assert_eq!(pending.len(), 1);
    assert!(matches!(
        pending[0].op,
        Op::LocalCommand {
            command: LocalCommand::ImageClipboard
        }
    ));
}

#[test]
fn slash_model_creates_local_command_submission() {
    let mut app = AppState::new();
    app.input = "/model".to_owned();

    app.handle_key(KeyInput::plain(KeyCode::Enter));

    let pending = app.take_pending_submissions();
    assert_eq!(pending.len(), 1);
    assert!(matches!(
        pending[0].op,
        Op::LocalCommand {
            command: LocalCommand::Model
        }
    ));
}

#[test]
fn slash_capabilities_creates_local_command_submission() {
    let mut app = AppState::new();
    app.input = "/capabilities".to_owned();

    app.handle_key(KeyInput::plain(KeyCode::Enter));

    let pending = app.take_pending_submissions();
    assert_eq!(pending.len(), 1);
    assert!(matches!(
        pending[0].op,
        Op::LocalCommand {
            command: LocalCommand::Capabilities
        }
    ));
}

#[test]
fn slash_capability_creates_local_command_submission() {
    let mut app = AppState::new();
    app.input = "/capability usage".to_owned();

    app.handle_key(KeyInput::plain(KeyCode::Enter));

    let pending = app.take_pending_submissions();
    assert_eq!(pending.len(), 1);
    assert!(matches!(
        pending[0].op,
        Op::LocalCommand {
            command: LocalCommand::Capability { .. }
        }
    ));
}

#[test]
fn slash_cap_enable_creates_local_command_submission() {
    let mut app = AppState::new();
    app.input = "/cap-enable usage".to_owned();

    app.handle_key(KeyInput::plain(KeyCode::Enter));

    let pending = app.take_pending_submissions();
    assert_eq!(pending.len(), 1);
    assert!(matches!(
        pending[0].op,
        Op::LocalCommand {
            command: LocalCommand::CapabilityEnable { .. }
        }
    ));
}

#[test]
fn slash_cap_disable_creates_local_command_submission() {
    let mut app = AppState::new();
    app.input = "/cap-disable usage".to_owned();

    app.handle_key(KeyInput::plain(KeyCode::Enter));

    let pending = app.take_pending_submissions();
    assert_eq!(pending.len(), 1);
    assert!(matches!(
        pending[0].op,
        Op::LocalCommand {
            command: LocalCommand::CapabilityDisable { .. }
        }
    ));
}

#[test]
fn slash_skill_creates_local_command_submission() {
    let mut app = AppState::new();
    app.input = "/skill usage".to_owned();

    app.handle_key(KeyInput::plain(KeyCode::Enter));

    let pending = app.take_pending_submissions();
    assert_eq!(pending.len(), 1);
    assert!(matches!(
        pending[0].op,
        Op::LocalCommand {
            command: LocalCommand::Skill { .. }
        }
    ));
}

#[test]
fn slash_tree_creates_local_command_submission() {
    let mut app = AppState::new();
    app.input = "/tree".to_owned();

    app.handle_key(KeyInput::plain(KeyCode::Enter));

    let pending = app.take_pending_submissions();
    assert_eq!(pending.len(), 1);
    assert!(matches!(
        pending[0].op,
        Op::LocalCommand {
            command: LocalCommand::Tree
        }
    ));
}

#[test]
fn slash_fork_creates_local_command_submission() {
    let mut app = AppState::new();
    app.input = "/fork".to_owned();

    app.handle_key(KeyInput::plain(KeyCode::Enter));

    let pending = app.take_pending_submissions();
    assert_eq!(pending.len(), 1);
    assert!(matches!(
        pending[0].op,
        Op::LocalCommand {
            command: LocalCommand::Fork
        }
    ));
}

#[test]
fn slash_compact_creates_local_command_submission() {
    let mut app = AppState::new();
    app.input = "/compact".to_owned();

    app.handle_key(KeyInput::plain(KeyCode::Enter));

    let pending = app.take_pending_submissions();
    assert_eq!(pending.len(), 1);
    assert!(matches!(
        pending[0].op,
        Op::LocalCommand {
            command: LocalCommand::Compact
        }
    ));
}

#[test]
fn pending_submissions_can_be_drained_once() {
    let mut app = AppState::new();
    app.input = "hello pending".to_owned();
    app.handle_key(KeyInput::plain(KeyCode::Enter));

    let pending = app.take_pending_submissions();

    assert_eq!(pending.len(), 1);
    assert!(app.take_pending_submissions().is_empty());
}

#[test]
fn assistant_and_error_events_are_recorded() {
    let mut app = AppState::default();

    app.push_event_msg(EventMsg::assistant("hi"));
    app.push_error_message("oops");

    assert!(matches!(app.events[0].msg, EventMsg::AssistantMessage(_)));
    assert!(matches!(app.events[1].msg, EventMsg::Error(_)));
}

#[test]
fn ai_request_count_tracks_pending_work() {
    let mut app = AppState::default();

    app.start_ai_request();
    app.start_ai_request();
    app.finish_ai_request();
    app.finish_ai_request();
    app.finish_ai_request();

    assert_eq!(app.pending_ai_requests, 0);
}

#[test]
fn restored_app_continues_event_ids() {
    let events = vec![Event::new("evt-3", EventMsg::user("hello"))];
    let mut app = AppState::from_events(events);

    app.push_event_msg(EventMsg::assistant("hi"));

    assert_eq!(app.events.last().unwrap().id, "evt-4");
}

#[test]
fn runtime_status_transitions_from_idle_to_thinking_and_back() {
    let mut app = AppState::new();

    assert!(!app.runtime_status.is_active);
    assert_eq!(app.runtime_status.label, "idle");

    app.start_ai_request();
    assert!(app.runtime_status.is_active);
    assert_eq!(app.runtime_status.label, "thinking");

    app.finish_ai_request();
    assert!(!app.runtime_status.is_active);
    assert_eq!(app.runtime_status.label, "idle");
}

#[test]
fn runtime_status_can_include_detail() {
    let status = RuntimeStatus::with_detail("loading", "config");

    assert!(status.is_active);
    assert_eq!(status.label, "loading");
    assert_eq!(status.detail.as_deref(), Some("config"));
}


#[test]
fn parse_local_command_reads_arguments_and_ignores_case_of_clip() {
    assert_eq!(parse_local_command("  /resume  "), Some(LocalCommand::Resume));
    assert_eq!(parse_local_command("-c"), Some(LocalCommand::Continue));
    assert_eq!(
        parse_local_command("/image  shot.png "),
        Some(LocalCommand::Image {
            path: "shot.png".to_owned()
        })
    );
    assert_eq!(
        parse_local_command("/image CLIPBOARD"),
        Some(LocalCommand::ImageClipboard)
    );
    assert_eq!(parse_local_command("/image   "), None);
    assert_eq!(
        parse_local_command("/session abc"),
        Some(LocalCommand::Session { id: "abc".to_owned() })
    );
    assert_eq!(
        parse_local_command("/capability  usage tips"),
        Some(LocalCommand::Capability {
            query: "usage tips".to_owned()
        })
    );
    assert_eq!(parse_local_command("/capabilities"), Some(LocalCommand::Capabilities));
    assert_eq!(parse_local_command("/unknown"), None);
    assert_eq!(parse_local_command("hello"), None);
}

#[test]
fn quit_commands_ignore_surrounding_space() {
    assert!(should_quit("  /exit\n"));
    assert!(!should_quit("/quit now"));
}

#[test]
fn restored_ids_use_the_largest_number_and_skip_other_ids() {
    let events = vec![
        Event::new("evt-7", EventMsg::user("a")),
        Event::new("evt-2", EventMsg::user("b")),
        Event::new("turn-99", EventMsg::user("c")),
        Event::new("evt-x", EventMsg::user("d")),
    ];
    let mut app = AppState::from_events(events);
    app.push_user_message("e");
    assert_eq!(app.events.last().unwrap().id, "evt-8");

    let app = AppState::from_events(vec![Event::new("other", EventMsg::user("a"))]);
    assert_eq!(app.next_event_seq, 0);
}

#[test]
fn home_and_end_scroll_to_top_and_bottom() {
    let mut app = AppState::new();
    app.handle_key(KeyInput::plain(KeyCode::Home));
    assert_eq!(app.transcript_scroll, usize::MAX);
    app.handle_key(KeyInput::plain(KeyCode::Up));
    assert_eq!(app.transcript_scroll, usize::MAX);
    app.handle_key(KeyInput::plain(KeyCode::End));
    assert_eq!(app.transcript_scroll, 0);
    app.handle_key(KeyInput::plain(KeyCode::Down));
    assert_eq!(app.transcript_scroll, 0);
}

#[test]
fn local_commands_leave_a_system_note() {
    let mut app = AppState::new();
    app.input = "/skill  usage".to_owned();
    app.handle_key(KeyInput::plain(KeyCode::Enter));
    assert_eq!(app.events.last().unwrap().msg.content(), "/skill usage");
    assert_eq!(app.events.last().unwrap().msg.label(), "system");

    app.input = "/image shot.png".to_owned();
    let before = app.events.len();
    app.handle_key(KeyInput::plain(KeyCode::Enter));
    assert_eq!(app.events.len(), before);
    assert_eq!(app.submissions.len(), 2);
    assert_eq!(app.submissions[1].id, "sub-1");
}

#[test]
fn long_sessions_are_compacted_before_the_next_prompt() {
    let mut app = AppState::new();
    for index in 0..40 {
        app.push_user_message(&format!("message {index}"));
    }
    app.input = "next".to_owned();
    app.handle_key(KeyInput::plain(KeyCode::Enter));

    let n = app.events.len();
    assert_eq!(app.events[n - 2].msg.label(), "compaction");
    assert_eq!(app.events[n - 1].msg.content(), "next");
    assert_eq!(app.runtime_status.label, "compact");
}

#[test]
fn typing_and_backspace_edit_the_input() {
    let mut app = AppState::new();
    app.handle_key(KeyInput::plain(KeyCode::Char('h')));
    app.handle_key(KeyInput::plain(KeyCode::Char('i')));
    app.handle_key(KeyInput::plain(KeyCode::Backspace));
    assert_eq!(app.input, "h");
    app.push_paste_text(" there");
    assert_eq!(app.input, "h there");
}

#[test]
fn lines_entered_while_waiting_are_all_taken_in_order() {
    let mut app = AppState::new();
    app.input = "first".to_owned();
    app.handle_key(KeyInput::plain(KeyCode::Enter));
    app.input = "second".to_owned();
    app.handle_key(KeyInput::plain(KeyCode::Enter));

    let pending = app.take_pending_submissions();

    assert_eq!(pending.len(), 2);
    assert_eq!(app.submissions.len(), 2);
    assert_eq!(pending[0].id, app.submissions[0].id);
    assert_eq!(pending[1].id, app.submissions[1].id);
    assert!(matches!(&pending[1].op, Op::UserInput { content } if content == "second"));
}
