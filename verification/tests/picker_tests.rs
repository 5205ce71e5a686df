use picocode::config::ModelOption;
use picocode::keys::{KeyCode, KeyInput};
use picocode::model_picker::{ModelPickerAction, ModelPickerState};
use picocode::session::{Session, SessionStats, SessionSummary};
use picocode::session_picker::{session_matches, SessionPickerAction, SessionPickerState};
use picocode::session_tree::{tree_window, SessionTreeAction, SessionTreeState};

fn options() -> Vec<ModelOption> {
    vec![
        ModelOption {
            provider: "openai".to_owned(),
            model: "gpt-5".to_owned(),
            api: "openai-chat-completions".to_owned(),
            base_url: "https://api.openai.com/v1".to_owned(),
            auth: "OPENAI_API_KEY".to_owned(),
            tools: true,
            images: false,
            reasoning: true,
        },
        ModelOption {
            provider: "minimax".to_owned(),
            model: "minimax-2.7".to_owned(),
            api: "openai-chat-completions".to_owned(),
            base_url: "https://api.minimax.chat/v1".to_owned(),
            auth: "MINIMAX_API_KEY".to_owned(),
            tools: true,
            images: false,
            reasoning: false,
        },
    ]
}

#[test]
fn picker_defaults_to_current_model() {
    let state = ModelPickerState::new(options(), "minimax", "minimax-2.7");

    assert_eq!(state.current_label(), "minimax/minimax-2.7");
    assert_eq!(state.selected_option().unwrap().model, "minimax-2.7");
}

#[test]
fn picker_filters_by_model_name() {
    let mut state = ModelPickerState::new(options(), "openai", "gpt-5");
    state.query = "mini".to_owned();

    let filtered = state.filtered_options();

    assert_eq!(filtered.len(), 1);
    assert_eq!(filtered[0].provider, "minimax");
}

#[test]
fn picker_returns_selection_on_enter() {
    let mut state = ModelPickerState::new(options(), "openai", "gpt-5");

    let action = state.handle_key(KeyInput::plain(KeyCode::Enter));

    assert!(matches!(action, ModelPickerAction::Selected(_)));
}

#[test]
fn model_picker_sorts_by_provider_and_filters_by_capability() {
    let mut state = ModelPickerState::new(options(), "nobody", "none");
    assert_eq!(state.selected, 0);
    let all = state.filtered_options();
    assert_eq!(all[0].provider, "minimax");
    assert_eq!(all[1].provider, "openai");

    for c in "reasoning".chars() {
        state.handle_key(KeyInput::plain(KeyCode::Char(c)));
    }
    let shown = state.filtered_options();
    assert_eq!(shown.len(), 1);
    assert_eq!(shown[0].model, "gpt-5");
    assert_eq!(
        state.handle_key(KeyInput::ctrl(KeyCode::Char('c'))),
        ModelPickerAction::Cancelled
    );
}

#[test]
fn model_picker_moves_within_the_list() {
    let mut state = ModelPickerState::new(options(), "minimax", "minimax-2.7");
    state.handle_key(KeyInput::plain(KeyCode::Down));
    assert_eq!(state.selected, 1);
    state.handle_key(KeyInput::plain(KeyCode::Down));
    assert_eq!(state.selected, 1);
    state.handle_key(KeyInput::plain(KeyCode::PageUp));
    assert_eq!(state.selected, 0);
    state.handle_key(KeyInput::plain(KeyCode::End));
    assert_eq!(state.selected, 1);
    state.handle_key(KeyInput::plain(KeyCode::Char('z')));
    assert_eq!(state.selected, 0);
    assert_eq!(
        state.handle_key(KeyInput::plain(KeyCode::Enter)),
        ModelPickerAction::Cancelled
    );
}

fn summary(id: &str, parent: Option<&str>, last: &str, stats: SessionStats) -> SessionSummary {
    SessionSummary {
        session: Session::new(id, "/tmp/project"),
        parent_session_id: parent.map(str::to_owned),
        cwd: Some("/tmp/project".to_owned()),
        app_version: Some("0.1.0".to_owned()),
        ai_provider: Some("minimax".to_owned()),
        ai_model: Some("MiniMax-M2.7".to_owned()),
        event_count: 1,
        stats,
        first_timestamp: Some(last.to_owned()),
        last_timestamp: Some(last.to_owned()),
    }
}

#[test]
fn picker_matches_stats_label() {
    let stats = SessionStats {
        command_runs: 2,
        tool_calls: 1,
        ..SessionStats::default()
    };
    let summary = summary("session-a", None, "1", stats);

    assert!(session_matches(&summary, "cmd=2"));
    assert!(session_matches(&summary, "tool=1"));
    assert!(!session_matches(&summary, "cmd=9"));
}

#[test]
fn session_picker_lists_newest_first_and_flips_order() {
    let mut state = SessionPickerState::new(vec![
        summary("a", None, "1", SessionStats::default()),
        summary("b", None, "3", SessionStats::default()),
        summary("c", None, "2", SessionStats::default()),
    ]);
    let ids: Vec<String> = state
        .filtered_summaries()
        .iter()
        .map(|s| s.session.id.clone())
        .collect();
    assert_eq!(ids, vec!["b", "c", "a"]);

    state.handle_key(KeyInput::ctrl(KeyCode::Char('s')));
    let ids: Vec<String> = state
        .filtered_summaries()
        .iter()
        .map(|s| s.session.id.clone())
        .collect();
    assert_eq!(ids, vec!["a", "c", "b"]);
    assert_eq!(
        state.handle_key(KeyInput::plain(KeyCode::Enter)),
        SessionPickerAction::Selected("a".to_owned())
    );
}

#[test]
fn session_picker_rename_prompt_trims_the_new_name() {
    let mut state = SessionPickerState::new(vec![summary("a", None, "1", SessionStats::default())]);
    state.handle_key(KeyInput::ctrl(KeyCode::Char('r')));
    assert_eq!(
        state.prompt_label().unwrap(),
        "rename: a  (Enter save, Esc cancel)"
    );
    state.handle_key(KeyInput::plain(KeyCode::Backspace));
    for c in " new ".chars() {
        state.handle_key(KeyInput::plain(KeyCode::Char(c)));
    }
    assert_eq!(
        state.handle_key(KeyInput::plain(KeyCode::Enter)),
        SessionPickerAction::RenameRequested {
            session_id: "a".to_owned(),
            new_id: "new".to_owned()
        }
    );
    assert!(state.prompt.is_none());

    state.handle_key(KeyInput::ctrl(KeyCode::Char('d')));
    assert_eq!(
        state.handle_key(KeyInput::plain(KeyCode::Char('y'))),
        SessionPickerAction::DeleteRequested {
            session_id: "a".to_owned()
        }
    );
}

fn tree_summary(id: &str, parent_session_id: Option<&str>, last_timestamp: &str) -> SessionSummary {
    summary(id, parent_session_id, last_timestamp, SessionStats::default())
}

#[test]
fn tree_rows_include_descendants() {
    let state = SessionTreeState::new(vec![
        tree_summary("root", None, "1"),
        tree_summary("child-a", Some("root"), "2"),
        tree_summary("child-b", Some("root"), "3"),
    ]);

    let rows = state.tree_rows();

    assert_eq!(rows.len(), 3);
    assert_eq!(rows[0].summary.session.id, "root");
    assert_eq!(rows[1].summary.session.id, "child-b");
    assert!(rows[1].prefix.contains("└─") || rows[1].prefix.contains("├─"));
}

#[test]
fn tree_rows_filter_on_descendant_keeps_ancestor() {
    let mut state = SessionTreeState::new(vec![
        tree_summary("root", None, "1"),
        tree_summary("child-a", Some("root"), "2"),
        tree_summary("child-b", Some("root"), "3"),
    ]);
    state.query = "child-b".to_owned();

    let rows = state.tree_rows();

    assert_eq!(rows.len(), 2);
    assert_eq!(rows[0].summary.session.id, "root");
    assert_eq!(rows[1].summary.session.id, "child-b");
}

#[test]
fn tree_rows_match_stats_label() {
    let mut root = tree_summary("root", None, "1");
    root.stats.command_runs = 3;
    let state = SessionTreeState::new(vec![root]);

    let mut state = state;
    state.query = "cmd=3".to_owned();

    let rows = state.tree_rows();

    assert_eq!(rows.len(), 1);
    assert_eq!(rows[0].summary.session.id, "root");
}

#[test]
fn tree_prefixes_draw_rails_and_branches() {
    let state = SessionTreeState::new(vec![
        tree_summary("root", None, "1"),
        tree_summary("a", Some("root"), "3"),
        tree_summary("a1", Some("a"), "4"),
        tree_summary("b", Some("root"), "2"),
        tree_summary("orphan", Some("missing"), "0"),
    ]);
    let rows = state.tree_rows();
    let drawn: Vec<(String, String)> = rows
        .iter()
        .map(|r| (r.summary.session.id.clone(), r.prefix.clone()))
        .collect();
    assert_eq!(
        drawn,
        vec![
            ("root".to_owned(), "".to_owned()),
            ("a".to_owned(), "│  ├─ ".to_owned()),
            ("a1".to_owned(), "│  │  └─ ".to_owned()),
            ("b".to_owned(), "│  └─ ".to_owned()),
            ("orphan".to_owned(), "".to_owned()),
        ]
    );
}

#[test]
fn tree_fork_and_window() {
    let mut state = SessionTreeState::new(vec![
        tree_summary("root", None, "1"),
        tree_summary("child", Some("root"), "2"),
        tree_summary("other", None, "0"),
    ]);
    state.selected = 2;
    let (start, rows) = tree_window(&state, 2);
    assert_eq!(start, 1);
    assert_eq!(rows.len(), 2);
    assert_eq!(rows[0].summary.session.id, "child");
    assert_eq!(
        state.handle_key(KeyInput::ctrl(KeyCode::Char('f'))),
        SessionTreeAction::ForkRequested {
            session_id: "other".to_owned()
        }
    );
    let (start, rows) = tree_window(&state, 0);
    assert_eq!(start, 0);
    assert!(rows.is_empty());
}
