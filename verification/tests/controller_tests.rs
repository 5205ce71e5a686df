use picocode::app::{AiProfile, AppMode, AppState};
use picocode::capability::{CapabilityEntry, CapabilityKind, CapabilitySource};
use picocode::config::{ModelOption, PicocodeConfig};
use picocode::config_editor::{ConfigField, ConfigPrompt};
use picocode::controller::KeyRoute;
use picocode::keys::{KeyCode, KeyInput};
use picocode::event::EventMsg;

fn minimax() -> ModelOption {
    ModelOption {
        provider: "minimax".to_owned(),
        model: "MiniMax-M2.7".to_owned(),
        api: "openai-chat-completions".to_owned(),
        base_url: "https://api.minimaxi.com/v1".to_owned(),
        auth: "MINIMAX_API_KEY".to_owned(),
        tools: false,
        images: false,
        reasoning: false,
    }
}

#[test]
fn model_picker_starts_on_the_session_model() {
    let mut app = AppState::new();
    app.ai_profile = Some(AiProfile::new("minimax", "MiniMax-M2.7"));
    let mut cfg = PicocodeConfig::default();
    cfg.models = vec![minimax()];

    app.open_model_picker(Some(&cfg));

    match &app.mode {
        AppMode::ModelPicker(p) => {
            assert_eq!(p.current_label(), "minimax/MiniMax-M2.7");
            assert_eq!(p.selected_option().unwrap().model, "MiniMax-M2.7");
        }
        _ => panic!("expected the model picker"),
    }
    assert_eq!(app.runtime_status.label, "model");
    assert!(app.events.is_empty());
}

#[test]
fn model_picker_without_a_profile_starts_on_the_configured_model() {
    let mut app = AppState::new();
    let mut cfg = PicocodeConfig::default();
    cfg.models = vec![minimax()];

    app.open_model_picker(Some(&cfg));

    match &app.mode {
        AppMode::ModelPicker(p) => {
            assert_eq!(p.selected_option().unwrap().model, cfg.model.model);
        }
        _ => panic!("expected the model picker"),
    }
}

#[test]
fn config_editor_starts_on_the_session_model() {
    let mut app = AppState::new();
    app.ai_profile = Some(AiProfile::new("minimax", "MiniMax-M2.7"));
    let mut cfg = PicocodeConfig::default();
    cfg.models = vec![minimax()];

    app.open_config_editor(Some(&cfg));

    match &app.mode {
        AppMode::ConfigEditor(e) => {
            assert_eq!(e.options[e.selected_model].model, "MiniMax-M2.7");
            assert_eq!(e.selected_field, ConfigField::Provider);
        }
        _ => panic!("expected the config editor"),
    }
    assert_eq!(app.runtime_status.label, "config");
}

#[test]
fn compact_now_folds_all_but_the_recent_window() {
    let mut app = AppState::new();
    for i in 0..20 {
        app.push_user_message(&format!("message {i}"));
    }

    app.compact_now();

    assert_eq!(app.events.len(), 21);
    assert_eq!(app.events[20].id, "evt-20");
    match &app.events[20].msg {
        EventMsg::Compaction(c) => {
            assert_eq!(c.folded_event_count, 8);
            assert!(c.summary.starts_with("Goal: keep the thread compact after folding 8 older event(s)."));
        }
        _ => panic!("expected a compaction"),
    }
    assert_eq!(app.runtime_status.label, "compact");
    assert_eq!(app.runtime_status.detail.as_deref(), Some("continue"));
}

#[test]
fn a_disabled_skill_is_refused_and_nothing_is_submitted() {
    let mut app = AppState::new();
    app.transcript_scroll = 5;
    let entry = CapabilityEntry {
        kind: CapabilityKind::Skill,
        source: CapabilitySource::Project,
        name: "review".to_owned(),
        summary: None,
        path: "/p/.picocode/skills/review/SKILL.md".to_owned(),
    };

    app.after_skill_selected(&entry, false, Ok("skill text".to_owned()));

    assert_eq!(app.events.len(), 1);
    assert_eq!(app.events[0].id, "evt-0");
    assert!(matches!(app.events[0].msg, EventMsg::Error(_)));
    assert_eq!(app.events[0].msg.content(), format!("Skill is disabled: {}", entry.compact_label()));
    assert_eq!(app.transcript_scroll, 0);
    assert!(app.submissions.is_empty());
}

#[test]
fn finishing_the_last_request_leaves_a_plain_idle_status() {
    let mut app = AppState::default();
    app.start_ai_request();
    app.start_ai_request();
    app.finish_ai_request();
    app.finish_ai_request();
    app.finish_ai_request();

    assert_eq!(app.pending_ai_requests, 0);
    assert_eq!(app.runtime_status.label, "idle");
    assert!(app.runtime_status.detail.is_none());
    assert!(app.runtime_status.started_at.is_none());
    assert!(!app.runtime_status.is_active);
}

#[test]
fn a_missing_key_at_startup_opens_the_editor_on_the_secret() {
    let mut app = AppState::new();
    let cfg = PicocodeConfig::default();

    app.after_startup_client(&cfg, Err(("missing environment variable OPENAI_API_KEY".to_owned(), true)));

    match &app.mode {
        AppMode::ConfigEditor(e) => assert_eq!(e.selected_field, ConfigField::Auth),
        _ => panic!("expected the config editor"),
    }
    assert_eq!(app.events[0].msg.content(), "missing environment variable OPENAI_API_KEY");
    assert_eq!(app.ai_profile.as_ref().unwrap().model, cfg.model.model);
    assert_eq!(app.runtime_status.label, "idle");
}

#[test]
fn a_ready_client_at_startup_names_the_model_it_serves() {
    let mut app = AppState::new();
    let cfg = PicocodeConfig::default();

    app.after_startup_client(&cfg, Ok("gpt-5-2025".to_owned()));

    assert_eq!(app.ai_profile.as_ref().unwrap().model, "gpt-5-2025");
    assert!(app.events.is_empty());
    assert!(matches!(app.mode, AppMode::Chat));
}

#[test]
fn another_startup_error_keeps_the_chat_in_front() {
    let mut app = AppState::new();
    let cfg = PicocodeConfig::default();

    app.after_startup_client(&cfg, Err(("bad base url".to_owned(), false)));

    assert!(matches!(app.mode, AppMode::Chat));
    assert_eq!(app.events.len(), 1);
}

#[test]
fn keys_go_to_the_screen_in_front() {
    let mut app = AppState::new();
    assert!(matches!(app.route_key(KeyInput::plain(KeyCode::Char('h'))), KeyRoute::Chat));
    assert_eq!(app.input, "h");
    let mut cfg = PicocodeConfig::default();
    cfg.models = vec![minimax()];
    app.open_model_picker(Some(&cfg));
    let before = app.input.clone();
    assert!(matches!(app.route_key(KeyInput::plain(KeyCode::Char('m'))), KeyRoute::Model(Some(_))));
    assert_eq!(app.input, before);
    match &app.mode {
        AppMode::ModelPicker(p) => assert_eq!(p.query, "m"),
        _ => panic!("expected the model picker"),
    }
    assert!(matches!(app.route_key(KeyInput::plain(KeyCode::Esc)), KeyRoute::Model(Some(_))));
    assert!(matches!(app.mode, AppMode::Chat));
    assert_eq!(app.runtime_status.label, "idle");
}

#[test]
fn pasted_text_goes_to_the_editor_prompt() {
    let mut app = AppState::new();
    app.open_config_editor(Some(&PicocodeConfig::default()));
    app.route_key(KeyInput::plain(KeyCode::Enter));
    app.route_paste("abc");
    match &app.mode {
        AppMode::ConfigEditor(e) => match &e.prompt {
            Some(ConfigPrompt::Edit { input, .. }) => assert!(input.ends_with("abc")),
            _ => panic!("expected a prompt"),
        },
        _ => panic!("expected the config editor"),
    }
}
