use picocode::config::{looks_like_env_var, ModelOption, PicocodeConfig, SecretSource};
use picocode::config_editor::{
    parse_bool, unique_model_name, ConfigEditorAction, ConfigEditorState, ConfigField,
};
use picocode::keys::{KeyCode, KeyInput};

fn minimax() -> ModelOption {
    ModelOption {
        provider: "minimax".to_owned(),
        model: "MiniMax-M2.7".to_owned(),
        api: "openai-chat-completions".to_owned(),
        base_url: "https://api.minimaxi.com/v1".to_owned(),
        auth: "MINIMAX_API_KEY".to_owned(),
        tools: false,
        images: false,
        reasoning: false,
    }
}

#[test]
fn default_config_selects_openai_gpt5() {
    let config = PicocodeConfig::default();

    assert_eq!(config.model.provider, "openai");
    assert_eq!(config.model.model, "gpt-5");
}

#[test]
fn default_config_exposes_model_options() {
    let config = PicocodeConfig::default();
    let options = config.model_options();

    assert_eq!(options.len(), 1);
    assert_eq!(options[0].provider, "openai");
    assert_eq!(options[0].model, "gpt-5");
}

#[test]
fn config_can_change_model_selection() {
    let mut config = PicocodeConfig::default();
    config.models.push(minimax());
    let config = config.with_model_selection("minimax", "MiniMax-M2.7");

    assert_eq!(config.model.provider, "minimax");
    assert_eq!(config.model.model, "MiniMax-M2.7");
}

#[test]
fn env_like_secret_is_detected() {
    assert!(looks_like_env_var("OPENAI_API_KEY"));
    assert!(!looks_like_env_var("sk-test"));
}

#[test]
fn model_options_drop_duplicates_and_sort() {
    let mut config = PicocodeConfig::default();
    config.models.push(minimax());
    let mut dup = PicocodeConfig::default().model;
    dup.base_url = "elsewhere".to_owned();
    config.models.push(dup);
    let options = config.model_options();
    assert_eq!(options.len(), 2);
    assert_eq!(options[0].provider, "minimax");
    assert_eq!(options[1].provider, "openai");
    assert_eq!(options[1].base_url, "https://api.openai.com/v1");
    assert!(config.find_model("minimax", "MiniMax-M2.7").is_some());
    assert!(config.find_model("minimax", "other").is_none());
    let unchanged = config.with_model_selection("nobody", "none");
    assert_eq!(unchanged.model.provider, "openai");
}

#[test]
fn secret_sources_follow_the_shape_of_the_value() {
    let mut config = PicocodeConfig::default();
    assert_eq!(
        config.secret_source(),
        SecretSource::Env("OPENAI_API_KEY".to_owned())
    );
    config.model.auth = "!pass show key".to_owned();
    assert_eq!(
        config.secret_source(),
        SecretSource::Command("pass show key".to_owned())
    );
    config.model.auth = "sk-123".to_owned();
    assert_eq!(
        config.secret_source(),
        SecretSource::Literal("sk-123".to_owned())
    );
    assert!(!looks_like_env_var("NOUNDERSCORE"));
}

#[test]
fn config_editor_edits_and_toggles_fields() {
    let mut editor = ConfigEditorState::new(
        vec![PicocodeConfig::default().model, minimax()],
        "minimax",
        "MiniMax-M2.7",
        None,
    );
    assert_eq!(editor.selected_model, 1);
    assert_eq!(editor.current_label(), "minimax/MiniMax-M2.7");
    assert_eq!(
        editor.summary_label(),
        "2 model(s)  ·  current: minimax/MiniMax-M2.7"
    );

    editor.selected_field = ConfigField::Tools;
    editor.handle_key(KeyInput::plain(KeyCode::Char(' ')));
    let saved = editor.handle_key(KeyInput::ctrl(KeyCode::Char('s')));
    match saved {
        ConfigEditorAction::Saved(config) => {
            assert_eq!(config.model.provider, "minimax");
            assert!(config.model.tools);
            assert_eq!(config.models.len(), 1);
            assert_eq!(config.models[0].provider, "openai");
        }
        other => panic!("expected saved config, got {other:?}"),
    }

    editor.selected_field = ConfigField::Auth;
    editor.handle_key(KeyInput::plain(KeyCode::Enter));
    assert_eq!(
        editor.prompt_label().unwrap(),
        "auth (env var name or raw key): MINIMAX_API_KEY  (Enter save, Esc cancel)"
    );
    editor.handle_paste("X");
    editor.handle_key(KeyInput::plain(KeyCode::Esc));
    assert!(editor.prompt.is_none());
}

#[test]
fn config_editor_duplicates_and_deletes_models() {
    let mut editor = ConfigEditorState::new(Vec::new(), "openai", "gpt-5", Some(ConfigField::Model));
    assert_eq!(editor.current_label(), "openai/gpt-5");
    editor.handle_key(KeyInput::ctrl(KeyCode::Char('n')));
    assert_eq!(editor.selected_model, 1);
    assert_eq!(editor.current_label(), "openai/gpt-5-copy");
    editor.handle_key(KeyInput::ctrl(KeyCode::Char('n')));
    assert_eq!(editor.current_label(), "openai/gpt-5-copy-copy");
    editor.handle_key(KeyInput::plain(KeyCode::Left));
    editor.handle_key(KeyInput::plain(KeyCode::Left));
    editor.handle_key(KeyInput::ctrl(KeyCode::Char('n')));
    assert_eq!(editor.current_label(), "openai/gpt-5-copy-2");
    editor.handle_key(KeyInput::ctrl(KeyCode::Char('d')));
    assert_eq!(editor.current_label(), "openai/gpt-5-copy");
    editor.handle_key(KeyInput::plain(KeyCode::Up));
    assert_eq!(editor.selected_field, ConfigField::Reasoning);
    editor.handle_key(KeyInput::plain(KeyCode::Tab));
    assert_eq!(editor.selected_field, ConfigField::Provider);
    editor.handle_key(KeyInput::plain(KeyCode::BackTab));
    assert_eq!(editor.selected_field, ConfigField::Reasoning);
}

#[test]
fn config_fields_cycle_and_read_truth_values() {
    let mut field = ConfigField::Provider;
    for _ in 0..8 {
        field = field.next();
    }
    assert_eq!(field, ConfigField::Provider);
    assert_eq!(ConfigField::Provider.previous(), ConfigField::Reasoning);
    assert_eq!(ConfigField::Provider.next().previous(), ConfigField::Provider);
    assert_eq!(parse_bool(" YES "), Some(true));
    assert_eq!(parse_bool("Off"), Some(false));
    assert_eq!(parse_bool("maybe"), None);
    let mut option = minimax();
    ConfigField::Images.set_value(&mut option, "on".to_owned());
    assert!(option.images);
    ConfigField::Images.set_value(&mut option, "??".to_owned());
    assert!(option.images);
    assert_eq!(ConfigField::Images.display_value(&option), "on");
    assert_eq!(ConfigField::Tools.current_value(&option), "false");
    assert_eq!(unique_model_name("m", &vec![minimax()]), "m-copy");
}

#[test]
fn config_editor_enter_saves_the_trimmed_value() {
    let mut editor = ConfigEditorState::new(vec![minimax()], "minimax", "MiniMax-M2.7", Some(ConfigField::BaseUrl));
    editor.handle_key(KeyInput::plain(KeyCode::Enter));
    for _ in 0.."https://api.minimaxi.com/v1".len() {
        editor.handle_key(KeyInput::plain(KeyCode::Backspace));
    }
    editor.handle_paste("  https://example.com/v1  ");
    editor.handle_key(KeyInput::plain(KeyCode::Enter));

    assert!(editor.prompt.is_none());
    assert_eq!(editor.current_option().unwrap().base_url, "https://example.com/v1");
}
