use perch::commands::{fallback_decision, resolve_editor, shell_single_quote, FallbackAction};
use perch::config::AppConfig;

#[test]
fn quote_plain() {
    assert_eq!(shell_single_quote("foo.rs"), "'foo.rs'");
}

#[test]
fn quote_space() {
    assert_eq!(shell_single_quote("my file.rs"), "'my file.rs'");
}

#[test]
fn quote_apostrophe() {
    assert_eq!(shell_single_quote("it's.rs"), "'it'\\''s.rs'");
}

#[test]
fn quote_dollar_and_backtick() {
    assert_eq!(shell_single_quote("a$b`c.rs"), "'a$b`c.rs'");
}

#[test]
fn quote_empty() {
    assert_eq!(shell_single_quote(""), "''");
}

#[test]
fn quote_only_apostrophes() {
    assert_eq!(shell_single_quote("''"), "''\\'''\\'''");
}

#[test]
fn config_value_wins() {
    let cfg = AppConfig {
        edit_command: Some("nvim -p".to_string()),
        ..AppConfig::default()
    };
    assert_eq!(resolve_editor(&cfg, Some("emacs")), "nvim -p");
}

#[test]
fn falls_back_to_editor_env() {
    let cfg = AppConfig::default();
    assert_eq!(resolve_editor(&cfg, Some("emacs")), "emacs");
}

#[test]
fn falls_back_to_vim_when_unset() {
    let cfg = AppConfig::default();
    assert_eq!(resolve_editor(&cfg, None), "vim");
}

#[test]
fn empty_editor_env_falls_back_to_vim() {
    let cfg = AppConfig::default();
    assert_eq!(resolve_editor(&cfg, Some("")), "vim");
}

#[test]
fn empty_edit_command_falls_through() {
    let cfg = AppConfig {
        edit_command: Some(String::new()),
        ..AppConfig::default()
    };
    assert_eq!(resolve_editor(&cfg, Some("emacs")), "emacs");
}

#[test]
fn test_fallback_decision_watch_path_exists() {
    assert_eq!(fallback_decision(true, true, false), FallbackAction::Keep);
}

#[test]
fn test_fallback_decision_watch_gone_main_exists() {
    assert_eq!(fallback_decision(false, true, false), FallbackAction::SwitchToMain);
}

#[test]
fn test_fallback_decision_watch_equals_main() {
    assert_eq!(fallback_decision(false, false, true), FallbackAction::MainMissing);
}

#[test]
fn test_fallback_decision_both_missing() {
    assert_eq!(fallback_decision(false, false, false), FallbackAction::MainMissing);
}

#[test]
fn fallback_same_path_is_missing_even_if_it_exists_as_main() {
    assert_eq!(fallback_decision(false, true, true), FallbackAction::MainMissing);
}
