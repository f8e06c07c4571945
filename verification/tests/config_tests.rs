use perch::config::{merge_cli_overrides, version_string, AppConfig, Cli, DisplayConfig, PrConfig};
use perch::state::ViewMode;

fn bare_cli() -> Cli {
    Cli {
        path: ".".to_string(),
        ..Default::default()
    }
}

#[test]
fn test_default_config() {
    let config = AppConfig::default();
    assert_eq!(config.debounce_ms, 500);
    assert!(config.display.flash_on_change);
    assert_eq!(config.display.flash_duration_ms, 600);
    assert_eq!(config.display.scroll_padding, 3);
}

#[test]
fn test_default_pr_config() {
    let pr = PrConfig::default();
    assert!(pr.enabled);
}

#[test]
fn test_default_view_defaults_to_normal() {
    let config = AppConfig::default();
    assert_eq!(config.display.default_view, ViewMode::Normal);
}

#[test]
fn test_base_branch_default_none() {
    let config = AppConfig::default();
    assert!(config.base_branch.is_none());
}

#[test]
fn edit_command_defaults_to_none() {
    let config = AppConfig::default();
    assert!(config.edit_command.is_none());
}

#[test]
fn version_has_dev_suffix_in_debug_builds() {
    let version = version_string("0.1.0", true, "abc1234");
    assert!(version.starts_with("0.1.0"), "got {version}");
    assert!(version.contains("-dev."), "got {version}");
    assert_eq!(version, "0.1.0-dev.abc1234");
}

#[test]
fn version_is_plain_in_release_builds() {
    assert_eq!(version_string("0.1.0", false, "abc1234"), "0.1.0");
}

#[test]
fn absent_flags_keep_config_values() {
    let config = AppConfig {
        debounce_ms: 250,
        display: DisplayConfig {
            default_view: ViewMode::Tree,
            ..Default::default()
        },
        ..Default::default()
    };
    let merged = merge_cli_overrides(config, &bare_cli());
    assert_eq!(merged.debounce_ms, 250);
    assert_eq!(merged.display.default_view, ViewMode::Tree);
    assert!(merged.pr.enabled);
    assert!(merged.display.flash_on_change);
}

#[test]
fn value_flags_override_config() {
    let config = AppConfig::default();
    let cli = Cli {
        debounce: Some(900),
        base: Some("develop".to_string()),
        view: Some(ViewMode::Condensed),
        flash_duration: Some(123),
        scroll_padding: Some(7),
        edit_command: Some("nano".to_string()),
        ..bare_cli()
    };
    let merged = merge_cli_overrides(config, &cli);
    assert_eq!(merged.debounce_ms, 900);
    assert_eq!(merged.base_branch.as_deref(), Some("develop"));
    assert_eq!(merged.display.default_view, ViewMode::Condensed);
    assert_eq!(merged.display.flash_duration_ms, 123);
    assert_eq!(merged.display.scroll_padding, 7);
    assert_eq!(merged.edit_command.as_deref(), Some("nano"));
}

#[test]
fn no_pr_and_no_flash_force_off() {
    let config = AppConfig::default();
    let cli = Cli {
        no_pr: true,
        no_flash: true,
        ..bare_cli()
    };
    let merged = merge_cli_overrides(config, &cli);
    assert!(!merged.pr.enabled);
    assert!(!merged.display.flash_on_change);
}

#[test]
fn flags_cannot_switch_features_back_on() {
    let mut config = AppConfig::default();
    config.pr.enabled = false;
    config.display.flash_on_change = false;
    let merged = merge_cli_overrides(config, &bare_cli());
    assert!(!merged.pr.enabled);
    assert!(!merged.display.flash_on_change);
}

#[test]
fn absent_value_flags_keep_config_strings() {
    let config = AppConfig {
        base_branch: Some("trunk".to_string()),
        edit_command: Some("hx".to_string()),
        ..Default::default()
    };
    let merged = merge_cli_overrides(config, &bare_cli());
    assert_eq!(merged.base_branch.as_deref(), Some("trunk"));
    assert_eq!(merged.edit_command.as_deref(), Some("hx"));
}
