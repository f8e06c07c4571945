//! Application configuration and how command-line flags override it.
use vstd::prelude::*;
use crate::state::ViewMode;

verus! {

/// Top-level application configuration.
#[derive(Debug, Clone)]
pub struct AppConfig {
    /// Debounce interval in milliseconds (can be overridden by the CLI).
    pub debounce_ms: u64,
    /// Display settings.
    pub display: DisplayConfig,
    /// PR widget configuration.
    pub pr: PrConfig,
    /// Shell command used to open a file for editing. Falls back to
    /// `$EDITOR`, then to `vim` when unset.
    pub edit_command: Option<String>,
    /// Base branch for the branch-scoped diff; auto-detected if omitted.
    pub base_branch: Option<String>,
}

impl Default for AppConfig {
    fn default() -> (r: AppConfig)
        ensures
            r.debounce_ms == 500,
            r.display == (DisplayConfig { flash_on_change: true, flash_duration_ms: 600, scroll_padding: 3, default_view: ViewMode::Normal }),
            r.pr == (PrConfig { enabled: true }),
            r.edit_command is None,
            r.base_branch is None,
    {
        AppConfig {
            debounce_ms: 500,
            display: DisplayConfig::default(),
            pr: PrConfig::default(),
            edit_command: None,
            base_branch: None,
        }
    }
}

/// Display-related configuration.
#[derive(Debug, Clone, Copy, PartialEq, Eq, Structural)]
pub struct DisplayConfig {
    /// Flash the background of a file row when its diff stats change.
    pub flash_on_change: bool,
    /// Duration in milliseconds of the flash effect.
    pub flash_duration_ms: u64,
    /// Rows of context kept visible above and below the selected row; 0
    /// disables the feature.
    pub scroll_padding: usize,
    /// The view mode perch starts in.
    pub default_view: ViewMode,
}

impl Default for DisplayConfig {
    fn default() -> (r: DisplayConfig)
        ensures
            r == (DisplayConfig { flash_on_change: true, flash_duration_ms: 600, scroll_padding: 3, default_view: ViewMode::Normal }),
    {
        DisplayConfig { flash_on_change: true, flash_duration_ms: 600, scroll_padding: 3, default_view: ViewMode::Normal }
    }
}

/// PR widget configuration.
#[derive(Debug, Clone, Copy, PartialEq, Eq, Structural)]
pub struct PrConfig {
    /// Whether the PR strip and its polling are enabled.
    pub enabled: bool,
}

impl Default for PrConfig {
    fn default() -> (r: PrConfig)
        ensures
            r.enabled,
    {
        PrConfig { enabled: true }
    }
}

/// The command-line flags.
#[derive(Debug, Clone)]
pub struct Cli {
    /// Path inside a git repository.
    pub path: String,
    /// Path to a config file.
    pub config: Option<String>,
    /// Debounce interval in milliseconds.
    pub debounce: Option<u64>,
    /// Logging level.
    pub log: Option<String>,
    /// Base branch for the branch-scoped diff.
    pub base: Option<String>,
    /// Disable the GitHub PR status strip.
    pub no_pr: bool,
    /// Startup view mode.
    pub view: Option<ViewMode>,
    /// Disable the row flash on change.
    pub no_flash: bool,
    /// Flash duration in milliseconds.
    pub flash_duration: Option<u64>,
    /// Rows of context kept above and below the selection.
    pub scroll_padding: Option<usize>,
    /// Shell command used to open a file for editing.
    pub edit_command: Option<String>,
}

impl Default for Cli {
    fn default() -> (r: Cli)
        ensures
            r.path@ == Seq::<char>::empty(),
            r.config is None,
            r.debounce is None,
            r.log is None,
            r.base is None,
            !r.no_pr,
            r.view is None,
            !r.no_flash,
            r.flash_duration is None,
            r.scroll_padding is None,
            r.edit_command is None,
    {
        Cli {
            path: String::new(),
            config: None,
            debounce: None,
            log: None,
            base: None,
            no_pr: false,
            view: None,
            no_flash: false,
            flash_duration: None,
            scroll_padding: None,
            edit_command: None,
        }
    }
}

fn clone_opt(o: &Option<String>) -> (r: Option<String>)
    ensures
        r == *o,
{
    match o {
        Some(s) => Some(s.clone()),
        None => None,
    }
}

/// Overlays the flags onto a loaded config. Precedence: flag > config >
/// default. A value flag overrides only when given; `--no-pr` and
/// `--no-flash` can only switch their feature off.
pub fn merge_cli_overrides(config: AppConfig, cli: &Cli) -> (r: AppConfig)
    ensures
        r.debounce_ms == (match cli.debounce { Some(d) => d, None => config.debounce_ms }),
        r.base_branch == (if cli.base is Some { cli.base } else { config.base_branch }),
        r.pr.enabled == (config.pr.enabled && !cli.no_pr),
        r.display.default_view == (match cli.view { Some(v) => v, None => config.display.default_view }),
        r.display.flash_on_change == (config.display.flash_on_change && !cli.no_flash),
        r.display.flash_duration_ms == (match cli.flash_duration { Some(ms) => ms, None => config.display.flash_duration_ms }),
        r.display.scroll_padding == (match cli.scroll_padding { Some(n) => n, None => config.display.scroll_padding }),
        r.edit_command == (if cli.edit_command is Some { cli.edit_command } else { config.edit_command }),
{
    let mut config = config;
    if let Some(d) = cli.debounce {
        config.debounce_ms = d;
    }
    if cli.base.is_some() {
        config.base_branch = clone_opt(&cli.base);
    }
    if cli.no_pr {
        config.pr.enabled = false;
    }
    if let Some(v) = cli.view {
        config.display.default_view = v;
    }
    if cli.no_flash {
        config.display.flash_on_change = false;
    }
    if let Some(ms) = cli.flash_duration {
        config.display.flash_duration_ms = ms;
    }
    if let Some(n) = cli.scroll_padding {
        config.display.scroll_padding = n;
    }
    if cli.edit_command.is_some() {
        config.edit_command = clone_opt(&cli.edit_command);
    }
    config
}

/// The version string: the package version, with `-dev.` and the
/// `git describe` string appended in debug builds.
pub fn version_string(package: &str, debug: bool, describe: &str) -> (r: String)
    ensures
        r@ == (if debug { package@ + "-dev."@ + describe@ } else { package@ }),
{
    let mut v = crate::text::owned(package);
    if debug {
        crate::text::push_str(&mut v, "-dev.");
        crate::text::push_str(&mut v, describe);
    }
    v
}

} // verus!
