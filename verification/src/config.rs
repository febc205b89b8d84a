//! The application's configuration: general settings, sources, filter
//! presets, alerts, webhook and highlight rules, with their defaults.
use vstd::prelude::*;
use crate::alert::AlertAction;
use crate::filter::FilterRule;
use crate::models::Theme;
use crate::strmap::StrMap;

verus! {

/// A rule that paints matching text in a color.
pub struct HighlightConfig {
    /// Substring (compared in lowercase) or regex to match.
    pub pattern: String,
    /// Whether `pattern` is a regular expression rather than a substring.
    pub regex: bool,
    /// Foreground color as red, green, blue.
    pub color: [u8; 3],
}

/// The default highlight color, a warm yellow.
pub fn default_highlight_color() -> (r: [u8; 3])
    ensures
        r@ == seq![255u8, 214u8, 0u8],
{
    [255, 214, 0]
}

/// Colors of the log levels, as red, green, blue.
pub struct LogLevelColors {
    pub trace: [u8; 3],
    pub debug: [u8; 3],
    pub info: [u8; 3],
    pub warn: [u8; 3],
    pub error: [u8; 3],
    pub fatal: [u8; 3],
}

/// The default color of trace lines.
pub fn default_trace_color() -> (r: [u8; 3])
    ensures
        r@ == seq![100u8, 100u8, 100u8],
{
    [100, 100, 100]
}

/// The default color of debug lines.
pub fn default_debug_color() -> (r: [u8; 3])
    ensures
        r@ == seq![140u8, 140u8, 140u8],
{
    [140, 140, 140]
}

/// The default color of info lines.
pub fn default_info_color() -> (r: [u8; 3])
    ensures
        r@ == seq![80u8, 180u8, 220u8],
{
    [80, 180, 220]
}

/// The default color of warning lines.
pub fn default_warn_color() -> (r: [u8; 3])
    ensures
        r@ == seq![220u8, 180u8, 50u8],
{
    [220, 180, 50]
}

/// The default color of error lines.
pub fn default_error_color() -> (r: [u8; 3])
    ensures
        r@ == seq![220u8, 80u8, 80u8],
{
    [220, 80, 80]
}

/// The default color of fatal lines.
pub fn default_fatal_color() -> (r: [u8; 3])
    ensures
        r@ == seq![255u8, 50u8, 150u8],
{
    [255, 50, 150]
}

impl Default for LogLevelColors {
    fn default() -> (r: LogLevelColors)
        ensures
            r.trace@ == seq![100u8, 100u8, 100u8],
            r.debug@ == seq![140u8, 140u8, 140u8],
            r.info@ == seq![80u8, 180u8, 220u8],
            r.warn@ == seq![220u8, 180u8, 50u8],
            r.error@ == seq![220u8, 80u8, 80u8],
            r.fatal@ == seq![255u8, 50u8, 150u8],
    {
        LogLevelColors {
            trace: default_trace_color(),
            debug: default_debug_color(),
            info: default_info_color(),
            warn: default_warn_color(),
            error: default_error_color(),
            fatal: default_fatal_color(),
        }
    }
}

/// General settings. (The font size and line spacing of the configuration
/// file are display settings of the program around this library.)
pub struct GeneralConfig {
    /// How many lines the log buffer keeps.
    pub buffer_size: usize,
    pub follow: bool,
    pub wrap_lines: bool,
    pub show_timestamps: bool,
    pub show_source: bool,
    pub color_enabled: bool,
    pub remember_last_session: bool,
    pub theme: Theme,
    pub tab_width: usize,
    pub update_interval_ms: u64,
    /// Whether lines that look like JSON objects are parsed as JSON.
    pub auto_parse_json: bool,
    pub log_level_colors: LogLevelColors,
}

/// The default buffer size: 10000 lines.
pub fn default_buffer_size() -> (r: usize)
    ensures
        r == 10000,
{
    10000
}

/// The default of the settings that are on unless turned off.
pub fn default_true() -> (r: bool)
    ensures
        r,
{
    true
}

/// The default tab width: 4.
pub fn default_tab_width() -> (r: usize)
    ensures
        r == 4,
{
    4
}

/// The default update interval: 100 ms.
pub fn default_update_interval() -> (r: u64)
    ensures
        r == 100,
{
    100
}

/// The default SSH port: 22.
pub fn default_ssh_port() -> (r: u16)
    ensures
        r == 22,
{
    22
}

impl Default for GeneralConfig {
    fn default() -> (r: GeneralConfig)
        ensures
            r.buffer_size == 10000,
            r.follow,
            !r.wrap_lines,
            r.show_timestamps,
            r.show_source,
            r.color_enabled,
            r.remember_last_session,
            r.theme == Theme::System,
            r.tab_width == 4,
            r.update_interval_ms == 100,
            r.auto_parse_json,
            r.log_level_colors.trace@ == seq![100u8, 100u8, 100u8],
            r.log_level_colors.debug@ == seq![140u8, 140u8, 140u8],
            r.log_level_colors.info@ == seq![80u8, 180u8, 220u8],
            r.log_level_colors.warn@ == seq![220u8, 180u8, 50u8],
            r.log_level_colors.error@ == seq![220u8, 80u8, 80u8],
            r.log_level_colors.fatal@ == seq![255u8, 50u8, 150u8],
    {
        GeneralConfig {
            buffer_size: default_buffer_size(),
            follow: true,
            wrap_lines: false,
            show_timestamps: true,
            show_source: true,
            color_enabled: true,
            remember_last_session: true,
            theme: Theme::System,
            tab_width: default_tab_width(),
            update_interval_ms: default_update_interval(),
            auto_parse_json: true,
            log_level_colors: LogLevelColors::default(),
        }
    }
}

/// A configured source.
pub enum SourceConfig {
    Local { name: String, path: String, enabled: bool, auto_open: bool },
    Ssh {
        name: String,
        host: String,
        port: u16,
        user: String,
        path: String,
        key_path: Option<String>,
        enabled: bool,
        auto_open: bool,
    },
}

impl SourceConfig {
    /// Whether the source is enabled.
    pub fn is_enabled(&self) -> (r: bool)
        ensures
            r == self.spec_enabled(),
    {
        match self {
            SourceConfig::Local { enabled, .. } => *enabled,
            SourceConfig::Ssh { enabled, .. } => *enabled,
        }
    }

    /// Whether the source is opened on startup.
    pub fn auto_open(&self) -> (r: bool)
        ensures
            r == self.spec_auto_open(),
    {
        match self {
            SourceConfig::Local { auto_open, .. } => *auto_open,
            SourceConfig::Ssh { auto_open, .. } => *auto_open,
        }
    }

    /// The `enabled` flag of either kind of source.
    pub open spec fn spec_enabled(&self) -> bool {
        match self {
            SourceConfig::Local { enabled, .. } => *enabled,
            SourceConfig::Ssh { enabled, .. } => *enabled,
        }
    }

    /// The `auto_open` flag of either kind of source.
    pub open spec fn spec_auto_open(&self) -> bool {
        match self {
            SourceConfig::Local { auto_open, .. } => *auto_open,
            SourceConfig::Ssh { auto_open, .. } => *auto_open,
        }
    }
}

/// A named filter preset: regexes of which one must match, regexes none of
/// which may match, and further rules of which one must match.
pub struct FilterConfig {
    pub inclusions: Vec<String>,
    pub exclusions: Vec<String>,
    pub rules: Vec<FilterRule>,
}

impl Default for FilterConfig {
    fn default() -> (r: FilterConfig)
        ensures
            r.inclusions@.len() == 0,
            r.exclusions@.len() == 0,
            r.rules@.len() == 0,
    {
        FilterConfig { inclusions: Vec::new(), exclusions: Vec::new(), rules: Vec::new() }
    }
}

/// A configured alert: a regex and what to do when it matches.
pub struct AlertConfig {
    pub name: String,
    pub pattern: String,
    pub actions: Vec<AlertAction>,
    pub cooldown_seconds: Option<u64>,
}

/// Where webhook alerts are posted, with extra request headers.
pub struct WebhookConfig {
    pub url: String,
    pub headers: StrMap<String>,
}

/// The whole configuration.
pub struct AppConfig {
    pub general: GeneralConfig,
    pub sources: Vec<SourceConfig>,
    /// Filter presets by name.
    pub filters: StrMap<FilterConfig>,
    pub alerts: Vec<AlertConfig>,
    pub webhook: Option<WebhookConfig>,
    pub highlights: Vec<HighlightConfig>,
}

impl Default for AppConfig {
    fn default() -> (r: AppConfig)
        ensures
            r.general.buffer_size == 10000,
            r.general.auto_parse_json,
            r.general.show_timestamps,
            r.sources@.len() == 0,
            r.filters.wf(),
            r.filters.view() == Map::<Seq<char>, FilterConfig>::empty(),
            r.alerts@.len() == 0,
            r.webhook is None,
            r.highlights@.len() == 0,
    {
        AppConfig {
            general: GeneralConfig::default(),
            sources: Vec::new(),
            filters: StrMap::new(),
            alerts: Vec::new(),
            webhook: None,
            highlights: Vec::new(),
        }
    }
}

} // verus!
