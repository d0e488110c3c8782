//! Application settings: defaults, the optional settings file, and overrides.
use vstd::prelude::*;

verus! {

/// Global settings that affect the whole application.
#[derive(Debug, Clone, PartialEq, Eq, Structural)]
pub struct AppConfig {
    /// Whether long lines wrap to the viewport width.
    pub line_wrap: bool,
    /// Entries kept in the logging pane's ring buffer.
    pub log_buffer_capacity: usize,
}

impl Default for AppConfig {
    fn default() -> (r: Self)
        ensures
            r.line_wrap,
            r.log_buffer_capacity == 1000,
    {
        AppConfig { line_wrap: true, log_buffer_capacity: 1000 }
    }
}

/// Why a settings file could not be used.
#[derive(Debug, Clone, PartialEq, Eq)]
pub enum ConfigError {
    InvalidPath(String),
    ReadError { path: String, reason: String },
    ParseError { path: String, reason: String },
}

impl ConfigError {
    /// A one-line description for the user.
    pub fn describe(&self) -> (r: String)
        ensures
            r@ == match *self {
                ConfigError::InvalidPath(p) => "Invalid config path: "@ + p@,
                ConfigError::ReadError { path, reason } => "Failed to read config file at "@ + path@
                    + ": "@ + reason@,
                ConfigError::ParseError { path, reason } => "Invalid TOML in "@ + path@ + ": "@
                    + reason@,
            },
    {
        match self {
            ConfigError::InvalidPath(p) => {
                let mut s = String::from_str("Invalid config path: ");
                s.append(p.as_str());
                s
            },
            ConfigError::ReadError { path, reason } => {
                let mut s = String::from_str("Failed to read config file at ");
                s.append(path.as_str());
                s.append(": ");
                s.append(reason.as_str());
                s
            },
            ConfigError::ParseError { path, reason } => {
                let mut s = String::from_str("Invalid TOML in ");
                s.append(path.as_str());
                s.append(": ");
                s.append(reason.as_str());
                s
            },
        }
    }
}

/// The settings file; every field is optional.
#[derive(Debug, Clone, PartialEq)]
pub struct ConfigFile {
    pub theme: Option<String>,
    pub follow: Option<bool>,
    pub show_stats: Option<bool>,
    pub collapse_threshold: Option<usize>,
    pub summary_lines: Option<usize>,
    pub line_wrap: Option<bool>,
    pub log_buffer_capacity: Option<usize>,
}

/// Settings after defaults, the settings file and overrides are combined.
#[derive(Debug, Clone, PartialEq, Eq)]
pub struct ResolvedConfig {
    pub theme: String,
    pub follow: bool,
    pub show_stats: bool,
    pub collapse_threshold: usize,
    pub summary_lines: usize,
    pub line_wrap: bool,
    pub log_buffer_capacity: usize,
}

pub open spec fn default_theme() -> Seq<char> {
    "base16-ocean"@
}

impl ResolvedConfig {
    /// Whether every field holds its default.
    pub open spec fn is_default(&self) -> bool {
        &&& self.theme@ == default_theme()
        &&& self.follow
        &&& !self.show_stats
        &&& self.collapse_threshold == 10
        &&& self.summary_lines == 3
        &&& self.line_wrap
        &&& self.log_buffer_capacity == 1000
    }
}

impl Default for ResolvedConfig {
    fn default() -> (r: Self)
        ensures
            r.is_default(),
    {
        ResolvedConfig {
            theme: String::from_str("base16-ocean"),
            follow: true,
            show_stats: false,
            collapse_threshold: 10,
            summary_lines: 3,
            line_wrap: true,
            log_buffer_capacity: 1000,
        }
    }
}

pub open spec fn or_default<T>(o: Option<T>, d: T) -> T {
    match o {
        Some(v) => v,
        None => d,
    }
}

fn pick_bool(o: Option<bool>, d: bool) -> (r: bool)
    ensures
        r == or_default(o, d),
{
    match o {
        Some(v) => v,
        None => d,
    }
}

fn pick_usize(o: Option<usize>, d: usize) -> (r: usize)
    ensures
        r == or_default(o, d),
{
    match o {
        Some(v) => v,
        None => d,
    }
}

/// Each field of the settings file that is present replaces the default.
pub fn merge_config(config_file: Option<ConfigFile>) -> (r: ResolvedConfig)
    ensures
        config_file is None ==> r.is_default(),
        config_file matches Some(f) ==> {
            &&& r.theme@ == match f.theme {
                Some(t) => t@,
                None => default_theme(),
            }
            &&& r.follow == or_default(f.follow, true)
            &&& r.show_stats == or_default(f.show_stats, false)
            &&& r.collapse_threshold == or_default(f.collapse_threshold, 10)
            &&& r.summary_lines == or_default(f.summary_lines, 3)
            &&& r.line_wrap == or_default(f.line_wrap, true)
            &&& r.log_buffer_capacity == or_default(f.log_buffer_capacity, 1000)
        },
{
    let d = ResolvedConfig::default();
    match config_file {
        None => d,
        Some(f) => {
            let theme = match f.theme {
                Some(t) => t,
                None => d.theme,
            };
            ResolvedConfig {
                theme,
                follow: pick_bool(f.follow, d.follow),
                show_stats: pick_bool(f.show_stats, d.show_stats),
                collapse_threshold: pick_usize(f.collapse_threshold, d.collapse_threshold),
                summary_lines: pick_usize(f.summary_lines, d.summary_lines),
                line_wrap: pick_bool(f.line_wrap, d.line_wrap),
                log_buffer_capacity: pick_usize(f.log_buffer_capacity, d.log_buffer_capacity),
            }
        },
    }
}

/// Applies the theme override taken from the environment (`CCLV_THEME`), read by
/// the caller: a present value replaces the theme, everything else is kept.
pub fn apply_env_overrides(config: ResolvedConfig, theme_override: Option<String>) -> (r: ResolvedConfig)
    ensures
        r.theme@ == match theme_override {
            Some(t) => t@,
            None => config.theme@,
        },
        r.follow == config.follow,
        r.show_stats == config.show_stats,
        r.collapse_threshold == config.collapse_threshold,
        r.summary_lines == config.summary_lines,
        r.line_wrap == config.line_wrap,
        r.log_buffer_capacity == config.log_buffer_capacity,
{
    match theme_override {
        Some(t) => ResolvedConfig { theme: t, ..config },
        None => config,
    }
}

} // verus!
