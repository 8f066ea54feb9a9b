//! Command line and configuration.
use crate::text::{cat, lowered, same, same_but_case, small_text, to_lowercase};
use crate::ui::theme::{builtin_raw, settings, table, ColorMode, Theme, DEFAULT};
use vstd::prelude::*;
use vstd::string::*;

verus! {

pub const DEFAULT_URL: &'static str = "http://127.0.0.1:30000";

pub const DEFAULT_INTERVAL_MS: u64 = 1000;

pub const DEFAULT_TIMEOUT_MS: u64 = 2000;

pub const DEFAULT_THEME: &'static str = "default";

pub const DEFAULT_COLOR: &'static str = "auto";

pub const DEFAULT_MAX_METRICS_BYTES: u64 = 8_388_608;

pub const DEFAULT_GRAPH: &'static str = "btop";

/// What the command line asks for.
#[derive(Debug, Clone)]
pub struct Cli {
    /// Base URL of the server.
    pub url: String,
    /// Poll interval in milliseconds.
    pub interval: u64,
    /// Per-request HTTP timeout in milliseconds.
    pub timeout: u64,
    /// Bearer token for auth-gated endpoints; prefer the env var.
    pub api_key: String,
    /// Theme name (builtin, or a `.theme` basename on the search path).
    pub theme: String,
    /// Colour mode; `auto` detects from COLORTERM/TERM.
    pub color: String,
    /// Maximum `/metrics` response body bytes before truncation.
    pub max_metrics_bytes: u64,
    /// Graph style: `btop` (braille dots) or `block` (solid area).
    pub graph: String,
    /// Path to a config file.
    pub config: Option<String>,
    /// Dump the merged config and exit.
    pub print_config: bool,
}

impl Default for Cli {
    /// The command line without a flag.
    fn default() -> (r: Self)
        ensures
            r.url@ == DEFAULT_URL@,
            r.interval == DEFAULT_INTERVAL_MS,
            r.timeout == DEFAULT_TIMEOUT_MS,
            r.api_key@ == ""@,
            r.theme@ == DEFAULT_THEME@,
            r.color@ == DEFAULT_COLOR@,
            r.max_metrics_bytes == DEFAULT_MAX_METRICS_BYTES,
            r.graph@ == DEFAULT_GRAPH@,
            r.config is None,
            !r.print_config,
    {
        Cli {
            url: DEFAULT_URL.to_owned(),
            interval: DEFAULT_INTERVAL_MS,
            timeout: DEFAULT_TIMEOUT_MS,
            api_key: "".to_owned(),
            theme: DEFAULT_THEME.to_owned(),
            color: DEFAULT_COLOR.to_owned(),
            max_metrics_bytes: DEFAULT_MAX_METRICS_BYTES,
            graph: DEFAULT_GRAPH.to_owned(),
            config: None,
            print_config: false,
        }
    }
}

/// Merged, resolved configuration consumed by the rest of the program.
#[derive(Debug, Clone)]
pub struct Config {
    pub url: String,
    pub interval_ms: u64,
    pub timeout_ms: u64,
    pub api_key: String,
    pub theme: String,
    pub color_mode: String,
    pub max_metrics_bytes: u64,
    /// Graph style: "btop" (braille) or "block" (solid).
    pub graph: String,
    pub round_corners: bool,
    /// Layout preferences.
    pub cpu_bottom: bool,
    pub mem_below_net: bool,
    pub proc_left: bool,
    pub vim_keys: bool,
}

impl Default for Config {
    fn default() -> (r: Self)
        ensures
            r.url@ == DEFAULT_URL@,
            r.interval_ms == DEFAULT_INTERVAL_MS,
            r.timeout_ms == DEFAULT_TIMEOUT_MS,
            r.api_key@ == ""@,
            r.theme@ == DEFAULT_THEME@,
            r.color_mode@ == DEFAULT_COLOR@,
            r.max_metrics_bytes == DEFAULT_MAX_METRICS_BYTES,
            r.graph@ == DEFAULT_GRAPH@,
            r.round_corners,
            !r.cpu_bottom,
            !r.mem_below_net,
            !r.proc_left,
            !r.vim_keys,
    {
        Config {
            url: DEFAULT_URL.to_owned(),
            interval_ms: DEFAULT_INTERVAL_MS,
            timeout_ms: DEFAULT_TIMEOUT_MS,
            api_key: "".to_owned(),
            theme: DEFAULT_THEME.to_owned(),
            color_mode: DEFAULT_COLOR.to_owned(),
            max_metrics_bytes: DEFAULT_MAX_METRICS_BYTES,
            graph: DEFAULT_GRAPH.to_owned(),
            round_corners: true,
            cpu_bottom: false,
            mem_below_net: false,
            proc_left: false,
            vim_keys: false,
        }
    }
}

/// The text of a flag where it was given, that is, where it differs from its default;
/// else that of the file.
pub open spec fn flag_or(flag: Seq<char>, default: Seq<char>, file: Seq<char>) -> Seq<char> {
    if flag == default {
        file
    } else {
        flag
    }
}

/// The number of a flag where it was given; else that of the file.
pub open spec fn number_or(flag: u64, default: u64, file: u64) -> u64 {
    if flag == default {
        file
    } else {
        flag
    }
}

/// An interval held to what polling allows.
pub open spec fn held_interval(ms: u64) -> u64 {
    if ms < 100 {
        100
    } else if ms > 10_000 {
        10_000
    } else {
        ms
    }
}

/// The text of a flag where it was given; else that of the file.
fn pick(flag: &str, default: &str, file: String) -> (r: String)
    ensures
        r@ == flag_or(flag@, default@, file@),
{
    if same(flag, default) {
        file
    } else {
        flag.to_owned()
    }
}

/// The colour mode that a configuration asks for, in an environment.
pub open spec fn mode_of(wanted: Seq<char>, colorterm: Seq<char>, term: Seq<char>) -> ColorMode {
    if wanted == "truecolor"@ || wanted == "24bit"@ {
        ColorMode::TrueColor
    } else if wanted == "256"@ {
        ColorMode::Color256
    } else if wanted == "16"@ {
        ColorMode::Color16
    } else if colorterm == "truecolor"@ || colorterm == "24bit"@ {
        ColorMode::TrueColor
    } else if crate::text::has_infix(term, "256"@) {
        ColorMode::Color256
    } else {
        ColorMode::Color16
    }
}

/// Whether a name in lower case is one of a builtin theme.
pub open spec fn is_builtin_name(lower: Seq<char>) -> bool {
    lower == "default"@ || lower == "tty"@ || lower == "gruvbox-dark"@ || lower == "tokyo-night"@
        || lower == "catppuccin-mocha"@
}

/// Whether `t` is the theme of the name `name`, in lower case `lower`: a builtin one by
/// its lower case name, else the one of the file that was found, else the default.
pub open spec fn is_theme_of(
    t: Theme,
    name: Seq<char>,
    lower: Seq<char>,
    file: Option<Seq<char>>,
    mode: ColorMode,
) -> bool {
    if is_builtin_name(lower) {
        t.name@ == lower && t.shows(builtin_raw(lower, mode), mode)
    } else {
        match file {
            Some(contents) => t.name@ == name && t.shows(
                table(DEFAULT@) + settings(contents, 0),
                mode,
            ),
            None => t.name@ == "Default"@ && t.shows(builtin_raw("Default"@, mode), mode),
        }
    }
}

/// Whether a name in lower case is one of a builtin theme.
pub fn names_builtin(lower: &str) -> (r: bool)
    ensures
        r == is_builtin_name(lower@),
{
    same(lower, "default") || same(lower, "tty") || same(lower, "gruvbox-dark") || same(
        lower,
        "tokyo-night",
    ) || same(lower, "catppuccin-mocha")
}

/// The theme of the name `name`, in lower case `lower`; `file` is what the theme file of
/// that name holds, where one was found.
pub fn theme_of(name: &str, lower: &str, file: Option<&str>, mode: ColorMode) -> (t: Theme)
    ensures
        is_theme_of(
            t,
            name@,
            lower@,
            match file {
                Some(f) => Some(f@),
                None => None,
            },
            mode,
        ),
{
    if names_builtin(lower) {
        return Theme::builtin(lower, mode);
    }
    match file {
        Some(contents) => Theme::from_file(name, contents, mode),
        None => Theme::builtin("Default", mode),
    }
}

impl Config {
    /// The configuration of a command line over that of a file. Merge precedence: flag,
    /// then file, then builtin default. A flag that equals its default does not override
    /// the file. The interval is held to 100..=10000 ms.
    pub fn build(cli: &Cli, file: Config) -> (r: Config)
        ensures
            r.url@ == flag_or(cli.url@, DEFAULT_URL@, file.url@),
            r.interval_ms == held_interval(
                number_or(cli.interval, DEFAULT_INTERVAL_MS, file.interval_ms),
            ),
            r.timeout_ms == number_or(cli.timeout, DEFAULT_TIMEOUT_MS, file.timeout_ms),
            r.api_key@ == flag_or(cli.api_key@, ""@, file.api_key@),
            r.theme@ == flag_or(cli.theme@, DEFAULT_THEME@, file.theme@),
            r.color_mode@ == flag_or(cli.color@, DEFAULT_COLOR@, file.color_mode@),
            r.max_metrics_bytes == number_or(
                cli.max_metrics_bytes,
                DEFAULT_MAX_METRICS_BYTES,
                file.max_metrics_bytes,
            ),
            r.graph@ == flag_or(cli.graph@, DEFAULT_GRAPH@, file.graph@),
            r.round_corners == file.round_corners,
            r.cpu_bottom == file.cpu_bottom,
            r.mem_below_net == file.mem_below_net,
            r.proc_left == file.proc_left,
            r.vim_keys == file.vim_keys,
    {
        let interval: u64 = if cli.interval == DEFAULT_INTERVAL_MS {
            file.interval_ms
        } else {
            cli.interval
        };
        let interval: u64 = if interval < 100 {
            100
        } else if interval > 10_000 {
            10_000
        } else {
            interval
        };
        Config {
            url: pick(cli.url.as_str(), DEFAULT_URL, file.url),
            interval_ms: interval,
            timeout_ms: if cli.timeout == DEFAULT_TIMEOUT_MS {
                file.timeout_ms
            } else {
                cli.timeout
            },
            api_key: pick(cli.api_key.as_str(), "", file.api_key),
            theme: pick(cli.theme.as_str(), DEFAULT_THEME, file.theme),
            color_mode: pick(cli.color.as_str(), DEFAULT_COLOR, file.color_mode),
            max_metrics_bytes: if cli.max_metrics_bytes == DEFAULT_MAX_METRICS_BYTES {
                file.max_metrics_bytes
            } else {
                cli.max_metrics_bytes
            },
            graph: pick(cli.graph.as_str(), DEFAULT_GRAPH, file.graph),
            round_corners: file.round_corners,
            cpu_bottom: file.cpu_bottom,
            mem_below_net: file.mem_below_net,
            proc_left: file.proc_left,
            vim_keys: file.vim_keys,
        }
    }

    /// Whether graphs render in braille style (else solid blocks).
    pub fn graph_braille(&self) -> (r: bool)
        ensures
            r == (small_text(self.graph@) == small_text("btop"@)),
    {
        same_but_case(self.graph.as_str(), "btop")
    }

    /// The colour mode: the configured one, else what the environment announces in
    /// `COLORTERM` and `TERM`.
    pub fn color_mode(&self, colorterm: &str, term: &str) -> (r: ColorMode)
        ensures
            r == mode_of(self.color_mode@, colorterm@, term@),
    {
        let wanted = self.color_mode.as_str();
        if same(wanted, "truecolor") || same(wanted, "24bit") {
            ColorMode::TrueColor
        } else if same(wanted, "256") {
            ColorMode::Color256
        } else if same(wanted, "16") {
            ColorMode::Color16
        } else {
            ColorMode::detect(colorterm, term)
        }
    }

    /// Whether the theme is a builtin one, for which no file is looked up.
    pub fn has_builtin_theme(&self) -> (r: bool)
        ensures
            r == is_builtin_name(lowered(self.theme@)),
    {
        names_builtin(to_lowercase(self.theme.as_str()).as_str())
    }

    /// The name of the file that the theme is looked up in.
    pub fn theme_file(&self) -> (r: String)
        ensures
            r@ == self.theme@ + ".theme"@,
    {
        cat(self.theme.as_str(), ".theme")
    }

    /// Resolves the theme: builtin names are in-memory; otherwise `file` is what the
    /// first theme file of that name on the search path holds. Falls back to the
    /// default.
    pub fn theme(&self, colorterm: &str, term: &str, file: Option<&str>) -> (t: Theme)
        ensures
            is_theme_of(
                t,
                self.theme@,
                lowered(self.theme@),
                match file {
                    Some(f) => Some(f@),
                    None => None,
                },
                mode_of(self.color_mode@, colorterm@, term@),
            ),
    {
        let mode = self.color_mode(colorterm, term);
        let lower = to_lowercase(self.theme.as_str());
        theme_of(self.theme.as_str(), lower.as_str(), file, mode)
    }
}

// ---- laws ----

/// Whatever is asked for, the interval of a configuration stays within 100 ms and 10 s.
pub proof fn built_interval_is_in_range(flag: u64, file: u64)
    ensures
        100 <= held_interval(number_or(flag, DEFAULT_INTERVAL_MS, file)) <= 10_000,
{
}

/// A flag that was given wins over the file; one at its default leaves it alone.
pub proof fn flags_win_over_the_file(flag: Seq<char>, default: Seq<char>, file: Seq<char>)
    ensures
        flag != default ==> flag_or(flag, default, file) == flag,
        flag_or(default, default, file) == file,
{
}

}
