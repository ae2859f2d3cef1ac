//! The configuration of one request, and the rule that makes it valid.

use vstd::prelude::*;
use vstd::string::*;
use crate::text::{clone_optional, clone_texts};

verus! {

/// How far back a request looks unless it says otherwise.
pub const DEFAULT_SINCE: &'static str = "2 hours ago";

/// The least severe priority that a request looks at unless it says
/// otherwise.
pub const DEFAULT_PRIORITY: &'static str = "3";

/// How many sources a report shows unless the request says otherwise.
pub const DEFAULT_TOP: usize = 10;

/// How many matching lines a request takes unless it says otherwise.
pub const DEFAULT_MAX_LINES: usize = 1500;

/// Where the daemon listens.
pub const SOCKET_PATH: &'static str = "/run/logtool.sock";

/// What a request asks for: one aggregated report, or a relay of lines.
#[derive(Debug, Clone, Copy, PartialEq, Eq, Structural)]
pub enum RunMode {
    Analyze,
    Stream,
}

/// Which boots the query covers.
#[derive(Debug, PartialEq, Eq)]
pub enum BootFilter {
    /// Every boot.
    Disabled,
    /// The most recent boot only.
    Current,
    /// The boot with this identifier or offset.
    Value(String),
}

/// A boot filter, as contracts see it.
pub ghost enum BootFilterView {
    Disabled,
    Current,
    Value(Seq<char>),
}

impl View for BootFilter {
    type V = BootFilterView;

    open spec fn view(&self) -> BootFilterView {
        match self {
            BootFilter::Disabled => BootFilterView::Disabled,
            BootFilter::Current => BootFilterView::Current,
            BootFilter::Value(v) => BootFilterView::Value(v@),
        }
    }
}

/// What one request asks for.
#[derive(Debug, PartialEq, Eq)]
pub struct Config {
    pub mode: RunMode,
    pub since: Option<String>,
    pub until: Option<String>,
    pub units: Vec<String>,
    pub grep_terms: Vec<String>,
    pub boot: BootFilter,
    pub follow: bool,
    pub kernel_only: bool,
    pub output_json: bool,
    pub max_lines: Option<usize>,
    pub priority: String,
    pub show_command: bool,
    pub top: usize,
}

/// A configuration, as contracts see it.
pub ghost struct ConfigView {
    pub mode: RunMode,
    pub since: Option<Seq<char>>,
    pub until: Option<Seq<char>>,
    pub units: Seq<Seq<char>>,
    pub grep_terms: Seq<Seq<char>>,
    pub boot: BootFilterView,
    pub follow: bool,
    pub kernel_only: bool,
    pub output_json: bool,
    pub max_lines: Option<usize>,
    pub priority: Seq<char>,
    pub show_command: bool,
    pub top: usize,
}

impl View for Config {
    type V = ConfigView;

    open spec fn view(&self) -> ConfigView {
        ConfigView {
            mode: self.mode,
            since: self.since.deep_view(),
            until: self.until.deep_view(),
            units: self.units.deep_view(),
            grep_terms: self.grep_terms.deep_view(),
            boot: self.boot@,
            follow: self.follow,
            kernel_only: self.kernel_only,
            output_json: self.output_json,
            max_lines: self.max_lines,
            priority: self.priority@,
            show_command: self.show_command,
            top: self.top,
        }
    }
}

/// The configuration of a run that names no option: an analysis of the
/// last two hours over all boots.
pub open spec fn default_config() -> ConfigView {
    ConfigView {
        mode: RunMode::Analyze,
        since: Some(DEFAULT_SINCE@),
        until: None,
        units: Seq::empty(),
        grep_terms: Seq::empty(),
        boot: BootFilterView::Disabled,
        follow: false,
        kernel_only: false,
        output_json: false,
        max_lines: Some(DEFAULT_MAX_LINES),
        priority: DEFAULT_PRIORITY@,
        show_command: false,
        top: DEFAULT_TOP,
    }
}

impl Clone for BootFilter {
    fn clone(&self) -> (r: BootFilter)
        ensures
            r@ == self@,
    {
        match self {
            BootFilter::Disabled => BootFilter::Disabled,
            BootFilter::Current => BootFilter::Current,
            BootFilter::Value(v) => BootFilter::Value(v.clone()),
        }
    }
}

impl Clone for Config {
    fn clone(&self) -> (r: Config)
        ensures
            r@ == self@,
    {
        Config {
            mode: self.mode,
            since: clone_optional(&self.since),
            until: clone_optional(&self.until),
            units: clone_texts(&self.units),
            grep_terms: clone_texts(&self.grep_terms),
            boot: self.boot.clone(),
            follow: self.follow,
            kernel_only: self.kernel_only,
            output_json: self.output_json,
            max_lines: self.max_lines,
            priority: self.priority.clone(),
            show_command: self.show_command,
            top: self.top,
        }
    }
}

impl Default for Config {
    fn default() -> (r: Config)
        ensures
            r@ == default_config(),
    {
        let r = Config {
            mode: RunMode::Analyze,
            since: Some(String::from_str(DEFAULT_SINCE)),
            until: None,
            units: Vec::new(),
            grep_terms: Vec::new(),
            boot: BootFilter::Disabled,
            follow: false,
            kernel_only: false,
            output_json: false,
            max_lines: Some(DEFAULT_MAX_LINES),
            priority: String::from_str(DEFAULT_PRIORITY),
            show_command: false,
            top: DEFAULT_TOP,
        };
        assert(r.units.deep_view() == Seq::<Seq<char>>::empty());
        assert(r.grep_terms.deep_view() == Seq::<Seq<char>>::empty());
        r
    }
}

/// What the command line asks the program to do.
#[derive(Debug, PartialEq, Eq)]
pub enum Action {
    Run(Config),
    Help,
    Version,
    Doctor,
    ListBoots,
}

/// An action, as contracts see it.
pub ghost enum ActionView {
    Run(ConfigView),
    Help,
    Version,
    Doctor,
    ListBoots,
}

impl View for Action {
    type V = ActionView;

    open spec fn view(&self) -> ActionView {
        match self {
            Action::Run(config) => ActionView::Run(config@),
            Action::Help => ActionView::Help,
            Action::Version => ActionView::Version,
            Action::Doctor => ActionView::Doctor,
            Action::ListBoots => ActionView::ListBoots,
        }
    }
}

impl Clone for Action {
    fn clone(&self) -> (r: Action)
        ensures
            r@ == self@,
    {
        match self {
            Action::Run(config) => Action::Run(config.clone()),
            Action::Help => Action::Help,
            Action::Version => Action::Version,
            Action::Doctor => Action::Doctor,
            Action::ListBoots => Action::ListBoots,
        }
    }
}

/// Following the journal and passing records through as JSON make sense
/// for a stream only.
pub open spec fn stream_only_option_misused(config: ConfigView) -> bool {
    config.mode == RunMode::Analyze && (config.follow || config.output_json)
}

/// The complaint about a configuration that is not valid, if it is not.
pub open spec fn validation_error(config: ConfigView) -> Option<Seq<char>> {
    if config.follow && config.mode == RunMode::Analyze {
        Some("--follow 只能搭配 --stream 使用"@)
    } else if config.output_json && config.mode == RunMode::Analyze {
        Some("--json 只能搭配 --stream 使用"@)
    } else {
        None
    }
}

/// Accepts a configuration unless it sets, for an analysis, an option
/// that only a stream has.
pub fn validate_config(config: &Config) -> (r: Result<(), String>)
    ensures
        r is Err <==> stream_only_option_misused(config@),
        match r {
            Ok(_) => validation_error(config@) is None,
            Err(e) => validation_error(config@) == Some(e@),
        },
{
    if config.follow && config.mode == RunMode::Analyze {
        return Err(String::from_str("--follow 只能搭配 --stream 使用"));
    }
    if config.output_json && config.mode == RunMode::Analyze {
        return Err(String::from_str("--json 只能搭配 --stream 使用"));
    }
    Ok(())
}

} // verus!
