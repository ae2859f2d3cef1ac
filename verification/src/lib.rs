//! Diagnosis of system log anomalies: the journal's records are
//! attributed to the programs they come from, the sources are counted,
//! ranked and traced to their packages, and log lines are filtered for
//! relaying.
//!
//! The library decides and computes; it runs no program and opens no
//! socket. A daemon and a client around it read lines, run the query and
//! packaging tools and carry the answers. Every function states what it
//! returns over the views of its arguments, and is proved to return it.

pub mod analyze;
pub mod args;
pub mod config;
pub mod daemon;
pub mod decimal;
pub mod doctor;
pub mod event;
pub mod json;
pub mod order;
pub mod protocol;
pub mod query;
pub mod rank;
pub mod reading;
pub mod report;
pub mod resolve;
pub mod shell;
pub mod stats;
pub mod stream;
pub mod text;

pub use crate::analyze::AnalyzeRun;
pub use crate::args::{help_text, parse_args};
pub use crate::config::{
    validate_config, Action, BootFilter, Config, RunMode, DEFAULT_PRIORITY, DEFAULT_SINCE,
    DEFAULT_TOP, SOCKET_PATH,
};
pub use crate::daemon::daemon_help_text;
pub use crate::event::{classify_source, event_matches_terms, JournalEvent, SourceKind};
pub use crate::json::parse_json_event;
pub use crate::protocol::{
    daemon_error, stream_error_line, AnalyzeResponse, ErrorResponse, StreamLine,
};
pub use crate::query::render_command;
pub use crate::rank::compare_suspects;
pub use crate::report::{priority_label_cn, render_analysis_report, source_label_cn};
pub use crate::resolve::{parse_dpkg_search_output, resolve_packages_for_top, PackageResolver};
pub use crate::shell::{normalize_command_aliases, split_interactive_line};
pub use crate::stats::{truncate_for_display, AnalyzeMetrics, SourceStats};
pub use crate::stream::StreamRun;
