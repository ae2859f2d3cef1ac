//! One analysis: the lines of the query tool are taken in one by one
//! until they end or the ceiling is reached, and the sources that they
//! name are ranked.

use vstd::prelude::*;
use vstd::string::*;
use crate::config::{Config, ConfigView};
use crate::event::{all_terms_found, event_matches_terms, searchable_text, JournalEvent, JournalEventView};
use crate::json::{event_of_line, event_result_view, parse_json_event};
use crate::protocol::{AnalyzeResponse, AnalyzeResponseView};
use crate::rank::{rank_suspects, ranked};
use crate::stats::{
    lemma_recorded, limit_reached, reached_limit, record_event, recorded, stats_view,
    status_killed_by_limit, unique_keys, AnalyzeMetrics, SourceStats, SourceStatsView,
};
use crate::text::{chars_of, clone_texts, trim, trim_bounds};

verus! {

/// An analysis under way.
pub struct AnalyzeRun {
    terms: Vec<String>,
    max_lines: Option<usize>,
    top: usize,
    stats: Vec<SourceStats>,
    metrics: AnalyzeMetrics,
}

/// An analysis under way, as contracts see it.
pub ghost struct AnalyzeRunView {
    /// The search terms that a record must hold to count.
    pub terms: Seq<Seq<char>>,
    /// The ceiling on the records that count.
    pub max_lines: Option<usize>,
    pub top: usize,
    /// The sources seen so far, in the order in which they appeared.
    pub table: Seq<SourceStatsView>,
    pub metrics: AnalyzeMetrics,
}

impl View for AnalyzeRun {
    type V = AnalyzeRunView;

    closed spec fn view(&self) -> AnalyzeRunView {
        AnalyzeRunView {
            terms: self.terms.deep_view(),
            max_lines: self.max_lines,
            top: self.top,
            table: stats_view(self.stats@),
            metrics: self.metrics,
        }
    }
}

/// The run of a request before its first line.
pub open spec fn fresh_run(config: ConfigView) -> AnalyzeRunView {
    AnalyzeRunView {
        terms: config.grep_terms,
        max_lines: config.max_lines,
        top: config.top,
        table: Seq::empty(),
        metrics: AnalyzeMetrics { lines_read: 0, parsed_ok: 0, matched: 0, parse_errors: 0 },
    }
}

/// What holds of every run: the table keeps its sources apart, no source
/// has more records than were matched, each line read was parsed or not,
/// and only parsed records were matched.
pub open spec fn run_is_sound(run: AnalyzeRunView) -> bool {
    &&& unique_keys(run.table)
    &&& forall|i: int| 0 <= i < run.table.len() ==> (#[trigger] run.table[i]).count <= run.metrics.matched
    &&& run.metrics.parsed_ok + run.metrics.parse_errors == run.metrics.lines_read
    &&& run.metrics.matched <= run.metrics.parsed_ok
}

/// The counters after a line that was no record.
pub open spec fn counted_failure(metrics: AnalyzeMetrics) -> AnalyzeMetrics {
    AnalyzeMetrics {
        lines_read: (metrics.lines_read + 1) as usize,
        parse_errors: (metrics.parse_errors + 1) as usize,
        ..metrics
    }
}

/// The counters after a record that did not hold the search terms.
pub open spec fn counted_record(metrics: AnalyzeMetrics) -> AnalyzeMetrics {
    AnalyzeMetrics {
        lines_read: (metrics.lines_read + 1) as usize,
        parsed_ok: (metrics.parsed_ok + 1) as usize,
        ..metrics
    }
}

/// The counters after a record that held the search terms.
pub open spec fn counted_match(metrics: AnalyzeMetrics) -> AnalyzeMetrics {
    AnalyzeMetrics {
        lines_read: (metrics.lines_read + 1) as usize,
        parsed_ok: (metrics.parsed_ok + 1) as usize,
        matched: (metrics.matched + 1) as usize,
        ..metrics
    }
}

/// Whether a record counts in a run: it holds each search term.
pub open spec fn counts_in(run: AnalyzeRunView, event: JournalEventView) -> bool {
    all_terms_found(searchable_text(event), run.terms)
}

/// The run after a line that was read as `parsed`, and whether it wants
/// another line. A line that is no record is counted and passed over, and
/// so is a record without the search terms. A record that counts enters
/// the table; the run wants no more once as many have counted as the
/// ceiling allows.
pub open spec fn after_parsed(
    run: AnalyzeRunView,
    parsed: Result<JournalEventView, Seq<char>>,
) -> (AnalyzeRunView, bool) {
    match parsed {
        Err(_) => (AnalyzeRunView { metrics: counted_failure(run.metrics), ..run }, true),
        Ok(event) => if counts_in(run, event) {
            (
                AnalyzeRunView {
                    table: recorded(run.table, event),
                    metrics: counted_match(run.metrics),
                    ..run
                },
                !limit_reached(counted_match(run.metrics).matched, run.max_lines),
            )
        } else {
            (AnalyzeRunView { metrics: counted_record(run.metrics), ..run }, true)
        },
    }
}

/// Whether a line holds nothing but white space.
pub open spec fn is_blank(line: Seq<char>) -> bool {
    trim(line).len() == 0
}

/// The run after one line of the query tool, and whether it wants
/// another. A blank line changes nothing.
pub open spec fn after_line(run: AnalyzeRunView, line: Seq<char>) -> (AnalyzeRunView, bool) {
    if is_blank(line) {
        (run, true)
    } else {
        after_parsed(run, event_of_line(line))
    }
}

/// The run after the lines of the query tool, taken in order for as long
/// as the run wants another, and whether it still does.
pub open spec fn after_lines(run: AnalyzeRunView, lines: Seq<Seq<char>>) -> (AnalyzeRunView, bool)
    decreases lines.len(),
{
    if lines.len() == 0 {
        (run, true)
    } else {
        let (before, more) = after_lines(run, lines.drop_last());
        if more {
            after_line(before, lines.last())
        } else {
            (before, false)
        }
    }
}

/// Whether a line is a record that counts in a run.
pub open spec fn is_counted_line(run: AnalyzeRunView, line: Seq<char>) -> bool {
    !is_blank(line) && (event_of_line(line) matches Ok(event) && counts_in(run, event))
}

/// The complaint about a query tool that ended badly.
pub open spec fn exit_complaint(status: Seq<char>) -> Seq<char> {
    "journalctl 退出状态异常："@ + status
}

/// Whether the query tool has to be stopped: the ceiling was reached, or
/// reading its output failed.
pub open spec fn stops_tool(run: AnalyzeRunView, read_failed: bool) -> bool {
    limit_reached(run.metrics.matched, run.max_lines) || read_failed
}

/// How a run ends. A failure to read its lines is the failure of the
/// run. A query tool that ended badly is one too, unless the run reached
/// its ceiling: the tool was stopped then, and its exit status says
/// nothing. Otherwise the answer holds the counters and the sources in
/// ranked order.
pub open spec fn outcome(
    run: AnalyzeRunView,
    read_error: Option<Seq<char>>,
    exit_success: bool,
    status: Seq<char>,
) -> Result<AnalyzeResponseView, Seq<char>> {
    match read_error {
        Some(e) => Err(e),
        None => if !exit_success && !limit_reached(run.metrics.matched, run.max_lines) {
            Err(exit_complaint(status))
        } else {
            Ok(
                AnalyzeResponseView {
                    metrics: run.metrics,
                    suspects: ranked(run.table),
                    top: run.top,
                },
            )
        },
    }
}

/// The end of a run, by the view of what it gives.
pub open spec fn outcome_view(r: Result<AnalyzeResponse, String>) -> Result<
    AnalyzeResponseView,
    Seq<char>,
> {
    match r {
        Ok(response) => Ok(response@),
        Err(e) => Err(e@),
    }
}

impl AnalyzeRun {
    /// Starts the analysis that a request asks for.
    pub fn new(config: &Config) -> (r: AnalyzeRun)
        ensures
            r@ == fresh_run(config@),
            run_is_sound(r@),
    {
        let r = AnalyzeRun {
            terms: clone_texts(&config.grep_terms),
            max_lines: config.max_lines,
            top: config.top,
            stats: Vec::new(),
            metrics: AnalyzeMetrics::default(),
        };
        assert(stats_view(r.stats@) == Seq::<SourceStatsView>::empty());
        r
    }

    /// The counters so far.
    pub fn metrics(&self) -> (r: AnalyzeMetrics)
        ensures
            r == self@.metrics,
    {
        self.metrics
    }

    /// Takes in a line that was read as `parsed`; returns whether the run
    /// wants another line.
    pub fn accept_parsed(&mut self, parsed: Result<JournalEvent, String>) -> (more: bool)
        requires
            run_is_sound(old(self)@),
            old(self)@.metrics.lines_read < usize::MAX,
        ensures
            run_is_sound(final(self)@),
            (final(self)@, more) == after_parsed(old(self)@, event_result_view(parsed)),
    {
        self.metrics.lines_read = self.metrics.lines_read + 1;
        let event = match parsed {
            Ok(event) => {
                self.metrics.parsed_ok = self.metrics.parsed_ok + 1;
                event
            },
            Err(_) => {
                self.metrics.parse_errors = self.metrics.parse_errors + 1;
                return true;
            },
        };
        if !event_matches_terms(&event, self.terms.as_slice()) {
            return true;
        }
        self.metrics.matched = self.metrics.matched + 1;
        proof {
            lemma_recorded(old(self)@.table, event@);
            assert forall|i: int| 0 <= i < self.stats@.len() implies (#[trigger] self.stats@[i]).count
                < u64::MAX by {
                assert(old(self)@.table[i] == self.stats@[i]@);
            }
        }
        record_event(&mut self.stats, &event);
        proof {
            lemma_counts_bounded(old(self)@, event@);
        }
        !reached_limit(self.metrics.matched, self.max_lines)
    }

    /// Takes in one line of the query tool; returns whether the run wants
    /// another line.
    pub fn accept_line(&mut self, line: &str) -> (more: bool)
        requires
            run_is_sound(old(self)@),
            old(self)@.metrics.lines_read < usize::MAX,
        ensures
            run_is_sound(final(self)@),
            (final(self)@, more) == after_line(old(self)@, line@),
    {
        let chars = chars_of(line);
        let (a, b) = trim_bounds(chars.as_slice());
        if a == b {
            return true;
        }
        self.accept_parsed(parse_json_event(line))
    }

    /// Whether the query tool has to be stopped before its exit status is
    /// collected.
    pub fn must_terminate(&self, read_failed: bool) -> (r: bool)
        ensures
            r == stops_tool(self@, read_failed),
    {
        reached_limit(self.metrics.matched, self.max_lines) || read_failed
    }

    /// Ends the run, given the failure that ended the reading, if one
    /// did, and how the query tool exited.
    pub fn conclude(
        self,
        read_error: Option<String>,
        exit_success: bool,
        status: &str,
    ) -> (r: Result<AnalyzeResponse, String>)
        ensures
            outcome_view(r) == outcome(self@, read_error.deep_view(), exit_success, status@),
    {
        if let Some(e) = read_error {
            return Err(e);
        }
        if !exit_success && !status_killed_by_limit(self.metrics.matched, self.max_lines) {
            return Err(String::from_str("journalctl 退出状态异常：").concat(status));
        }
        let mut suspects = self.stats;
        rank_suspects(&mut suspects);
        Ok(AnalyzeResponse { metrics: self.metrics, suspects, top: self.top })
    }
}

/// After a record that counts, still no source has more records than
/// were matched.
pub proof fn lemma_counts_bounded(run: AnalyzeRunView, event: JournalEventView)
    requires
        run_is_sound(run),
        run.metrics.lines_read < usize::MAX,
    ensures
        forall|i: int|
            0 <= i < recorded(run.table, event).len() ==> (#[trigger] recorded(
                run.table,
                event,
            )[i]).count <= run.metrics.matched + 1,
{
    lemma_recorded(run.table, event);
    let next = recorded(run.table, event);
    assert forall|i: int| 0 <= i < next.len() implies (#[trigger] next[i]).count
        <= run.metrics.matched + 1 by {
        if i < run.table.len() {
            assert(run.table[i].count <= run.metrics.matched);
        }
    }
}

} // verus!
