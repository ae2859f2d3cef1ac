//! One stream: each line of the query tool that holds the search terms
//! is passed on at once, until the lines end or the ceiling is reached.

use vstd::prelude::*;
use vstd::string::*;
use crate::config::{Config, ConfigView};
use crate::event::{all_terms_found, matches_filters};
use crate::protocol::{finished_stream, stream_data, StreamLine, StreamLineView};
use crate::stats::{limit_reached, reached_limit, status_killed_by_limit};
use crate::text::clone_texts;

verus! {

/// A stream under way.
pub struct StreamRun {
    terms: Vec<String>,
    max_lines: Option<usize>,
    written: usize,
}

/// A stream under way, as contracts see it.
pub ghost struct StreamRunView {
    /// The search terms that a line must hold to be passed on.
    pub terms: Seq<Seq<char>>,
    /// The ceiling on the lines that are passed on.
    pub max_lines: Option<usize>,
    /// How many lines were passed on.
    pub written: usize,
}

impl View for StreamRun {
    type V = StreamRunView;

    closed spec fn view(&self) -> StreamRunView {
        StreamRunView {
            terms: self.terms.deep_view(),
            max_lines: self.max_lines,
            written: self.written,
        }
    }
}

/// The stream of a request before its first line.
pub open spec fn fresh_stream(config: ConfigView) -> StreamRunView {
    StreamRunView { terms: config.grep_terms, max_lines: config.max_lines, written: 0 }
}

/// The message that passes a line on, where the line holds each search
/// term; nothing for any other line.
pub open spec fn relayed(run: StreamRunView, line: Seq<char>) -> Option<StreamLineView> {
    if all_terms_found(line, run.terms) {
        Some(stream_data(line))
    } else {
        None
    }
}

/// Whether the query tool has to be stopped: the ceiling was reached, or
/// reading or passing on a line failed.
pub open spec fn stops_tool(run: StreamRunView, failed: bool) -> bool {
    limit_reached(run.written, run.max_lines) || failed
}

/// The complaint about a query tool that ended badly.
pub open spec fn exit_complaint(status: Seq<char>) -> Seq<char> {
    "journalctl 退出状态异常："@ + status
}

/// How a stream ends. A failure to read or to pass on a line is the
/// failure of the stream. A query tool that ended badly is one too,
/// unless it was stopped or the stream reached its ceiling: its exit
/// status says nothing then. Otherwise the stream ends with its end mark.
pub open spec fn outcome(
    run: StreamRunView,
    failure: Option<Seq<char>>,
    exit_success: bool,
    stopped: bool,
    status: Seq<char>,
) -> Result<StreamLineView, Seq<char>> {
    match failure {
        Some(e) => Err(e),
        None => if !exit_success && !stopped && !limit_reached(run.written, run.max_lines) {
            Err(exit_complaint(status))
        } else {
            Ok(finished_stream())
        },
    }
}

/// The end of a stream, by the view of what it gives.
pub open spec fn outcome_view(r: Result<StreamLine, String>) -> Result<StreamLineView, Seq<char>> {
    match r {
        Ok(line) => Ok(line@),
        Err(e) => Err(e@),
    }
}

impl StreamRun {
    /// Starts the stream that a request asks for.
    pub fn new(config: &Config) -> (r: StreamRun)
        ensures
            r@ == fresh_stream(config@),
    {
        StreamRun {
            terms: clone_texts(&config.grep_terms),
            max_lines: config.max_lines,
            written: 0,
        }
    }

    /// How many lines were passed on.
    pub fn lines_written(&self) -> (r: usize)
        ensures
            r == self@.written,
    {
        self.written
    }

    /// The message that passes a line of the query tool on, if the line
    /// is to be passed on.
    pub fn relay(&self, line: String) -> (r: Option<StreamLine>)
        ensures
            r.is_some() == relayed(self@, line@).is_some(),
            r matches Some(message) ==> Some(message@) == relayed(self@, line@),
    {
        if !matches_filters(line.as_str(), self.terms.as_slice()) {
            return None;
        }
        Some(StreamLine { line, done: false, error: None })
    }

    /// Counts a line that was passed on; returns whether the stream
    /// wants another line.
    pub fn delivered(&mut self) -> (more: bool)
        requires
            old(self)@.written < usize::MAX,
        ensures
            final(self)@ == (StreamRunView { written: (old(self)@.written + 1) as usize, ..old(self)@ }),
            more == !limit_reached(final(self)@.written, old(self)@.max_lines),
    {
        self.written = self.written + 1;
        !reached_limit(self.written, self.max_lines)
    }

    /// Whether the query tool has to be stopped before its exit status is
    /// collected.
    pub fn must_terminate(&self, failed: bool) -> (r: bool)
        ensures
            r == stops_tool(self@, failed),
    {
        reached_limit(self.written, self.max_lines) || failed
    }

    /// Ends the stream, given the failure that ended the reading, if one
    /// did, how the query tool exited, and whether it was stopped. The
    /// message that comes back is the last one to send.
    pub fn conclude(
        &self,
        failure: Option<String>,
        exit_success: bool,
        stopped: bool,
        status: &str,
    ) -> (r: Result<StreamLine, String>)
        ensures
            outcome_view(r) == outcome(self@, failure.deep_view(), exit_success, stopped, status@),
    {
        if let Some(e) = failure {
            return Err(e);
        }
        if !exit_success && !stopped && !status_killed_by_limit(self.written, self.max_lines) {
            return Err(String::from_str("journalctl 退出状态异常：").concat(status));
        }
        Ok(StreamLine { line: String::new(), done: true, error: None })
    }
}

/// A stream passes on the lines that hold each search term, and no
/// others; and a stream that did not fail ends with the end mark, also
/// where the query tool, stopped for the ceiling, exited badly.
pub proof fn lemma_stream_relays_matches(
    run: StreamRunView,
    line: Seq<char>,
    exit_success: bool,
    stopped: bool,
    status: Seq<char>,
)
    ensures
        relayed(run, line) is Some <==> all_terms_found(line, run.terms),
        relayed(run, line) matches Some(message) ==> message.line == line && !message.done
            && message.error is None,
        exit_success || stopped || limit_reached(run.written, run.max_lines) ==> outcome(
            run,
            None,
            exit_success,
            stopped,
            status,
        ) == Ok::<StreamLineView, Seq<char>>(finished_stream()),
{
}

/// A stream after some lines: where it stands, whether it wants another
/// line, and the messages that it has passed on, in order.
pub ghost struct StreamTrace {
    pub run: StreamRunView,
    pub more: bool,
    pub sent: Seq<StreamLineView>,
}

/// The stream after one more line, which it passes on and counts where
/// the line holds the search terms.
pub open spec fn after_stream_line(trace: StreamTrace, line: Seq<char>) -> StreamTrace {
    match relayed(trace.run, line) {
        Some(message) => {
            let written = (trace.run.written + 1) as usize;
            StreamTrace {
                run: StreamRunView { written, ..trace.run },
                more: !limit_reached(written, trace.run.max_lines),
                sent: trace.sent.push(message),
            }
        },
        None => trace,
    }
}

/// The stream after the lines of the query tool, taken in order for as
/// long as the stream wants another.
pub open spec fn streamed(run: StreamRunView, lines: Seq<Seq<char>>) -> StreamTrace
    decreases lines.len(),
{
    if lines.len() == 0 {
        StreamTrace { run, more: true, sent: Seq::empty() }
    } else {
        let before = streamed(run, lines.drop_last());
        if before.more {
            after_stream_line(before, lines.last())
        } else {
            before
        }
    }
}

/// The messages for those of the lines that hold the search terms, in
/// the order of the lines.
pub open spec fn passed_on(terms: Seq<Seq<char>>, lines: Seq<Seq<char>>) -> Seq<StreamLineView>
    decreases lines.len(),
{
    if lines.len() == 0 {
        Seq::empty()
    } else if all_terms_found(lines.last(), terms) {
        passed_on(terms, lines.drop_last()).push(stream_data(lines.last()))
    } else {
        passed_on(terms, lines.drop_last())
    }
}

/// A stream passes on the lines that hold the search terms in the order
/// in which they come, and no others: all of them where it has no
/// ceiling, and the first `n` of them, or all where there are fewer,
/// under a ceiling of `n` lines, `n` at least one.
pub proof fn lemma_stream_keeps_order(run: StreamRunView, lines: Seq<Seq<char>>)
    requires
        run.written == 0,
        lines.len() <= usize::MAX,
    ensures
        ({
            let trace = streamed(run, lines);
            let all = passed_on(run.terms, lines);
            &&& trace.run.written == trace.sent.len()
            &&& trace.sent.len() <= all.len()
            &&& trace.sent == all.take(trace.sent.len() as int)
            &&& run.max_lines is None ==> trace.sent == all
            &&& run.max_lines matches Some(n) ==> (n >= 1 ==> trace.sent.len() == if all.len() < n {
                all.len()
            } else {
                n as nat
            })
        }),
{
    lemma_streamed(run, lines);
    let trace = streamed(run, lines);
    let all = passed_on(run.terms, lines);
    if trace.more {
        assert(all.take(all.len() as int) == all);
    }
}

proof fn lemma_streamed(run: StreamRunView, lines: Seq<Seq<char>>)
    requires
        run.written == 0,
        lines.len() <= usize::MAX,
    ensures
        ({
            let trace = streamed(run, lines);
            let all = passed_on(run.terms, lines);
            &&& trace.run.terms == run.terms
            &&& trace.run.max_lines == run.max_lines
            &&& trace.run.written == trace.sent.len()
            &&& trace.sent.len() <= all.len() <= lines.len()
            &&& trace.sent == all.take(trace.sent.len() as int)
            &&& trace.more ==> trace.sent.len() == all.len()
            &&& trace.more ==> !(trace.sent.len() > 0 && limit_reached(
                trace.run.written,
                run.max_lines,
            ))
            &&& !trace.more ==> trace.sent.len() > 0 && limit_reached(
                trace.run.written,
                run.max_lines,
            ) && (run.max_lines matches Some(n) ==> (n >= 1 ==> trace.sent.len() == n))
        }),
    decreases lines.len(),
{
    if lines.len() > 0 {
        let shorter = lines.drop_last();
        lemma_streamed(run, shorter);
        let before = streamed(run, shorter);
        let all_before = passed_on(run.terms, shorter);
        let all = passed_on(run.terms, lines);
        if before.more {
            assert(all_before.take(all_before.len() as int) == all_before);
            assert(all.take(all.len() as int) == all);
        } else {
            assert(all.take(before.sent.len() as int) == all_before.take(before.sent.len() as int));
        }
    }
}

} // verus!
