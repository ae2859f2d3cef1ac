//! What an analysis makes of the whole output of the query tool: which
//! lines it takes, what it gathers from them, and that neither depends on
//! more than the ceiling and the lines themselves.

use vstd::prelude::*;
use crate::analyze::{
    after_line, after_lines, counts_in, is_blank, is_counted_line, lemma_counts_bounded, outcome,
    run_is_sound, AnalyzeRunView,
};
use crate::event::{JournalEventView, SourceKind};
use crate::json::event_of_line;
use crate::order::{chosen, lemma_chosen_ignores_order, lemma_chosen_len, lemma_chosen_of_part};
use crate::rank::{
    has_standing, lemma_ranked_counts_the_same, lemma_ranking_ignores_table_order, ranked,
    same_standings, standing, standings, standings_within,
};
use crate::stats::{
    aggregate, holds_key, key_index, lemma_aggregate_tallies, lemma_aggregation_ignores_order,
    lemma_recorded, lemma_total_of_aggregate, lemma_unique_index, limit_reached, recorded,
    total_count, unique_keys, SourceStatsView,
};

verus! {

/// The record of a line that counts in a run; nothing for any other
/// line.
pub open spec fn counted_event(run: AnalyzeRunView) -> spec_fn(Seq<char>) -> Option<
    JournalEventView,
> {
    |line: Seq<char>|
        if is_counted_line(run, line) {
            Some(event_of_line(line)->Ok_0)
        } else {
            None
        }
}

/// A line that is not blank; nothing for a blank one.
pub open spec fn filled_line() -> spec_fn(Seq<char>) -> Option<Seq<char>> {
    |line: Seq<char>|
        if is_blank(line) {
            None
        } else {
            Some(line)
        }
}

/// The record that a line is read as; nothing for a blank line and for
/// one that is no record.
pub open spec fn parsed_event() -> spec_fn(Seq<char>) -> Option<JournalEventView> {
    |line: Seq<char>|
        if !is_blank(line) && event_of_line(line) is Ok {
            Some(event_of_line(line)->Ok_0)
        } else {
            None
        }
}

/// The complaint about a line that is no record; nothing for a blank
/// line and for a record.
pub open spec fn parse_failure() -> spec_fn(Seq<char>) -> Option<Seq<char>> {
    |line: Seq<char>|
        if !is_blank(line) && event_of_line(line) is Err {
            Some(event_of_line(line)->Err_0)
        } else {
            None
        }
}

/// The records among the lines that count in a run, in order.
pub open spec fn counted_events(run: AnalyzeRunView, lines: Seq<Seq<char>>) -> Seq<JournalEventView> {
    chosen(lines, counted_event(run))
}

/// How many of the lines a run takes before it wants no more.
pub open spec fn lines_taken(run: AnalyzeRunView, lines: Seq<Seq<char>>) -> nat
    decreases lines.len(),
{
    if lines.len() == 0 {
        0
    } else if after_lines(run, lines.drop_last()).1 {
        lines.len()
    } else {
        lines_taken(run, lines.drop_last())
    }
}

/// The lines that a run takes: those up to the one at which it wants no
/// more.
pub open spec fn taken_lines(run: AnalyzeRunView, lines: Seq<Seq<char>>) -> Seq<Seq<char>> {
    lines.take(lines_taken(run, lines) as int)
}

/// What one line does to a run: a blank line nothing; any other is
/// counted as read, and as parsed or failed; and one that counts is
/// matched and entered into the table, after which the run wants another
/// line only below its ceiling.
proof fn lemma_after_line(run: AnalyzeRunView, line: Seq<char>)
    requires
        run_is_sound(run),
        run.metrics.lines_read < usize::MAX,
    ensures
        ({
            let (next, more) = after_line(run, line);
            &&& run_is_sound(next)
            &&& next.terms == run.terms
            &&& next.max_lines == run.max_lines
            &&& next.top == run.top
            &&& next.metrics.lines_read == run.metrics.lines_read + chosen(
                seq![line],
                filled_line(),
            ).len()
            &&& next.metrics.parsed_ok == run.metrics.parsed_ok + chosen(
                seq![line],
                parsed_event(),
            ).len()
            &&& next.metrics.parse_errors == run.metrics.parse_errors + chosen(
                seq![line],
                parse_failure(),
            ).len()
            &&& next.metrics.matched == run.metrics.matched + chosen(
                seq![line],
                counted_event(run),
            ).len()
            &&& next.table == if is_counted_line(run, line) {
                recorded(run.table, event_of_line(line)->Ok_0)
            } else {
                run.table
            }
            &&& more <==> !(is_counted_line(run, line) && limit_reached(
                next.metrics.matched,
                run.max_lines,
            ))
        }),
{
    let one = seq![line];
    assert(one.drop_last() == Seq::<Seq<char>>::empty());
    assert(one.last() == line);
    assert(chosen(one.drop_last(), filled_line()).len() == 0);
    assert(chosen(one.drop_last(), parsed_event()).len() == 0);
    assert(chosen(one.drop_last(), parse_failure()).len() == 0);
    assert(chosen(one.drop_last(), counted_event(run)).len() == 0);
    if !is_blank(line) {
        if let Ok(event) = event_of_line(line) {
            if counts_in(run, event) {
                lemma_recorded(run.table, event);
                lemma_counts_bounded(run, event);
            }
        }
    }
}

/// What is picked out of lines and one line more is what is picked out
/// of the lines, and what is found in the one.
proof fn lemma_chosen_one_more<B>(lines: Seq<Seq<char>>, pick: spec_fn(Seq<char>) -> Option<B>)
    requires
        lines.len() > 0,
    ensures
        chosen(lines, pick).len() == chosen(lines.drop_last(), pick).len() + chosen(
            seq![lines.last()],
            pick,
        ).len(),
{
    let one = seq![lines.last()];
    assert(one.drop_last() == Seq::<Seq<char>>::empty());
    assert(one.last() == lines.last());
    assert(chosen(one.drop_last(), pick).len() == 0);
}

/// Where a run stands after the lines: it has taken the lines up to the
/// one at which it wanted no more, it has gathered the records that
/// count among them, and it has counted them line by line.
proof fn lemma_reading(run: AnalyzeRunView, lines: Seq<Seq<char>>)
    requires
        run_is_sound(run),
        run.table == Seq::<SourceStatsView>::empty(),
        run.metrics.matched == 0,
        run.metrics.lines_read + lines.len() <= usize::MAX,
    ensures
        ({
            let (end, more) = after_lines(run, lines);
            let k = lines_taken(run, lines);
            let taken = taken_lines(run, lines);
            &&& k <= lines.len()
            &&& more ==> k == lines.len()
            &&& run_is_sound(end)
            &&& end.terms == run.terms
            &&& end.max_lines == run.max_lines
            &&& end.top == run.top
            &&& end.table == aggregate(counted_events(run, taken))
            &&& end.metrics.matched == counted_events(run, taken).len()
            &&& end.metrics.lines_read == run.metrics.lines_read + chosen(
                taken,
                filled_line(),
            ).len()
            &&& end.metrics.parsed_ok == run.metrics.parsed_ok + chosen(
                taken,
                parsed_event(),
            ).len()
            &&& end.metrics.parse_errors == run.metrics.parse_errors + chosen(
                taken,
                parse_failure(),
            ).len()
            &&& more ==> end.metrics.matched == 0 || !limit_reached(
                end.metrics.matched,
                run.max_lines,
            )
            &&& !more ==> k > 0 && is_counted_line(run, lines[k - 1]) && limit_reached(
                end.metrics.matched,
                run.max_lines,
            )
            &&& run.max_lines matches Some(n) ==> (n >= 1 ==> end.metrics.matched <= n)
        }),
    decreases lines.len(),
{
    if lines.len() == 0 {
        assert(lines.take(0) == lines);
    } else {
        let shorter = lines.drop_last();
        let line = lines.last();
        lemma_reading(run, shorter);
        let (before, more_before) = after_lines(run, shorter);
        if more_before {
            assert(shorter.take(shorter.len() as int) == shorter);
            assert(lines.take(lines.len() as int) == lines);
            lemma_chosen_len(shorter, filled_line());
            lemma_after_line(before, line);
            lemma_after_line(run, line);
            lemma_chosen_one_more(lines, filled_line());
            lemma_chosen_one_more(lines, parsed_event());
            lemma_chosen_one_more(lines, parse_failure());
            lemma_chosen_one_more(lines, counted_event(run));
            assert(is_counted_line(before, line) == is_counted_line(run, line));
            if is_counted_line(run, line) {
                let events = counted_events(run, lines);
                assert(events.drop_last() == counted_events(run, shorter));
                assert(events.last() == event_of_line(line)->Ok_0);
            }
        } else {
            let k = lines_taken(run, shorter);
            assert(lines.take(k as int) == shorter.take(k as int));
            assert(lines[k - 1] == shorter[k - 1]);
        }
    }
}

/// What a run gathers is the aggregate of the records that count among
/// the lines that it takes: its table is their table, it has matched as
/// many as there are, and its entries count as many together.
pub proof fn lemma_run_aggregates(run: AnalyzeRunView, lines: Seq<Seq<char>>)
    requires
        run_is_sound(run),
        run.table == Seq::<SourceStatsView>::empty(),
        run.metrics.matched == 0,
        run.metrics.lines_read + lines.len() <= usize::MAX,
    ensures
        ({
            let end = after_lines(run, lines).0;
            let taken = taken_lines(run, lines);
            &&& lines_taken(run, lines) <= lines.len()
            &&& end.table == aggregate(counted_events(run, taken))
            &&& end.metrics.matched == counted_events(run, taken).len()
            &&& total_count(end.table) == end.metrics.matched
            &&& total_count(ranked(end.table)) == end.metrics.matched
        }),
{
    lemma_reading(run, lines);
    lemma_total_of_aggregate(counted_events(run, taken_lines(run, lines)));
    lemma_ranked_counts_the_same(after_lines(run, lines).0.table);
}

/// A run with a ceiling of `n` records, `n` at least one, takes lines
/// until `n` records have counted, and not one more. It wants another
/// line exactly as long as fewer have counted; as long as it does, all
/// that counts among the lines is matched. Where at least `n` of the
/// lines count, whatever lines stand between them, the run stops at the
/// `n`-th of them: that line is the last that it takes, it has matched
/// `n` records, and its entries count `n` records together. And once it
/// has stopped, a bad exit status of the query tool is not a failure of
/// the run: the answer holds the `n` records.
pub proof fn lemma_ceiling_ends_run(
    run: AnalyzeRunView,
    lines: Seq<Seq<char>>,
    n: usize,
    status: Seq<char>,
)
    requires
        run_is_sound(run),
        run.table == Seq::<SourceStatsView>::empty(),
        run.max_lines == Some(n),
        n >= 1,
        run.metrics.matched == 0,
        run.metrics.lines_read + lines.len() <= usize::MAX,
    ensures
        ({
            let (end, more) = after_lines(run, lines);
            let k = lines_taken(run, lines);
            &&& run_is_sound(end)
            &&& end.metrics.matched <= n
            &&& more <==> end.metrics.matched < n
            &&& more ==> k == lines.len() && end.metrics.matched == counted_events(
                run,
                lines,
            ).len()
            &&& counted_events(run, lines).len() >= n ==> !more
            &&& !more ==> {
                &&& end.metrics.matched == n
                &&& total_count(end.table) == n
                &&& 0 < k <= lines.len()
                &&& is_counted_line(run, lines[k - 1])
                &&& counted_events(run, taken_lines(run, lines)).len() == n
                &&& outcome(end, None, false, status) matches Ok(answer)
                &&& answer.metrics.matched == n
                &&& total_count(answer.suspects) == n
            }
        }),
{
    lemma_reading(run, lines);
    lemma_run_aggregates(run, lines);
    let (end, more) = after_lines(run, lines);
    if more {
        assert(lines.take(lines.len() as int) == lines);
    } else {
        lemma_stopped_at_ceiling(run, lines, n);
    }
}

/// A run that has stopped under a ceiling of at least one record has
/// matched as many as the ceiling allows.
proof fn lemma_stopped_at_ceiling(run: AnalyzeRunView, lines: Seq<Seq<char>>, n: usize)
    requires
        run_is_sound(run),
        run.table == Seq::<SourceStatsView>::empty(),
        run.max_lines == Some(n),
        n >= 1,
        run.metrics.matched == 0,
        run.metrics.lines_read + lines.len() <= usize::MAX,
        !after_lines(run, lines).1,
    ensures
        after_lines(run, lines).0.metrics.matched == n,
    decreases lines.len(),
{
    if lines.len() > 0 {
        let shorter = lines.drop_last();
        lemma_reading(run, shorter);
        let (before, more_before) = after_lines(run, shorter);
        if more_before {
            assert(shorter.take(shorter.len() as int) == shorter);
            lemma_chosen_len(shorter, filled_line());
            lemma_after_line(before, lines.last());
            lemma_chosen_len(seq![lines.last()], counted_event(before));
        } else {
            lemma_stopped_at_ceiling(run, shorter, n);
        }
    }
}

/// The tables that two sequences of the same records leave keep their
/// sources apart and hold the same sources, each with the same count and
/// worst priority in both.
pub proof fn lemma_aggregates_stand_alike(a: Seq<JournalEventView>, b: Seq<JournalEventView>)
    requires
        a.to_multiset() == b.to_multiset(),
    ensures
        unique_keys(aggregate(a)),
        unique_keys(aggregate(b)),
        same_standings(aggregate(a), aggregate(b)),
{
    lemma_aggregate_within(a, b);
    lemma_aggregate_within(b, a);
}

/// Each standing in the table of some records is a standing in the
/// table of the same records in another order.
proof fn lemma_aggregate_within(a: Seq<JournalEventView>, b: Seq<JournalEventView>)
    requires
        a.to_multiset() == b.to_multiset(),
    ensures
        unique_keys(aggregate(a)),
        standings_within(aggregate(a), aggregate(b)),
{
    let s = aggregate(a);
    let t = aggregate(b);
    lemma_aggregate_tallies(a, SourceKind::Unknown, Seq::empty());
    assert forall|i: int| 0 <= i < s.len() implies #[trigger] has_standing(t, standing(s[i])) by {
        let kind = s[i].kind;
        let source = s[i].source;
        lemma_unique_index(s, i);
        lemma_aggregation_ignores_order(a, b, kind, source);
        let j = key_index(t, kind, source);
        assert(holds_key(t, kind, source));
        assert(standing(t[j]) == standing(s[i]));
    }
}

/// An analysis does not depend on the order in which the query tool
/// gives its lines, as long as the ceiling is not reached: two readings
/// of the same lines take all of them, count them alike, hold the same
/// sources with the same counts and worst priorities, and answer with
/// the sources in the same order. (The samples may differ: they go by
/// the order of the lines.)
pub proof fn lemma_analysis_ignores_order(
    run: AnalyzeRunView,
    first: Seq<Seq<char>>,
    second: Seq<Seq<char>>,
    status: Seq<char>,
)
    requires
        run_is_sound(run),
        run.table == Seq::<SourceStatsView>::empty(),
        run.metrics.matched == 0,
        run.metrics.lines_read + first.len() <= usize::MAX,
        first.to_multiset() == second.to_multiset(),
        run.max_lines matches Some(n) ==> counted_events(run, first).len() < n,
    ensures
        ({
            let (a, more_a) = after_lines(run, first);
            let (b, more_b) = after_lines(run, second);
            &&& more_a && more_b
            &&& a.metrics == b.metrics
            &&& same_standings(a.table, b.table)
            &&& outcome(a, None, true, status) matches Ok(x)
            &&& outcome(b, None, true, status) matches Ok(y)
            &&& x.metrics == y.metrics
            &&& x.top == y.top
            &&& standings(x.suspects) == standings(y.suspects)
        }),
{
    first.to_multiset_ensures();
    second.to_multiset_ensures();
    lemma_chosen_ignores_order(first, second, counted_event(run));
    lemma_chosen_ignores_order(first, second, filled_line());
    lemma_chosen_ignores_order(first, second, parsed_event());
    lemma_chosen_ignores_order(first, second, parse_failure());
    lemma_takes_all(run, first);
    lemma_takes_all(run, second);
    lemma_reading(run, first);
    lemma_reading(run, second);
    assert(first.take(first.len() as int) == first);
    assert(second.take(second.len() as int) == second);
    lemma_aggregates_stand_alike(counted_events(run, first), counted_events(run, second));
    let (a, more_a) = after_lines(run, first);
    let (b, more_b) = after_lines(run, second);
    lemma_ranking_ignores_table_order(a.table, b.table);
}

/// A run whose ceiling is above what counts among the lines takes them
/// all.
proof fn lemma_takes_all(run: AnalyzeRunView, lines: Seq<Seq<char>>)
    requires
        run_is_sound(run),
        run.table == Seq::<SourceStatsView>::empty(),
        run.metrics.matched == 0,
        run.metrics.lines_read + lines.len() <= usize::MAX,
        run.max_lines matches Some(n) ==> counted_events(run, lines).len() < n,
    ensures
        after_lines(run, lines).1,
{
    lemma_reading(run, lines);
    lemma_chosen_of_part(lines, lines_taken(run, lines) as int, counted_event(run));
}

} // verus!
