//! Per-source statistics, and the table that gathers them record by
//! record.

use vstd::prelude::*;
use vstd::string::*;
use vstd::seq_lib::{to_multiset_build, to_multiset_contains, to_multiset_remove};
use crate::event::{
    classify_source, source_of, JournalEvent, JournalEventView, SourceKind, LEAST_SEVERE,
};
use crate::text::{chars_of, clone_optional, spells, string_of, string_of_range};

verus! {

/// How many characters of a message the sample keeps.
pub const SAMPLE_LIMIT: usize = 180;

/// What was seen of one source.
#[derive(Debug)]
pub struct SourceStats {
    pub kind: SourceKind,
    pub source: String,
    /// How many records came from the source.
    pub count: u64,
    /// The most severe priority among them: the smallest number.
    pub worst_priority: u8,
    /// The message of the latest record that had one, cut for display.
    pub sample_message: String,
    /// The unit of the first record that had one.
    pub sample_unit: Option<String>,
    /// The executable of the first record that had one.
    pub sample_exe: Option<String>,
    /// The package that the source belongs to, once it was looked up.
    pub package: Option<String>,
}

/// What was seen of one source, as contracts see it.
pub ghost struct SourceStatsView {
    pub kind: SourceKind,
    pub source: Seq<char>,
    pub count: nat,
    pub worst_priority: u8,
    pub sample_message: Seq<char>,
    pub sample_unit: Option<Seq<char>>,
    pub sample_exe: Option<Seq<char>>,
    pub package: Option<Seq<char>>,
}

impl View for SourceStats {
    type V = SourceStatsView;

    open spec fn view(&self) -> SourceStatsView {
        SourceStatsView {
            kind: self.kind,
            source: self.source@,
            count: self.count as nat,
            worst_priority: self.worst_priority,
            sample_message: self.sample_message@,
            sample_unit: self.sample_unit.deep_view(),
            sample_exe: self.sample_exe.deep_view(),
            package: self.package.deep_view(),
        }
    }
}

impl Clone for SourceStats {
    fn clone(&self) -> (r: SourceStats)
        ensures
            r@ == self@,
    {
        SourceStats {
            kind: self.kind,
            source: self.source.clone(),
            count: self.count,
            worst_priority: self.worst_priority,
            sample_message: self.sample_message.clone(),
            sample_unit: clone_optional(&self.sample_unit),
            sample_exe: clone_optional(&self.sample_exe),
            package: clone_optional(&self.package),
        }
    }
}

/// The entries of a table, each by its view.
pub open spec fn stats_view(stats: Seq<SourceStats>) -> Seq<SourceStatsView> {
    stats.map_values(|s: SourceStats| s@)
}

/// The counters of one analysis.
#[derive(Debug, Clone, Copy, PartialEq, Eq, Structural)]
pub struct AnalyzeMetrics {
    /// Lines that were not blank.
    pub lines_read: usize,
    /// Lines that were read as a record.
    pub parsed_ok: usize,
    /// Records that held every search term.
    pub matched: usize,
    /// Lines that could not be read as a record.
    pub parse_errors: usize,
}

impl Default for AnalyzeMetrics {
    fn default() -> (r: AnalyzeMetrics)
        ensures
            r == (AnalyzeMetrics { lines_read: 0, parsed_ok: 0, matched: 0, parse_errors: 0 }),
    {
        AnalyzeMetrics { lines_read: 0, parsed_ok: 0, matched: 0, parse_errors: 0 }
    }
}

/// A text cut to `limit` characters, with three dots in place of what
/// was cut; a text that is no longer stays as it is.
pub open spec fn truncated(text: Seq<char>, limit: nat) -> Seq<char> {
    if text.len() <= limit {
        text
    } else {
        text.take(limit as int) + "..."@
    }
}

/// Cuts a text to `limit` characters for display.
pub fn truncate_for_display(text: &str, limit: usize) -> (r: String)
    ensures
        r@ == truncated(text@, limit as nat),
{
    let chars = chars_of(text);
    if chars.len() <= limit {
        return string_of(chars.as_slice());
    }
    let head = string_of_range(chars.as_slice(), 0, limit);
    head.concat("...")
}

/// Whether a count has reached the ceiling, if there is one.
pub open spec fn limit_reached(count: usize, max: Option<usize>) -> bool {
    match max {
        Some(m) => count >= m,
        None => false,
    }
}

/// Whether a count has reached the ceiling, if there is one.
pub fn reached_limit(count: usize, max: Option<usize>) -> (r: bool)
    ensures
        r == limit_reached(count, max),
{
    match max {
        Some(m) => count >= m,
        None => false,
    }
}

/// Whether the query tool was stopped because the ceiling was reached,
/// so that its exit status says nothing.
pub fn status_killed_by_limit(count: usize, max: Option<usize>) -> (r: bool)
    ensures
        r == limit_reached(count, max),
{
    reached_limit(count, max)
}

/// Whether an entry is the one of the source `(kind, source)`.
pub open spec fn has_key(entry: SourceStatsView, kind: SourceKind, source: Seq<char>) -> bool {
    entry.kind == kind && entry.source == source
}

/// Whether a table has an entry for the source.
pub open spec fn holds_key(table: Seq<SourceStatsView>, kind: SourceKind, source: Seq<char>) -> bool {
    exists|i: int| 0 <= i < table.len() && has_key(#[trigger] table[i], kind, source)
}

/// Where the entry of the source stands in a table that has one.
pub open spec fn key_index(table: Seq<SourceStatsView>, kind: SourceKind, source: Seq<char>) -> int {
    choose|i: int| 0 <= i < table.len() && has_key(#[trigger] table[i], kind, source)
}

/// No two entries of the table are of one source.
pub open spec fn unique_keys(table: Seq<SourceStatsView>) -> bool {
    forall|i: int, j: int|
        0 <= i < j < table.len() ==> !has_key(
            #[trigger] table[i],
            (#[trigger] table[j]).kind,
            table[j].source,
        )
}

/// The entry of a source of which nothing was seen yet.
pub open spec fn fresh_entry(kind: SourceKind, source: Seq<char>) -> SourceStatsView {
    SourceStatsView {
        kind,
        source,
        count: 0,
        worst_priority: LEAST_SEVERE,
        sample_message: Seq::empty(),
        sample_unit: None,
        sample_exe: None,
        package: None,
    }
}

/// The more severe of a priority and that of a record, if the record has
/// one.
pub open spec fn worse_of(worst: u8, priority: Option<u8>) -> u8 {
    match priority {
        Some(p) => if p < worst {
            p
        } else {
            worst
        },
        None => worst,
    }
}

/// An entry after one more record of its source: the count grows by one,
/// the worst priority sinks to that of the record if that is smaller, a
/// message that is not empty replaces the sample, and unit and executable
/// are kept from the first record that had them.
pub open spec fn updated(entry: SourceStatsView, event: JournalEventView) -> SourceStatsView {
    SourceStatsView {
        count: entry.count + 1,
        worst_priority: worse_of(entry.worst_priority, event.priority),
        sample_message: if event.message.len() > 0 {
            truncated(event.message, SAMPLE_LIMIT as nat)
        } else {
            entry.sample_message
        },
        sample_unit: if entry.sample_unit is None {
            event.unit
        } else {
            entry.sample_unit
        },
        sample_exe: if entry.sample_exe is None {
            event.exe
        } else {
            entry.sample_exe
        },
        ..entry
    }
}

/// A table after one more record: the entry of the record's source is
/// updated; a source that is new to the table gets its entry at the end.
pub open spec fn recorded(table: Seq<SourceStatsView>, event: JournalEventView) -> Seq<
    SourceStatsView,
> {
    let (kind, source) = source_of(event);
    if holds_key(table, kind, source) {
        let i = key_index(table, kind, source);
        table.update(i, updated(table[i], event))
    } else {
        table.push(updated(fresh_entry(kind, source), event))
    }
}

/// The table that a sequence of records leaves, taken in order.
pub open spec fn aggregate(events: Seq<JournalEventView>) -> Seq<SourceStatsView>
    decreases events.len(),
{
    if events.len() == 0 {
        Seq::empty()
    } else {
        recorded(aggregate(events.drop_last()), events.last())
    }
}

/// Of the records of one source among `events`: how many there are, and
/// their most severe priority.
pub open spec fn tally(events: Seq<JournalEventView>, kind: SourceKind, source: Seq<char>) -> (
    nat,
    u8,
)
    decreases events.len(),
{
    if events.len() == 0 {
        (0, LEAST_SEVERE)
    } else {
        tally_step(tally(events.drop_last(), kind, source), events.last(), kind, source)
    }
}

/// The tally of a source after one more record, which counts where it
/// is of the source.
pub open spec fn tally_step(
    so_far: (nat, u8),
    event: JournalEventView,
    kind: SourceKind,
    source: Seq<char>,
) -> (nat, u8) {
    if source_of(event) == (kind, source) {
        (so_far.0 + 1, worse_of(so_far.1, event.priority))
    } else {
        so_far
    }
}

/// Recording keeps the sources of a table apart, and changes the entry
/// of no source but that of the record.
pub proof fn lemma_recorded(table: Seq<SourceStatsView>, event: JournalEventView)
    requires
        unique_keys(table),
    ensures
        unique_keys(recorded(table, event)),
        forall|kind: SourceKind, source: Seq<char>|
            (kind, source) != source_of(event) ==> (holds_key(
                recorded(table, event),
                kind,
                source,
            ) <==> holds_key(table, kind, source)),
        forall|kind: SourceKind, source: Seq<char>|
            (kind, source) != source_of(event) && #[trigger] holds_key(table, kind, source)
                ==> recorded(table, event)[key_index(recorded(table, event), kind, source)]
                == table[key_index(table, kind, source)],
        holds_key(recorded(table, event), source_of(event).0, source_of(event).1),
        recorded(table, event)[key_index(
            recorded(table, event),
            source_of(event).0,
            source_of(event).1,
        )] == updated(
            if holds_key(table, source_of(event).0, source_of(event).1) {
                table[key_index(table, source_of(event).0, source_of(event).1)]
            } else {
                fresh_entry(source_of(event).0, source_of(event).1)
            },
            event,
        ),
{
    let (k, s) = source_of(event);
    let next = recorded(table, event);
    let at: int = if holds_key(table, k, s) {
        key_index(table, k, s)
    } else {
        table.len() as int
    };
    assert(0 <= at < next.len());
    assert(has_key(next[at], k, s));
    assert forall|i: int| 0 <= i < table.len() && i != at implies next[i] == table[i] by {}
    assert forall|i: int, j: int| 0 <= i < j < next.len() implies !has_key(
        #[trigger] next[i],
        (#[trigger] next[j]).kind,
        next[j].source,
    ) by {
        if j < table.len() {
            assert(!has_key(table[i], table[j].kind, table[j].source));
        } else {
            assert(!holds_key(table, k, s));
            assert(!has_key(table[i], k, s));
        }
    }
    lemma_unique_index(next, at);
    assert forall|kind: SourceKind, source: Seq<char>| (kind, source) != source_of(event) implies (
    holds_key(next, kind, source) <==> holds_key(table, kind, source)) by {
        if holds_key(next, kind, source) {
            let i = key_index(next, kind, source);
            assert(i != at);
            assert(has_key(table[i], kind, source));
        }
        if holds_key(table, kind, source) {
            let i = key_index(table, kind, source);
            assert(i != at);
            assert(has_key(next[i], kind, source));
        }
    }
    assert forall|kind: SourceKind, source: Seq<char>|
        (kind, source) != source_of(event) && #[trigger] holds_key(
            table,
            kind,
            source,
        ) implies next[key_index(next, kind, source)] == table[key_index(table, kind, source)] by {
        let i = key_index(table, kind, source);
        assert(i != at);
        assert(has_key(next[i], kind, source));
        lemma_unique_index(next, i);
    }
}

/// In a table that keeps its sources apart, the entry of a source stands
/// where any entry with its key stands.
pub proof fn lemma_unique_index(table: Seq<SourceStatsView>, i: int)
    requires
        unique_keys(table),
        0 <= i < table.len(),
    ensures
        holds_key(table, table[i].kind, table[i].source),
        key_index(table, table[i].kind, table[i].source) == i,
{
    let kind = table[i].kind;
    let source = table[i].source;
    assert(has_key(table[i], kind, source));
    let j = key_index(table, kind, source);
    if j < i {
        assert(!has_key(table[j], table[i].kind, table[i].source));
    } else if i < j {
        assert(!has_key(table[i], table[j].kind, table[j].source));
    }
}

/// A source without a record has the least severe priority for its worst.
proof fn lemma_tally_of_none(events: Seq<JournalEventView>, kind: SourceKind, source: Seq<char>)
    ensures
        tally(events, kind, source).0 == 0 ==> tally(events, kind, source).1 == LEAST_SEVERE,
    decreases events.len(),
{
    if events.len() > 0 {
        lemma_tally_of_none(events.drop_last(), kind, source);
    }
}

/// What aggregation leaves of a source is its tally: an entry with the
/// number of its records and their most severe priority, and no entry
/// where it has no record.
pub proof fn lemma_aggregate_tallies(
    events: Seq<JournalEventView>,
    kind: SourceKind,
    source: Seq<char>,
)
    ensures
        unique_keys(aggregate(events)),
        holds_key(aggregate(events), kind, source) <==> tally(events, kind, source).0 > 0,
        holds_key(aggregate(events), kind, source) ==> {
            let entry = aggregate(events)[key_index(aggregate(events), kind, source)];
            entry.count == tally(events, kind, source).0 && entry.worst_priority == tally(
                events,
                kind,
                source,
            ).1
        },
    decreases events.len(),
{
    if events.len() == 0 {
        assert(!holds_key(aggregate(events), kind, source));
    } else {
        let before = aggregate(events.drop_last());
        let event = events.last();
        lemma_aggregate_tallies(events.drop_last(), kind, source);
        lemma_tally_of_none(events.drop_last(), kind, source);
        lemma_recorded(before, event);
        if (kind, source) != source_of(event) {
            if holds_key(before, kind, source) {
                assert(recorded(before, event)[key_index(recorded(before, event), kind, source)]
                    == before[key_index(before, kind, source)]);
            }
        }
    }
}

/// Counting one record more comes to the same whichever of two records
/// is counted first.
proof fn lemma_tally_step_commutes(
    so_far: (nat, u8),
    a: JournalEventView,
    b: JournalEventView,
    kind: SourceKind,
    source: Seq<char>,
)
    ensures
        tally_step(tally_step(so_far, a, kind, source), b, kind, source) == tally_step(
            tally_step(so_far, b, kind, source),
            a,
            kind,
            source,
        ),
{
}

/// The tally of a sequence is that of the sequence without one of its
/// records, and then that record.
proof fn lemma_tally_remove(
    events: Seq<JournalEventView>,
    j: int,
    kind: SourceKind,
    source: Seq<char>,
)
    requires
        0 <= j < events.len(),
    ensures
        tally(events, kind, source) == tally_step(
            tally(events.remove(j), kind, source),
            events[j],
            kind,
            source,
        ),
    decreases events.len(),
{
    if j == events.len() - 1 {
        assert(events.remove(j) == events.drop_last());
    } else {
        let shorter = events.drop_last();
        lemma_tally_remove(shorter, j, kind, source);
        assert(events.remove(j).drop_last() == shorter.remove(j));
        assert(events.remove(j).last() == events.last());
        lemma_tally_step_commutes(
            tally(shorter.remove(j), kind, source),
            events[j],
            events.last(),
            kind,
            source,
        );
    }
}

/// The tally of a source does not depend on the order of the records.
pub proof fn lemma_tally_ignores_order(
    a: Seq<JournalEventView>,
    b: Seq<JournalEventView>,
    kind: SourceKind,
    source: Seq<char>,
)
    requires
        a.to_multiset() == b.to_multiset(),
    ensures
        tally(a, kind, source) == tally(b, kind, source),
    decreases a.len(),
{
    a.to_multiset_ensures();
    b.to_multiset_ensures();
    if a.len() == 0 {
        assert(b.len() == 0);
    } else {
        let last = a.last();
        let rest = a.drop_last();
        assert(a == rest.push(last));
        to_multiset_build(rest, last);
        to_multiset_contains(b, last);
        assert(b.to_multiset().count(last) > 0);
        let j = choose|j: int| 0 <= j < b.len() && b[j] == last;
        to_multiset_remove(b, j);
        assert(rest.to_multiset() =~= b.remove(j).to_multiset());
        lemma_tally_ignores_order(rest, b.remove(j), kind, source);
        lemma_tally_remove(b, j, kind, source);
    }
}

/// Aggregation counts the records of a source, and finds their most
/// severe priority, whatever the order in which the records come: two
/// sequences of the same records leave an entry for the same sources, and
/// in the two entries of a source the same count and the same worst
/// priority. (The samples may differ: they go by the order.)
pub proof fn lemma_aggregation_ignores_order(
    a: Seq<JournalEventView>,
    b: Seq<JournalEventView>,
    kind: SourceKind,
    source: Seq<char>,
)
    requires
        a.to_multiset() == b.to_multiset(),
    ensures
        holds_key(aggregate(a), kind, source) <==> holds_key(aggregate(b), kind, source),
        holds_key(aggregate(a), kind, source) ==> {
            let in_a = aggregate(a)[key_index(aggregate(a), kind, source)];
            let in_b = aggregate(b)[key_index(aggregate(b), kind, source)];
            in_a.count == in_b.count && in_a.worst_priority == in_b.worst_priority
        },
{
    lemma_tally_ignores_order(a, b, kind, source);
    lemma_aggregate_tallies(a, kind, source);
    lemma_aggregate_tallies(b, kind, source);
}

/// How many records the entries of a table count together.
pub open spec fn total_count(table: Seq<SourceStatsView>) -> nat
    decreases table.len(),
{
    if table.len() == 0 {
        0
    } else {
        total_count(table.drop_last()) + table.last().count
    }
}

/// A table with one entry replaced counts what it counted, less the old
/// entry, and the new one.
proof fn lemma_total_replaced(table: Seq<SourceStatsView>, i: int, entry: SourceStatsView)
    requires
        0 <= i < table.len(),
    ensures
        total_count(table.update(i, entry)) + table[i].count == total_count(table) + entry.count,
    decreases table.len(),
{
    let next = table.update(i, entry);
    if i == table.len() - 1 {
        assert(next.drop_last() == table.drop_last());
    } else {
        lemma_total_replaced(table.drop_last(), i, entry);
        assert(next.drop_last() == table.drop_last().update(i, entry));
    }
}

/// A table with one entry more, wherever it stands, counts what it
/// counted and what the entry counts.
pub proof fn lemma_total_inserted(table: Seq<SourceStatsView>, i: int, entry: SourceStatsView)
    requires
        0 <= i <= table.len(),
    ensures
        total_count(table.insert(i, entry)) == total_count(table) + entry.count,
    decreases table.len(),
{
    let next = table.insert(i, entry);
    if i == table.len() {
        assert(next.drop_last() == table);
    } else {
        lemma_total_inserted(table.drop_last(), i, entry);
        assert(next.drop_last() == table.drop_last().insert(i, entry));
    }
}

/// Each record that is entered into a table is counted once.
pub proof fn lemma_total_recorded(table: Seq<SourceStatsView>, event: JournalEventView)
    ensures
        total_count(recorded(table, event)) == total_count(table) + 1,
{
    let (kind, source) = source_of(event);
    if holds_key(table, kind, source) {
        let i = key_index(table, kind, source);
        lemma_total_replaced(table, i, updated(table[i], event));
    } else {
        assert(recorded(table, event).drop_last() == table);
    }
}

/// The entries of an aggregate count as many records together as were
/// aggregated.
pub proof fn lemma_total_of_aggregate(events: Seq<JournalEventView>)
    ensures
        total_count(aggregate(events)) == events.len(),
    decreases events.len(),
{
    if events.len() > 0 {
        lemma_total_of_aggregate(events.drop_last());
        lemma_total_recorded(aggregate(events.drop_last()), events.last());
    }
}

/// Where the entry of a source stands in the table, if it has one.
pub fn find_entry(stats: &Vec<SourceStats>, kind: SourceKind, source: &str) -> (r: Option<usize>)
    ensures
        match r {
            Some(i) => i < stats@.len() && has_key(stats@[i as int]@, kind, source@),
            None => !holds_key(stats_view(stats@), kind, source@),
        },
{
    let name = chars_of(source);
    let mut i: usize = 0;
    while i < stats.len()
        invariant
            i <= stats@.len(),
            name@ == source@,
            forall|k: int| 0 <= k < i ==> !has_key(#[trigger] stats_view(stats@)[k], kind, source@),
        decreases stats@.len() - i,
    {
        assert(stats_view(stats@)[i as int] == stats@[i as int]@);
        if stats[i].kind == kind && spells(name.as_slice(), stats[i].source.as_str()) {
            return Some(i);
        }
        i += 1;
    }
    None
}

/// Counts one more record of a source.
fn update_entry(entry: &mut SourceStats, event: &JournalEvent)
    requires
        old(entry).count < u64::MAX,
    ensures
        final(entry)@ == updated(old(entry)@, event@),
{
    entry.count = entry.count + 1;
    if let Some(p) = event.priority {
        if p < entry.worst_priority {
            entry.worst_priority = p;
        }
    }
    if event.message.as_str().unicode_len() != 0 {
        entry.sample_message = truncate_for_display(event.message.as_str(), SAMPLE_LIMIT);
    }
    if entry.sample_unit.is_none() {
        entry.sample_unit = clone_optional(&event.unit);
    }
    if entry.sample_exe.is_none() {
        entry.sample_exe = clone_optional(&event.exe);
    }
}

/// Enters one more record into the table.
pub fn record_event(stats: &mut Vec<SourceStats>, event: &JournalEvent)
    requires
        unique_keys(stats_view(old(stats)@)),
        forall|i: int| 0 <= i < old(stats)@.len() ==> (#[trigger] old(stats)@[i]).count < u64::MAX,
    ensures
        stats_view(final(stats)@) == recorded(stats_view(old(stats)@), event@),
{
    let (kind, source) = classify_source(event);
    let ghost table = stats_view(stats@);
    match find_entry(stats, kind, source.as_str()) {
        Some(i) => {
            proof {
                assert(table[i as int] == stats@[i as int]@);
                lemma_unique_index(table, i as int);
            }
            update_entry(&mut stats[i], event);
            assert(stats_view(stats@) == table.update(i as int, updated(table[i as int], event@)));
        },
        None => {
            let mut entry = SourceStats {
                kind,
                source,
                count: 0,
                worst_priority: LEAST_SEVERE,
                sample_message: String::new(),
                sample_unit: None,
                sample_exe: None,
                package: None,
            };
            update_entry(&mut entry, event);
            stats.push(entry);
            assert(stats_view(stats@) == table.push(
                updated(fresh_entry(source_of(event@).0, source_of(event@).1), event@),
            ));
        },
    }
}

} // verus!
