//! The ranking of sources: most records first, then the more severe, then
//! by name, and of sources with one name by kind. It is one order for a
//! table, whatever the order in which the table came about.

use vstd::prelude::*;
use vstd::string::*;
use vstd::seq_lib::{to_multiset_contains, to_multiset_insert};
use vstd::utf8::{encode_utf8, encode_utf8_decode_utf8, decode_utf8};
use crate::event::SourceKind;
use crate::stats::{
    has_key, lemma_total_inserted, stats_view, total_count, unique_keys, SourceStats,
    SourceStatsView,
};

verus! {

/// How the first of two things stands to the second in an order.
#[derive(Debug, Clone, Copy, PartialEq, Eq, Structural)]
pub enum Order {
    Less,
    Equal,
    Greater,
}

/// Whether `a` comes before `b` in the order of dictionaries: at the
/// first place where they differ `a` has the smaller byte, or `a` ends
/// there and `b` goes on.
pub open spec fn bytes_before(a: Seq<u8>, b: Seq<u8>) -> bool {
    exists|k: int| differ_at(a, b, k)
}

/// Whether `a` and `b` agree up to place `k`, where `a` ends or has the
/// smaller byte.
pub open spec fn differ_at(a: Seq<u8>, b: Seq<u8>, k: int) -> bool {
    &&& 0 <= k <= a.len()
    &&& k < b.len()
    &&& a.take(k) == b.take(k)
    &&& k < a.len() ==> a[k] < b[k]
}

/// Whether the name `a` comes before the name `b`: as strings are
/// ordered, by the bytes of their UTF-8 encodings.
pub open spec fn name_before(a: Seq<char>, b: Seq<char>) -> bool {
    bytes_before(encode_utf8(a), encode_utf8(b))
}

/// Of two byte strings that agree up to place `k`, one comes before the
/// other or they are the same.
proof fn lemma_bytes_compared_from(a: Seq<u8>, b: Seq<u8>, k: int)
    requires
        0 <= k <= a.len(),
        k <= b.len(),
        a.take(k) == b.take(k),
    ensures
        bytes_before(a, b) || a == b || bytes_before(b, a),
    decreases a.len() - k,
{
    if k == a.len() {
        if k == b.len() {
            assert(a.take(k) == a);
            assert(b.take(k) == b);
        } else {
            assert(differ_at(a, b, k));
        }
    } else if k == b.len() {
        assert(differ_at(b, a, k));
    } else if a[k] < b[k] {
        assert(differ_at(a, b, k));
    } else if b[k] < a[k] {
        assert(differ_at(b, a, k));
    } else {
        assert(a.take(k + 1) == a.take(k).push(a[k]));
        assert(b.take(k + 1) == b.take(k).push(b[k]));
        lemma_bytes_compared_from(a, b, k + 1);
    }
}

/// No byte string comes before one that comes before it, nor before
/// itself.
pub proof fn lemma_bytes_before_asymmetric(a: Seq<u8>, b: Seq<u8>)
    ensures
        !(bytes_before(a, b) && bytes_before(b, a)),
        !bytes_before(a, a),
{
    if bytes_before(a, b) && bytes_before(b, a) {
        let k = choose|k: int| differ_at(a, b, k);
        let m = choose|m: int| differ_at(b, a, m);
        if k < m {
            assert(b.take(m)[k] == a.take(m)[k]);
        } else if m < k {
            assert(a.take(k)[m] == b.take(k)[m]);
        }
    }
    if bytes_before(a, a) {
        let k = choose|k: int| differ_at(a, a, k);
    }
}

/// What comes before something that comes before a third comes before
/// the third.
pub proof fn lemma_bytes_before_transitive(a: Seq<u8>, b: Seq<u8>, c: Seq<u8>)
    requires
        bytes_before(a, b),
        bytes_before(b, c),
    ensures
        bytes_before(a, c),
{
    let k = choose|k: int| differ_at(a, b, k);
    let m = choose|m: int| differ_at(b, c, m);
    let n = if k <= m {
        k
    } else {
        m
    };
    assert(a.take(n) == a.take(k).take(n));
    assert(b.take(n) == b.take(k).take(n));
    assert(b.take(n) == b.take(m).take(n));
    assert(c.take(n) == c.take(m).take(n));
    if m < k {
        assert(a.take(k)[m] == b.take(k)[m]);
    } else if k < m {
        assert(b.take(m)[k] == c.take(m)[k]);
    }
    assert(differ_at(a, c, n));
}

/// Of two names, one comes before the other or they are the same name,
/// and only one of the three holds.
pub proof fn lemma_names_compared(a: Seq<char>, b: Seq<char>)
    ensures
        name_before(a, b) || a == b || name_before(b, a),
        !(name_before(a, b) && name_before(b, a)),
        !name_before(a, a),
{
    assert(encode_utf8(a).take(0) == encode_utf8(b).take(0));
    lemma_bytes_compared_from(encode_utf8(a), encode_utf8(b), 0);
    lemma_bytes_before_asymmetric(encode_utf8(a), encode_utf8(b));
    lemma_bytes_before_asymmetric(encode_utf8(a), encode_utf8(a));
    if encode_utf8(a) == encode_utf8(b) {
        encode_utf8_decode_utf8(a);
        encode_utf8_decode_utf8(b);
        assert(decode_utf8(encode_utf8(a)) == decode_utf8(encode_utf8(b)));
    }
}

/// How the name `a` stands to the name `b`.
#[verifier::loop_isolation(false)]
pub fn compare_names(a: &str, b: &str) -> (r: Order)
    ensures
        r == Order::Less <==> name_before(a@, b@),
        r == Order::Equal <==> a@ == b@,
        r == Order::Greater <==> name_before(b@, a@),
{
    let x = a.as_bytes();
    let y = b.as_bytes();
    proof {
        lemma_names_compared(a@, b@);
        encode_utf8_decode_utf8(a@);
        encode_utf8_decode_utf8(b@);
    }
    let n: usize = x.len();
    let m: usize = y.len();
    let mut k: usize = 0;
    while k < n && k < m
        invariant
            k <= n == x@.len(),
            k <= m == y@.len(),
            x@.take(k as int) == y@.take(k as int),
        decreases n - k,
    {
        if x[k] < y[k] {
            assert(differ_at(x@, y@, k as int));
            return Order::Less;
        }
        if y[k] < x[k] {
            assert(differ_at(y@, x@, k as int));
            return Order::Greater;
        }
        assert(x@.take(k + 1) == x@.take(k as int).push(x@[k as int]));
        assert(y@.take(k + 1) == y@.take(k as int).push(y@[k as int]));
        k += 1;
    }
    if k < m {
        assert(differ_at(x@, y@, k as int));
        Order::Less
    } else if k < n {
        assert(differ_at(y@, x@, k as int));
        Order::Greater
    } else {
        assert(x@.take(k as int) == x@);
        assert(y@.take(k as int) == y@);
        Order::Equal
    }
}

/// The place of a kind among the kinds, which settles the ranking of
/// sources that agree in all else.
pub open spec fn kind_place(kind: SourceKind) -> nat {
    match kind {
        SourceKind::Unit => 0,
        SourceKind::Executable => 1,
        SourceKind::Identifier => 2,
        SourceKind::Comm => 3,
        SourceKind::Kernel => 4,
        SourceKind::Unknown => 5,
    }
}

fn place_of(kind: SourceKind) -> (r: u8)
    ensures
        r == kind_place(kind),
{
    match kind {
        SourceKind::Unit => 0,
        SourceKind::Executable => 1,
        SourceKind::Identifier => 2,
        SourceKind::Comm => 3,
        SourceKind::Kernel => 4,
        SourceKind::Unknown => 5,
    }
}

/// Whether the source `a` ranks above the source `b`: it has more
/// records; or as many and a more severe worst priority; or the same of
/// both and the name that comes first; or the same of both and the same
/// name, and the kind that comes first.
pub open spec fn outranks(a: SourceStatsView, b: SourceStatsView) -> bool {
    ||| a.count > b.count
    ||| a.count == b.count && a.worst_priority < b.worst_priority
    ||| a.count == b.count && a.worst_priority == b.worst_priority && name_before(
        a.source,
        b.source,
    )
    ||| a.count == b.count && a.worst_priority == b.worst_priority && a.source == b.source
        && kind_place(a.kind) < kind_place(b.kind)
}

/// Whether the ranking cannot tell two entries apart: they are of one
/// source, with the same count and the same worst priority.
pub open spec fn ranks_with(a: SourceStatsView, b: SourceStatsView) -> bool {
    a.count == b.count && a.worst_priority == b.worst_priority && a.source == b.source && a.kind
        == b.kind
}

/// How the source `left` stands to the source `right` in the ranking.
pub fn compare_suspects(left: &SourceStats, right: &SourceStats) -> (r: Order)
    ensures
        r == Order::Less <==> outranks(left@, right@),
        r == Order::Equal <==> ranks_with(left@, right@),
        r == Order::Greater <==> outranks(right@, left@),
{
    proof {
        lemma_names_compared(left@.source, right@.source);
    }
    if left.count > right.count {
        Order::Less
    } else if left.count < right.count {
        Order::Greater
    } else if left.worst_priority < right.worst_priority {
        Order::Less
    } else if left.worst_priority > right.worst_priority {
        Order::Greater
    } else {
        match compare_names(left.source.as_str(), right.source.as_str()) {
            Order::Less => Order::Less,
            Order::Greater => Order::Greater,
            Order::Equal => {
                let l = place_of(left.kind);
                let r = place_of(right.kind);
                if l < r {
                    Order::Less
                } else if l > r {
                    Order::Greater
                } else {
                    Order::Equal
                }
            },
        }
    }
}

/// The ranking is a total order: of two entries one outranks the other
/// or they are of one source with the same count and worst priority, and
/// only one of the three holds; and what outranks an entry outranks all
/// that the entry outranks.
pub proof fn lemma_ranking_is_total_order(
    a: SourceStatsView,
    b: SourceStatsView,
    c: SourceStatsView,
)
    ensures
        outranks(a, b) || ranks_with(a, b) || outranks(b, a),
        !(outranks(a, b) && outranks(b, a)),
        !(outranks(a, b) && ranks_with(a, b)),
        !outranks(a, a),
        outranks(a, b) && outranks(b, c) ==> outranks(a, c),
        outranks(a, b) && !outranks(c, b) ==> outranks(a, c),
        !outranks(b, a) && outranks(b, c) ==> outranks(a, c),
{
    lemma_names_compared(a.source, b.source);
    lemma_names_compared(b.source, c.source);
    lemma_names_compared(a.source, c.source);
    lemma_names_compared(a.source, a.source);
    if name_before(a.source, b.source) && name_before(b.source, c.source) {
        lemma_bytes_before_transitive(
            encode_utf8(a.source),
            encode_utf8(b.source),
            encode_utf8(c.source),
        );
    }
    if name_before(a.source, b.source) && name_before(c.source, a.source) {
        lemma_bytes_before_transitive(
            encode_utf8(c.source),
            encode_utf8(a.source),
            encode_utf8(b.source),
        );
    }
    if name_before(b.source, c.source) && name_before(c.source, a.source) {
        lemma_bytes_before_transitive(
            encode_utf8(b.source),
            encode_utf8(c.source),
            encode_utf8(a.source),
        );
    }
}

/// Whether no source of the list is outranked by one that stands after
/// it.
pub open spec fn is_ranked(list: Seq<SourceStatsView>) -> bool {
    forall|i: int, j: int| 0 <= i < j < list.len() ==> !outranks(#[trigger] list[j], #[trigger] list[i])
}

/// Where a source enters a ranked list: behind every source that it does
/// not outrank.
pub open spec fn insertion_point(list: Seq<SourceStatsView>, entry: SourceStatsView) -> int
    decreases list.len(),
{
    if list.len() > 0 && outranks(entry, list.last()) {
        insertion_point(list.drop_last(), entry)
    } else {
        list.len() as int
    }
}

/// A list in ranked order. Entries that the ranking cannot tell apart,
/// which a table that keeps its sources apart does not have, keep the
/// order in which the list had them.
pub open spec fn ranked(list: Seq<SourceStatsView>) -> Seq<SourceStatsView>
    decreases list.len(),
{
    if list.len() == 0 {
        list
    } else {
        let before = ranked(list.drop_last());
        before.insert(insertion_point(before, list.last()), list.last())
    }
}

/// A source enters a ranked list behind those that it does not outrank
/// and before those that it outranks.
proof fn lemma_insertion_point(list: Seq<SourceStatsView>, entry: SourceStatsView)
    requires
        is_ranked(list),
    ensures
        0 <= insertion_point(list, entry) <= list.len(),
        forall|i: int| 0 <= i < insertion_point(list, entry) ==> !outranks(entry, #[trigger] list[i]),
        forall|i: int|
            insertion_point(list, entry) <= i < list.len() ==> outranks(entry, #[trigger] list[i]),
    decreases list.len(),
{
    if list.len() > 0 && outranks(entry, list.last()) {
        let shorter = list.drop_last();
        assert(is_ranked(shorter)) by {
            assert forall|i: int, j: int| 0 <= i < j < shorter.len() implies !outranks(
                #[trigger] shorter[j],
                #[trigger] shorter[i],
            ) by {
                assert(shorter[i] == list[i] && shorter[j] == list[j]);
            }
        }
        lemma_insertion_point(shorter, entry);
        assert forall|i: int| 0 <= i < insertion_point(list, entry) implies !outranks(
            entry,
            #[trigger] list[i],
        ) by {
            assert(list[i] == shorter[i]);
        }
        assert forall|i: int| insertion_point(list, entry) <= i < list.len() implies outranks(
            entry,
            #[trigger] list[i],
        ) by {
            if i < shorter.len() {
                assert(list[i] == shorter[i]);
            }
        }
    } else {
        let last = list.len() - 1;
        assert forall|i: int| 0 <= i < list.len() implies !outranks(entry, #[trigger] list[i]) by {
            if i < last {
                assert(!outranks(list[last], list[i]));
                lemma_ranking_is_total_order(entry, list[i], list[last]);
            }
        }
    }
}

/// Ranking a list gives a ranked list of the same sources.
pub proof fn lemma_ranked_is_ranked(list: Seq<SourceStatsView>)
    ensures
        is_ranked(ranked(list)),
        ranked(list).len() == list.len(),
        ranked(list).to_multiset() == list.to_multiset(),
    decreases list.len(),
{
    if list.len() > 0 {
        let before = ranked(list.drop_last());
        let entry = list.last();
        lemma_ranked_is_ranked(list.drop_last());
        lemma_insertion_point(before, entry);
        let p = insertion_point(before, entry);
        let after = before.insert(p, entry);
        assert forall|i: int, j: int| 0 <= i < j < after.len() implies !outranks(
            #[trigger] after[j],
            #[trigger] after[i],
        ) by {
            if j < p {
                assert(after[i] == before[i] && after[j] == before[j]);
            } else if j == p {
                assert(after[i] == before[i]);
            } else if i < p {
                assert(after[i] == before[i] && after[j] == before[j - 1]);
            } else if i == p {
                assert(after[j] == before[j - 1]);
                lemma_ranking_is_total_order(entry, before[j - 1], entry);
            } else {
                assert(after[i] == before[i - 1] && after[j] == before[j - 1]);
            }
        }
        to_multiset_insert(before, p, entry);
        assert(list == list.drop_last().push(entry));
        list.drop_last().to_multiset_ensures();
    }
}

/// Ranking changes nothing in what the entries count together.
pub proof fn lemma_ranked_counts_the_same(list: Seq<SourceStatsView>)
    ensures
        total_count(ranked(list)) == total_count(list),
    decreases list.len(),
{
    if list.len() > 0 {
        let before = ranked(list.drop_last());
        lemma_ranked_counts_the_same(list.drop_last());
        lemma_ranked_is_ranked(list.drop_last());
        lemma_insertion_point(before, list.last());
        lemma_total_inserted(before, insertion_point(before, list.last()), list.last());
    }
}

/// Ranking leaves a ranked list as it is.
pub proof fn lemma_ranked_fixed(list: Seq<SourceStatsView>)
    requires
        is_ranked(list),
    ensures
        ranked(list) == list,
    decreases list.len(),
{
    if list.len() > 0 {
        let shorter = list.drop_last();
        assert(is_ranked(shorter)) by {
            assert forall|i: int, j: int| 0 <= i < j < shorter.len() implies !outranks(
                #[trigger] shorter[j],
                #[trigger] shorter[i],
            ) by {
                assert(shorter[i] == list[i] && shorter[j] == list[j]);
            }
        }
        lemma_ranked_fixed(shorter);
        if shorter.len() > 0 {
            assert(!outranks(list[list.len() - 1], list[list.len() - 2]));
            assert(shorter.last() == list[list.len() - 2]);
        }
        assert(shorter.insert(shorter.len() as int, list.last()) == list);
    }
}

/// Ranking twice gives what ranking once gives; and in a ranked list, of
/// two entries with the same count and the same worst priority, the one
/// that stands first does not have the later name.
pub proof fn lemma_ranking_is_stable(list: Seq<SourceStatsView>)
    ensures
        ranked(ranked(list)) == ranked(list),
        forall|i: int, j: int|
            0 <= i < j < list.len() && (#[trigger] ranked(list)[i]).count == (#[trigger] ranked(
                list,
            )[j]).count && ranked(list)[i].worst_priority == ranked(list)[j].worst_priority
                ==> !name_before(ranked(list)[j].source, ranked(list)[i].source),
{
    lemma_ranked_is_ranked(list);
    lemma_ranked_fixed(ranked(list));
}

/// Puts the sources in ranked order.
#[verifier::loop_isolation(false)]
pub fn rank_suspects(suspects: &mut Vec<SourceStats>)
    ensures
        stats_view(final(suspects)@) == ranked(stats_view(old(suspects)@)),
{
    let ghost input = stats_view(suspects@);
    let size: usize = suspects.len();
    assert(input.take(0) == Seq::<SourceStatsView>::empty());
    assert(input.skip(0) == input);
    let mut i: usize = 0;
    while i < size
        invariant
            i <= size == suspects@.len() == input.len(),
            stats_view(suspects@).take(i as int) == ranked(input.take(i as int)),
            stats_view(suspects@).skip(i as int) == input.skip(i as int),
        decreases size - i,
    {
        let ghost before = stats_view(suspects@);
        let ghost head = before.take(i as int);
        let entry = suspects.remove(i);
        assert(before[i as int] == entry@);
        assert(input.skip(i as int)[0] == entry@);
        assert(stats_view(suspects@) == before.remove(i as int));
        assert(head.take(i as int) == head);
        let mut p: usize = i;
        while p > 0 && is_less(compare_suspects(&entry, &suspects[p - 1]))
            invariant
                p <= i < size,
                suspects@.len() == size - 1,
                stats_view(suspects@) == before.remove(i as int),
                head == before.take(i as int),
                insertion_point(head, entry@) == insertion_point(head.take(p as int), entry@),
            decreases p,
        {
            assert(stats_view(suspects@)[p - 1] == head[p - 1]);
            assert(head.take(p as int).last() == head[p - 1]);
            assert(head.take(p as int).drop_last() == head.take(p - 1));
            p -= 1;
        }
        proof {
            if p > 0 {
                assert(stats_view(suspects@)[p - 1] == head[p - 1]);
                assert(head.take(p as int).last() == head[p - 1]);
            }
            assert(insertion_point(head, entry@) == p);
            assert(head.take(i as int) == head);
        }
        suspects.insert(p, entry);
        proof {
            let now = stats_view(suspects@);
            assert(now == before.remove(i as int).insert(p as int, entry@));
            assert(input.take(i + 1).drop_last() == input.take(i as int));
            assert(input.take(i + 1).last() == entry@);
            assert(now.take(i + 1) == head.insert(p as int, entry@));
            assert(now.skip(i + 1) == before.skip(i + 1));
            assert(before.skip(i + 1) == before.skip(i as int).skip(1));
            assert(input.skip(i + 1) == input.skip(i as int).skip(1));
        }
        i += 1;
    }
    assert(input.take(size as int) == input);
    assert(stats_view(suspects@).take(size as int) == stats_view(suspects@));
}

fn is_less(order: Order) -> (r: bool)
    ensures
        r == (order == Order::Less),
{
    match order {
        Order::Less => true,
        _ => false,
    }
}

/// What the ranking looks at in an entry: its source, its count and its
/// worst priority.
pub ghost struct Standing {
    pub kind: SourceKind,
    pub source: Seq<char>,
    pub count: nat,
    pub worst_priority: u8,
}

/// What the ranking looks at in an entry.
pub open spec fn standing(entry: SourceStatsView) -> Standing {
    Standing {
        kind: entry.kind,
        source: entry.source,
        count: entry.count,
        worst_priority: entry.worst_priority,
    }
}

/// The standings of the entries of a list, in order.
pub open spec fn standings(list: Seq<SourceStatsView>) -> Seq<Standing> {
    list.map_values(|entry: SourceStatsView| standing(entry))
}

/// Whether a list has an entry with the standing `wanted`.
pub open spec fn has_standing(list: Seq<SourceStatsView>, wanted: Standing) -> bool {
    exists|j: int| 0 <= j < list.len() && #[trigger] standing(list[j]) == wanted
}

/// Whether each standing in `a` is the standing of an entry of `b`.
pub open spec fn standings_within(a: Seq<SourceStatsView>, b: Seq<SourceStatsView>) -> bool {
    forall|i: int| 0 <= i < a.len() ==> #[trigger] has_standing(b, standing(a[i]))
}

/// Whether two tables hold the same sources, each with the same count
/// and the same worst priority in both.
pub open spec fn same_standings(a: Seq<SourceStatsView>, b: Seq<SourceStatsView>) -> bool {
    standings_within(a, b) && standings_within(b, a)
}

/// Where a list has an entry with a standing that it has.
proof fn lemma_find_standing(list: Seq<SourceStatsView>, wanted: Standing) -> (j: int)
    requires
        has_standing(list, wanted),
    ensures
        0 <= j < list.len(),
        standing(list[j]) == wanted,
{
    choose|j: int| 0 <= j < list.len() && #[trigger] standing(list[j]) == wanted
}

/// Whether one entry outranks another is a matter of their standings.
proof fn lemma_outranks_by_standing(
    a: SourceStatsView,
    b: SourceStatsView,
    c: SourceStatsView,
    d: SourceStatsView,
)
    requires
        standing(a) == standing(c),
        standing(b) == standing(d),
    ensures
        outranks(a, b) == outranks(c, d),
{
}

/// In a ranked list that keeps its sources apart, each entry outranks
/// all that stand behind it.
proof fn lemma_ranked_strictly(list: Seq<SourceStatsView>, i: int, j: int)
    requires
        is_ranked(list),
        unique_keys(list),
        0 <= i < j < list.len(),
    ensures
        outranks(list[i], list[j]),
{
    lemma_ranking_is_total_order(list[i], list[j], list[i]);
    assert(!outranks(list[j], list[i]));
    assert(!has_key(list[i], list[j].kind, list[j].source));
}

/// In a list that keeps its sources apart, two entries with one
/// standing are one entry.
proof fn lemma_one_standing_one_place(list: Seq<SourceStatsView>, i: int, j: int)
    requires
        unique_keys(list),
        0 <= i < list.len(),
        0 <= j < list.len(),
        standing(list[i]) == standing(list[j]),
    ensures
        i == j,
{
    if i < j {
        assert(has_key(list[i], list[j].kind, list[j].source));
    } else if j < i {
        assert(has_key(list[j], list[i].kind, list[i].source));
    }
}

/// A list without its last entry is ranked and keeps its sources apart
/// where the list does.
proof fn lemma_shorter_is_ranked(list: Seq<SourceStatsView>)
    requires
        list.len() > 0,
        is_ranked(list),
        unique_keys(list),
    ensures
        is_ranked(list.drop_last()),
        unique_keys(list.drop_last()),
{
    let shorter = list.drop_last();
    assert forall|i: int, j: int| 0 <= i < j < shorter.len() implies !outranks(
        #[trigger] shorter[j],
        #[trigger] shorter[i],
    ) by {
        assert(shorter[i] == list[i] && shorter[j] == list[j]);
    }
    assert forall|i: int, j: int| 0 <= i < j < shorter.len() implies !has_key(
        #[trigger] shorter[i],
        (#[trigger] shorter[j]).kind,
        shorter[j].source,
    ) by {
        assert(shorter[i] == list[i] && shorter[j] == list[j]);
    }
}

/// Two ranked lists that keep their sources apart and hold the same
/// standings end with the same standing.
proof fn lemma_last_standings_agree(s: Seq<SourceStatsView>, t: Seq<SourceStatsView>)
    requires
        s.len() > 0,
        t.len() > 0,
        is_ranked(s),
        is_ranked(t),
        unique_keys(s),
        unique_keys(t),
        same_standings(s, t),
    ensures
        standing(s.last()) == standing(t.last()),
{
    let last_s = s.len() - 1;
    let last_t = t.len() - 1;
    assert(has_standing(t, standing(s[last_s])));
    let j = lemma_find_standing(t, standing(s[last_s]));
    if j < last_t {
        assert(has_standing(s, standing(t[last_t])));
        let k = lemma_find_standing(s, standing(t[last_t]));
        if k == last_s {
            lemma_one_standing_one_place(t, j, last_t);
        } else {
            lemma_ranked_strictly(s, k, last_s);
            lemma_outranks_by_standing(s[k], s[last_s], t[last_t], t[j]);
            assert(!outranks(t[last_t], t[j]));
        }
    }
}

/// Of two lists that keep their sources apart, hold the same standings
/// and end with the same standing, what stands before the end holds the
/// same standings in both.
proof fn lemma_shorter_within(s: Seq<SourceStatsView>, t: Seq<SourceStatsView>)
    requires
        s.len() > 0,
        t.len() > 0,
        unique_keys(s),
        standings_within(s, t),
        standing(s.last()) == standing(t.last()),
    ensures
        standings_within(s.drop_last(), t.drop_last()),
{
    let shorter_s = s.drop_last();
    let shorter_t = t.drop_last();
    assert forall|i: int| 0 <= i < shorter_s.len() implies #[trigger] has_standing(
        shorter_t,
        standing(shorter_s[i]),
    ) by {
        assert(shorter_s[i] == s[i]);
        assert(has_standing(t, standing(s[i])));
        let m = lemma_find_standing(t, standing(s[i]));
        if m == t.len() - 1 {
            lemma_one_standing_one_place(s, i, s.len() - 1);
        }
        assert(shorter_t[m] == t[m]);
        assert(standing(shorter_t[m]) == standing(shorter_s[i]));
    }
}

/// Two ranked lists that keep their sources apart and hold the same
/// sources with the same counts and worst priorities hold them in the
/// same order.
pub proof fn lemma_one_ranked_order(s: Seq<SourceStatsView>, t: Seq<SourceStatsView>)
    requires
        is_ranked(s),
        is_ranked(t),
        unique_keys(s),
        unique_keys(t),
        same_standings(s, t),
    ensures
        standings(s) == standings(t),
    decreases s.len(),
{
    if s.len() == 0 {
        if t.len() > 0 {
            assert(has_standing(s, standing(t[0])));
        }
        assert(standings(s) =~= standings(t));
    } else if t.len() == 0 {
        assert(has_standing(t, standing(s[0])));
    } else {
        lemma_last_standings_agree(s, t);
        lemma_shorter_within(s, t);
        lemma_shorter_within(t, s);
        lemma_shorter_is_ranked(s);
        lemma_shorter_is_ranked(t);
        lemma_one_ranked_order(s.drop_last(), t.drop_last());
        lemma_standings_extended(s, t);
    }
}

/// Lists whose standings agree up to the last and in the last agree in
/// all.
proof fn lemma_standings_extended(s: Seq<SourceStatsView>, t: Seq<SourceStatsView>)
    requires
        s.len() > 0,
        t.len() > 0,
        standings(s.drop_last()) == standings(t.drop_last()),
        standing(s.last()) == standing(t.last()),
    ensures
        standings(s) == standings(t),
{
    assert(standings(s.drop_last()).len() == standings(t.drop_last()).len());
    assert(standings(s) =~= standings(s.drop_last()).push(standing(s.last())));
    assert(standings(t) =~= standings(t.drop_last()).push(standing(t.last())));
}

/// Ranking keeps the entries of a list: each entry of the ranked list is
/// one of the list, and each of the list is one of the ranked list.
pub proof fn lemma_ranked_keeps_entries(list: Seq<SourceStatsView>)
    ensures
        forall|i: int| 0 <= i < ranked(list).len() ==> list.contains(#[trigger] ranked(list)[i]),
        forall|i: int| 0 <= i < list.len() ==> ranked(list).contains(#[trigger] list[i]),
{
    lemma_ranked_is_ranked(list);
    assert forall|i: int| 0 <= i < ranked(list).len() implies list.contains(
        #[trigger] ranked(list)[i],
    ) by {
        let x = ranked(list)[i];
        assert(ranked(list).contains(x));
        to_multiset_contains(ranked(list), x);
        to_multiset_contains(list, x);
    }
    assert forall|i: int| 0 <= i < list.len() implies ranked(list).contains(#[trigger] list[i]) by {
        let x = list[i];
        assert(list.contains(x));
        to_multiset_contains(ranked(list), x);
        to_multiset_contains(list, x);
    }
}

/// Ranking a table that keeps its sources apart gives one that does.
pub proof fn lemma_ranked_keeps_apart(list: Seq<SourceStatsView>)
    requires
        unique_keys(list),
    ensures
        unique_keys(ranked(list)),
    decreases list.len(),
{
    if list.len() > 0 {
        let shorter = list.drop_last();
        let entry = list.last();
        assert(unique_keys(shorter)) by {
            assert forall|i: int, j: int| 0 <= i < j < shorter.len() implies !has_key(
                #[trigger] shorter[i],
                (#[trigger] shorter[j]).kind,
                shorter[j].source,
            ) by {
                assert(shorter[i] == list[i] && shorter[j] == list[j]);
            }
        }
        lemma_ranked_keeps_apart(shorter);
        lemma_ranked_keeps_entries(shorter);
        let before = ranked(shorter);
        lemma_ranked_is_ranked(shorter);
        lemma_insertion_point(before, entry);
        let p = insertion_point(before, entry);
        let after = before.insert(p, entry);
        assert forall|i: int| 0 <= i < before.len() implies !has_key(
            #[trigger] before[i],
            entry.kind,
            entry.source,
        ) by {
            assert(shorter.contains(before[i]));
            let m = choose|m: int| 0 <= m < shorter.len() && shorter[m] == before[i];
            assert(shorter[m] == list[m]);
            assert(!has_key(list[m], list[list.len() - 1].kind, list[list.len() - 1].source));
        }
        assert forall|i: int, j: int| 0 <= i < j < after.len() implies !has_key(
            #[trigger] after[i],
            (#[trigger] after[j]).kind,
            after[j].source,
        ) by {
            if j < p {
                assert(after[i] == before[i] && after[j] == before[j]);
            } else if j == p {
                assert(after[i] == before[i]);
            } else if i < p {
                assert(after[i] == before[i] && after[j] == before[j - 1]);
            } else if i == p {
                assert(after[j] == before[j - 1]);
            } else {
                assert(after[i] == before[i - 1] && after[j] == before[j - 1]);
            }
        }
    }
}

/// The ranking of a table does not depend on the order of its entries:
/// two tables that keep their sources apart and hold the same sources,
/// each with the same count and worst priority in both, are ranked with
/// their sources in the same order.
pub proof fn lemma_ranking_ignores_table_order(a: Seq<SourceStatsView>, b: Seq<SourceStatsView>)
    requires
        unique_keys(a),
        unique_keys(b),
        same_standings(a, b),
    ensures
        standings(ranked(a)) == standings(ranked(b)),
{
    lemma_ranked_is_ranked(a);
    lemma_ranked_is_ranked(b);
    lemma_ranked_keeps_apart(a);
    lemma_ranked_keeps_apart(b);
    lemma_ranked_keeps_entries(a);
    lemma_ranked_keeps_entries(b);
    lemma_standings_carried(ranked(a), a, b, ranked(b));
    lemma_standings_carried(ranked(b), b, a, ranked(a));
    lemma_one_ranked_order(ranked(a), ranked(b));
}

/// Standings pass along: where the entries of `p` are entries of `q`,
/// the standings in `q` are standings in `r`, and the entries of `r` are
/// entries of `s`, the standings in `p` are standings in `s`.
proof fn lemma_standings_carried(
    p: Seq<SourceStatsView>,
    q: Seq<SourceStatsView>,
    r: Seq<SourceStatsView>,
    s: Seq<SourceStatsView>,
)
    requires
        forall|i: int| 0 <= i < p.len() ==> q.contains(#[trigger] p[i]),
        standings_within(q, r),
        forall|i: int| 0 <= i < r.len() ==> s.contains(#[trigger] r[i]),
    ensures
        standings_within(p, s),
{
    assert forall|i: int| 0 <= i < p.len() implies #[trigger] has_standing(s, standing(p[i])) by {
        assert(q.contains(p[i]));
        let m = choose|m: int| 0 <= m < q.len() && q[m] == p[i];
        assert(has_standing(r, standing(q[m])));
        let n = lemma_find_standing(r, standing(q[m]));
        assert(s.contains(r[n]));
        let j = choose|j: int| 0 <= j < s.len() && s[j] == r[n];
        assert(standing(s[j]) == standing(p[i]));
    }
}

/// The standings in a list are standings in any list that holds its
/// entries.
proof fn lemma_entries_within(a: Seq<SourceStatsView>, b: Seq<SourceStatsView>)
    requires
        forall|i: int| 0 <= i < a.len() ==> b.contains(#[trigger] a[i]),
    ensures
        standings_within(a, b),
{
    assert forall|i: int| 0 <= i < a.len() implies #[trigger] has_standing(b, standing(a[i])) by {
        assert(b.contains(a[i]));
        let j = choose|j: int| 0 <= j < b.len() && b[j] == a[i];
        assert(standing(b[j]) == standing(a[i]));
    }
}

/// Lists with the same entries hold each other's entries.
proof fn lemma_same_entries_contained(a: Seq<SourceStatsView>, b: Seq<SourceStatsView>)
    requires
        a.to_multiset() == b.to_multiset(),
    ensures
        forall|i: int| 0 <= i < a.len() ==> b.contains(#[trigger] a[i]),
{
    assert forall|i: int| 0 <= i < a.len() implies b.contains(#[trigger] a[i]) by {
        assert(a.contains(a[i]));
        to_multiset_contains(a, a[i]);
        to_multiset_contains(b, a[i]);
    }
}

/// Two tables with the same entries rank alike, whatever the order in
/// which each holds them.
pub proof fn lemma_same_entries_rank_alike(a: Seq<SourceStatsView>, b: Seq<SourceStatsView>)
    requires
        unique_keys(a),
        unique_keys(b),
        a.to_multiset() == b.to_multiset(),
    ensures
        ranked(a) == ranked(b),
{
    lemma_same_entries_contained(a, b);
    lemma_same_entries_contained(b, a);
    lemma_entries_within(a, b);
    lemma_entries_within(b, a);
    lemma_ranking_ignores_table_order(a, b);
    lemma_ranked_keeps_entries(a);
    lemma_ranked_keeps_entries(b);
    let x = ranked(a);
    let y = ranked(b);
    assert(x.len() == standings(x).len());
    assert(y.len() == standings(y).len());
    assert forall|i: int| 0 <= i < x.len() implies x[i] == y[i] by {
        assert(standings(x)[i] == standings(y)[i]);
        assert(standing(x[i]) == standing(y[i]));
        lemma_same_place(a, b, x[i], y[i]);
    }
    assert(x =~= y);
}

/// In a table that keeps its sources apart, entries of one standing are
/// one entry.
proof fn lemma_same_place(
    a: Seq<SourceStatsView>,
    b: Seq<SourceStatsView>,
    x: SourceStatsView,
    y: SourceStatsView,
)
    requires
        unique_keys(a),
        a.contains(x),
        b.contains(y),
        forall|i: int| 0 <= i < b.len() ==> a.contains(#[trigger] b[i]),
        standing(x) == standing(y),
    ensures
        x == y,
{
    let m = choose|m: int| 0 <= m < a.len() && a[m] == x;
    let k = choose|k: int| 0 <= k < b.len() && b[k] == y;
    assert(a.contains(b[k]));
    let n = choose|n: int| 0 <= n < a.len() && a[n] == y;
    lemma_one_standing_one_place(a, m, n);
}

} // verus!
