//! The package that a source belongs to: which questions to put to the
//! packaging tools, what their answers mean, and the memory of the
//! answers.

use vstd::prelude::*;
use vstd::string::*;
use crate::event::SourceKind;
use crate::json::normalized;
use crate::stats::{stats_view, SourceStats, SourceStatsView};
use crate::text::{chars_of, clone_optional, find_char, spells, string_of_range, trim_bounds};

verus! {

/// Whether `s` has a `c` at place `i` and none before it.
pub open spec fn is_first_at(s: Seq<char>, c: char, i: int) -> bool {
    &&& 0 <= i < s.len()
    &&& s[i] == c
    &&& forall|k: int| 0 <= k < i ==> s[k] != c
}

/// Where the line begins that holds place `i`.
pub open spec fn line_start(s: Seq<char>, i: int) -> int
    decreases i,
{
    if i <= 0 {
        0
    } else if s[i - 1] == '\n' {
        i
    } else {
        line_start(s, i - 1)
    }
}

/// The package that the answer to a search by path names: what stands
/// before the first colon of the answer on its line, without the white
/// space around it. An answer without a colon names none, and so does
/// one with nothing before the colon.
pub open spec fn dpkg_package(output: Seq<char>) -> Option<Seq<char>> {
    if exists|i: int| is_first_at(output, ':', i) {
        let colon = choose|i: int| is_first_at(output, ':', i);
        normalized(output.subrange(line_start(output, colon), colon))
    } else {
        None
    }
}

/// Reads the package out of the answer to a search by path.
pub fn parse_dpkg_search_output(output: &str) -> (r: Option<String>)
    ensures
        r.deep_view() == dpkg_package(output@),
{
    let chars = chars_of(output);
    let v = chars.as_slice();
    let colon = match find_char(v, ':') {
        Some(i) => i,
        None => {
            assert forall|i: int| !is_first_at(output@, ':', i) by {}
            return None;
        },
    };
    proof {
        assert(is_first_at(output@, ':', colon as int));
        let chosen = choose|i: int| is_first_at(output@, ':', i);
        assert(chosen == colon) by {
            if chosen < colon {
                assert(v@[chosen] != ':');
            } else if colon < chosen {
                assert(v@[colon as int] != ':');
            }
        }
    }
    let mut start: usize = colon;
    while start > 0 && v[start - 1] != '\n'
        invariant
            start <= colon < v@.len(),
            line_start(v@, colon as int) == line_start(v@, start as int),
        decreases start,
    {
        start -= 1;
    }
    let segment = string_of_range(v, start, colon);
    let inner = chars_of(segment.as_str());
    let (a, b) = trim_bounds(inner.as_slice());
    if a == b {
        return None;
    }
    Some(string_of_range(inner.as_slice(), a, b))
}

/// What was learnt so far: for each question that was put, its answer.
pub struct AnswerCache {
    entries: Vec<(String, Option<String>)>,
}

/// The answers that a list of entries holds; of two entries for one
/// question the later counts.
pub open spec fn answers_of(entries: Seq<(String, Option<String>)>) -> Map<
    Seq<char>,
    Option<Seq<char>>,
>
    decreases entries.len(),
{
    if entries.len() == 0 {
        Map::empty()
    } else {
        answers_of(entries.drop_last()).insert(entries.last().0@, entries.last().1.deep_view())
    }
}

impl View for AnswerCache {
    type V = Map<Seq<char>, Option<Seq<char>>>;

    closed spec fn view(&self) -> Map<Seq<char>, Option<Seq<char>>> {
        answers_of(self.entries@)
    }
}

impl AnswerCache {
    /// A memory without an answer.
    pub fn new() -> (r: AnswerCache)
        ensures
            r@ == Map::<Seq<char>, Option<Seq<char>>>::empty(),
    {
        AnswerCache { entries: Vec::new() }
    }

    /// The answer to a question, if the question was put before.
    pub fn get(&self, key: &str) -> (r: Option<Option<String>>)
        ensures
            r is Some <==> self@.contains_key(key@),
            r matches Some(answer) ==> answer.deep_view() == self@[key@],
    {
        let name = chars_of(key);
        let mut i: usize = self.entries.len();
        assert(self.entries@.take(i as int) == self.entries@);
        while i > 0
            invariant
                i <= self.entries@.len(),
                name@ == key@,
                self@.contains_key(key@) <==> answers_of(self.entries@.take(i as int)).contains_key(
                    key@,
                ),
                self@.contains_key(key@) ==> self@[key@] == answers_of(
                    self.entries@.take(i as int),
                )[key@],
            decreases i,
        {
            let ghost upto = self.entries@.take(i as int);
            assert(upto.last() == self.entries@[i - 1]);
            assert(upto.drop_last() == self.entries@.take(i - 1));
            if spells(name.as_slice(), self.entries[i - 1].0.as_str()) {
                return Some(clone_optional(&self.entries[i - 1].1));
            }
            i -= 1;
        }
        None
    }

    /// Keeps the answer to a question.
    pub fn insert(&mut self, key: String, answer: Option<String>)
        ensures
            final(self)@ == old(self)@.insert(key@, answer.deep_view()),
    {
        self.entries.push((key, answer));
        assert(self.entries@.drop_last() == old(self).entries@);
    }
}

/// A question to a packaging tool.
#[derive(Debug)]
pub enum Query {
    /// Which package owns the file at this path.
    Path(String),
    /// Which file defines this unit.
    Unit(String),
}

/// A question, as contracts see it.
pub ghost enum QueryView {
    Path(Seq<char>),
    Unit(Seq<char>),
}

impl View for Query {
    type V = QueryView;

    open spec fn view(&self) -> QueryView {
        match self {
            Query::Path(p) => QueryView::Path(p@),
            Query::Unit(u) => QueryView::Unit(u@),
        }
    }
}

/// What is known of a package: its name or that there is none, or the
/// question that has to be put first.
#[derive(Debug)]
pub enum Lookup {
    Known(Option<String>),
    Ask(Query),
}

/// What is known of a package, as contracts see it.
pub ghost enum LookupView {
    Known(Option<Seq<char>>),
    Ask(QueryView),
}

impl View for Lookup {
    type V = LookupView;

    open spec fn view(&self) -> LookupView {
        match self {
            Lookup::Known(p) => LookupView::Known(p.deep_view()),
            Lookup::Ask(q) => LookupView::Ask(q@),
        }
    }
}

/// Finds the packages of sources. It remembers every answer of the
/// packaging tools, so that no question is put twice.
pub struct PackageResolver {
    dpkg_available: bool,
    systemctl_available: bool,
    /// For a path, the package that owns it.
    path_cache: AnswerCache,
    /// For a unit, the path of the file that defines it.
    unit_cache: AnswerCache,
}

/// A resolver, as contracts see it: which tools it may use, and the
/// answers that it remembers.
pub ghost struct ResolverView {
    pub dpkg_available: bool,
    pub systemctl_available: bool,
    pub paths: Map<Seq<char>, Option<Seq<char>>>,
    pub units: Map<Seq<char>, Option<Seq<char>>>,
}

impl View for PackageResolver {
    type V = ResolverView;

    closed spec fn view(&self) -> ResolverView {
        ResolverView {
            dpkg_available: self.dpkg_available,
            systemctl_available: self.systemctl_available,
            paths: self.path_cache@,
            units: self.unit_cache@,
        }
    }
}

/// Whether a path starts at the root.
pub open spec fn is_absolute(path: Seq<char>) -> bool {
    path.len() > 0 && path[0] == '/'
}

/// What is known of the package that owns a path. Only a path that
/// starts at the root is asked about.
pub open spec fn package_of_path(resolver: ResolverView, path: Seq<char>) -> LookupView {
    if !is_absolute(path) {
        LookupView::Known(None)
    } else if resolver.paths.contains_key(path) {
        LookupView::Known(resolver.paths[path])
    } else {
        LookupView::Ask(QueryView::Path(path))
    }
}

/// What is known of the package of a unit: that of the file that
/// defines the unit. Without the tool that knows the units there is
/// none.
pub open spec fn package_of_unit(resolver: ResolverView, unit: Seq<char>) -> LookupView {
    if !resolver.systemctl_available {
        LookupView::Known(None)
    } else if !resolver.units.contains_key(unit) {
        LookupView::Ask(QueryView::Unit(unit))
    } else {
        match resolver.units[unit] {
            Some(path) => package_of_path(resolver, path),
            None => LookupView::Known(None),
        }
    }
}

/// What the executable of a source tells of its package: first the
/// executable that a record named, then the source itself where it is an
/// executable.
pub open spec fn package_by_executable(resolver: ResolverView, suspect: SourceStatsView) -> LookupView {
    let sampled = match suspect.sample_exe {
        Some(exe) => package_of_path(resolver, exe),
        None => LookupView::Known(None),
    };
    if sampled != LookupView::Known(None) {
        sampled
    } else if suspect.kind == SourceKind::Executable {
        package_of_path(resolver, suspect.source)
    } else {
        LookupView::Known(None)
    }
}

/// What the unit of a source tells of its package: the unit that a
/// record named, or else the source itself where it is a unit.
pub open spec fn package_by_unit(resolver: ResolverView, suspect: SourceStatsView) -> LookupView {
    match suspect.sample_unit {
        Some(unit) => package_of_unit(resolver, unit),
        None => if suspect.kind == SourceKind::Unit {
            package_of_unit(resolver, suspect.source)
        } else {
            LookupView::Known(None)
        },
    }
}

/// What is known of the package of a source: what its executable tells,
/// and where that is nothing, what its unit tells. Without the tool that
/// knows the packages there is none.
pub open spec fn resolution(resolver: ResolverView, suspect: SourceStatsView) -> LookupView {
    if !resolver.dpkg_available {
        LookupView::Known(None)
    } else if package_by_executable(resolver, suspect) != LookupView::Known(None) {
        package_by_executable(resolver, suspect)
    } else {
        package_by_unit(resolver, suspect)
    }
}

/// The path of the file that defines a unit, as the answer of the tool
/// gives it: the answer without the white space around it; none where
/// the tool failed or said nothing.
pub open spec fn fragment_path(answer: Option<Seq<char>>) -> Option<Seq<char>> {
    match answer {
        Some(text) => normalized(text),
        None => None,
    }
}

/// The package that the answer to a search by path names; none where
/// the tool failed.
pub open spec fn owning_package(answer: Option<Seq<char>>) -> Option<Seq<char>> {
    match answer {
        Some(text) => dpkg_package(text),
        None => None,
    }
}

impl PackageResolver {
    /// A resolver that has learnt nothing yet, given which of the
    /// packaging tools can be used.
    pub fn new(dpkg_available: bool, systemctl_available: bool) -> (r: PackageResolver)
        ensures
            r@ == (ResolverView {
                dpkg_available,
                systemctl_available,
                paths: Map::empty(),
                units: Map::empty(),
            }),
    {
        PackageResolver {
            dpkg_available,
            systemctl_available,
            path_cache: AnswerCache::new(),
            unit_cache: AnswerCache::new(),
        }
    }

    /// What is known of the package that owns a path.
    pub fn package_by_path(&self, path: &str) -> (r: Lookup)
        ensures
            r@ == package_of_path(self@, path@),
    {
        let chars = chars_of(path);
        if chars.len() == 0 || chars[0] != '/' {
            return Lookup::Known(None);
        }
        match self.path_cache.get(path) {
            Some(answer) => Lookup::Known(answer),
            None => Lookup::Ask(Query::Path(String::from_str(path))),
        }
    }

    /// What is known of the package of a unit.
    pub fn package_by_unit(&self, unit: &str) -> (r: Lookup)
        ensures
            r@ == package_of_unit(self@, unit@),
    {
        if !self.systemctl_available {
            return Lookup::Known(None);
        }
        match self.unit_cache.get(unit) {
            None => Lookup::Ask(Query::Unit(String::from_str(unit))),
            Some(None) => Lookup::Known(None),
            Some(Some(path)) => self.package_by_path(path.as_str()),
        }
    }

    /// What is known of the package of a source.
    pub fn resolve(&self, suspect: &SourceStats) -> (r: Lookup)
        ensures
            r@ == resolution(self@, suspect@),
    {
        if !self.dpkg_available {
            return Lookup::Known(None);
        }
        if let Some(exe) = &suspect.sample_exe {
            match self.package_by_path(exe.as_str()) {
                Lookup::Known(None) => {},
                found => {
                    return found;
                },
            }
        }
        if suspect.kind == SourceKind::Executable {
            match self.package_by_path(suspect.source.as_str()) {
                Lookup::Known(None) => {},
                found => {
                    return found;
                },
            }
        }
        if let Some(unit) = &suspect.sample_unit {
            return self.package_by_unit(unit.as_str());
        }
        if suspect.kind == SourceKind::Unit {
            return self.package_by_unit(suspect.source.as_str());
        }
        Lookup::Known(None)
    }

    /// Learns the answer to a search by path: what the tool printed, or
    /// nothing where it failed.
    pub fn record_path(&mut self, path: String, answer: Option<String>)
        ensures
            final(self)@ == (ResolverView {
                paths: old(self)@.paths.insert(path@, owning_package(answer.deep_view())),
                ..old(self)@
            }),
    {
        let package = match answer {
            Some(text) => parse_dpkg_search_output(text.as_str()),
            None => None,
        };
        self.path_cache.insert(path, package);
    }

    /// Learns the answer to the question for the file of a unit: what the
    /// tool printed, or nothing where it failed.
    pub fn record_unit(&mut self, unit: String, answer: Option<String>)
        ensures
            final(self)@ == (ResolverView {
                units: old(self)@.units.insert(unit@, fragment_path(answer.deep_view())),
                ..old(self)@
            }),
    {
        let path = match answer {
            Some(text) => {
                let chars = chars_of(text.as_str());
                let (a, b) = trim_bounds(chars.as_slice());
                if a == b {
                    None
                } else {
                    Some(string_of_range(chars.as_slice(), a, b))
                }
            },
            None => None,
        };
        self.unit_cache.insert(unit, path);
    }

    /// Learns the answer to a question.
    pub fn record(&mut self, query: Query, answer: Option<String>)
        ensures
            final(self)@ == learnt(old(self)@, query@, answer.deep_view()),
    {
        match query {
            Query::Path(path) => self.record_path(path, answer),
            Query::Unit(unit) => self.record_unit(unit, answer),
        }
    }
}

/// A resolver after it learnt the answer to a question.
pub open spec fn learnt(
    resolver: ResolverView,
    query: QueryView,
    answer: Option<Seq<char>>,
) -> ResolverView {
    match query {
        QueryView::Path(path) => ResolverView {
            paths: resolver.paths.insert(path, owning_package(answer)),
            ..resolver
        },
        QueryView::Unit(unit) => ResolverView {
            units: resolver.units.insert(unit, fragment_path(answer)),
            ..resolver
        },
    }
}

/// A source with its package entered.
pub open spec fn with_package(suspect: SourceStatsView, package: Option<Seq<char>>) -> SourceStatsView {
    SourceStatsView { package, ..suspect }
}

/// Whether `after` is `before` with the packages of its first `done`
/// sources entered as the resolver knows them, and nothing else changed.
pub open spec fn resolved_upto(
    resolver: ResolverView,
    before: Seq<SourceStatsView>,
    after: Seq<SourceStatsView>,
    done: int,
) -> bool {
    &&& after.len() == before.len()
    &&& 0 <= done <= before.len()
    &&& forall|i: int|
        0 <= i < done ==> resolution(resolver, #[trigger] before[i]) == LookupView::Known(
            after[i].package,
        ) && after[i] == with_package(before[i], after[i].package)
    &&& forall|i: int| done <= i < before.len() ==> #[trigger] after[i] == before[i]
}

/// How many sources of a ranked list get their package looked up.
pub open spec fn resolve_limit(len: nat, top: usize) -> int {
    if len <= top {
        len as int
    } else {
        top as int
    }
}

/// Enters the packages of the first `top` sources as far as the
/// resolver knows them. It stops at the first source for which a
/// question has to be put first and returns that question; it returns
/// nothing once the first `top` sources all have their package entered.
/// The sources behind them are never looked up.
pub fn resolve_packages_for_top(
    suspects: &mut Vec<SourceStats>,
    top: usize,
    resolver: &PackageResolver,
) -> (r: Option<Query>)
    ensures
        match r {
            None => resolved_upto(
                resolver@,
                stats_view(old(suspects)@),
                stats_view(final(suspects)@),
                resolve_limit(old(suspects)@.len(), top),
            ),
            Some(query) => exists|done: int|
                0 <= done < resolve_limit(old(suspects)@.len(), top) && #[trigger] resolved_upto(
                    resolver@,
                    stats_view(old(suspects)@),
                    stats_view(final(suspects)@),
                    done,
                ) && resolution(resolver@, stats_view(old(suspects)@)[done]) == LookupView::Ask(
                    query@,
                ),
        },
{
    let ghost before = stats_view(suspects@);
    let size: usize = suspects.len();
    let limit: usize = if size <= top {
        size
    } else {
        top
    };
    let mut i: usize = 0;
    while i < limit
        invariant
            i <= limit <= size == before.len(),
            before == stats_view(old(suspects)@),
            limit == resolve_limit(before.len(), top),
            resolved_upto(resolver@, before, stats_view(suspects@), i as int),
        decreases limit - i,
    {
        let ghost now = stats_view(suspects@);
        assert(now[i as int] == suspects@[i as int]@);
        match resolver.resolve(&suspects[i]) {
            Lookup::Known(package) => {
                let entry = &mut suspects[i];
                entry.package = package;
                proof {
                    let next = stats_view(suspects@);
                    assert(next[i as int] == with_package(before[i as int], package.deep_view()));
                    assert forall|k: int| 0 <= k < i + 1 implies resolution(
                        resolver@,
                        #[trigger] before[k],
                    ) == LookupView::Known(next[k].package) && next[k] == with_package(
                        before[k],
                        next[k].package,
                    ) by {
                        if k < i {
                            assert(next[k] == now[k]);
                        }
                    }
                    assert forall|k: int| i + 1 <= k < before.len() implies #[trigger] next[k]
                        == before[k] by {
                        assert(next[k] == now[k]);
                    }
                }
            },
            Lookup::Ask(query) => {
                assert(now[i as int] == before[i as int]);
                assert(resolved_upto(resolver@, before, stats_view(suspects@), i as int));
                return Some(query);
            },
        }
        i += 1;
    }
    None
}

/// No question is put twice: once the answer to a question that the
/// resolver had no answer to is learnt, no source makes the resolver put
/// that question again, and what it knew of a package before it knows
/// still.
pub proof fn lemma_no_question_twice(
    resolver: ResolverView,
    query: QueryView,
    answer: Option<Seq<char>>,
    suspect: SourceStatsView,
)
    requires
        query matches QueryView::Path(path) ==> !resolver.paths.contains_key(path),
        query matches QueryView::Unit(unit) ==> !resolver.units.contains_key(unit),
    ensures
        resolution(learnt(resolver, query, answer), suspect) != LookupView::Ask(query),
        resolution(resolver, suspect) matches LookupView::Known(package) ==> resolution(
            learnt(resolver, query, answer),
            suspect,
        ) == LookupView::Known(package),
{
}

/// The resolver asks only for what it has no answer to.
pub proof fn lemma_asks_the_unknown(resolver: ResolverView, suspect: SourceStatsView)
    ensures
        resolution(resolver, suspect) matches LookupView::Ask(QueryView::Path(path))
            ==> !resolver.paths.contains_key(path) && is_absolute(path),
        resolution(resolver, suspect) matches LookupView::Ask(QueryView::Unit(unit))
            ==> !resolver.units.contains_key(unit),
        !resolver.dpkg_available ==> resolution(resolver, suspect) == LookupView::Known(None),
{
}

/// The packaging tools as they answer: for a path, what the search by
/// path prints, and for a unit, what the question for its file prints;
/// nothing where the tool fails.
pub ghost struct Tools {
    pub owner: spec_fn(Seq<char>) -> Option<Seq<char>>,
    pub fragment: spec_fn(Seq<char>) -> Option<Seq<char>>,
}

/// The answer of the tools to a question.
pub open spec fn answer_of(tools: Tools, query: QueryView) -> Option<Seq<char>> {
    match query {
        QueryView::Path(path) => (tools.owner)(path),
        QueryView::Unit(unit) => (tools.fragment)(unit),
    }
}

/// The package that owns a path, asked of the tools.
pub open spec fn asked_package_of_path(tools: Tools, path: Seq<char>) -> Option<Seq<char>> {
    if is_absolute(path) {
        owning_package((tools.owner)(path))
    } else {
        None
    }
}

/// The package of a unit, asked of the tools.
pub open spec fn asked_package_of_unit(
    systemctl_available: bool,
    tools: Tools,
    unit: Seq<char>,
) -> Option<Seq<char>> {
    if !systemctl_available {
        None
    } else {
        match fragment_path((tools.fragment)(unit)) {
            Some(path) => asked_package_of_path(tools, path),
            None => None,
        }
    }
}

/// The package of a source, asked of the tools each time: by the
/// executable that a record named; else by the source where it is an
/// executable; else by the unit that a record named, or by the source
/// where it is a unit.
pub open spec fn asked_package(
    dpkg_available: bool,
    systemctl_available: bool,
    tools: Tools,
    suspect: SourceStatsView,
) -> Option<Seq<char>> {
    let by_sample = match suspect.sample_exe {
        Some(exe) => asked_package_of_path(tools, exe),
        None => None,
    };
    let by_source = if suspect.kind == SourceKind::Executable {
        asked_package_of_path(tools, suspect.source)
    } else {
        None
    };
    if !dpkg_available {
        None
    } else if by_sample is Some {
        by_sample
    } else if by_source is Some {
        by_source
    } else {
        match suspect.sample_unit {
            Some(unit) => asked_package_of_unit(systemctl_available, tools, unit),
            None => if suspect.kind == SourceKind::Unit {
                asked_package_of_unit(systemctl_available, tools, suspect.source)
            } else {
                None
            },
        }
    }
}

/// Whether all that the resolver remembers is what the tools answer.
pub open spec fn remembers(resolver: ResolverView, tools: Tools) -> bool {
    &&& forall|path: Seq<char>| #[trigger]
        resolver.paths.contains_key(path) ==> resolver.paths[path] == owning_package(
            (tools.owner)(path),
        )
    &&& forall|unit: Seq<char>| #[trigger]
        resolver.units.contains_key(unit) ==> resolver.units[unit] == fragment_path(
            (tools.fragment)(unit),
        )
}

/// The memory of the resolver changes no result: a resolver that has
/// learnt nothing remembers only what the tools answer; it still does
/// after it learns an answer of the tools; and what it then knows of the
/// package of a source is what the tools would say if they were asked
/// each time.
pub proof fn lemma_memory_is_faithful(
    resolver: ResolverView,
    tools: Tools,
    query: QueryView,
    suspect: SourceStatsView,
)
    ensures
        resolver.paths == Map::<Seq<char>, Option<Seq<char>>>::empty() && resolver.units
            == Map::<Seq<char>, Option<Seq<char>>>::empty() ==> remembers(resolver, tools),
        remembers(resolver, tools) ==> remembers(
            learnt(resolver, query, answer_of(tools, query)),
            tools,
        ),
        remembers(resolver, tools) ==> (resolution(resolver, suspect) matches LookupView::Known(
            package,
        ) ==> package == asked_package(
            resolver.dpkg_available,
            resolver.systemctl_available,
            tools,
            suspect,
        )),
{
    if remembers(resolver, tools) {
        if let Some(exe) = suspect.sample_exe {
            lemma_known_path(resolver, tools, exe);
        }
        lemma_known_path(resolver, tools, suspect.source);
        if let Some(unit) = suspect.sample_unit {
            lemma_known_unit(resolver, tools, unit);
        }
        lemma_known_unit(resolver, tools, suspect.source);
    }
}

proof fn lemma_known_path(resolver: ResolverView, tools: Tools, path: Seq<char>)
    requires
        remembers(resolver, tools),
    ensures
        package_of_path(resolver, path) matches LookupView::Known(package) ==> package
            == asked_package_of_path(tools, path),
{
}

proof fn lemma_known_unit(resolver: ResolverView, tools: Tools, unit: Seq<char>)
    requires
        remembers(resolver, tools),
    ensures
        package_of_unit(resolver, unit) matches LookupView::Known(package) ==> package
            == asked_package_of_unit(resolver.systemctl_available, tools, unit),
{
    if resolver.systemctl_available && resolver.units.contains_key(unit) {
        if let Some(path) = resolver.units[unit] {
            lemma_known_path(resolver, tools, path);
        }
    }
}

} // verus!
