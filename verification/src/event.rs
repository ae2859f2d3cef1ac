//! One journal record: where it comes from, and whether it matches the
//! search terms of a request.

use vstd::prelude::*;
use vstd::string::*;
use crate::text::{ascii_lower, chars_of, clone_optional, contains_text, found_in, lowered, same_text};

verus! {

/// The least severe priority. The priorities of records run from 0, the
/// most severe, to this one, and a source starts from it.
pub const LEAST_SEVERE: u8 = 7;

/// The kind of program or facility that a record is attributed to.
#[derive(Debug, Clone, Copy, PartialEq, Eq, Hash, Structural)]
pub enum SourceKind {
    Unit,
    Executable,
    Identifier,
    Comm,
    Kernel,
    Unknown,
}

/// One record of the journal.
#[derive(Debug)]
pub struct JournalEvent {
    pub message: String,
    /// The syslog severity, from 0, the most severe, to 7.
    pub priority: Option<u8>,
    pub unit: Option<String>,
    pub exe: Option<String>,
    pub comm: Option<String>,
    pub identifier: Option<String>,
}

/// A journal record, as contracts see it.
pub ghost struct JournalEventView {
    pub message: Seq<char>,
    pub priority: Option<u8>,
    pub unit: Option<Seq<char>>,
    pub exe: Option<Seq<char>>,
    pub comm: Option<Seq<char>>,
    pub identifier: Option<Seq<char>>,
}

impl View for JournalEvent {
    type V = JournalEventView;

    open spec fn view(&self) -> JournalEventView {
        JournalEventView {
            message: self.message@,
            priority: self.priority,
            unit: self.unit.deep_view(),
            exe: self.exe.deep_view(),
            comm: self.comm.deep_view(),
            identifier: self.identifier.deep_view(),
        }
    }
}

impl Clone for JournalEvent {
    fn clone(&self) -> (r: JournalEvent)
        ensures
            r@ == self@,
    {
        JournalEvent {
            message: self.message.clone(),
            priority: self.priority,
            unit: clone_optional(&self.unit),
            exe: clone_optional(&self.exe),
            comm: clone_optional(&self.comm),
            identifier: clone_optional(&self.identifier),
        }
    }
}

/// The identifier under which the kernel logs.
pub open spec fn kernel_name() -> Seq<char> {
    "kernel"@
}

/// The source of a record: the kernel where the identifier says so; else
/// the first that the record has of unit, executable, identifier and
/// process name; else unknown.
pub open spec fn source_of(event: JournalEventView) -> (SourceKind, Seq<char>) {
    if event.identifier == Some(kernel_name()) {
        (SourceKind::Kernel, kernel_name())
    } else if let Some(unit) = event.unit {
        (SourceKind::Unit, unit)
    } else if let Some(exe) = event.exe {
        (SourceKind::Executable, exe)
    } else if let Some(identifier) = event.identifier {
        (SourceKind::Identifier, identifier)
    } else if let Some(comm) = event.comm {
        (SourceKind::Comm, comm)
    } else {
        (SourceKind::Unknown, "unknown"@)
    }
}

/// The source that a record is attributed to.
pub fn classify_source(event: &JournalEvent) -> (r: (SourceKind, String))
    ensures
        r.0 == source_of(event@).0,
        r.1@ == source_of(event@).1,
{
    if let Some(id) = &event.identifier {
        if same_text(id.as_str(), "kernel") {
            return (SourceKind::Kernel, String::from_str("kernel"));
        }
    }
    if let Some(unit) = &event.unit {
        return (SourceKind::Unit, unit.clone());
    }
    if let Some(exe) = &event.exe {
        return (SourceKind::Executable, exe.clone());
    }
    if let Some(identifier) = &event.identifier {
        return (SourceKind::Identifier, identifier.clone());
    }
    if let Some(comm) = &event.comm {
        return (SourceKind::Comm, comm.clone());
    }
    (SourceKind::Unknown, String::from_str("unknown"))
}

/// Every record has exactly one source, which its fields determine: the
/// kernel whenever the identifier names it, whatever else the record
/// holds; and otherwise the kind tells which field gave the name.
pub proof fn lemma_source_is_determined(event: JournalEventView)
    ensures
        event.identifier == Some(kernel_name()) ==> source_of(event) == (
            SourceKind::Kernel,
            kernel_name(),
        ),
        source_of(event).0 == SourceKind::Kernel <==> event.identifier == Some(kernel_name()),
        source_of(event).0 == SourceKind::Unit ==> event.unit == Some(source_of(event).1),
        source_of(event).0 == SourceKind::Executable ==> event.unit is None && event.exe == Some(
            source_of(event).1,
        ),
        source_of(event).0 == SourceKind::Identifier ==> event.unit is None && event.exe is None
            && event.identifier == Some(source_of(event).1),
        source_of(event).0 == SourceKind::Comm ==> event.unit is None && event.exe is None
            && event.identifier is None && event.comm == Some(source_of(event).1),
        source_of(event).0 == SourceKind::Unknown ==> event.unit is None && event.exe is None
            && event.identifier is None && event.comm is None,
{
}

/// What a field adds to the text that is searched: its text, or nothing
/// where the record lacks it.
pub open spec fn search_part(field: Option<Seq<char>>) -> Seq<char> {
    match field {
        Some(text) => text,
        None => Seq::empty(),
    }
}

/// The text of a record that the search terms are looked for in: its
/// message, unit, executable, process name and identifier, one after the
/// other.
pub open spec fn searchable_text(event: JournalEventView) -> Seq<char> {
    event.message + search_part(event.unit) + search_part(event.exe) + search_part(event.comm)
        + search_part(event.identifier)
}

/// Whether each of the terms stands in `text`, capital ASCII letters of
/// the text counting as their lower-case forms.
pub open spec fn all_terms_found(text: Seq<char>, terms: Seq<Seq<char>>) -> bool {
    forall|i: int| 0 <= i < terms.len() ==> contains_text(ascii_lower(text), #[trigger] terms[i])
}

fn push_all(into: &mut Vec<char>, text: &str)
    ensures
        final(into)@ == old(into)@ + text@,
{
    for c in it: text.chars()
        invariant
            it.seq() == text@,
            into@ == old(into)@ + text@.take(it.index() as int),
    {
        into.push(c);
        assert(text@.take(it.index() + 1) == text@.take(it.index() as int).push(c));
    }
    assert(text@.take(text@.len() as int) == text@);
}

fn push_part(into: &mut Vec<char>, field: &Option<String>)
    ensures
        final(into)@ == old(into)@ + search_part(field.deep_view()),
{
    match field {
        Some(text) => {
            push_all(into, text.as_str());
        },
        None => {
            assert(into@ + Seq::<char>::empty() == into@);
        },
    }
}

/// Whether each of the terms stands in the lower-cased characters `lower`.
fn all_found(lower: &[char], terms: &[String]) -> (r: bool)
    ensures
        r == (forall|i: int|
            0 <= i < terms@.len() ==> contains_text(lower@, #[trigger] terms.deep_view()[i])),
{
    let mut i: usize = 0;
    while i < terms.len()
        invariant
            i <= terms@.len(),
            forall|k: int| 0 <= k < i ==> contains_text(lower@, #[trigger] terms.deep_view()[k]),
        decreases terms@.len() - i,
    {
        let term = chars_of(terms[i].as_str());
        assert(terms.deep_view()[i as int] == term@);
        if !found_in(lower, term.as_slice()) {
            return false;
        }
        i += 1;
    }
    true
}

/// Whether a line holds each of the search terms.
pub fn matches_filters(line: &str, filters: &[String]) -> (r: bool)
    ensures
        r == all_terms_found(line@, filters.deep_view()),
{
    if filters.len() == 0 {
        return true;
    }
    let chars = chars_of(line);
    let lower = lowered(chars.as_slice());
    all_found(lower.as_slice(), filters)
}

/// Whether a record holds each of the search terms, in its message
/// joined with the names of its source.
pub fn event_matches_terms(event: &JournalEvent, terms: &[String]) -> (r: bool)
    ensures
        r == all_terms_found(searchable_text(event@), terms.deep_view()),
{
    if terms.len() == 0 {
        return true;
    }
    let mut text: Vec<char> = chars_of(event.message.as_str());
    push_part(&mut text, &event.unit);
    push_part(&mut text, &event.exe);
    push_part(&mut text, &event.comm);
    push_part(&mut text, &event.identifier);
    let lower = lowered(text.as_slice());
    all_found(lower.as_slice(), terms)
}

} // verus!
