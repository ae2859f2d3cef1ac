//! Journal records as lines of JSON: reading a line, and taking the
//! fields of a record out of it.

use serde_json::Value;
use vstd::prelude::*;
use vstd::string::*;
use vstd::utf8::{decode_utf8, valid_utf8};
use crate::decimal::{parse_unsigned, parsed_unsigned};
use crate::event::{JournalEvent, JournalEventView, LEAST_SEVERE};
use crate::text::{chars_of, lemma_trim_is_trimmed, same_text, string_of_range, trim, trim_bounds};

verus! {

/// The value of one member of a JSON object, as far as a journal record
/// is read from it.
#[derive(Debug)]
pub enum JsonField {
    Null,
    Bool(bool),
    /// A number, in the notation that prints it.
    Number(String),
    Text(String),
    /// An array: of each item, the unsigned integer that it is, if it is
    /// one.
    Array(Vec<Option<u64>>),
    Object,
}

/// The value of a member, as contracts see it.
pub ghost enum JsonFieldView {
    Null,
    Bool(bool),
    Number(Seq<char>),
    Text(Seq<char>),
    Array(Seq<Option<u64>>),
    Object,
}

impl View for JsonField {
    type V = JsonFieldView;

    open spec fn view(&self) -> JsonFieldView {
        match self {
            JsonField::Null => JsonFieldView::Null,
            JsonField::Bool(b) => JsonFieldView::Bool(*b),
            JsonField::Number(n) => JsonFieldView::Number(n@),
            JsonField::Text(s) => JsonFieldView::Text(s@),
            JsonField::Array(items) => JsonFieldView::Array(items@),
            JsonField::Object => JsonFieldView::Object,
        }
    }
}

/// One member of a JSON object.
#[derive(Debug)]
pub struct JsonMember {
    pub name: String,
    pub value: JsonField,
}

/// A member, as contracts see it.
pub ghost struct JsonMemberView {
    pub name: Seq<char>,
    pub value: JsonFieldView,
}

impl View for JsonMember {
    type V = JsonMemberView;

    open spec fn view(&self) -> JsonMemberView {
        JsonMemberView { name: self.name@, value: self.value@ }
    }
}

/// A JSON document: an object with its members, or any other value.
#[derive(Debug)]
pub enum JsonDocument {
    Record(Vec<JsonMember>),
    Other,
}

/// A document, as contracts see it.
pub ghost enum JsonDocumentView {
    Record(Seq<JsonMemberView>),
    Other,
}

/// The members of an object, each by its view.
pub open spec fn members_view(members: Seq<JsonMember>) -> Seq<JsonMemberView> {
    members.map_values(|m: JsonMember| m@)
}

impl View for JsonDocument {
    type V = JsonDocumentView;

    open spec fn view(&self) -> JsonDocumentView {
        match self {
            JsonDocument::Record(members) => JsonDocumentView::Record(members_view(members@)),
            JsonDocument::Other => JsonDocumentView::Other,
        }
    }
}

/// What reading a line as JSON gives: the document, or the complaint of
/// the parser.
pub uninterp spec fn json_reading(line: Seq<char>) -> Result<JsonDocumentView, Seq<char>>;

/// What reading a line gave, by its view.
pub open spec fn reading_view(r: Result<JsonDocument, String>) -> Result<
    JsonDocumentView,
    Seq<char>,
> {
    match r {
        Ok(document) => Ok(document@),
        Err(e) => Err(e@),
    }
}

/// Reads a line with `serde_json::from_str` as a `serde_json::Value` and
/// hands the value on in the library's own types: the members of an
/// object in the order of the parser's map, a number as its `Display`
/// prints it, of an array what `Value::as_u64` gives for each item; any
/// value but an object as `Other`; and a failure as the message that the
/// parser's error prints. The contract claims only that all this is a
/// function of the line.
#[verifier::external_body]
fn read_json(line: &str) -> (r: Result<JsonDocument, String>)
    ensures
        reading_view(r) == json_reading(line@),
{
    let value: Value = serde_json::from_str(line).map_err(|e| e.to_string())?;
    let Value::Object(map) = value else { return Ok(JsonDocument::Other) };
    Ok(JsonDocument::Record(map.into_iter().map(|(name, value)| JsonMember { name, value: match value {
        Value::Null => JsonField::Null,
        Value::Bool(b) => JsonField::Bool(b),
        Value::Number(n) => JsonField::Number(n.to_string()),
        Value::String(s) => JsonField::Text(s),
        Value::Array(items) => JsonField::Array(items.iter().map(Value::as_u64).collect()),
        Value::Object(_) => JsonField::Object,
    } }).collect()))
}

/// Decodes bytes with `String::from_utf8`. The contract claims that the
/// call gives a text exactly where the bytes are valid UTF-8, and that
/// the text is the one that the bytes encode.
#[verifier::external_body]
fn text_of_utf8(bytes: Vec<u8>) -> (r: Option<String>)
    ensures
        r is Some <==> valid_utf8(bytes@),
        r matches Some(text) ==> text@ == decode_utf8(bytes@),
{
    String::from_utf8(bytes).ok()
}

/// A text without the white space around it; nothing, where nothing else
/// is in it.
pub open spec fn normalized(text: Seq<char>) -> Option<Seq<char>> {
    if trim(text).len() == 0 {
        None
    } else {
        Some(trim(text))
    }
}

/// Normalizing what was normalized changes nothing.
pub proof fn lemma_normalized_twice(text: Seq<char>)
    ensures
        normalized(text) matches Some(t) ==> normalized(t) == Some(t),
{
    lemma_trim_is_trimmed(text);
}

/// A text without the white space around it; nothing, where nothing else
/// is in it.
pub fn normalize_optional(value: String) -> (r: Option<String>)
    ensures
        r.deep_view() == normalized(value@),
{
    let chars = chars_of(value.as_str());
    let (a, b) = trim_bounds(chars.as_slice());
    if a == b {
        return None;
    }
    Some(string_of_range(chars.as_slice(), a, b))
}

/// The bytes that the items of an array are, where each is an integer
/// from 0 to 255.
pub open spec fn byte_items(items: Seq<Option<u64>>) -> Option<Seq<u8>> {
    if forall|i: int| 0 <= i < items.len() ==> is_byte(#[trigger] items[i]) {
        Some(Seq::new(items.len(), |i: int| items[i]->0 as u8))
    } else {
        None
    }
}

/// Whether an item of an array is an integer from 0 to 255.
pub open spec fn is_byte(item: Option<u64>) -> bool {
    item matches Some(n) && n <= 255
}

/// The text that an array of bytes encodes in UTF-8, normalized.
pub open spec fn decoded_bytes(items: Seq<Option<u64>>) -> Option<Seq<char>> {
    match byte_items(items) {
        Some(bytes) => if valid_utf8(bytes) {
            normalized(decode_utf8(bytes))
        } else {
            None
        },
        None => None,
    }
}

/// The text that an array of bytes encodes in UTF-8, normalized.
pub fn decode_byte_array(items: &Vec<Option<u64>>) -> (r: Option<String>)
    ensures
        r.deep_view() == decoded_bytes(items@),
{
    let mut bytes: Vec<u8> = Vec::new();
    let mut i: usize = 0;
    while i < items.len()
        invariant
            i <= items@.len(),
            forall|k: int| 0 <= k < i ==> is_byte(#[trigger] items@[k]),
            bytes@ == Seq::new(i as nat, |k: int| items@[k]->0 as u8),
        decreases items@.len() - i,
    {
        match items[i] {
            Some(n) => {
                if n > 255 {
                    assert(!is_byte(items@[i as int]));
                    return None;
                }
                bytes.push(n as u8);
            },
            None => {
                assert(!is_byte(items@[i as int]));
                return None;
            },
        }
        i += 1;
    }
    match text_of_utf8(bytes) {
        Some(text) => normalize_optional(text),
        None => None,
    }
}

/// The word that prints a truth value.
pub open spec fn bool_text(b: bool) -> Seq<char> {
    if b {
        "true"@
    } else {
        "false"@
    }
}

/// The text of a field as it stands: a string itself, a number and a
/// truth value as they print, an array of bytes decoded; nothing for
/// `null` and for an object.
pub open spec fn raw_text(field: JsonFieldView) -> Option<Seq<char>> {
    match field {
        JsonFieldView::Text(s) => Some(s),
        JsonFieldView::Number(n) => Some(n),
        JsonFieldView::Bool(b) => Some(bool_text(b)),
        JsonFieldView::Array(items) => decoded_bytes(items),
        JsonFieldView::Null => None,
        JsonFieldView::Object => None,
    }
}

/// The text of a field, normalized.
pub open spec fn field_text(field: JsonFieldView) -> Option<Seq<char>> {
    match raw_text(field) {
        Some(text) => normalized(text),
        None => None,
    }
}

/// The text of a field that is an array of bytes is the text that the
/// bytes encode, normalized: to normalize it once more changes nothing.
pub proof fn lemma_text_of_byte_field(items: Seq<Option<u64>>)
    ensures
        field_text(JsonFieldView::Array(items)) == decoded_bytes(items),
{
    if let Some(bytes) = byte_items(items) {
        if valid_utf8(bytes) {
            lemma_normalized_twice(decode_utf8(bytes));
        }
    }
}

/// The text of a field as it stands.
pub fn value_to_string(value: &JsonField) -> (r: Option<String>)
    ensures
        r.deep_view() == raw_text(value@),
{
    match value {
        JsonField::Text(s) => Some(s.clone()),
        JsonField::Number(n) => Some(n.clone()),
        JsonField::Bool(b) => Some(
            if *b {
                String::from_str("true")
            } else {
                String::from_str("false")
            },
        ),
        JsonField::Array(items) => decode_byte_array(items),
        JsonField::Null => None,
        JsonField::Object => None,
    }
}

/// The value of the first member called `name`, if there is one.
pub open spec fn member_named(members: Seq<JsonMemberView>, name: Seq<char>) -> Option<
    JsonFieldView,
>
    decreases members.len(),
{
    if members.len() == 0 {
        None
    } else if members[0].name == name {
        Some(members[0].value)
    } else {
        member_named(members.drop_first(), name)
    }
}

/// The normalized text of the member called `name`; nothing, where the
/// record has no such member or the member has no text.
pub open spec fn record_field(members: Seq<JsonMemberView>, name: Seq<char>) -> Option<Seq<char>> {
    match member_named(members, name) {
        Some(field) => field_text(field),
        None => None,
    }
}

/// The normalized text of the member called `key`.
pub fn field_as_string(members: &Vec<JsonMember>, key: &str) -> (r: Option<String>)
    ensures
        r.deep_view() == record_field(members_view(members@), key@),
{
    let ghost all = members_view(members@);
    assert(all.skip(0) == all);
    let mut i: usize = 0;
    while i < members.len()
        invariant
            i <= members@.len(),
            all == members_view(members@),
            member_named(all, key@) == member_named(all.skip(i as int), key@),
        decreases members@.len() - i,
    {
        assert(all.skip(i as int)[0] == members@[i as int]@);
        if same_text(members[i].name.as_str(), key) {
            return match value_to_string(&members[i].value) {
                Some(text) => normalize_optional(text),
                None => None,
            };
        }
        assert(all.skip(i as int).drop_first() == all.skip(i + 1));
        i += 1;
    }
    None
}

/// The severity that a text denotes: a number from 0, the most severe,
/// to 7 in decimal notation. Any other text denotes none.
pub open spec fn severity_of(text: Seq<char>) -> Option<u8> {
    match parsed_unsigned(text, LEAST_SEVERE as nat) {
        Some(n) => Some(n as u8),
        None => None,
    }
}

/// The priority of a record that was read, where it has one, is a
/// severity from 0 to 7.
pub proof fn lemma_priority_is_a_severity(members: Seq<JsonMemberView>)
    ensures
        event_of_record(members).priority matches Some(p) ==> p <= LEAST_SEVERE,
{
}

/// The journal record that a JSON object stands for. A member that is
/// missing or has no text leaves its field empty.
pub open spec fn event_of_record(members: Seq<JsonMemberView>) -> JournalEventView {
    JournalEventView {
        message: match record_field(members, "MESSAGE"@) {
            Some(text) => text,
            None => Seq::empty(),
        },
        priority: match record_field(members, "PRIORITY"@) {
            Some(text) => severity_of(text),
            None => None,
        },
        unit: record_field(members, "_SYSTEMD_UNIT"@),
        exe: record_field(members, "_EXE"@),
        comm: record_field(members, "_COMM"@),
        identifier: record_field(members, "SYSLOG_IDENTIFIER"@),
    }
}

/// The complaint about a line that is JSON but no object.
pub open spec fn not_an_object() -> Seq<char> {
    "日志 JSON 行不是对象"@
}

/// The journal record that a document stands for, or the complaint about
/// a document that is no object.
pub open spec fn event_of_document(document: JsonDocumentView) -> Result<
    JournalEventView,
    Seq<char>,
> {
    match document {
        JsonDocumentView::Record(members) => Ok(event_of_record(members)),
        JsonDocumentView::Other => Err(not_an_object()),
    }
}

/// A record or a complaint, by its view.
pub open spec fn event_result_view(r: Result<JournalEvent, String>) -> Result<
    JournalEventView,
    Seq<char>,
> {
    match r {
        Ok(event) => Ok(event@),
        Err(e) => Err(e@),
    }
}

/// The journal record that a document stands for.
pub fn event_from_document(document: &JsonDocument) -> (r: Result<JournalEvent, String>)
    ensures
        event_result_view(r) == event_of_document(document@),
        r matches Ok(event) ==> (event.priority matches Some(p) ==> p <= LEAST_SEVERE),
{
    match document {
        JsonDocument::Other => Err(String::from_str("日志 JSON 行不是对象")),
        JsonDocument::Record(members) => {
            let message = match field_as_string(members, "MESSAGE") {
                Some(text) => text,
                None => String::new(),
            };
            let priority = match field_as_string(members, "PRIORITY") {
                Some(text) => {
                    let digits = chars_of(text.as_str());
                    match parse_unsigned(digits.as_slice(), LEAST_SEVERE as u64) {
                        Some(n) => Some(n as u8),
                        None => None,
                    }
                },
                None => None,
            };
            let unit = field_as_string(members, "_SYSTEMD_UNIT");
            let exe = field_as_string(members, "_EXE");
            let comm = field_as_string(members, "_COMM");
            let identifier = field_as_string(members, "SYSLOG_IDENTIFIER");
            Ok(JournalEvent { message, priority, unit, exe, comm, identifier })
        },
    }
}

/// The journal record that a line of JSON stands for; the complaint of
/// the parser, or the one about a document that is no object.
pub open spec fn event_of_line(line: Seq<char>) -> Result<JournalEventView, Seq<char>> {
    match json_reading(line) {
        Ok(document) => event_of_document(document),
        Err(e) => Err(e),
    }
}

/// Reads one line of the journal's JSON output as a record.
pub fn parse_json_event(line: &str) -> (r: Result<JournalEvent, String>)
    ensures
        event_result_view(r) == event_of_line(line@),
        r matches Ok(event) ==> (event.priority matches Some(p) ==> p <= LEAST_SEVERE),
{
    match read_json(line) {
        Ok(document) => event_from_document(&document),
        Err(e) => Err(e),
    }
}

} // verus!
