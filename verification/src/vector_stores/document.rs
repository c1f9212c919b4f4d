//! Documents: how JSON values and payloads are written for a remote store, and read back.
use vstd::prelude::*;

use crate::clock::{
    could_be_now, in_rfc3339_range, rfc3339_instant, rfc3339_text, Instant, Timestamp,
};
use crate::json::{json_items, json_members, json_view_of_containers, JsonValue, JsonView};
use crate::models::{
    memory_type_named, memory_types_have_their_names, opt_memory_type_text,
    MemoryType, Payload, PayloadView,
};
use crate::number::{double_is_finite, double_of, is_finite, JsonNumber};
use crate::text::text_eq;
use crate::text_map::TextMap;
use crate::views::opt_view;

verus! {

/// A document of a remote store.
#[derive(Debug)]
pub enum Document {
    Null,
    Bool(bool),
    Number(JsonNumber),
    String(String),
    Array(Vec<Document>),
    Object(TextMap<Document>),
}

/// [`Document`], as contracts see it.
#[verifier::ext_equal]
pub enum DocumentView {
    Null,
    Bool(bool),
    Number(JsonNumber),
    String(Seq<char>),
    Array(Seq<DocumentView>),
    Object(Map<Seq<char>, DocumentView>),
}

impl View for Document {
    type V = DocumentView;

    open spec fn view(&self) -> DocumentView
        decreases self,
    {
        match self {
            Document::Null => DocumentView::Null,
            Document::Bool(b) => DocumentView::Bool(*b),
            Document::Number(n) => DocumentView::Number(*n),
            Document::String(s) => DocumentView::String(s@),
            Document::Array(items) => DocumentView::Array(
                Seq::new(
                    items@.len(),
                    |i: int|
                        if 0 <= i < items@.len() {
                            items@[i].view()
                        } else {
                            DocumentView::Null
                        },
                ),
            ),
            Document::Object(members) => {
                proof {
                    members.decreases_to_values();
                }
                DocumentView::Object(
                    Map::new(
                        |key: Seq<char>| members@.contains_key(key),
                        |key: Seq<char>|
                            if members@.contains_key(key) {
                                members@[key].view()
                            } else {
                                DocumentView::Null
                            },
                    ),
                )
            },
        }
    }
}

/// What a list of documents is.
pub open spec fn document_items(items: Seq<Document>) -> Seq<DocumentView> {
    items.map_values(|d: Document| d@)
}

/// What the members of a document are.
pub open spec fn document_members(members: Map<Seq<char>, Document>) -> Map<
    Seq<char>,
    DocumentView,
> {
    members.map_values(|d: Document| d@)
}

/// An array and an object, by the views of what they hold.
pub proof fn document_view_of_containers(doc: &Document)
    ensures
        doc matches Document::Array(items) ==> doc@ == DocumentView::Array(document_items(items@)),
        doc matches Document::Object(members) ==> doc@ == DocumentView::Object(
            document_members(members@),
        ),
{
    reveal_with_fuel(<Document as View>::view, 2);
    if let Document::Array(items) = doc {
        assert(doc@->Array_0 =~= document_items(items@));
    }
    if let Document::Object(members) = doc {
        assert(doc@->Object_0 =~= document_members(members@));
    }
}

/// The document of a JSON value. Numbers become doubles.
pub open spec fn document_of(value: JsonView) -> DocumentView
    decreases value,
{
    match value {
        JsonView::Null => DocumentView::Null,
        JsonView::Bool(b) => DocumentView::Bool(b),
        JsonView::Number(n) => DocumentView::Number(JsonNumber::Float(double_of(n) as u64)),
        JsonView::String(s) => DocumentView::String(s),
        JsonView::Array(items) => DocumentView::Array(
            Seq::new(
                items.len(),
                |i: int|
                    if 0 <= i < items.len() {
                        document_of(items[i])
                    } else {
                        DocumentView::Null
                    },
            ),
        ),
        JsonView::Object(members) => DocumentView::Object(
            Map::new(
                |key: Seq<char>| members.contains_key(key),
                |key: Seq<char>|
                    if members.contains_key(key) {
                        document_of(members[key])
                    } else {
                        DocumentView::Null
                    },
            ),
        ),
    }
}

/// The JSON value of a document. Numbers become doubles; one that is not finite becomes null.
pub open spec fn json_of(doc: DocumentView) -> JsonView
    decreases doc,
{
    match doc {
        DocumentView::Null => JsonView::Null,
        DocumentView::Bool(b) => JsonView::Bool(b),
        DocumentView::Number(n) => if is_finite(double_of(n)) {
            JsonView::Number(JsonNumber::Float(double_of(n) as u64))
        } else {
            JsonView::Null
        },
        DocumentView::String(s) => JsonView::String(s),
        DocumentView::Array(items) => JsonView::Array(
            Seq::new(
                items.len(),
                |i: int|
                    if 0 <= i < items.len() {
                        json_of(items[i])
                    } else {
                        JsonView::Null
                    },
            ),
        ),
        DocumentView::Object(members) => JsonView::Object(
            Map::new(
                |key: Seq<char>| members.contains_key(key),
                |key: Seq<char>|
                    if members.contains_key(key) {
                        json_of(members[key])
                    } else {
                        JsonView::Null
                    },
            ),
        ),
    }
}

/// A JSON value with its numbers as doubles. One that is not finite becomes null.
pub open spec fn with_doubles(value: JsonView) -> JsonView
    decreases value,
{
    match value {
        JsonView::Number(n) => if is_finite(double_of(n)) {
            JsonView::Number(JsonNumber::Float(double_of(n) as u64))
        } else {
            JsonView::Null
        },
        JsonView::Array(items) => JsonView::Array(
            Seq::new(
                items.len(),
                |i: int|
                    if 0 <= i < items.len() {
                        with_doubles(items[i])
                    } else {
                        JsonView::Null
                    },
            ),
        ),
        JsonView::Object(members) => JsonView::Object(
            Map::new(
                |key: Seq<char>| members.contains_key(key),
                |key: Seq<char>|
                    if members.contains_key(key) {
                        with_doubles(members[key])
                    } else {
                        JsonView::Null
                    },
            ),
        ),
        other => other,
    }
}

/// All numbers of a JSON value are finite doubles.
pub open spec fn only_doubles(value: JsonView) -> bool
    decreases value,
{
    match value {
        JsonView::Number(n) => n matches JsonNumber::Float(bits) && is_finite(bits as nat),
        JsonView::Array(items) => forall|i: int|
            0 <= i < items.len() ==> only_doubles(#[trigger] items[i]),
        JsonView::Object(members) => forall|key: Seq<char>|
            members.contains_key(key) ==> only_doubles(#[trigger] members[key]),
        _ => true,
    }
}

/// Converts a JSON value to a document.
pub fn json_value_to_document(v: &JsonValue) -> (r: Document)
    ensures
        r@ == document_of(v@),
    decreases v,
{
    let r = match v {
        JsonValue::Null => Document::Null,
        JsonValue::Bool(b) => Document::Bool(*b),
        JsonValue::Number(n) => Document::Number(JsonNumber::Float(n.as_double())),
        JsonValue::String(s) => Document::String(s.clone()),
        JsonValue::Array(items) => Document::Array(items_to_documents(items)),
        JsonValue::Object(members) => Document::Object(members_to_documents(members)),
    };
    proof {
        reveal_with_fuel(document_of, 2);
        json_view_of_containers(v);
        document_view_of_containers(&r);
        if let JsonValue::Array(items) = v {
            assert(r@->Array_0 =~= document_of(v@)->Array_0);
        }
        if let JsonValue::Object(members) = v {
            assert(r@->Object_0 =~= document_of(v@)->Object_0);
        }
    }
    r
}

/// Converts a list of JSON values to documents.
fn items_to_documents(items: &Vec<JsonValue>) -> (r: Vec<Document>)
    ensures
        document_items(r@) == json_items(items@).map_values(|v: JsonView| document_of(v)),
    decreases items,
{
    let mut docs: Vec<Document> = Vec::new();
    let mut i: usize = 0;
    while i < items.len()
        invariant
            i <= items.len(),
            docs@.len() == i,
            forall|j: int| 0 <= j < i ==> (#[trigger] docs@[j])@ == document_of(items@[j]@),
        decreases items.len() - i,
    {
        docs.push(json_value_to_document(&items[i]));
        i += 1;
    }
    proof {
        assert(document_items(docs@) =~= json_items(items@).map_values(
            |v: JsonView| document_of(v),
        ));
    }
    docs
}

/// Converts the members of a JSON object to documents.
fn members_to_documents(members: &TextMap<JsonValue>) -> (r: TextMap<Document>)
    ensures
        document_members(r@) == json_members(members@).map_values(|v: JsonView| document_of(v)),
    decreases members,
{
    let mut docs: TextMap<Document> = TextMap::new();
    let n = members.len();
    let mut i: usize = 0;
    while i < n
        invariant
            i <= n,
            n == members.keys().len(),
            forall|key: Seq<char>| #[trigger]
                docs@.contains_key(key) ==> members@.contains_key(key) && docs@[key]@
                    == document_of(members@[key]@),
            forall|j: int| 0 <= j < i ==> docs@.contains_key(#[trigger] members.keys()[j]),
        decreases n - i,
    {
        let (key, value) = members.entry(i);
        docs.insert(key.clone(), json_value_to_document(value));
        i += 1;
    }
    proof {
        members.keys_are_the_domain();
        assert forall|key: Seq<char>| members@.contains_key(key) implies #[trigger]
            docs@.contains_key(key) by {
            let j = choose|j: int| 0 <= j < members.keys().len() && members.keys()[j] == key;
            assert(docs@.contains_key(members.keys()[j]));
        }
        assert(document_members(docs@) =~= json_members(members@).map_values(
            |v: JsonView| document_of(v),
        ));
    }
    docs
}

/// Converts a document to a JSON value.
pub fn document_to_json_value(doc: &Document) -> (r: JsonValue)
    ensures
        r@ == json_of(doc@),
    decreases doc,
{
    let r = match doc {
        Document::Null => JsonValue::Null,
        Document::Bool(b) => JsonValue::Bool(*b),
        Document::Number(n) => {
            let bits = n.as_double();
            if double_is_finite(bits) {
                JsonValue::Number(JsonNumber::Float(bits))
            } else {
                JsonValue::Null
            }
        },
        Document::String(s) => JsonValue::String(s.clone()),
        Document::Array(items) => JsonValue::Array(items_to_json(items)),
        Document::Object(members) => JsonValue::Object(members_to_json(members)),
    };
    proof {
        reveal_with_fuel(json_of, 2);
        document_view_of_containers(doc);
        json_view_of_containers(&r);
        if let Document::Array(items) = doc {
            assert(r@->Array_0 =~= json_of(doc@)->Array_0);
        }
        if let Document::Object(members) = doc {
            assert(r@->Object_0 =~= json_of(doc@)->Object_0);
        }
    }
    r
}

/// Converts a list of documents to JSON values.
fn items_to_json(items: &Vec<Document>) -> (r: Vec<JsonValue>)
    ensures
        json_items(r@) == document_items(items@).map_values(|d: DocumentView| json_of(d)),
    decreases items,
{
    let mut values: Vec<JsonValue> = Vec::new();
    let mut i: usize = 0;
    while i < items.len()
        invariant
            i <= items.len(),
            values@.len() == i,
            forall|j: int| 0 <= j < i ==> (#[trigger] values@[j])@ == json_of(items@[j]@),
        decreases items.len() - i,
    {
        values.push(document_to_json_value(&items[i]));
        i += 1;
    }
    proof {
        assert(json_items(values@) =~= document_items(items@).map_values(
            |d: DocumentView| json_of(d),
        ));
    }
    values
}

/// Converts the members of a document to JSON values.
fn members_to_json(members: &TextMap<Document>) -> (r: TextMap<JsonValue>)
    ensures
        json_members(r@) == document_members(members@).map_values(|d: DocumentView| json_of(d)),
    decreases members,
{
    let mut values: TextMap<JsonValue> = TextMap::new();
    let n = members.len();
    let mut i: usize = 0;
    while i < n
        invariant
            i <= n,
            n == members.keys().len(),
            forall|key: Seq<char>| #[trigger]
                values@.contains_key(key) ==> members@.contains_key(key) && values@[key]@
                    == json_of(members@[key]@),
            forall|j: int| 0 <= j < i ==> values@.contains_key(#[trigger] members.keys()[j]),
        decreases n - i,
    {
        let (key, value) = members.entry(i);
        values.insert(key.clone(), document_to_json_value(value));
        i += 1;
    }
    proof {
        members.keys_are_the_domain();
        assert forall|key: Seq<char>| members@.contains_key(key) implies #[trigger]
            values@.contains_key(key) by {
            let j = choose|j: int| 0 <= j < members.keys().len() && members.keys()[j] == key;
            assert(values@.contains_key(members.keys()[j]));
        }
        assert(json_members(values@) =~= document_members(members@).map_values(
            |d: DocumentView| json_of(d),
        ));
    }
    values
}

/// A JSON value that was written as a document is read back as it was, but for its numbers, which
/// come back as doubles.
pub proof fn json_is_read_back(value: JsonView)
    ensures
        json_of(document_of(value)) == with_doubles(value),
    decreases value,
{
    reveal_with_fuel(document_of, 2);
    reveal_with_fuel(json_of, 2);
    reveal_with_fuel(with_doubles, 2);
    match value {
        JsonView::Number(n) => {
            crate::number::doubles_fit(n);
        },
        JsonView::Array(items) => {
            assert forall|i: int| 0 <= i < items.len() implies json_of(
                document_of(#[trigger] items[i]),
            ) == with_doubles(items[i]) by {
                json_is_read_back(items[i]);
            }
            assert(json_of(document_of(value))->Array_0 =~= with_doubles(value)->Array_0);
        },
        JsonView::Object(members) => {
            assert forall|key: Seq<char>| members.contains_key(key) implies json_of(
                document_of(#[trigger] members[key]),
            ) == with_doubles(members[key]) by {
                json_is_read_back(members[key]);
            }
            assert(json_of(document_of(value))->Object_0 =~= with_doubles(value)->Object_0);
        },
        _ => {},
    }
}

/// A JSON value whose numbers are finite doubles is read back as it was.
pub proof fn json_of_doubles_is_read_back(value: JsonView)
    requires
        only_doubles(value),
    ensures
        json_of(document_of(value)) == value,
{
    json_is_read_back(value);
    doubles_stay(value);
}

proof fn doubles_stay(value: JsonView)
    requires
        only_doubles(value),
    ensures
        with_doubles(value) == value,
    decreases value,
{
    reveal_with_fuel(with_doubles, 2);
    match value {
        JsonView::Array(items) => {
            assert forall|i: int| 0 <= i < items.len() implies with_doubles(#[trigger] items[i])
                == items[i] by {
                doubles_stay(items[i]);
            }
            assert(with_doubles(value)->Array_0 =~= items);
        },
        JsonView::Object(members) => {
            assert forall|key: Seq<char>| members.contains_key(key) implies with_doubles(
                #[trigger] members[key],
            ) == members[key] by {
                doubles_stay(members[key]);
            }
            assert(with_doubles(value)->Object_0 =~= members);
        },
        _ => {},
    }
}

/// The key is that of a field of a payload, not of an entry of its metadata.
pub open spec fn is_field_key(key: Seq<char>) -> bool {
    ||| key == "data"@
    ||| key == "hash"@
    ||| key == "created_at"@
    ||| key == "user_id"@
    ||| key == "agent_id"@
    ||| key == "run_id"@
    ||| key == "memory_type"@
}

/// A document with one more member, if a text is given for it.
pub open spec fn with_text(
    doc: Map<Seq<char>, DocumentView>,
    key: Seq<char>,
    text: Option<Seq<char>>,
) -> Map<Seq<char>, DocumentView> {
    match text {
        Some(t) => doc.insert(key, DocumentView::String(t)),
        None => doc,
    }
}

/// The members for the fields of a payload, with the time at which it was made as a text. What is
/// not given has none.
pub open spec fn field_members(payload: PayloadView, created_at: Seq<char>) -> Map<
    Seq<char>,
    DocumentView,
> {
    let none = Map::<Seq<char>, DocumentView>::empty();
    let user = with_text(none, "user_id"@, payload.user_id);
    let agent = with_text(user, "agent_id"@, payload.agent_id);
    let run = with_text(agent, "run_id"@, payload.run_id);
    let hash = with_text(run, "hash"@, Some(payload.hash));
    let time = with_text(hash, "created_at"@, Some(created_at));
    let kind = with_text(time, "memory_type"@, opt_memory_type_text(payload.memory_type));
    with_text(kind, "data"@, Some(payload.data))
}

/// The members for the metadata of a payload.
pub open spec fn metadata_members(metadata: Map<Seq<char>, JsonView>) -> Map<
    Seq<char>,
    DocumentView,
> {
    metadata.map_values(|v: JsonView| document_of(v))
}

/// The document of a payload, with the time at which it was made as a text. An entry of the
/// metadata takes the place of a field of its name.
pub open spec fn payload_document_with(
    payload: PayloadView,
    created_at: Seq<char>,
) -> DocumentView {
    DocumentView::Object(
        field_members(payload, created_at).union_prefer_right(metadata_members(payload.metadata)),
    )
}

/// The document of a payload.
pub open spec fn payload_document(payload: PayloadView) -> DocumentView {
    payload_document_with(payload, rfc3339_text(payload.created_at.0, payload.created_at.1))
}

/// The text under a key, if there is one.
pub open spec fn text_member(members: Map<Seq<char>, DocumentView>, key: Seq<char>) -> Option<
    Seq<char>,
> {
    if members.contains_key(key) {
        match members[key] {
            DocumentView::String(s) => Some(s),
            _ => None,
        }
    } else {
        None
    }
}

/// The text, or the empty one.
pub open spec fn text_or_empty(text: Option<Seq<char>>) -> Seq<char> {
    match text {
        Some(t) => t,
        None => Seq::empty(),
    }
}

/// The time that a text tells, or another if there is none.
pub open spec fn time_or(text: Option<Seq<char>>, now: Instant) -> Instant {
    match text {
        Some(t) => match rfc3339_instant(t) {
            Some(time) => time,
            None => now,
        },
        None => now,
    }
}

/// The payload of a document that was made at a time: its fields, and as metadata all that is no
/// field. What does not make sense counts as missing.
pub open spec fn document_payload_made(doc: DocumentView, created_at: Instant) -> PayloadView {
    match doc {
        DocumentView::Object(members) => PayloadView {
            data: text_or_empty(text_member(members, "data"@)),
            hash: text_or_empty(text_member(members, "hash"@)),
            created_at,
            user_id: text_member(members, "user_id"@),
            agent_id: text_member(members, "agent_id"@),
            run_id: text_member(members, "run_id"@),
            memory_type: match text_member(members, "memory_type"@) {
                Some(t) => memory_type_named(t),
                None => None,
            },
            metadata: Map::new(
                |key: Seq<char>| members.contains_key(key) && !is_field_key(key),
                |key: Seq<char>| json_of(members[key]),
            ),
        },
        _ => PayloadView {
            data: Seq::empty(),
            hash: Seq::empty(),
            created_at,
            user_id: None,
            agent_id: None,
            run_id: None,
            memory_type: None,
            metadata: Map::empty(),
        },
    }
}

/// The time at which a document says that it was made, or another.
pub open spec fn time_made(doc: DocumentView, now: Instant) -> Instant {
    match doc {
        DocumentView::Object(members) => time_or(text_member(members, "created_at"@), now),
        _ => now,
    }
}

/// The payload of a document. A time that is missing is the present one.
pub open spec fn document_payload(doc: DocumentView, now: Instant) -> PayloadView {
    document_payload_made(doc, time_made(doc, now))
}

/// The payload with the numbers of its metadata as doubles.
pub open spec fn payload_with_doubles(payload: PayloadView) -> PayloadView {
    PayloadView {
        metadata: payload.metadata.map_values(|v: JsonView| with_doubles(v)),
        ..payload
    }
}

/// No entry of the metadata has the name of a field.
pub open spec fn keeps_to_its_keys(payload: PayloadView) -> bool {
    forall|key: Seq<char>| #[trigger] payload.metadata.contains_key(key) ==> !is_field_key(key)
}

/// Adds a text under a key.
fn put_text(members: &mut TextMap<Document>, key: &str, text: String)
    ensures
        document_members(final(members)@) == with_text(
            document_members(old(members)@),
            key@,
            Some(text@),
        ),
{
    let ghost before = document_members(members@);
    let ghost t = text@;
    members.insert(key.to_owned(), Document::String(text));
    proof {
        assert(document_members(members@) =~= before.insert(key@, DocumentView::String(t)));
    }
}

/// Adds a text under a key, if one is given.
fn put_opt_text(members: &mut TextMap<Document>, key: &str, text: &Option<String>)
    ensures
        document_members(final(members)@) == with_text(
            document_members(old(members)@),
            key@,
            opt_view(*text),
        ),
{
    if let Some(t) = text {
        put_text(members, key, t.clone());
    }
}

/// Writes a payload as a document, with the time at which it was made as a text.
pub fn write_payload(payload: &Payload, created_at: String) -> (r: Document)
    ensures
        r@ == payload_document_with(payload@, created_at@),
{
    let ghost time = created_at@;
    let mut members: TextMap<Document> = TextMap::new();
    proof {
        assert(document_members(members@) =~= Map::<Seq<char>, DocumentView>::empty());
    }
    put_opt_text(&mut members, "user_id", &payload.user_id);
    put_opt_text(&mut members, "agent_id", &payload.agent_id);
    put_opt_text(&mut members, "run_id", &payload.run_id);
    put_text(&mut members, "hash", payload.hash.clone());
    put_text(&mut members, "created_at", created_at);
    let kind: Option<String> = match payload.memory_type {
        Some(t) => Some(t.to_text()),
        None => None,
    };
    put_opt_text(&mut members, "memory_type", &kind);
    put_text(&mut members, "data", payload.data.clone());
    proof {
        assert(opt_view(kind) == opt_memory_type_text(payload@.memory_type));
        assert(document_members(members@) == field_members(payload@, time));
    }
    put_metadata(&mut members, &payload.metadata);
    let r = Document::Object(members);
    proof {
        document_view_of_containers(&r);
    }
    r
}

/// Writes a payload as a document. If no entry of its metadata has the name of a field, and it was
/// made in a year that RFC 3339 can write, the document is read back as the payload was, but for
/// the numbers of the metadata, which come back as doubles.
pub fn payload_to_document(payload: &Payload) -> (r: Document)
    ensures
        r@ == payload_document(payload@),
        keeps_to_its_keys(payload@) && in_rfc3339_range(payload@.created_at) ==> forall|
            now: Instant,
        | #[trigger]
            document_payload(r@, now) == payload_with_doubles(payload@),
{
    let time = payload.created_at.to_rfc3339();
    let ghost time_text = time@;
    let r = write_payload(payload, time);
    proof {
        if keeps_to_its_keys(payload@) && in_rfc3339_range(payload@.created_at) {
            assert(rfc3339_instant(time_text) == Some(payload@.created_at));
            assert forall|now: Instant| #[trigger] document_payload(r@, now)
                == payload_with_doubles(payload@) by {
                payloads_are_read_back(payload@, now);
            }
        }
    }
    r
}

/// Adds the entries of the metadata, in place of members that have the same keys.
fn put_metadata(members: &mut TextMap<Document>, metadata: &TextMap<JsonValue>)
    ensures
        document_members(final(members)@) == document_members(old(members)@).union_prefer_right(
            metadata_members(json_members(metadata@)),
        ),
{
    let ghost before = document_members(members@);
    let n = metadata.len();
    let mut i: usize = 0;
    while i < n
        invariant
            i <= n,
            n == metadata.keys().len(),
            metadata.keys().no_duplicates(),
            forall|key: Seq<char>| #[trigger]
                members@.contains_key(key) <==> before.contains_key(key)
                    || metadata.keys().take(i as int).contains(key),
            forall|key: Seq<char>|
                members@.contains_key(key) ==> (#[trigger] members@[key])@ == (
                if metadata.keys().take(i as int).contains(key) {
                    document_of(metadata@[key]@)
                } else {
                    before[key]
                }),
        decreases n - i,
    {
        let (key, value) = metadata.entry(i);
        members.insert(key.clone(), json_value_to_document(value));
        proof {
            let longer = metadata.keys().take(i + 1);
            let shorter = metadata.keys().take(i as int);
            assert(longer =~= shorter.push(key@));
            assert forall|k: Seq<char>| #[trigger] longer.contains(k) <==> shorter.contains(k) || k
                == key@ by {
                if shorter.contains(k) {
                    let j = choose|j: int| 0 <= j < shorter.len() && shorter[j] == k;
                    assert(longer[j] == k);
                }
                if k == key@ {
                    assert(longer[i as int] == k);
                }
            }
        }
        i += 1;
    }
    proof {
        metadata.keys_are_the_domain();
        assert(metadata.keys().take(n as int) =~= metadata.keys());
        let entries = metadata_members(json_members(metadata@));
        assert forall|key: Seq<char>| #[trigger] entries.contains_key(key)
            <==> metadata.keys().contains(key) by {
            assert(metadata@.contains_key(key) == metadata.keys().contains(key));
        }
        assert(document_members(members@) =~= before.union_prefer_right(entries));
    }
}

/// The keys of the fields of a payload differ.
pub proof fn field_keys_differ()
    ensures
        "data"@ != "hash"@,
        "data"@ != "created_at"@,
        "data"@ != "user_id"@,
        "data"@ != "agent_id"@,
        "data"@ != "run_id"@,
        "data"@ != "memory_type"@,
        "hash"@ != "created_at"@,
        "hash"@ != "user_id"@,
        "hash"@ != "agent_id"@,
        "hash"@ != "run_id"@,
        "hash"@ != "memory_type"@,
        "created_at"@ != "user_id"@,
        "created_at"@ != "agent_id"@,
        "created_at"@ != "run_id"@,
        "created_at"@ != "memory_type"@,
        "user_id"@ != "agent_id"@,
        "user_id"@ != "run_id"@,
        "user_id"@ != "memory_type"@,
        "agent_id"@ != "run_id"@,
        "agent_id"@ != "memory_type"@,
        "run_id"@ != "memory_type"@,
{
    reveal_strlit("data");
    reveal_strlit("hash");
    reveal_strlit("created_at");
    reveal_strlit("user_id");
    reveal_strlit("agent_id");
    reveal_strlit("run_id");
    reveal_strlit("memory_type");
    assert("data"@[0] == 'd');
    assert("hash"@[0] == 'h');
    assert("data"@.len() == 4);
    assert("hash"@.len() == 4);
    assert("created_at"@.len() == 10);
    assert("user_id"@.len() == 7);
    assert("agent_id"@.len() == 8);
    assert("run_id"@.len() == 6);
    assert("memory_type"@.len() == 11);
}

proof fn payloads_are_read_back(payload: PayloadView, now: Instant)
    requires
        keeps_to_its_keys(payload),
        rfc3339_instant(rfc3339_text(payload.created_at.0, payload.created_at.1)) == Some(
            payload.created_at,
        ),
    ensures
        document_payload(payload_document(payload), now) == payload_with_doubles(payload),
{
    field_keys_differ();
    let fields = field_members(
        payload,
        rfc3339_text(payload.created_at.0, payload.created_at.1),
    );
    let entries = metadata_members(payload.metadata);
    let members = fields.union_prefer_right(entries);
    if let Some(t) = payload.memory_type {
        memory_types_have_their_names(t);
    }
    assert forall|key: Seq<char>| is_field_key(key) implies !(#[trigger] entries.contains_key(key)) by {
        assert(payload.metadata.contains_key(key) == entries.contains_key(key));
    }
    assert(!entries.contains_key("data"@));
    assert(!entries.contains_key("hash"@));
    assert(!entries.contains_key("created_at"@));
    assert(!entries.contains_key("user_id"@));
    assert(!entries.contains_key("agent_id"@));
    assert(!entries.contains_key("run_id"@));
    assert(!entries.contains_key("memory_type"@));
    let read = document_payload(payload_document(payload), now);
    let wanted = payload_with_doubles(payload);
    assert(read.data == payload.data);
    assert(read.hash == payload.hash);
    assert(read.created_at == payload.created_at);
    assert(read.user_id == payload.user_id);
    assert(read.agent_id == payload.agent_id);
    assert(read.run_id == payload.run_id);
    assert(read.memory_type == payload.memory_type);
    assert forall|key: Seq<char>| #[trigger] read.metadata.contains_key(key)
        <==> wanted.metadata.contains_key(key) by {
        assert(payload.metadata.contains_key(key) == entries.contains_key(key));
        if fields.contains_key(key) {
            assert(is_field_key(key));
        }
    }
    assert forall|key: Seq<char>| wanted.metadata.contains_key(key) implies #[trigger]
        read.metadata[key] == wanted.metadata[key] by {
        assert(entries.contains_key(key));
        json_is_read_back(payload.metadata[key]);
    }
    assert(read.metadata =~= wanted.metadata);
}

/// The text under a key, if there is one.
fn get_text(members: &TextMap<Document>, key: &str) -> (r: Option<String>)
    ensures
        opt_view(r) == text_member(document_members(members@), key@),
{
    match members.get(key) {
        Some(Document::String(s)) => {
            proof {
                assert(document_members(members@)[key@] == DocumentView::String(s@));
            }
            Some(s.clone())
        },
        Some(other) => {
            proof {
                document_view_of_containers(other);
                assert(document_members(members@)[key@] == other@);
            }
            None
        },
        None => None,
    }
}

/// The text, or the empty one.
fn or_empty(text: Option<String>) -> (r: String)
    ensures
        r@ == text_or_empty(opt_view(text)),
{
    match text {
        Some(t) => t,
        None => {
            let r = String::new();
            proof {
                assert(r@ =~= Seq::<char>::empty());
            }
            r
        },
    }
}

/// Whether a key is that of a field of a payload.
fn names_field(key: &str) -> (r: bool)
    ensures
        r == is_field_key(key@),
{
    text_eq(key, "data") || text_eq(key, "hash") || text_eq(key, "created_at") || text_eq(
        key,
        "user_id",
    ) || text_eq(key, "agent_id") || text_eq(key, "run_id") || text_eq(key, "memory_type")
}

/// All members that are no field, as metadata.
fn get_metadata(members: &TextMap<Document>) -> (r: TextMap<JsonValue>)
    ensures
        json_members(r@) == Map::new(
            |key: Seq<char>| document_members(members@).contains_key(key) && !is_field_key(key),
            |key: Seq<char>| json_of(document_members(members@)[key]),
        ),
{
    let mut metadata: TextMap<JsonValue> = TextMap::new();
    let n = members.len();
    let mut i: usize = 0;
    while i < n
        invariant
            i <= n,
            n == members.keys().len(),
            forall|key: Seq<char>| #[trigger]
                metadata@.contains_key(key) ==> members@.contains_key(key) && !is_field_key(key)
                    && metadata@[key]@ == json_of(members@[key]@),
            forall|j: int|
                0 <= j < i ==> is_field_key(#[trigger] members.keys()[j]) || metadata@.contains_key(
                    members.keys()[j],
                ),
        decreases n - i,
    {
        let (key, value) = members.entry(i);
        if !names_field(key.as_str()) {
            metadata.insert(key.clone(), document_to_json_value(value));
        }
        i += 1;
    }
    proof {
        members.keys_are_the_domain();
        let docs = document_members(members@);
        let wanted = Map::new(
            |key: Seq<char>| docs.contains_key(key) && !is_field_key(key),
            |key: Seq<char>| json_of(docs[key]),
        );
        assert forall|key: Seq<char>| wanted.contains_key(key) implies #[trigger]
            metadata@.contains_key(key) by {
            assert(members@.contains_key(key));
            let j = choose|j: int| 0 <= j < members.keys().len() && members.keys()[j] == key;
            assert(is_field_key(members.keys()[j]) || metadata@.contains_key(members.keys()[j]));
        }
        assert(json_members(metadata@) =~= wanted);
    }
    metadata
}

/// Reads a payload from a document that was made at a time.
pub fn read_payload_made(doc: &Document, created_at: Timestamp) -> (r: Payload)
    ensures
        r@ == document_payload_made(doc@, created_at@),
{
    proof {
        document_view_of_containers(doc);
    }
    match doc {
        Document::Object(members) => {
            let memory_type: Option<MemoryType> = match get_text(members, "memory_type") {
                Some(text) => MemoryType::from_text(text.as_str()),
                None => None,
            };
            Payload {
                data: or_empty(get_text(members, "data")),
                hash: or_empty(get_text(members, "hash")),
                created_at,
                user_id: get_text(members, "user_id"),
                agent_id: get_text(members, "agent_id"),
                run_id: get_text(members, "run_id"),
                memory_type,
                metadata: get_metadata(members),
            }
        },
        _ => {
            let metadata: TextMap<JsonValue> = TextMap::new();
            proof {
                assert(json_members(metadata@) =~= Map::<Seq<char>, JsonView>::empty());
            }
            Payload {
                data: or_empty(None),
                hash: or_empty(None),
                created_at,
                user_id: None,
                agent_id: None,
                run_id: None,
                memory_type: None,
                metadata,
            }
        },
    }
}

/// Reads a payload from a document. A time that is missing is the given one.
pub fn document_to_payload_at(doc: &Document, now: Timestamp) -> (r: Payload)
    ensures
        r@ == document_payload(doc@, now@),
{
    proof {
        document_view_of_containers(doc);
    }
    let created_at: Timestamp = match doc {
        Document::Object(members) => match get_text(members, "created_at") {
            Some(text) => match Timestamp::parse_rfc3339(text.as_str()) {
                Some(time) => time,
                None => now,
            },
            None => now,
        },
        _ => now,
    };
    read_payload_made(doc, created_at)
}

/// Reads a payload from a document. A time that is missing is the present one.
pub fn document_to_payload(doc: &Document) -> (r: Payload)
    ensures
        exists|now: Instant| could_be_now(now) && r@ == #[trigger] document_payload(doc@, now),
{
    let now = Timestamp::now();
    let r = document_to_payload_at(doc, now);
    assert(could_be_now(now@) && r@ == document_payload(doc@, now@));
    r
}

} // verus!
