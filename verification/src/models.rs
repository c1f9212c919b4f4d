//! What is remembered, and how it is asked for.
use vstd::prelude::*;

use crate::clock::{Instant, Timestamp};
use crate::ids::{uuid_or_default, uuid_or_nil, uuid_to_string};
use crate::json::{copy_members, json_members, JsonValue, JsonView};
use crate::ranking::Score;
use crate::text::text_eq;
use crate::text_map::TextMap;
use crate::views::{copy_opt, copy_vec, opt_view, views, Duplicate};

verus! {

/// The name under which the session that a memory belongs to is stored and filtered.
pub const REQUEST_ID_FIELD: &'static str = "run_id";

/// The kind of a memory.
#[derive(Clone, Copy, Debug, PartialEq, Eq, Structural)]
pub enum MemoryType {
    Semantic,
    Episodic,
    Procedural,
}

/// What happened to a memory.
#[derive(Clone, Copy, Debug, PartialEq, Eq, Structural)]
pub enum EventType {
    Add,
    Update,
    Delete,
    Noop,
}

/// Who speaks in a conversation.
#[derive(Clone, Copy, Debug, PartialEq, Eq, Structural)]
pub enum Role {
    System,
    User,
    Assistant,
}

/// How a field is compared with the value of a condition.
#[derive(Clone, Copy, Debug, PartialEq, Eq, Structural)]
pub enum FilterOperator {
    Eq,
    Ne,
    Gt,
    Gte,
    Lt,
    Lte,
    In,
    Nin,
    Contains,
    IContains,
}

/// How the conditions of a filter are combined.
#[derive(Clone, Copy, Debug, PartialEq, Eq, Structural)]
pub enum FilterLogic {
    And,
    Or,
}

/// One message of a conversation.
#[derive(Debug)]
pub struct Message {
    pub role: Role,
    pub content: String,
}

/// [`Message`], as contracts see it.
#[verifier::ext_equal]
pub struct MessageView {
    pub role: Role,
    pub content: Seq<char>,
}

impl View for Message {
    type V = MessageView;

    open spec fn view(&self) -> MessageView {
        MessageView {
            role: self.role,
            content: self.content@,
        }
    }
}

impl Duplicate for Message {
    fn duplicate(&self) -> (r: Self) {
        Message {
            role: self.role,
            content: self.content.clone(),
        }
    }
}

/// A condition on one field of a payload.
#[derive(Debug)]
pub struct FilterCondition {
    pub field: String,
    pub operator: FilterOperator,
    pub value: JsonValue,
}

/// [`FilterCondition`], as contracts see it.
#[verifier::ext_equal]
pub struct FilterConditionView {
    pub field: Seq<char>,
    pub operator: FilterOperator,
    pub value: JsonView,
}

impl View for FilterCondition {
    type V = FilterConditionView;

    open spec fn view(&self) -> FilterConditionView {
        FilterConditionView {
            field: self.field@,
            operator: self.operator,
            value: self.value@,
        }
    }
}

impl Duplicate for FilterCondition {
    fn duplicate(&self) -> (r: Self) {
        FilterCondition {
            field: self.field.clone(),
            operator: self.operator,
            value: self.value.duplicate(),
        }
    }
}

/// Conditions on a payload.
#[derive(Debug)]
pub struct Filters {
    pub conditions: Vec<FilterCondition>,
    pub logic: FilterLogic,
}

/// [`Filters`], as contracts see it.
#[verifier::ext_equal]
pub struct FiltersView {
    pub conditions: Seq<FilterConditionView>,
    pub logic: FilterLogic,
}

impl View for Filters {
    type V = FiltersView;

    open spec fn view(&self) -> FiltersView {
        FiltersView {
            conditions: views(self.conditions@),
            logic: self.logic,
        }
    }
}

impl Duplicate for Filters {
    fn duplicate(&self) -> (r: Self) {
        Filters {
            conditions: copy_vec(&self.conditions),
            logic: self.logic,
        }
    }
}

/// What is stored beside the embedding of a memory.
#[derive(Debug)]
pub struct Payload {
    /// The memory itself.
    pub data: String,
    /// A fingerprint of the memory.
    pub hash: String,
    pub created_at: Timestamp,
    /// The user that the memory is of.
    pub user_id: Option<String>,
    /// The agent that the memory is of.
    pub agent_id: Option<String>,
    /// The session that the memory is of.
    pub run_id: Option<String>,
    pub memory_type: Option<MemoryType>,
    pub metadata: TextMap<JsonValue>,
}

/// [`Payload`], as contracts see it.
#[verifier::ext_equal]
pub struct PayloadView {
    pub data: Seq<char>,
    pub hash: Seq<char>,
    pub created_at: Instant,
    pub user_id: Option<Seq<char>>,
    pub agent_id: Option<Seq<char>>,
    pub run_id: Option<Seq<char>>,
    pub memory_type: Option<MemoryType>,
    pub metadata: Map<Seq<char>, JsonView>,
}

impl View for Payload {
    type V = PayloadView;

    open spec fn view(&self) -> PayloadView {
        PayloadView {
            data: self.data@,
            hash: self.hash@,
            created_at: self.created_at@,
            user_id: opt_view(self.user_id),
            agent_id: opt_view(self.agent_id),
            run_id: opt_view(self.run_id),
            memory_type: self.memory_type,
            metadata: json_members(self.metadata@),
        }
    }
}

impl Duplicate for Payload {
    fn duplicate(&self) -> (r: Self) {
        Payload {
            data: self.data.clone(),
            hash: self.hash.clone(),
            created_at: self.created_at,
            user_id: copy_opt(&self.user_id),
            agent_id: copy_opt(&self.agent_id),
            run_id: copy_opt(&self.run_id),
            memory_type: self.memory_type,
            metadata: copy_members(&self.metadata),
        }
    }
}

/// A memory that a store gave back.
#[derive(Debug)]
pub struct VectorSearchResult {
    pub id: String,
    pub score: Score,
    pub payload: Payload,
}

/// [`VectorSearchResult`], as contracts see it.
#[verifier::ext_equal]
pub struct VectorSearchResultView {
    pub id: Seq<char>,
    pub score: Score,
    pub payload: PayloadView,
}

impl View for VectorSearchResult {
    type V = VectorSearchResultView;

    open spec fn view(&self) -> VectorSearchResultView {
        VectorSearchResultView {
            id: self.id@,
            score: self.score,
            payload: self.payload@,
        }
    }
}

impl Duplicate for VectorSearchResult {
    fn duplicate(&self) -> (r: Self) {
        VectorSearchResult {
            id: self.id.clone(),
            score: self.score,
            payload: self.payload.duplicate(),
        }
    }
}

/// A memory.
#[derive(Debug)]
pub struct MemoryRecord {
    pub id: u128,
    pub content: String,
    pub metadata: TextMap<JsonValue>,
    /// The user that the memory is of.
    pub user_id: Option<String>,
    /// The agent that the memory is of.
    pub agent_id: Option<String>,
    /// The session that the memory is of.
    pub run_id: Option<String>,
    pub memory_type: Option<MemoryType>,
    /// A fingerprint of the content.
    pub hash: String,
    pub created_at: Timestamp,
}

/// [`MemoryRecord`], as contracts see it.
#[verifier::ext_equal]
pub struct MemoryRecordView {
    pub id: u128,
    pub content: Seq<char>,
    pub metadata: Map<Seq<char>, JsonView>,
    pub user_id: Option<Seq<char>>,
    pub agent_id: Option<Seq<char>>,
    pub run_id: Option<Seq<char>>,
    pub memory_type: Option<MemoryType>,
    pub hash: Seq<char>,
    pub created_at: Instant,
}

impl View for MemoryRecord {
    type V = MemoryRecordView;

    open spec fn view(&self) -> MemoryRecordView {
        MemoryRecordView {
            id: self.id,
            content: self.content@,
            metadata: json_members(self.metadata@),
            user_id: opt_view(self.user_id),
            agent_id: opt_view(self.agent_id),
            run_id: opt_view(self.run_id),
            memory_type: self.memory_type,
            hash: self.hash@,
            created_at: self.created_at@,
        }
    }
}

impl Duplicate for MemoryRecord {
    fn duplicate(&self) -> (r: Self) {
        MemoryRecord {
            id: self.id,
            content: self.content.clone(),
            metadata: copy_members(&self.metadata),
            user_id: copy_opt(&self.user_id),
            agent_id: copy_opt(&self.agent_id),
            run_id: copy_opt(&self.run_id),
            memory_type: self.memory_type,
            hash: self.hash.clone(),
            created_at: self.created_at,
        }
    }
}

/// A memory with its likeness to a query.
#[derive(Debug)]
pub struct ScoredMemory {
    pub record: MemoryRecord,
    pub score: Score,
}

/// [`ScoredMemory`], as contracts see it.
#[verifier::ext_equal]
pub struct ScoredMemoryView {
    pub record: MemoryRecordView,
    pub score: Score,
}

impl View for ScoredMemory {
    type V = ScoredMemoryView;

    open spec fn view(&self) -> ScoredMemoryView {
        ScoredMemoryView {
            record: self.record@,
            score: self.score,
        }
    }
}

impl Duplicate for ScoredMemory {
    fn duplicate(&self) -> (r: Self) {
        ScoredMemory {
            record: self.record.duplicate(),
            score: self.score,
        }
    }
}

/// What an addition did to one memory.
#[derive(Debug)]
pub struct MemoryEvent {
    pub id: u128,
    /// The content; empty for a deleted memory.
    pub memory: String,
    pub event: EventType,
    pub previous_memory: Option<String>,
}

/// [`MemoryEvent`], as contracts see it.
#[verifier::ext_equal]
pub struct MemoryEventView {
    pub id: u128,
    pub memory: Seq<char>,
    pub event: EventType,
    pub previous_memory: Option<Seq<char>>,
}

impl View for MemoryEvent {
    type V = MemoryEventView;

    open spec fn view(&self) -> MemoryEventView {
        MemoryEventView {
            id: self.id,
            memory: self.memory@,
            event: self.event,
            previous_memory: opt_view(self.previous_memory),
        }
    }
}

impl Duplicate for MemoryEvent {
    fn duplicate(&self) -> (r: Self) {
        MemoryEvent {
            id: self.id,
            memory: self.memory.clone(),
            event: self.event,
            previous_memory: copy_opt(&self.previous_memory),
        }
    }
}

/// One change in the life of a memory.
#[derive(Debug)]
pub struct HistoryEntry {
    pub id: u128,
    pub memory_id: u128,
    pub previous_content: Option<String>,
    pub new_content: String,
    pub event: EventType,
    pub timestamp: Timestamp,
}

/// [`HistoryEntry`], as contracts see it.
#[verifier::ext_equal]
pub struct HistoryEntryView {
    pub id: u128,
    pub memory_id: u128,
    pub previous_content: Option<Seq<char>>,
    pub new_content: Seq<char>,
    pub event: EventType,
    pub timestamp: Instant,
}

impl View for HistoryEntry {
    type V = HistoryEntryView;

    open spec fn view(&self) -> HistoryEntryView {
        HistoryEntryView {
            id: self.id,
            memory_id: self.memory_id,
            previous_content: opt_view(self.previous_content),
            new_content: self.new_content@,
            event: self.event,
            timestamp: self.timestamp@,
        }
    }
}

impl Duplicate for HistoryEntry {
    fn duplicate(&self) -> (r: Self) {
        HistoryEntry {
            id: self.id,
            memory_id: self.memory_id,
            previous_content: copy_opt(&self.previous_content),
            new_content: self.new_content.clone(),
            event: self.event,
            timestamp: self.timestamp,
        }
    }
}

/// How memories are added.
#[derive(Debug)]
pub struct AddOptions {
    pub user_id: Option<String>,
    pub agent_id: Option<String>,
    pub run_id: Option<String>,
    pub metadata: Option<TextMap<JsonValue>>,
    pub memory_type: Option<MemoryType>,
    /// Whether facts are drawn out of the messages, or the messages stored as they are.
    pub infer: bool,
}

/// [`AddOptions`], as contracts see it.
#[verifier::ext_equal]
pub struct AddOptionsView {
    pub user_id: Option<Seq<char>>,
    pub agent_id: Option<Seq<char>>,
    pub run_id: Option<Seq<char>>,
    pub metadata: Option<Map<Seq<char>, JsonView>>,
    pub memory_type: Option<MemoryType>,
    pub infer: bool,
}

impl View for AddOptions {
    type V = AddOptionsView;

    open spec fn view(&self) -> AddOptionsView {
        AddOptionsView {
            user_id: opt_view(self.user_id),
            agent_id: opt_view(self.agent_id),
            run_id: opt_view(self.run_id),
            metadata: opt_members(self.metadata),
            memory_type: self.memory_type,
            infer: self.infer,
        }
    }
}

impl Duplicate for AddOptions {
    fn duplicate(&self) -> (r: Self) {
        AddOptions {
            user_id: copy_opt(&self.user_id),
            agent_id: copy_opt(&self.agent_id),
            run_id: copy_opt(&self.run_id),
            metadata: copy_opt_members(&self.metadata),
            memory_type: self.memory_type,
            infer: self.infer,
        }
    }
}

/// How memories are searched.
#[derive(Debug)]
pub struct SearchOptions {
    pub user_id: Option<String>,
    pub agent_id: Option<String>,
    pub run_id: Option<String>,
    pub memory_type: Option<MemoryType>,
    pub limit: Option<usize>,
    pub threshold: Option<Score>,
    pub filters: Option<Filters>,
    pub rerank: bool,
}

/// [`SearchOptions`], as contracts see it.
#[verifier::ext_equal]
pub struct SearchOptionsView {
    pub user_id: Option<Seq<char>>,
    pub agent_id: Option<Seq<char>>,
    pub run_id: Option<Seq<char>>,
    pub memory_type: Option<MemoryType>,
    pub limit: Option<usize>,
    pub threshold: Option<Score>,
    pub filters: Option<FiltersView>,
    pub rerank: bool,
}

impl View for SearchOptions {
    type V = SearchOptionsView;

    open spec fn view(&self) -> SearchOptionsView {
        SearchOptionsView {
            user_id: opt_view(self.user_id),
            agent_id: opt_view(self.agent_id),
            run_id: opt_view(self.run_id),
            memory_type: self.memory_type,
            limit: self.limit,
            threshold: self.threshold,
            filters: opt_view(self.filters),
            rerank: self.rerank,
        }
    }
}

impl Duplicate for SearchOptions {
    fn duplicate(&self) -> (r: Self) {
        SearchOptions {
            user_id: copy_opt(&self.user_id),
            agent_id: copy_opt(&self.agent_id),
            run_id: copy_opt(&self.run_id),
            memory_type: self.memory_type,
            limit: self.limit,
            threshold: self.threshold,
            filters: copy_opt(&self.filters),
            rerank: self.rerank,
        }
    }
}

/// Which memories are listed.
#[derive(Debug)]
pub struct GetAllOptions {
    pub user_id: Option<String>,
    pub agent_id: Option<String>,
    pub run_id: Option<String>,
    pub memory_type: Option<MemoryType>,
    pub limit: Option<usize>,
}

/// [`GetAllOptions`], as contracts see it.
#[verifier::ext_equal]
pub struct GetAllOptionsView {
    pub user_id: Option<Seq<char>>,
    pub agent_id: Option<Seq<char>>,
    pub run_id: Option<Seq<char>>,
    pub memory_type: Option<MemoryType>,
    pub limit: Option<usize>,
}

impl View for GetAllOptions {
    type V = GetAllOptionsView;

    open spec fn view(&self) -> GetAllOptionsView {
        GetAllOptionsView {
            user_id: opt_view(self.user_id),
            agent_id: opt_view(self.agent_id),
            run_id: opt_view(self.run_id),
            memory_type: self.memory_type,
            limit: self.limit,
        }
    }
}

impl Duplicate for GetAllOptions {
    fn duplicate(&self) -> (r: Self) {
        GetAllOptions {
            user_id: copy_opt(&self.user_id),
            agent_id: copy_opt(&self.agent_id),
            run_id: copy_opt(&self.run_id),
            memory_type: self.memory_type,
            limit: self.limit,
        }
    }
}

/// Which memories are deleted at once.
#[derive(Debug)]
pub struct ResetOptions {
    pub user_id: Option<String>,
    pub agent_id: Option<String>,
    pub run_id: Option<String>,
}

/// [`ResetOptions`], as contracts see it.
#[verifier::ext_equal]
pub struct ResetOptionsView {
    pub user_id: Option<Seq<char>>,
    pub agent_id: Option<Seq<char>>,
    pub run_id: Option<Seq<char>>,
}

impl View for ResetOptions {
    type V = ResetOptionsView;

    open spec fn view(&self) -> ResetOptionsView {
        ResetOptionsView {
            user_id: opt_view(self.user_id),
            agent_id: opt_view(self.agent_id),
            run_id: opt_view(self.run_id),
        }
    }
}

impl Duplicate for ResetOptions {
    fn duplicate(&self) -> (r: Self) {
        ResetOptions {
            user_id: copy_opt(&self.user_id),
            agent_id: copy_opt(&self.agent_id),
            run_id: copy_opt(&self.run_id),
        }
    }
}

/// On whose behalf a memory is updated.
#[derive(Debug)]
pub struct UpdateOptions {
    pub user_id: Option<String>,
    pub agent_id: Option<String>,
    pub run_id: Option<String>,
}

/// [`UpdateOptions`], as contracts see it.
#[verifier::ext_equal]
pub struct UpdateOptionsView {
    pub user_id: Option<Seq<char>>,
    pub agent_id: Option<Seq<char>>,
    pub run_id: Option<Seq<char>>,
}

impl View for UpdateOptions {
    type V = UpdateOptionsView;

    open spec fn view(&self) -> UpdateOptionsView {
        UpdateOptionsView {
            user_id: opt_view(self.user_id),
            agent_id: opt_view(self.agent_id),
            run_id: opt_view(self.run_id),
        }
    }
}

impl Duplicate for UpdateOptions {
    fn duplicate(&self) -> (r: Self) {
        UpdateOptions {
            user_id: copy_opt(&self.user_id),
            agent_id: copy_opt(&self.agent_id),
            run_id: copy_opt(&self.run_id),
        }
    }
}

/// On whose behalf a memory is deleted.
#[derive(Debug)]
pub struct DeleteOptions {
    pub user_id: Option<String>,
    pub agent_id: Option<String>,
    pub run_id: Option<String>,
}

/// [`DeleteOptions`], as contracts see it.
#[verifier::ext_equal]
pub struct DeleteOptionsView {
    pub user_id: Option<Seq<char>>,
    pub agent_id: Option<Seq<char>>,
    pub run_id: Option<Seq<char>>,
}

impl View for DeleteOptions {
    type V = DeleteOptionsView;

    open spec fn view(&self) -> DeleteOptionsView {
        DeleteOptionsView {
            user_id: opt_view(self.user_id),
            agent_id: opt_view(self.agent_id),
            run_id: opt_view(self.run_id),
        }
    }
}

impl Duplicate for DeleteOptions {
    fn duplicate(&self) -> (r: Self) {
        DeleteOptions {
            user_id: copy_opt(&self.user_id),
            agent_id: copy_opt(&self.agent_id),
            run_id: copy_opt(&self.run_id),
        }
    }
}

/// What the members of an optional JSON object are.
pub open spec fn opt_members(members: Option<TextMap<JsonValue>>) -> Option<
    Map<Seq<char>, JsonView>,
> {
    match members {
        Some(m) => Some(json_members(m@)),
        None => None,
    }
}

/// A copy of the members of an optional JSON object.
pub(crate) fn copy_opt_members(members: &Option<TextMap<JsonValue>>) -> (r: Option<
    TextMap<JsonValue>,
>)
    ensures
        opt_members(r) == opt_members(*members),
{
    match members {
        Some(m) => Some(copy_members(m)),
        None => None,
    }
}

/// The name of a kind of memory.
pub open spec fn memory_type_text(t: MemoryType) -> Seq<char> {
    match t {
        MemoryType::Semantic => "semantic_memory"@,
        MemoryType::Episodic => "episodic_memory"@,
        MemoryType::Procedural => "procedural_memory"@,
    }
}

/// The kind of memory that has the name.
pub open spec fn memory_type_named(text: Seq<char>) -> Option<MemoryType> {
    if text == "semantic_memory"@ {
        Some(MemoryType::Semantic)
    } else if text == "episodic_memory"@ {
        Some(MemoryType::Episodic)
    } else if text == "procedural_memory"@ {
        Some(MemoryType::Procedural)
    } else {
        None
    }
}

/// The name of an optional kind of memory.
pub open spec fn opt_memory_type_text(t: Option<MemoryType>) -> Option<Seq<char>> {
    match t {
        Some(t) => Some(memory_type_text(t)),
        None => None,
    }
}

/// A kind of memory is found again by its name.
pub proof fn memory_types_have_their_names(t: MemoryType)
    ensures
        memory_type_named(memory_type_text(t)) == Some(t),
{
    reveal_strlit("semantic_memory");
    reveal_strlit("episodic_memory");
    reveal_strlit("procedural_memory");
    assert("semantic_memory"@[0] != "episodic_memory"@[0]);
    assert("semantic_memory"@[0] != "procedural_memory"@[0]);
    assert("episodic_memory"@[0] != "procedural_memory"@[0]);
}

impl MemoryType {
    /// The name of the kind.
    pub fn to_text(&self) -> (r: String)
        ensures
            r@ == memory_type_text(*self),
    {
        match self {
            MemoryType::Semantic => "semantic_memory".to_owned(),
            MemoryType::Episodic => "episodic_memory".to_owned(),
            MemoryType::Procedural => "procedural_memory".to_owned(),
        }
    }

    /// The kind that has a name.
    pub fn from_text(text: &str) -> (r: Option<MemoryType>)
        ensures
            r == memory_type_named(text@),
    {
        if text_eq(text, "semantic_memory") {
            Some(MemoryType::Semantic)
        } else if text_eq(text, "episodic_memory") {
            Some(MemoryType::Episodic)
        } else if text_eq(text, "procedural_memory") {
            Some(MemoryType::Procedural)
        } else {
            None
        }
    }
}

/// The name of an optional kind of memory.
pub(crate) fn opt_memory_type_to_text(t: Option<MemoryType>) -> (r: Option<String>)
    ensures
        opt_view(r) == opt_memory_type_text(t),
{
    match t {
        Some(t) => Some(t.to_text()),
        None => None,
    }
}

/// The name of an event.
pub open spec fn event_text(event: EventType) -> Seq<char> {
    match event {
        EventType::Add => "ADD"@,
        EventType::Update => "UPDATE"@,
        EventType::Delete => "DELETE"@,
        EventType::Noop => "NOOP"@,
    }
}

/// The event that has the name; a name that no event has stands for none.
pub open spec fn event_named(text: Seq<char>) -> EventType {
    if text == "ADD"@ {
        EventType::Add
    } else if text == "UPDATE"@ {
        EventType::Update
    } else if text == "DELETE"@ {
        EventType::Delete
    } else {
        EventType::Noop
    }
}

/// The names of the events are those of no other event.
pub proof fn event_names_differ()
    ensures
        "ADD"@ != "UPDATE"@,
        "ADD"@ != "DELETE"@,
        "ADD"@ != "NOOP"@,
        "UPDATE"@ != "DELETE"@,
        "UPDATE"@ != "NOOP"@,
        "DELETE"@ != "NOOP"@,
{
    reveal_strlit("ADD");
    reveal_strlit("UPDATE");
    reveal_strlit("DELETE");
    reveal_strlit("NOOP");
    assert("ADD"@.len() == 3);
    assert("NOOP"@.len() == 4);
    assert("UPDATE"@[0] != "DELETE"@[0]);
}

/// An event is found again by its name.
pub proof fn events_have_their_names(event: EventType)
    ensures
        event_named(event_text(event)) == event,
{
    event_names_differ();
}

impl EventType {
    /// The name of the event.
    pub fn to_text(&self) -> (r: String)
        ensures
            r@ == event_text(*self),
    {
        match self {
            EventType::Add => "ADD".to_owned(),
            EventType::Update => "UPDATE".to_owned(),
            EventType::Delete => "DELETE".to_owned(),
            EventType::Noop => "NOOP".to_owned(),
        }
    }

    /// The event that has a name; none for a name that no event has.
    pub fn from_text(text: &str) -> (r: EventType)
        ensures
            r == event_named(text@),
    {
        if text_eq(text, "ADD") {
            EventType::Add
        } else if text_eq(text, "UPDATE") {
            EventType::Update
        } else if text_eq(text, "DELETE") {
            EventType::Delete
        } else {
            EventType::Noop
        }
    }
}

/// The name of a speaker.
pub open spec fn role_text(role: Role) -> Seq<char> {
    match role {
        Role::System => "System"@,
        Role::User => "User"@,
        Role::Assistant => "Assistant"@,
    }
}

impl Role {
    /// The name of the speaker.
    pub fn to_text(&self) -> (r: &'static str)
        ensures
            r@ == role_text(*self),
    {
        match self {
            Role::System => "System",
            Role::User => "User",
            Role::Assistant => "Assistant",
        }
    }
}

impl Message {
    /// A message of the system.
    pub fn system(content: &str) -> (r: Message)
        ensures
            r@ == (MessageView { role: Role::System, content: content@ }),
    {
        Message { role: Role::System, content: content.to_owned() }
    }

    /// A message of the user.
    pub fn user(content: &str) -> (r: Message)
        ensures
            r@ == (MessageView { role: Role::User, content: content@ }),
    {
        Message { role: Role::User, content: content.to_owned() }
    }

    /// A message of the assistant.
    pub fn assistant(content: &str) -> (r: Message)
        ensures
            r@ == (MessageView { role: Role::Assistant, content: content@ }),
    {
        Message { role: Role::Assistant, content: content.to_owned() }
    }
}

/// The payload that a memory is stored with.
pub open spec fn payload_of(record: MemoryRecordView) -> PayloadView {
    PayloadView {
        data: record.content,
        hash: record.hash,
        created_at: record.created_at,
        user_id: record.user_id,
        agent_id: record.agent_id,
        run_id: record.run_id,
        memory_type: record.memory_type,
        metadata: record.metadata,
    }
}

/// The memory that a store gave back. An identifier that is no UUID counts as the nil UUID.
pub open spec fn record_of(found: VectorSearchResultView) -> MemoryRecordView {
    MemoryRecordView {
        id: uuid_or_nil(found.id),
        content: found.payload.data,
        metadata: found.payload.metadata,
        user_id: found.payload.user_id,
        agent_id: found.payload.agent_id,
        run_id: found.payload.run_id,
        memory_type: found.payload.memory_type,
        hash: found.payload.hash,
        created_at: found.payload.created_at,
    }
}

/// A stored memory is the one that was stored: writing its payload and reading it back under the
/// same identifier gives the memory.
pub proof fn stored_records_are_read_back(record: MemoryRecordView, score: Score)
    ensures
        record_of(
            VectorSearchResultView {
                id: crate::ids::uuid_text(record.id),
                score,
                payload: payload_of(record),
            },
        ) == record,
{
    crate::ids::uuid_text_is_read_back(record.id);
}

impl MemoryRecord {
    /// The payload that the memory is stored with.
    pub fn to_payload(&self) -> (r: Payload)
        ensures
            r@ == payload_of(self@),
    {
        Payload {
            data: self.content.clone(),
            hash: self.hash.clone(),
            created_at: self.created_at,
            user_id: copy_opt(&self.user_id),
            agent_id: copy_opt(&self.agent_id),
            run_id: copy_opt(&self.run_id),
            memory_type: self.memory_type,
            metadata: copy_members(&self.metadata),
        }
    }

    /// The identifier under which the memory is stored.
    pub fn key(&self) -> (r: String)
        ensures
            r@ == crate::ids::uuid_text(self.id),
    {
        uuid_to_string(self.id)
    }
}

impl VectorSearchResult {
    /// The memory that was found.
    pub fn to_memory_record(&self) -> (r: MemoryRecord)
        ensures
            r@ == record_of(self@),
    {
        MemoryRecord {
            id: uuid_or_default(self.id.as_str()),
            content: self.payload.data.clone(),
            metadata: copy_members(&self.payload.metadata),
            user_id: copy_opt(&self.payload.user_id),
            agent_id: copy_opt(&self.payload.agent_id),
            run_id: copy_opt(&self.payload.run_id),
            memory_type: self.payload.memory_type,
            hash: self.payload.hash.clone(),
            created_at: self.payload.created_at,
        }
    }

    /// The memory that was found, with its score.
    pub fn to_scored_memory(&self) -> (r: ScoredMemory)
        ensures
            r@ == (ScoredMemoryView { record: record_of(self@), score: self.score }),
    {
        ScoredMemory { record: self.to_memory_record(), score: self.score }
    }
}

impl Default for AddOptions {
    fn default() -> (r: Self)
        ensures
            r@ == (AddOptionsView {
                user_id: None,
                agent_id: None,
                run_id: None,
                metadata: None,
                memory_type: None,
                infer: true,
            }),
    {
        AddOptions {
            user_id: None,
            agent_id: None,
            run_id: None,
            metadata: None,
            memory_type: None,
            infer: true,
        }
    }
}

impl Default for SearchOptions {
    fn default() -> (r: Self)
        ensures
            r@ == (SearchOptionsView {
                user_id: None,
                agent_id: None,
                run_id: None,
                memory_type: None,
                limit: None,
                threshold: None,
                filters: None,
                rerank: false,
            }),
    {
        SearchOptions {
            user_id: None,
            agent_id: None,
            run_id: None,
            memory_type: None,
            limit: None,
            threshold: None,
            filters: None,
            rerank: false,
        }
    }
}

impl AddOptions {
    /// Options for the memories of a user.
    pub fn for_user(user_id: &str) -> (r: Self)
        ensures
            r@ == (AddOptionsView {
                user_id: Some(user_id@),
                agent_id: None,
                run_id: None,
                metadata: None,
                memory_type: None,
                infer: true,
            }),
    {
        let mut r = AddOptions::default();
        r.user_id = Some(user_id.to_owned());
        r
    }

    /// The same options, with messages stored as they are.
    pub fn raw(self) -> (r: Self)
        ensures
            r@ == (AddOptionsView { infer: false, ..self@ }),
    {
        let mut r = self;
        r.infer = false;
        r
    }
}

} // verus!
