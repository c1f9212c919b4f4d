//! Adding memories: messages as they are, or the facts that a language model finds in them.
use vstd::prelude::*;

use crate::errors::{LLMError, LLMErrorView, MemoryError, MemoryErrorView};
use crate::ids::{parse_uuid, uuid_of, uuid_text};
use crate::json::{copy_members, JsonValue, JsonView};
use crate::memory::manager::{
    change_of, describe_change, DeleteRun, DeleteRunView, Finished,
    Memory, UpdateRun, UpdateRunView,
};
use crate::memory::prompts::{
    assistant_speaks, conversation, fact_question, format_conversation,
    format_fact_extraction_input, format_memory_update_input, should_use_agent_extraction,
    text_pairs, update_question, AGENT_FACT_EXTRACTION_PROMPT, FACT_EXTRACTION_PROMPT,
    MEMORY_UPDATE_PROMPT,
};
use crate::memory::protocol::{
    break_off, broken_off, failed, Command, CommandView, Encoding, EncodingView, Fresh, FreshView,
    MemoryAction, MemoryActionView, Progress, ProgressView, Reply, ReplyView, Run,
};
use crate::memory::scope::{build_scope_filters, scope_filters};
use crate::models::{
    payload_of, AddOptions, AddOptionsView, EventType, MemoryEvent, MemoryEventView, MemoryRecord,
    MemoryRecordView, Message, MessageView, PayloadView, Role, VectorSearchResult,
    VectorSearchResultView,
};
use crate::text::{
    ascii_uppercase, decimal, decimal_is_injective, decimal_text, is_ascii_text, opt_eq, text_eq,
    to_uppercase, uppercase_of,
};
use crate::text_map::TextMap;
use crate::views::{copy_opt, opt_view, views, Duplicate};

verus! {

/// How many memories are looked up for a fact.
pub const RELATED_LIMIT: usize = 5;

/// What an addition did, in order.
#[derive(Debug)]
pub struct AddResult {
    pub results: Vec<MemoryEvent>,
}

/// [`AddResult`], as contracts see it.
#[verifier::ext_equal]
pub struct AddResultView {
    pub results: Seq<MemoryEventView>,
}

impl View for AddResult {
    type V = AddResultView;

    open spec fn view(&self) -> AddResultView {
        AddResultView {
            results: views(self.results@),
        }
    }
}

/// A stored memory that is named to the language model, by its place in a list.
#[derive(Debug)]
pub struct KnownMemory {
    /// The identifier under which it is stored.
    pub id: String,
    pub content: String,
}

/// [`KnownMemory`], as contracts see it.
#[verifier::ext_equal]
pub struct KnownMemoryView {
    pub id: Seq<char>,
    pub content: Seq<char>,
}

impl View for KnownMemory {
    type V = KnownMemoryView;

    open spec fn view(&self) -> KnownMemoryView {
        KnownMemoryView {
            id: self.id@,
            content: self.content@,
        }
    }
}

/// One thing to do to the memories.
#[derive(Debug)]
pub enum Task {
    /// Store a new memory.
    Add { text: String },
    /// Replace the content of a stored memory.
    Update { id: String, content: String, previous: String },
    /// Delete a stored memory.
    Delete { id: String },
    /// Note on a stored memory that an agent or a session met it again.
    Touch { id: String },
}

/// [`Task`], as contracts see it.
#[verifier::ext_equal]
pub enum TaskView {
    Add { text: Seq<char> },
    Update { id: Seq<char>, content: Seq<char>, previous: Seq<char> },
    Delete { id: Seq<char> },
    Touch { id: Seq<char> },
}

impl View for Task {
    type V = TaskView;

    open spec fn view(&self) -> TaskView {
        match self {
            Task::Add { text } => TaskView::Add {
                text: text@,
            },
            Task::Update { id, content, previous } => TaskView::Update {
                id: id@,
                content: content@,
                previous: previous@,
            },
            Task::Delete { id } => TaskView::Delete {
                id: id@,
            },
            Task::Touch { id } => TaskView::Touch {
                id: id@,
            },
        }
    }
}

/// What an addition knows.
#[derive(Debug)]
pub struct AddCore {
    pub memory: Memory,
    pub options: AddOptions,
    /// Whether no text is encoded twice.
    pub caching: bool,
    /// What stands for the texts that were encoded.
    pub cache: TextMap<Encoding>,
    /// The facts that were found.
    pub facts: Vec<String>,
    /// Those of them for which nothing was looked up yet.
    pub left: Vec<String>,
    /// The stored memories that are related to the facts.
    pub known: Vec<KnownMemory>,
    /// What is to be done.
    pub todo: Vec<Task>,
    /// What has been done.
    pub events: Vec<MemoryEvent>,
}

/// [`AddCore`], as contracts see it.
#[verifier::ext_equal]
pub struct AddCoreView {
    pub memory: Memory,
    pub options: AddOptionsView,
    pub caching: bool,
    pub cache: Map<Seq<char>, EncodingView>,
    pub facts: Seq<Seq<char>>,
    pub left: Seq<Seq<char>>,
    pub known: Seq<KnownMemoryView>,
    pub todo: Seq<TaskView>,
    pub events: Seq<MemoryEventView>,
}

impl View for AddCore {
    type V = AddCoreView;

    open spec fn view(&self) -> AddCoreView {
        AddCoreView {
            memory: self.memory,
            options: self.options@,
            caching: self.caching,
            cache: encodings(self.cache@),
            facts: views(self.facts@),
            left: views(self.left@),
            known: views(self.known@),
            todo: views(self.todo@),
            events: views(self.events@),
        }
    }
}

/// What an addition waits for.
#[derive(Debug)]
pub enum AddPhase {
    /// The facts.
    Facts,
    /// The encoding of a fact.
    FactEncoding { fact: String },
    /// The memories that are related to a fact.
    FactHits,
    /// What to do about the facts.
    Actions,
    /// The encoding of a new memory.
    NewEncoding { text: String, fresh: Fresh },
    /// A new memory to be stored.
    Inserting { record: MemoryRecord },
    /// The change to be kept.
    Recording { record: MemoryRecord },
    /// An update.
    Updating { update: UpdateRun, content: String, previous: String },
    /// A deletion.
    Deleting { deletion: DeleteRun, id: String },
    /// A memory that was met again.
    Touching { id: String },
    /// A memory that was met again to be replaced.
    Touched,
}

/// [`AddPhase`], as contracts see it.
#[verifier::ext_equal]
pub enum AddPhaseView {
    Facts,
    FactEncoding { fact: Seq<char> },
    FactHits,
    Actions,
    NewEncoding { text: Seq<char>, fresh: FreshView },
    Inserting { record: MemoryRecordView },
    Recording { record: MemoryRecordView },
    Updating { update: UpdateRunView, content: Seq<char>, previous: Seq<char> },
    Deleting { deletion: DeleteRunView, id: Seq<char> },
    Touching { id: Seq<char> },
    Touched,
}

impl View for AddPhase {
    type V = AddPhaseView;

    open spec fn view(&self) -> AddPhaseView {
        match self {
            AddPhase::Facts => AddPhaseView::Facts,
            AddPhase::FactEncoding { fact } => AddPhaseView::FactEncoding {
                fact: fact@,
            },
            AddPhase::FactHits => AddPhaseView::FactHits,
            AddPhase::Actions => AddPhaseView::Actions,
            AddPhase::NewEncoding { text, fresh } => AddPhaseView::NewEncoding {
                text: text@,
                fresh: fresh@,
            },
            AddPhase::Inserting { record } => AddPhaseView::Inserting {
                record: record@,
            },
            AddPhase::Recording { record } => AddPhaseView::Recording {
                record: record@,
            },
            AddPhase::Updating { update, content, previous } => AddPhaseView::Updating {
                update: update@,
                content: content@,
                previous: previous@,
            },
            AddPhase::Deleting { deletion, id } => AddPhaseView::Deleting {
                deletion: deletion@,
                id: id@,
            },
            AddPhase::Touching { id } => AddPhaseView::Touching {
                id: id@,
            },
            AddPhase::Touched => AddPhaseView::Touched,
        }
    }
}

/// An addition on its way.
#[derive(Debug)]
pub struct AddRun {
    pub core: AddCore,
    pub phase: AddPhase,
}

/// [`AddRun`], as contracts see it.
#[verifier::ext_equal]
pub struct AddRunView {
    pub core: AddCoreView,
    pub phase: AddPhaseView,
}

impl View for AddRun {
    type V = AddRunView;

    open spec fn view(&self) -> AddRunView {
        AddRunView {
            core: self.core@,
            phase: self.phase@,
        }
    }
}

/// What stands for texts.
pub open spec fn encodings(cache: Map<Seq<char>, Encoding>) -> Map<Seq<char>, EncodingView> {
    cache.map_values(|e: Encoding| e@)
}

/// A new memory of a text.
pub open spec fn new_record(
    options: AddOptionsView,
    text: Seq<char>,
    hash: Seq<char>,
    fresh: FreshView,
) -> MemoryRecordView {
    MemoryRecordView {
        id: fresh.id,
        content: text,
        metadata: match options.metadata {
            Some(m) => m,
            None => Map::empty(),
        },
        user_id: options.user_id,
        agent_id: options.agent_id,
        run_id: options.run_id,
        memory_type: options.memory_type,
        hash,
        created_at: fresh.now,
    }
}

/// Makes a new memory of a text.
fn make_record(options: &AddOptions, text: &String, hash: String, fresh: Fresh) -> (r: MemoryRecord)
    ensures
        r@ == new_record(options@, text@, hash@, fresh@),
{
    let metadata: TextMap<JsonValue> = match &options.metadata {
        Some(m) => copy_members(m),
        None => {
            let none: TextMap<JsonValue> = TextMap::new();
            proof {
                assert(crate::json::json_members(none@) =~= Map::<Seq<char>, JsonView>::empty());
            }
            none
        },
    };
    MemoryRecord {
        id: fresh.id,
        content: text.clone(),
        metadata,
        user_id: copy_opt(&options.user_id),
        agent_id: copy_opt(&options.agent_id),
        run_id: copy_opt(&options.run_id),
        memory_type: options.memory_type,
        hash,
        created_at: fresh.now,
    }
}

/// What the result says of a new memory.
pub open spec fn added(record: MemoryRecordView) -> MemoryEventView {
    MemoryEventView {
        id: record.id,
        memory: record.content,
        event: EventType::Add,
        previous_memory: None,
    }
}

/// Some known memory is stored under the identifier.
pub open spec fn is_known(known: Seq<KnownMemoryView>, id: Seq<char>) -> bool {
    exists|i: int| 0 <= i < known.len() && (#[trigger] known[i]).id == id
}

/// The known memories with those that were found and are not among them yet.
pub open spec fn noted(known: Seq<KnownMemoryView>, found: Seq<VectorSearchResultView>) -> Seq<
    KnownMemoryView,
>
    decreases found.len(),
{
    if found.len() == 0 {
        known
    } else {
        let before = noted(known, found.drop_last());
        let last = found.last();
        if is_known(before, last.id) {
            before
        } else {
            before.push(KnownMemoryView { id: last.id, content: last.payload.data })
        }
    }
}

/// The known memory with the name: its place in the list, in decimal.
pub open spec fn named(known: Seq<KnownMemoryView>, name: Seq<char>) -> Option<KnownMemoryView> {
    if exists|i: int| 0 <= i < known.len() && #[trigger] decimal(i as nat) == name {
        Some(known[choose|i: int| 0 <= i < known.len() && #[trigger] decimal(i as nat) == name])
    } else {
        None
    }
}

/// The known memories with their names.
pub open spec fn names(known: Seq<KnownMemoryView>) -> Seq<(Seq<char>, Seq<char>)> {
    Seq::new(known.len(), |i: int| (decimal(i as nat), known[i].content))
}

/// What to do about an action of which the event is known: nothing, if it names a memory that is
/// not known, lacks what it needs, or if the event is none that there is.
pub open spec fn planned_for(
    event: Seq<char>,
    action: MemoryActionView,
    known: Seq<KnownMemoryView>,
    options: AddOptionsView,
) -> Option<TaskView> {
    let memory = match action.id {
        Some(name) => named(known, name),
        None => None,
    };
    if event == "ADD"@ {
        match action.text {
            Some(text) => Some(TaskView::Add { text }),
            None => None,
        }
    } else if event == "UPDATE"@ {
        match (memory, action.text) {
            (Some(m), Some(text)) => Some(
                TaskView::Update { id: m.id, content: text, previous: m.content },
            ),
            _ => None,
        }
    } else if event == "DELETE"@ {
        match memory {
            Some(m) => Some(TaskView::Delete { id: m.id }),
            None => None,
        }
    } else if event == "NOOP"@ {
        match memory {
            Some(m) if options.agent_id is Some || options.run_id is Some => Some(
                TaskView::Touch { id: m.id },
            ),
            _ => None,
        }
    } else {
        None
    }
}

/// What to do about an action. Its event may be in any case.
pub open spec fn planned(
    action: MemoryActionView,
    known: Seq<KnownMemoryView>,
    options: AddOptionsView,
) -> Option<TaskView> {
    planned_for(uppercase_of(action.event), action, known, options)
}

/// What to do about some actions, in order.
pub open spec fn plan(
    actions: Seq<MemoryActionView>,
    known: Seq<KnownMemoryView>,
    options: AddOptionsView,
) -> Seq<TaskView> {
    actions.filter_map(|a: MemoryActionView| planned(a, known, options))
}

/// What to do about a message that is stored as it is. Messages of the system are not stored.
pub open spec fn raw_task(message: MessageView) -> Option<TaskView> {
    if message.role == Role::System {
        None
    } else {
        Some(TaskView::Add { text: message.content })
    }
}

/// What to do about messages that are stored as they are, in order.
pub open spec fn raw_tasks(messages: Seq<MessageView>) -> Seq<TaskView> {
    messages.filter_map(|m: MessageView| raw_task(m))
}

/// A payload that an agent and a session, where given, have met again.
pub open spec fn touched(payload: PayloadView, options: AddOptionsView) -> PayloadView {
    PayloadView {
        agent_id: if options.agent_id is Some {
            options.agent_id
        } else {
            payload.agent_id
        },
        run_id: if options.run_id is Some {
            options.run_id
        } else {
            payload.run_id
        },
        ..payload
    }
}

/// The addition waits for a phase to end.
pub open spec fn waiting(
    command: CommandView,
    core: AddCoreView,
    phase: AddPhaseView,
) -> ProgressView<AddRunView, AddResultView> {
    ProgressView::Ask(command, AddRunView { core, phase })
}

/// The scope within which memories are related.
pub open spec fn related_scope(options: AddOptionsView) -> Option<crate::models::FiltersView> {
    scope_filters(options.user_id, options.agent_id, options.run_id, options.memory_type)
}

/// The addition looks up what is related to an embedding.
pub open spec fn relate(core: AddCoreView, embedding: Seq<u32>) -> ProgressView<
    AddRunView,
    AddResultView,
> {
    waiting(
        CommandView::Query {
            embedding,
            limit: RELATED_LIMIT,
            filters: related_scope(core.options),
        },
        core,
        AddPhaseView::FactHits,
    )
}

/// The question what to do about the facts.
pub open spec fn action_question(core: AddCoreView) -> Seq<MessageView> {
    seq![
        MessageView { role: Role::System, content: MEMORY_UPDATE_PROMPT@ },
        MessageView { role: Role::User, content: update_question(names(core.known), core.facts) },
    ]
}

/// The addition turns to the next fact, or to what to do about all of them.
pub open spec fn look_up(core: AddCoreView) -> ProgressView<AddRunView, AddResultView> {
    if core.left.len() == 0 {
        waiting(
            CommandView::AskActions { messages: action_question(core) },
            core,
            AddPhaseView::Actions,
        )
    } else {
        let fact = core.left[0];
        let rest = AddCoreView { left: core.left.skip(1), ..core };
        if core.cache.contains_key(fact) {
            relate(rest, core.cache[fact].embedding)
        } else {
            waiting(
                CommandView::Encode { text: fact },
                rest,
                AddPhaseView::FactEncoding { fact },
            )
        }
    }
}

/// The addition stores a new memory.
pub open spec fn store_new(
    core: AddCoreView,
    record: MemoryRecordView,
    embedding: Seq<u32>,
) -> ProgressView<AddRunView, AddResultView> {
    waiting(
        CommandView::Insert {
            id: uuid_text(record.id),
            embedding,
            payload: payload_of(record),
        },
        core,
        AddPhaseView::Inserting { record },
    )
}

/// The addition begins a task.
pub open spec fn begin(core: AddCoreView, task: TaskView, fresh: FreshView) -> ProgressView<
    AddRunView,
    AddResultView,
> {
    match task {
        TaskView::Add { text } => {
            if core.caching && core.cache.contains_key(text) {
                let encoding = core.cache[text];
                store_new(
                    core,
                    new_record(core.options, text, encoding.hash, fresh),
                    encoding.embedding,
                )
            } else {
                waiting(
                    CommandView::Encode { text },
                    core,
                    AddPhaseView::NewEncoding { text, fresh },
                )
            }
        },
        TaskView::Update { id, content, previous } => waiting(
            CommandView::Fetch { id },
            core,
            AddPhaseView::Updating {
                update: UpdateRunView::Fetching {
                    id,
                    content,
                    caller: None,
                    history: core.memory.has_history,
                },
                content,
                previous,
            },
        ),
        TaskView::Delete { id } => waiting(
            CommandView::Fetch { id },
            core,
            AddPhaseView::Deleting {
                deletion: DeleteRunView::Fetching {
                    id,
                    caller: None,
                    history: core.memory.has_history,
                },
                id,
            },
        ),
        TaskView::Touch { id } => waiting(
            CommandView::Fetch { id },
            core,
            AddPhaseView::Touching { id },
        ),
    }
}

/// The addition turns to the next task, or ends.
pub open spec fn proceed(core: AddCoreView, fresh: FreshView) -> ProgressView<
    AddRunView,
    AddResultView,
> {
    if core.todo.len() == 0 {
        ProgressView::Done(Ok(AddResultView { results: core.events }))
    } else {
        begin(AddCoreView { todo: core.todo.skip(1), ..core }, core.todo[0], fresh)
    }
}

/// The addition notes what it did, and turns to the next task.
pub open spec fn proceed_with(
    core: AddCoreView,
    event: MemoryEventView,
    fresh: FreshView,
) -> ProgressView<AddRunView, AddResultView> {
    proceed(AddCoreView { events: core.events.push(event), ..core }, fresh)
}

/// The addition goes on after a step of an update. An update that fails is passed over.
pub open spec fn after_update(
    core: AddCoreView,
    progress: ProgressView<UpdateRunView, MemoryRecordView>,
    content: Seq<char>,
    previous: Seq<char>,
    fresh: FreshView,
) -> ProgressView<AddRunView, AddResultView> {
    match progress {
        ProgressView::Ask(command, update) => waiting(
            command,
            core,
            AddPhaseView::Updating { update, content, previous },
        ),
        ProgressView::Done(Ok(record)) => proceed_with(
            core,
            MemoryEventView {
                id: record.id,
                memory: content,
                event: EventType::Update,
                previous_memory: Some(previous),
            },
            fresh,
        ),
        ProgressView::Done(Err(_)) => proceed(core, fresh),
    }
}

/// The addition goes on after a step of a deletion. A deletion that fails is passed over, and one
/// of a memory whose identifier is no UUID is not told of.
pub open spec fn after_delete(
    core: AddCoreView,
    progress: ProgressView<DeleteRunView, Finished>,
    id: Seq<char>,
    fresh: FreshView,
) -> ProgressView<AddRunView, AddResultView> {
    match progress {
        ProgressView::Ask(command, deletion) => waiting(
            command,
            core,
            AddPhaseView::Deleting { deletion, id },
        ),
        ProgressView::Done(Ok(_)) => match uuid_of(id) {
            Some(uuid) => proceed_with(
                core,
                MemoryEventView {
                    id: uuid as u128,
                    memory: Seq::empty(),
                    event: EventType::Delete,
                    previous_memory: None,
                },
                fresh,
            ),
            None => proceed(core, fresh),
        },
        ProgressView::Done(Err(_)) => proceed(core, fresh),
    }
}

impl Run for AddRun {
    type Output = AddResult;

    open spec fn next(state: AddRunView, reply: ReplyView, fresh: FreshView) -> ProgressView<
        AddRunView,
        AddResultView,
    > {
        let core = state.core;
        match (state.phase, reply) {
            (AddPhaseView::Facts, ReplyView::Facts(facts)) => {
                if facts.len() == 0 {
                    ProgressView::Done(Ok(AddResultView { results: Seq::empty() }))
                } else {
                    look_up(AddCoreView { facts, left: facts, ..core })
                }
            },
            (AddPhaseView::FactEncoding { fact }, ReplyView::Encoded(encoding)) => relate(
                AddCoreView { cache: core.cache.insert(fact, encoding), ..core },
                encoding.embedding,
            ),
            (AddPhaseView::FactHits, ReplyView::Found(found)) => look_up(
                AddCoreView { known: noted(core.known, found), ..core },
            ),
            (AddPhaseView::Actions, ReplyView::Actions(actions)) => proceed(
                AddCoreView { todo: plan(actions, core.known, core.options), ..core },
                fresh,
            ),
            (
                AddPhaseView::NewEncoding { text, fresh: drawn },
                ReplyView::Encoded(encoding),
            ) => store_new(
                AddCoreView {
                    cache: if core.caching {
                        core.cache.insert(text, encoding)
                    } else {
                        core.cache
                    },
                    ..core
                },
                new_record(core.options, text, encoding.hash, drawn),
                encoding.embedding,
            ),
            (AddPhaseView::Inserting { record }, ReplyView::Done) => {
                if core.memory.has_history {
                    waiting(
                        CommandView::Record {
                            change: change_of(
                                record,
                                None,
                                record.content,
                                EventType::Add,
                                record.created_at,
                            ),
                        },
                        core,
                        AddPhaseView::Recording { record },
                    )
                } else {
                    proceed_with(core, added(record), fresh)
                }
            },
            (AddPhaseView::Recording { record }, _) => proceed_with(core, added(record), fresh),
            (AddPhaseView::Updating { update, content, previous }, _) => after_update(
                core,
                UpdateRun::next(update, reply, fresh),
                content,
                previous,
                fresh,
            ),
            (AddPhaseView::Deleting { deletion, id }, _) => after_delete(
                core,
                DeleteRun::next(deletion, reply, fresh),
                id,
                fresh,
            ),
            (AddPhaseView::Touching { id }, ReplyView::Fetched(Some(found))) => {
                let payload = touched(found.payload, core.options);
                if payload != found.payload {
                    waiting(
                        CommandView::Replace { id, new_embedding: None, payload },
                        core,
                        AddPhaseView::Touched,
                    )
                } else {
                    proceed(core, fresh)
                }
            },
            (AddPhaseView::Touching { .. }, _) => proceed(core, fresh),
            (AddPhaseView::Touched, _) => proceed(core, fresh),
            _ => broken_off(reply),
        }
    }

    fn step_at(self, reply: Reply, fresh: Fresh) -> Progress<Self, AddResult> {
        let AddRun { core, phase } = self;
        match (phase, reply) {
            (AddPhase::Facts, Reply::Facts(facts)) => {
                let mut core = core;
                if facts.len() == 0 {
                    let results: Vec<MemoryEvent> = Vec::new();
                    proof {
                        assert(views(facts@).len() == 0);
                        assert(views(results@) =~= Seq::<MemoryEventView>::empty());
                    }
                    Progress::Done(Ok(AddResult { results }))
                } else {
                    core.left = crate::views::copy_vec(&facts);
                    core.facts = facts;
                    turn_to_fact(core)
                }
            },
            (AddPhase::FactEncoding { fact }, Reply::Encoded(encoding)) => {
                let mut core = core;
                remember(&mut core.cache, fact, &encoding);
                query_related(core, encoding.embedding)
            },
            (AddPhase::FactHits, Reply::Found(found)) => {
                let mut core = core;
                note(&mut core.known, &found);
                turn_to_fact(core)
            },
            (AddPhase::Actions, Reply::Actions(actions)) => {
                let mut core = core;
                core.todo = plan_all(&actions, &core.known, &core.options);
                turn_to_task(core, fresh)
            },
            (AddPhase::NewEncoding { text, fresh: drawn }, Reply::Encoded(encoding)) => {
                let mut core = core;
                let record = make_record(&core.options, &text, encoding.hash.clone(), drawn);
                if core.caching {
                    remember(&mut core.cache, text, &encoding);
                }
                insert_new(core, record, encoding.embedding)
            },
            (AddPhase::Inserting { record }, Reply::Done) => {
                if core.memory.has_history {
                    let change = describe_change(
                        &record,
                        None,
                        record.content.clone(),
                        EventType::Add,
                        record.created_at,
                    );
                    Progress::Ask(
                        Command::Record { change },
                        AddRun { core, phase: AddPhase::Recording { record } },
                    )
                } else {
                    finish_new(core, record, fresh)
                }
            },
            (AddPhase::Recording { record }, _) => finish_new(core, record, fresh),
            (AddPhase::Updating { update, content, previous }, reply) => {
                let progress = update.step_at(reply, fresh);
                go_on_after_update(core, progress, content, previous, fresh)
            },
            (AddPhase::Deleting { deletion, id }, reply) => {
                let progress = deletion.step_at(reply, fresh);
                go_on_after_delete(core, progress, id, fresh)
            },
            (AddPhase::Touching { id }, Reply::Fetched(Some(found))) => {
                let mut payload = found.payload;
                let ghost before = payload@;
                let mut changed = false;
                if core.options.agent_id.is_some() && !opt_eq(
                    &core.options.agent_id,
                    &payload.agent_id,
                ) {
                    payload.agent_id = copy_opt(&core.options.agent_id);
                    changed = true;
                }
                if core.options.run_id.is_some() && !opt_eq(
                    &core.options.run_id,
                    &payload.run_id,
                ) {
                    payload.run_id = copy_opt(&core.options.run_id);
                    changed = true;
                }
                proof {
                    assert(payload@ =~= touched(before, core.options@));
                    assert(changed == (payload@ != before));
                }
                if changed {
                    Progress::Ask(
                        Command::Replace { id, new_embedding: None, payload },
                        AddRun { core, phase: AddPhase::Touched },
                    )
                } else {
                    turn_to_task(core, fresh)
                }
            },
            (AddPhase::Touching { .. }, _) => turn_to_task(core, fresh),
            (AddPhase::Touched, _) => turn_to_task(core, fresh),
            (_, other) => break_off(other),
        }
    }
}

/// Puts what stands for a text into the cache.
fn remember(cache: &mut TextMap<Encoding>, text: String, encoding: &Encoding)
    ensures
        encodings(final(cache)@) == encodings(old(cache)@).insert(text@, encoding@),
{
    let ghost before = encodings(cache@);
    let ghost key = text@;
    cache.insert(text, encoding.duplicate());
    proof {
        assert(encodings(cache@) =~= before.insert(key, encoding@));
    }
}

/// Notes which of the memories that were found are not known yet.
fn note(known: &mut Vec<KnownMemory>, found: &Vec<VectorSearchResult>)
    ensures
        views(final(known)@) == noted(views(old(known)@), views(found@)),
{
    let ghost start = views(known@);
    let ghost all = views(found@);
    let mut i: usize = 0;
    proof {
        assert(all.take(0) =~= Seq::empty());
    }
    while i < found.len()
        invariant
            i <= found@.len(),
            all == views(found@),
            views(known@) == noted(start, all.take(i as int)),
        decreases found@.len() - i,
    {
        let ghost before = views(known@);
        proof {
            assert(all.take(i + 1).drop_last() =~= all.take(i as int));
            assert(all.take(i + 1).last() == found@[i as int]@);
        }
        if !knows(known, found[i].id.as_str()) {
            known.push(
                KnownMemory { id: found[i].id.clone(), content: found[i].payload.data.clone() },
            );
            proof {
                assert(views(known@) =~= before.push(
                    KnownMemoryView {
                        id: found@[i as int]@.id,
                        content: found@[i as int]@.payload.data,
                    },
                ));
            }
        }
        i += 1;
    }
    proof {
        assert(all.take(found@.len() as int) =~= all);
    }
}

/// Whether some known memory is stored under an identifier.
fn knows(known: &Vec<KnownMemory>, id: &str) -> (r: bool)
    ensures
        r == is_known(views(known@), id@),
{
    let ghost all = views(known@);
    let mut i: usize = 0;
    while i < known.len()
        invariant
            i <= known@.len(),
            all == views(known@),
            forall|j: int| 0 <= j < i ==> (#[trigger] all[j]).id != id@,
        decreases known@.len() - i,
    {
        if text_eq(known[i].id.as_str(), id) {
            assert(all[i as int].id == id@);
            return true;
        }
        assert(all[i as int].id == known@[i as int].id@);
        i += 1;
    }
    false
}

/// The place of the known memory with a name.
fn find_named(known: &Vec<KnownMemory>, name: &str) -> (r: Option<usize>)
    ensures
        match r {
            Some(i) => i < known@.len() && named(views(known@), name@) == Some(known@[i as int]@),
            None => named(views(known@), name@) is None,
        },
{
    let ghost all = views(known@);
    let mut i: usize = 0;
    while i < known.len()
        invariant
            i <= known@.len(),
            all == views(known@),
            forall|j: int| 0 <= j < i ==> #[trigger] decimal(j as nat) != name@,
        decreases known@.len() - i,
    {
        if text_eq(decimal_text(i).as_str(), name) {
            proof {
                let at = i as int;
                assert(0 <= at < all.len() && decimal(at as nat) == name@);
                let k = choose|k: int| 0 <= k < all.len() && #[trigger] decimal(k as nat) == name@;
                decimal_is_injective(i as nat, k as nat);
                assert(all[k] == known@[i as int]@);
            }
            return Some(i);
        }
        i += 1;
    }
    None
}

/// What to do about an action of which the event is known.
pub fn plan_event(
    event: &str,
    action: &MemoryAction,
    known: &Vec<KnownMemory>,
    options: &AddOptions,
) -> (r: Option<Task>)
    ensures
        opt_view(r) == planned_for(event@, action@, views(known@), options@),
{
    let memory: Option<usize> = match &action.id {
        Some(name) => find_named(known, name.as_str()),
        None => None,
    };
    if text_eq(event, "ADD") {
        match &action.text {
            Some(text) => Some(Task::Add { text: text.clone() }),
            None => None,
        }
    } else if text_eq(event, "UPDATE") {
        match (memory, &action.text) {
            (Some(i), Some(text)) => Some(
                Task::Update {
                    id: known[i].id.clone(),
                    content: text.clone(),
                    previous: known[i].content.clone(),
                },
            ),
            _ => None,
        }
    } else if text_eq(event, "DELETE") {
        match memory {
            Some(i) => Some(Task::Delete { id: known[i].id.clone() }),
            None => None,
        }
    } else if text_eq(event, "NOOP") {
        match memory {
            Some(i) => {
                if options.agent_id.is_some() || options.run_id.is_some() {
                    Some(Task::Touch { id: known[i].id.clone() })
                } else {
                    None
                }
            },
            None => None,
        }
    } else {
        None
    }
}

/// What to do about an action. Of one whose event is in ASCII it is told what that comes to.
pub fn plan_action(action: &MemoryAction, known: &Vec<KnownMemory>, options: &AddOptions) -> (r:
    Option<Task>)
    ensures
        opt_view(r) == planned(action@, views(known@), options@),
        is_ascii_text(action@.event) ==> opt_view(r) == planned_for(
            ascii_uppercase(action@.event),
            action@,
            views(known@),
            options@,
        ),
{
    let event = to_uppercase(action.event.as_str());
    plan_event(event.as_str(), action, known, options)
}

/// What to do about some actions, in order.
fn plan_all(actions: &Vec<MemoryAction>, known: &Vec<KnownMemory>, options: &AddOptions) -> (r: Vec<
    Task,
>)
    ensures
        views(r@) == plan(views(actions@), views(known@), options@),
{
    let ghost all = views(actions@);
    let ghost choice = |a: MemoryActionView| planned(a, views(known@), options@);
    let mut tasks: Vec<Task> = Vec::new();
    let mut i: usize = 0;
    proof {
        assert(all.take(0) =~= Seq::empty());
        assert(views(tasks@) =~= all.take(0).filter_map(choice));
    }
    while i < actions.len()
        invariant
            i <= actions@.len(),
            all == views(actions@),
            choice == (|a: MemoryActionView| planned(a, views(known@), options@)),
            views(tasks@) == all.take(i as int).filter_map(choice),
        decreases actions@.len() - i,
    {
        let ghost before = views(tasks@);
        proof {
            all.lemma_filter_map_take_succ(choice, i as int);
            assert(all[i as int] == actions@[i as int]@);
        }
        match plan_action(&actions[i], known, options) {
            Some(task) => {
                let ghost t = task@;
                tasks.push(task);
                proof {
                    assert(views(tasks@) =~= before + seq![t]);
                }
            },
            None => {
                proof {
                    assert(before =~= before + Seq::<TaskView>::empty());
                }
            },
        }
        i += 1;
    }
    proof {
        assert(all.take(actions@.len() as int) =~= all);
    }
    tasks
}

/// What to do about messages that are stored as they are.
fn plan_raw(messages: &Vec<Message>) -> (r: Vec<Task>)
    ensures
        views(r@) == raw_tasks(views(messages@)),
{
    let ghost all = views(messages@);
    let ghost choice = |m: MessageView| raw_task(m);
    let mut tasks: Vec<Task> = Vec::new();
    let mut i: usize = 0;
    proof {
        assert(all.take(0) =~= Seq::empty());
        assert(views(tasks@) =~= all.take(0).filter_map(choice));
    }
    while i < messages.len()
        invariant
            i <= messages@.len(),
            all == views(messages@),
            choice == (|m: MessageView| raw_task(m)),
            views(tasks@) == all.take(i as int).filter_map(choice),
        decreases messages@.len() - i,
    {
        let ghost before = views(tasks@);
        proof {
            all.lemma_filter_map_take_succ(choice, i as int);
            assert(all[i as int] == messages@[i as int]@);
        }
        if messages[i].role != Role::System {
            tasks.push(Task::Add { text: messages[i].content.clone() });
            proof {
                assert(views(tasks@) =~= before + seq![
                    TaskView::Add { text: messages@[i as int]@.content },
                ]);
            }
        } else {
            proof {
                assert(before =~= before + Seq::<TaskView>::empty());
            }
        }
        i += 1;
    }
    proof {
        assert(all.take(messages@.len() as int) =~= all);
    }
    tasks
}

/// The known memories with their names.
fn name_known(known: &Vec<KnownMemory>) -> (r: Vec<(String, String)>)
    ensures
        text_pairs(r@) == names(views(known@)),
{
    let mut pairs: Vec<(String, String)> = Vec::new();
    let mut i: usize = 0;
    while i < known.len()
        invariant
            i <= known@.len(),
            pairs@.len() == i,
            forall|j: int|
                0 <= j < i ==> (#[trigger] pairs@[j]).0@ == decimal(j as nat) && pairs@[j].1@
                    == known@[j].content@,
        decreases known@.len() - i,
    {
        pairs.push((decimal_text(i), known[i].content.clone()));
        i += 1;
    }
    proof {
        assert(text_pairs(pairs@) =~= names(views(known@)));
    }
    pairs
}

/// Looks up what is related to an embedding.
fn query_related(core: AddCore, embedding: Vec<u32>) -> (r: Progress<AddRun, AddResult>)
    ensures
        r@ == relate(core@, embedding@),
{
    let filters = build_scope_filters(
        &core.options.user_id,
        &core.options.agent_id,
        &core.options.run_id,
        core.options.memory_type,
    );
    Progress::Ask(
        Command::Query { embedding, limit: RELATED_LIMIT, filters },
        AddRun { core, phase: AddPhase::FactHits },
    )
}

/// Turns to the next fact, or to what to do about all of them.
fn turn_to_fact(core: AddCore) -> (r: Progress<AddRun, AddResult>)
    ensures
        r@ == look_up(core@),
{
    let mut core = core;
    let ghost start = core@;
    if core.left.len() == 0 {
        let pairs = name_known(&core.known);
        let question = format_memory_update_input(pairs.as_slice(), core.facts.as_slice());
        let mut messages: Vec<Message> = Vec::new();
        messages.push(Message::system(MEMORY_UPDATE_PROMPT));
        messages.push(Message::user(question.as_str()));
        proof {
            assert(views(messages@) =~= action_question(core@));
        }
        return Progress::Ask(
            Command::AskActions { messages },
            AddRun { core, phase: AddPhase::Actions },
        );
    }
    let fact = core.left.remove(0);
    proof {
        assert(fact@ == start.left[0]);
        assert(core@.left =~= start.left.skip(1));
        assert(core@ == AddCoreView { left: start.left.skip(1), ..start });
    }
    let cached: Option<Vec<u32>> = match core.cache.get(fact.as_str()) {
        Some(encoding) => Some(crate::views::copy_numbers(&encoding.embedding)),
        None => None,
    };
    match cached {
        Some(embedding) => query_related(core, embedding),
        None => Progress::Ask(
            Command::Encode { text: fact.clone() },
            AddRun { core, phase: AddPhase::FactEncoding { fact } },
        ),
    }
}

/// Stores a new memory.
fn insert_new(core: AddCore, record: MemoryRecord, embedding: Vec<u32>) -> (r: Progress<
    AddRun,
    AddResult,
>)
    ensures
        r@ == store_new(core@, record@, embedding@),
{
    let id = record.key();
    let payload = record.to_payload();
    Progress::Ask(
        Command::Insert { id, embedding, payload },
        AddRun { core, phase: AddPhase::Inserting { record } },
    )
}

/// Begins a task.
fn begin_task(core: AddCore, task: Task, fresh: Fresh) -> (r: Progress<AddRun, AddResult>)
    ensures
        r@ == begin(core@, task@, fresh@),
{
    let history = core.memory.has_history;
    match task {
        Task::Add { text } => {
            let cached: Option<Encoding> = if core.caching {
                match core.cache.get(text.as_str()) {
                    Some(encoding) => Some(encoding.duplicate()),
                    None => None,
                }
            } else {
                None
            };
            match cached {
                Some(encoding) => {
                    let Encoding { embedding, hash } = encoding;
                    let record = make_record(&core.options, &text, hash, fresh);
                    insert_new(core, record, embedding)
                },
                None => Progress::Ask(
                    Command::Encode { text: text.clone() },
                    AddRun { core, phase: AddPhase::NewEncoding { text, fresh } },
                ),
            }
        },
        Task::Update { id, content, previous } => {
            let update = UpdateRun::Fetching {
                id: id.clone(),
                content: content.clone(),
                caller: None,
                history,
            };
            Progress::Ask(
                Command::Fetch { id },
                AddRun { core, phase: AddPhase::Updating { update, content, previous } },
            )
        },
        Task::Delete { id } => {
            let deletion = DeleteRun::Fetching { id: id.clone(), caller: None, history };
            Progress::Ask(
                Command::Fetch { id: id.clone() },
                AddRun { core, phase: AddPhase::Deleting { deletion, id } },
            )
        },
        Task::Touch { id } => Progress::Ask(
            Command::Fetch { id: id.clone() },
            AddRun { core, phase: AddPhase::Touching { id } },
        ),
    }
}

/// Turns to the next task, or ends.
fn turn_to_task(core: AddCore, fresh: Fresh) -> (r: Progress<AddRun, AddResult>)
    ensures
        r@ == proceed(core@, fresh@),
{
    let mut core = core;
    let ghost start = core@;
    if core.todo.len() == 0 {
        return Progress::Done(Ok(AddResult { results: core.events }));
    }
    let task = core.todo.remove(0);
    proof {
        assert(task@ == start.todo[0]);
        assert(core@.todo =~= start.todo.skip(1));
        assert(core@ == AddCoreView { todo: start.todo.skip(1), ..start });
    }
    begin_task(core, task, fresh)
}

/// Notes what was done, and turns to the next task.
fn turn_to_task_with(core: AddCore, event: MemoryEvent, fresh: Fresh) -> (r: Progress<
    AddRun,
    AddResult,
>)
    ensures
        r@ == proceed_with(core@, event@, fresh@),
{
    let mut core = core;
    let ghost start = core@;
    let ghost e = event@;
    core.events.push(event);
    proof {
        assert(core@.events =~= start.events.push(e));
        assert(core@ == AddCoreView { events: start.events.push(e), ..start });
    }
    turn_to_task(core, fresh)
}

/// Notes that a new memory was stored, and turns to the next task.
fn finish_new(core: AddCore, record: MemoryRecord, fresh: Fresh) -> (r: Progress<
    AddRun,
    AddResult,
>)
    ensures
        r@ == proceed_with(core@, added(record@), fresh@),
{
    let event = MemoryEvent {
        id: record.id,
        memory: record.content,
        event: EventType::Add,
        previous_memory: None,
    };
    turn_to_task_with(core, event, fresh)
}

/// Goes on after a step of an update.
fn go_on_after_update(
    core: AddCore,
    progress: Progress<UpdateRun, MemoryRecord>,
    content: String,
    previous: String,
    fresh: Fresh,
) -> (r: Progress<AddRun, AddResult>)
    ensures
        r@ == after_update(core@, progress@, content@, previous@, fresh@),
{
    match progress {
        Progress::Ask(command, update) => Progress::Ask(
            command,
            AddRun { core, phase: AddPhase::Updating { update, content, previous } },
        ),
        Progress::Done(Ok(record)) => {
            let event = MemoryEvent {
                id: record.id,
                memory: content,
                event: EventType::Update,
                previous_memory: Some(previous),
            };
            turn_to_task_with(core, event, fresh)
        },
        Progress::Done(Err(_)) => turn_to_task(core, fresh),
    }
}

/// Goes on after a step of a deletion.
fn go_on_after_delete(
    core: AddCore,
    progress: Progress<DeleteRun, Finished>,
    id: String,
    fresh: Fresh,
) -> (r: Progress<AddRun, AddResult>)
    ensures
        r@ == after_delete(core@, progress@, id@, fresh@),
{
    match progress {
        Progress::Ask(command, deletion) => Progress::Ask(
            command,
            AddRun { core, phase: AddPhase::Deleting { deletion, id } },
        ),
        Progress::Done(Ok(_)) => match parse_uuid(id.as_str()) {
            Ok(uuid) => {
                let event = MemoryEvent {
                    id: uuid,
                    memory: String::new(),
                    event: EventType::Delete,
                    previous_memory: None,
                };
                proof {
                    assert(event@.memory =~= Seq::<char>::empty());
                }
                turn_to_task_with(core, event, fresh)
            },
            Err(_) => turn_to_task(core, fresh),
        },
        Progress::Done(Err(_)) => turn_to_task(core, fresh),
    }
}

/// An addition that has not begun.
pub open spec fn new_core(memory: Memory, options: AddOptionsView, caching: bool) -> AddCoreView {
    AddCoreView {
        memory,
        options,
        caching,
        cache: Map::empty(),
        facts: Seq::empty(),
        left: Seq::empty(),
        known: Seq::empty(),
        todo: Seq::empty(),
        events: Seq::empty(),
    }
}

/// An addition that has not begun.
fn make_core(memory: Memory, options: AddOptions, caching: bool) -> (r: AddCore)
    ensures
        r@ == new_core(memory, options@, caching),
{
    let r = AddCore {
        memory,
        options,
        caching,
        cache: TextMap::new(),
        facts: Vec::new(),
        left: Vec::new(),
        known: Vec::new(),
        todo: Vec::new(),
        events: Vec::new(),
    };
    proof {
        let v = new_core(memory, options@, caching);
        assert(r@.cache =~= v.cache);
        assert(r@.facts =~= v.facts);
        assert(r@.left =~= v.left);
        assert(r@.known =~= v.known);
        assert(r@.todo =~= v.todo);
        assert(r@.events =~= v.events);
    }
    r
}

/// How messages that are stored as they are are added.
pub open spec fn raw_start(
    memory: Memory,
    messages: Seq<MessageView>,
    options: AddOptionsView,
    fresh: FreshView,
) -> ProgressView<AddRunView, AddResultView> {
    proceed(
        AddCoreView {
            todo: raw_tasks(messages),
            ..new_core(memory, options, false)
        },
        fresh,
    )
}

/// The question for the facts of some messages.
pub open spec fn extraction_question(messages: Seq<MessageView>, options: AddOptionsView) -> Seq<
    MessageView,
> {
    seq![
        MessageView {
            role: Role::System,
            content: if options.agent_id is Some && assistant_speaks(messages) {
                AGENT_FACT_EXTRACTION_PROMPT@
            } else {
                FACT_EXTRACTION_PROMPT@
            },
        },
        MessageView { role: Role::User, content: fact_question(conversation(messages)) },
    ]
}

/// How the facts of messages are added. That takes a language model.
pub open spec fn inference_start(
    memory: Memory,
    messages: Seq<MessageView>,
    options: AddOptionsView,
) -> ProgressView<AddRunView, AddResultView> {
    if memory.has_llm {
        waiting(
            CommandView::AskFacts { messages: extraction_question(messages, options) },
            new_core(memory, options, true),
            AddPhaseView::Facts,
        )
    } else {
        failed(MemoryErrorView::Llm(LLMErrorView::NotConfigured))
    }
}

/// How memories are added. There has to be someone for whom they are kept.
pub open spec fn add_start(
    memory: Memory,
    messages: Seq<MessageView>,
    options: AddOptionsView,
    fresh: FreshView,
) -> ProgressView<AddRunView, AddResultView> {
    if options.user_id is None && options.agent_id is None && options.run_id is None {
        failed(
            MemoryErrorView::InvalidInput(
                "At least one of user_id, agent_id, or run_id is required"@,
            ),
        )
    } else if options.infer && memory.has_llm {
        inference_start(memory, messages, options)
    } else {
        raw_start(memory, messages, options, fresh)
    }
}

impl Memory {
    /// Adds messages as they are, with an identifier and the time.
    fn add_raw(&self, messages: &Vec<Message>, options: AddOptions, fresh: Fresh) -> (r: Progress<
        AddRun,
        AddResult,
    >)
        ensures
            r@ == raw_start(*self, views(messages@), options@, fresh@),
    {
        let mut core = make_core(*self, options, false);
        core.todo = plan_raw(messages);
        turn_to_task(core, fresh)
    }

    /// Adds the facts of messages.
    pub fn add_with_inference(&self, messages: &Vec<Message>, options: AddOptions) -> (r: Progress<
        AddRun,
        AddResult,
    >)
        ensures
            r@ == inference_start(*self, views(messages@), options@),
    {
        if !self.has_llm {
            return Progress::Done(Err(MemoryError::Llm(LLMError::NotConfigured)));
        }
        let agent: Option<&str> = match &options.agent_id {
            Some(a) => Some(a.as_str()),
            None => None,
        };
        let prompt = if should_use_agent_extraction(messages.as_slice(), agent) {
            AGENT_FACT_EXTRACTION_PROMPT
        } else {
            FACT_EXTRACTION_PROMPT
        };
        let text = format_conversation(messages.as_slice());
        let question = format_fact_extraction_input(text.as_str());
        let mut asked: Vec<Message> = Vec::new();
        asked.push(Message::system(prompt));
        asked.push(Message::user(question.as_str()));
        proof {
            assert(views(asked@) =~= extraction_question(views(messages@), options@));
        }
        Progress::Ask(
            Command::AskFacts { messages: asked },
            AddRun { core: make_core(*self, options, true), phase: AddPhase::Facts },
        )
    }

    /// Adds memories, with an identifier and the time.
    pub fn add_at(&self, messages: Vec<Message>, options: AddOptions, fresh: Fresh) -> (r: Progress<
        AddRun,
        AddResult,
    >)
        ensures
            r@ == add_start(*self, views(messages@), options@, fresh@),
    {
        if options.user_id.is_none() && options.agent_id.is_none() && options.run_id.is_none() {
            return Progress::Done(
                Err(
                    MemoryError::InvalidInput(
                        "At least one of user_id, agent_id, or run_id is required".to_owned(),
                    ),
                ),
            );
        }
        if options.infer && self.has_llm {
            self.add_with_inference(&messages, options)
        } else {
            self.add_raw(&messages, options, fresh)
        }
    }

    /// Adds memories: the messages as they are, or the facts that the language model finds in them.
    pub fn add(&self, messages: Vec<Message>, options: AddOptions) -> (r: Progress<
        AddRun,
        AddResult,
    >)
        ensures
            exists|fresh: FreshView|
                crate::memory::protocol::is_drawn(fresh) && r@ == #[trigger] add_start(
                    *self,
                    views(messages@),
                    options@,
                    fresh,
                ),
    {
        let fresh = Fresh::draw();
        let r = self.add_at(messages, options, fresh);
        assert(r@ == add_start(*self, views(messages@), options@, fresh@));
        r
    }
}

} // verus!
