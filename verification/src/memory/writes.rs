//! What additions write, and what comes of it in the history.
use vstd::prelude::*;

use crate::clock::Instant;
use crate::errors::MemoryErrorView;
use crate::ids::{uuid_of, uuid_text};
use crate::memory::add::{
    add_start, added, inference_start, new_core, new_record, plan, proceed, raw_start, raw_tasks,
    AddCoreView, AddPhaseView, AddResultView, AddRun, AddRunView,
};
use crate::memory::laws::{after, Told};
use crate::memory::manager::{
    delete_start, update_start, with_content, DeleteRun, DeleteRunView, Finished, GetAllRun, GetRun,
    Memory, UpdateRun, UpdateRunView,
};
use crate::memory::protocol::{
    ChangeView, CommandView, EncodingView, FreshView, ProgressView, ReplyView, Run,
};
use crate::memory::scope::{is_owner, CallerView};
use crate::models::{
    payload_of, record_of, AddOptionsView, EventType, MemoryEventView, MemoryRecordView,
    MessageView, PayloadView, VectorSearchResultView,
};

verus! {

/// At a place among the replies, a text was given to the embedder, which gave this for it.
pub open spec fn encoded_at(
    start: ProgressView<AddRunView, AddResultView>,
    replies: Seq<Told>,
    j: int,
    text: Seq<char>,
    encoding: EncodingView,
) -> bool {
    &&& 0 <= j < replies.len()
    &&& replies[j].0 == ReplyView::Encoded(encoding)
    &&& after(start, replies.take(j)) matches ProgressView::Ask(CommandView::Encode { text: t }, _)
        && t == text
}

/// The embedder was given a text, and gave this for it.
pub open spec fn was_encoded(
    start: ProgressView<AddRunView, AddResultView>,
    replies: Seq<Told>,
    text: Seq<char>,
    encoding: EncodingView,
) -> bool {
    exists|j: int| #[trigger] encoded_at(start, replies, j, text, encoding)
}

/// The embedding and the fingerprint are those that the embedder gave for the content.
pub open spec fn is_of_content(
    start: ProgressView<AddRunView, AddResultView>,
    replies: Seq<Told>,
    embedding: Seq<u32>,
    payload: PayloadView,
) -> bool {
    exists|encoding: EncodingView| #[trigger]
        was_encoded(start, replies, payload.data, encoding) && encoding.embedding == embedding
            && encoding.hash == payload.hash
}

/// The identifier and the time were new when the addition began or when a reply came.
pub open spec fn was_drawn(
    fresh: FreshView,
    replies: Seq<Told>,
    id: Seq<char>,
    time: Instant,
) -> bool {
    ||| id == uuid_text(fresh.id) && time == fresh.now
    ||| exists|j: int|
        0 <= j < replies.len() && id == uuid_text((#[trigger] replies[j]).1.id) && time
            == replies[j].1.now
}

/// The time and the identifier of a memory that is yet to be stored.
spec fn draws(fresh: FreshView, replies: Seq<Told>, drawn: FreshView) -> bool {
    drawn == fresh || exists|j: int| 0 <= j < replies.len() && (#[trigger] replies[j]).1 == drawn
}

/// What the addition wrote is what it was told to.
spec fn writes_what_was_encoded(
    start: ProgressView<AddRunView, AddResultView>,
    fresh: FreshView,
    replies: Seq<Told>,
) -> bool {
    match after(start, replies) {
        ProgressView::Done(_) => true,
        ProgressView::Ask(command, run) => {
            &&& forall|text: Seq<char>| #[trigger]
                run.core.cache.contains_key(text) ==> was_encoded(
                    start,
                    replies,
                    text,
                    run.core.cache[text],
                )
            &&& run.phase matches AddPhaseView::FactEncoding { fact } ==> command == (
            CommandView::Encode { text: fact })
            &&& run.phase matches AddPhaseView::NewEncoding { text, fresh: drawn } ==> command == (
            CommandView::Encode { text }) && draws(fresh, replies, drawn)
            &&& run.phase matches AddPhaseView::Updating { update, .. } ==> (
            update matches UpdateRunView::Encoding { record, .. } ==> command == (
            CommandView::Encode { text: record.content }))
            &&& command matches CommandView::Insert { id, embedding, payload } ==> is_of_content(
                start,
                replies,
                embedding,
                payload,
            ) && was_drawn(fresh, replies, id, payload.created_at)
            &&& command matches CommandView::Replace { new_embedding: Some(embedding), payload, .. }
                ==> is_of_content(start, replies, embedding, payload)
        },
    }
}

/// What was encoded stays encoded when more replies come.
pub proof fn more_replies_encode_no_less(
    start: ProgressView<AddRunView, AddResultView>,
    replies: Seq<Told>,
    told: Told,
    text: Seq<char>,
    encoding: EncodingView,
)
    requires
        was_encoded(start, replies, text, encoding),
    ensures
        was_encoded(start, replies.push(told), text, encoding),
{
    let j = choose|j: int| #[trigger] encoded_at(start, replies, j, text, encoding);
    assert(replies.push(told).take(j) =~= replies.take(j));
    assert(encoded_at(start, replies.push(told), j, text, encoding));
}

proof fn proceeding_writes_what_was_encoded(
    start: ProgressView<AddRunView, AddResultView>,
    fresh: FreshView,
    replies: Seq<Told>,
    core: AddCoreView,
    new: FreshView,
)
    requires
        after(start, replies) == proceed(core, new),
        draws(fresh, replies, new),
        forall|text: Seq<char>| #[trigger]
            core.cache.contains_key(text) ==> was_encoded(start, replies, text, core.cache[text]),
    ensures
        writes_what_was_encoded(start, fresh, replies),
{
    if core.todo.len() > 0 {
        if let ProgressView::Ask(CommandView::Insert { embedding, payload, .. }, run) = after(
            start,
            replies,
        ) {
            assert(core.cache.contains_key(payload.data));
            assert(was_encoded(start, replies, payload.data, core.cache[payload.data]));
        }
    }
}

proof fn a_step_writes_what_was_encoded(
    start: ProgressView<AddRunView, AddResultView>,
    fresh: FreshView,
    replies: Seq<Told>,
    told: Told,
)
    requires
        writes_what_was_encoded(start, fresh, replies),
    ensures
        writes_what_was_encoded(start, fresh, replies.push(told)),
{
    let all = replies.push(told);
    assert(all.drop_last() =~= replies);
    assert(all.take(replies.len() as int) =~= replies);
    assert(draws(fresh, all, told.1)) by {
        assert(all[replies.len() as int].1 == told.1);
    }
    if let ProgressView::Ask(command, run) = after(start, replies) {
        let core = run.core;
        assert forall|text: Seq<char>| #[trigger] core.cache.contains_key(text) implies was_encoded(
            start,
            all,
            text,
            core.cache[text],
        ) by {
            more_replies_encode_no_less(start, replies, told, text, core.cache[text]);
        }
        if let (CommandView::Encode { text }, ReplyView::Encoded(encoding)) = (command, told.0) {
            assert(encoded_at(start, all, replies.len() as int, text, encoding));
            assert(was_encoded(start, all, text, encoding));
        }
        let next = after(start, all);
        assert(next == AddRun::next(run, told.0, told.1));
        match (run.phase, told.0) {
            (AddPhaseView::FactEncoding { fact }, ReplyView::Encoded(encoding)) => {},
            (AddPhaseView::NewEncoding { text, fresh: drawn }, ReplyView::Encoded(encoding)) => {
                if drawn != fresh {
                    let j = choose|j: int|
                        0 <= j < replies.len() && (#[trigger] replies[j]).1 == drawn;
                    assert(all[j].1 == drawn);
                }
                let payload = payload_of(new_record(core.options, text, encoding.hash, drawn));
                assert(payload.data == text);
                assert(is_of_content(start, all, encoding.embedding, payload));
            },
            (AddPhaseView::Actions, ReplyView::Actions(actions)) => {
                proceeding_writes_what_was_encoded(
                    start,
                    fresh,
                    all,
                    AddCoreView {
                        todo: plan(actions, core.known, core.options),
                        ..core
                    },
                    told.1,
                );
            },
            (AddPhaseView::Inserting { record }, _) | (AddPhaseView::Recording { record }, _) => {
                let later = AddCoreView {
                    events: core.events.push(added(record)),
                    ..core
                };
                if next == proceed(later, told.1) {
                    proceeding_writes_what_was_encoded(start, fresh, all, later, told.1);
                }
            },
            (AddPhaseView::Updating { update, content, previous }, _) => {
                match UpdateRun::next(update, told.0, told.1) {
                    ProgressView::Ask(_, _) => {
                        if let (
                            UpdateRunView::Encoding { record, .. },
                            ReplyView::Encoded(encoding),
                        ) = (update, told.0) {
                            let payload = payload_of(
                                with_content(record, record.content, encoding.hash),
                            );
                            assert(payload.data == record.content);
                            assert(is_of_content(start, all, encoding.embedding, payload));
                        }
                    },
                    ProgressView::Done(Ok(record)) => {
                        let event = MemoryEventView {
                            id: record.id,
                            memory: content,
                            event: EventType::Update,
                            previous_memory: Some(previous),
                        };
                        proceeding_writes_what_was_encoded(
                            start,
                            fresh,
                            all,
                            AddCoreView { events: core.events.push(event), ..core },
                            told.1,
                        );
                    },
                    ProgressView::Done(Err(_)) => {
                        proceeding_writes_what_was_encoded(start, fresh, all, core, told.1);
                    },
                }
            },
            (AddPhaseView::Deleting { deletion, id }, _) => {
                if next == proceed(core, told.1) {
                    proceeding_writes_what_was_encoded(start, fresh, all, core, told.1);
                } else if let Some(uuid) = uuid_of(id) {
                    let event = MemoryEventView {
                        id: uuid as u128,
                        memory: Seq::empty(),
                        event: EventType::Delete,
                        previous_memory: None,
                    };
                    let later = AddCoreView { events: core.events.push(event), ..core };
                    if next == proceed(later, told.1) {
                        proceeding_writes_what_was_encoded(start, fresh, all, later, told.1);
                    }
                }
            },
            (AddPhaseView::Touching { .. }, _) | (AddPhaseView::Touched, _) => {
                if next == proceed(core, told.1) {
                    proceeding_writes_what_was_encoded(start, fresh, all, core, told.1);
                }
            },
            _ => {},
        }
    }
}

proof fn writes_what_was_encoded_throughout(
    memory: Memory,
    messages: Seq<MessageView>,
    options: AddOptionsView,
    fresh: FreshView,
    replies: Seq<Told>,
)
    ensures
        writes_what_was_encoded(
            add_start(memory, messages, options, fresh),
            fresh,
            replies,
        ),
    decreases replies.len(),
{
    let start = add_start(memory, messages, options, fresh);
    if replies.len() == 0 {
        if start == raw_start(memory, messages, options, fresh) {
            proceeding_writes_what_was_encoded(
                start,
                fresh,
                replies,
                AddCoreView {
                    todo: raw_tasks(messages),
                    ..new_core(memory, options, false)
                },
                fresh,
            );
        }
    } else {
        let front = replies.drop_last();
        writes_what_was_encoded_throughout(memory, messages, options, fresh, front);
        a_step_writes_what_was_encoded(start, fresh, front, replies.last());
        assert(front.push(replies.last()) =~= replies);
    }
}

/// Whenever an addition has the store insert a memory, or replace one with a new embedding, the
/// embedding and the fingerprint are those that the embedder gave for exactly the content of that
/// memory, be it just now or earlier in the addition.
pub proof fn embeddings_are_of_the_content(
    memory: Memory,
    messages: Seq<MessageView>,
    options: AddOptionsView,
    fresh: FreshView,
    replies: Seq<Told>,
)
    ensures
        ({
            let start = add_start(memory, messages, options, fresh);
            match after(start, replies) {
                ProgressView::Ask(CommandView::Insert { embedding, payload, .. }, _) => {
                    is_of_content(start, replies, embedding, payload)
                },
                ProgressView::Ask(
                    CommandView::Replace { new_embedding: Some(embedding), payload, .. },
                    _,
                ) => is_of_content(start, replies, embedding, payload),
                _ => true,
            }
        }),
{
    writes_what_was_encoded_throughout(memory, messages, options, fresh, replies);
}

/// A new memory is stored under an identifier, and with a time, that were drawn together for the
/// addition.
pub proof fn new_memories_have_drawn_identifiers(
    memory: Memory,
    messages: Seq<MessageView>,
    options: AddOptionsView,
    fresh: FreshView,
    replies: Seq<Told>,
)
    ensures
        after(add_start(memory, messages, options, fresh), replies) matches ProgressView::Ask(
            CommandView::Insert { id, payload, .. },
            _,
        ) ==> was_drawn(fresh, replies, id, payload.created_at),
{
    writes_what_was_encoded_throughout(memory, messages, options, fresh, replies);
}

/// What an addition of facts keeps for a text is what the embedder gave for it.
pub proof fn what_is_cached_was_encoded(
    memory: Memory,
    messages: Seq<MessageView>,
    options: AddOptionsView,
    replies: Seq<Told>,
)
    ensures
        after(inference_start(memory, messages, options), replies) matches ProgressView::Ask(
            _,
            run,
        ) ==> forall|text: Seq<char>| #[trigger]
            run.core.cache.contains_key(text) ==> was_encoded(
                inference_start(memory, messages, options),
                replies,
                text,
                run.core.cache[text],
            ),
{
    inference_writes_what_was_encoded(
        memory,
        messages,
        options,
        FreshView { id: 0, now: (0, 0) },
        replies,
    );
}

proof fn inference_writes_what_was_encoded(
    memory: Memory,
    messages: Seq<MessageView>,
    options: AddOptionsView,
    fresh: FreshView,
    replies: Seq<Told>,
)
    ensures
        writes_what_was_encoded(inference_start(memory, messages, options), fresh, replies),
    decreases replies.len(),
{
    let start = inference_start(memory, messages, options);
    if replies.len() > 0 {
        let front = replies.drop_last();
        inference_writes_what_was_encoded(memory, messages, options, fresh, front);
        a_step_writes_what_was_encoded(start, fresh, front, replies.last());
        assert(front.push(replies.last()) =~= replies);
    }
}

/// A memory is being stored exactly while the store is asked to insert it, as it was made.
spec fn stores_as_made(progress: ProgressView<AddRunView, AddResultView>, memory: Memory) -> bool {
    progress matches ProgressView::Ask(command, run) ==> {
        &&& run.core.memory == memory
        &&& command matches CommandView::Insert { id, payload, .. } ==> (
        run.phase matches AddPhaseView::Inserting { record } && id == uuid_text(record.id)
            && payload == payload_of(record))
        &&& command is AskFacts ==> run.phase is Facts
        &&& command is AskActions ==> run.phase is Actions
        &&& command is Query ==> run.phase is FactHits
        &&& command is Encode ==> run.phase is FactEncoding || run.phase is NewEncoding
            || run.phase is Updating
    }
}

proof fn stores_as_made_throughout(
    memory: Memory,
    messages: Seq<MessageView>,
    options: AddOptionsView,
    fresh: FreshView,
    replies: Seq<Told>,
)
    ensures
        stores_as_made(after(add_start(memory, messages, options, fresh), replies), memory),
    decreases replies.len(),
{
    if replies.len() > 0 {
        stores_as_made_throughout(memory, messages, options, fresh, replies.drop_last());
    }
}

/// Once the store has inserted a new memory, the history is told of it, if there is one: of its
/// identifier, its content, its time and for whom it is. There was nothing before.
pub proof fn insertions_are_recorded(
    memory: Memory,
    messages: Seq<MessageView>,
    options: AddOptionsView,
    fresh: FreshView,
    replies: Seq<Told>,
    new: FreshView,
)
    ensures
        after(add_start(memory, messages, options, fresh), replies) matches ProgressView::Ask(
            CommandView::Insert { id, payload, .. },
            run,
        ) ==> {
            let next = AddRun::next(run, ReplyView::Done, new);
            &&& memory.has_history ==> (next matches ProgressView::Ask(
                CommandView::Record { change },
                _,
            ) && {
                &&& uuid_text(change.memory_id) == id
                &&& change.previous_content is None
                &&& change.new_content == payload.data
                &&& change.event == EventType::Add
                &&& change.timestamp == payload.created_at
                &&& change.user_id == payload.user_id
                &&& change.agent_id == payload.agent_id
                &&& change.request_id == payload.run_id
            })
            &&& !memory.has_history ==> !(next matches ProgressView::Ask(
                CommandView::Record { .. },
                _,
            ))
        },
{
    stores_as_made_throughout(memory, messages, options, fresh, replies);
}

/// If the language model or the embedder fails, or the store fails to look something up or to store
/// a new memory, the addition ends with that error.
pub proof fn failures_end_an_addition(
    memory: Memory,
    messages: Seq<MessageView>,
    options: AddOptionsView,
    fresh: FreshView,
    replies: Seq<Told>,
    error: MemoryErrorView,
    new: FreshView,
)
    ensures
        after(add_start(memory, messages, options, fresh), replies) matches ProgressView::Ask(
            command,
            run,
        ) ==> (command is AskFacts || command is AskActions || command is Query || command is Insert
            || (command is Encode && !(run.phase is Updating)) ==> AddRun::next(
            run,
            ReplyView::Failed(error),
            new,
        ) == ProgressView::<AddRunView, AddResultView>::Done(Err(error))),
{
    stores_as_made_throughout(memory, messages, options, fresh, replies);
}

/// An update on behalf of its owner, or of nobody, that the services carry out: the memory is
/// fetched, its new content is encoded, the memory is replaced under its identifier, and the
/// history is told, if there is one. What it gives is the memory with the new content. A failure of
/// the history is passed over; any other failure is the end of the update.
pub proof fn updates_go_their_way(
    memory: Memory,
    id: Seq<char>,
    content: Seq<char>,
    caller: Option<CallerView>,
    found: VectorSearchResultView,
    encoding: EncodingView,
    error: MemoryErrorView,
    anything: ReplyView,
    fresh: FreshView,
)
    requires
        caller matches Some(c) ==> is_owner(record_of(found), c),
    ensures
        ({
            let fetching = update_start(memory, id, content, caller);
            let fetched = UpdateRun::next(
                fetching->Ask_1,
                ReplyView::Fetched(Some(found)),
                fresh,
            );
            let encoded = UpdateRun::next(fetched->Ask_1, ReplyView::Encoded(encoding), fresh);
            let replaced = UpdateRun::next(encoded->Ask_1, ReplyView::Done, fresh);
            let recorded = UpdateRun::next(replaced->Ask_1, anything, fresh);
            let failed = ProgressView::<UpdateRunView, MemoryRecordView>::Done(Err(error));
            let old = record_of(found);
            let new = MemoryRecordView { content, hash: encoding.hash, ..old };
            &&& fetching matches ProgressView::Ask(command, _) && command == (CommandView::Fetch {
                id,
            })
            &&& fetched matches ProgressView::Ask(command, _) && command == (CommandView::Encode {
                text: content,
            })
            &&& encoded matches ProgressView::Ask(command, _) && command == (
            CommandView::Replace {
                id,
                new_embedding: Some(encoding.embedding),
                payload: PayloadView { data: content, hash: encoding.hash, ..found.payload },
            })
            &&& memory.has_history ==> {
                &&& replaced matches ProgressView::Ask(command, _) && command == (
                CommandView::Record {
                    change: ChangeView {
                        memory_id: old.id,
                        previous_content: Some(found.payload.data),
                        new_content: content,
                        event: EventType::Update,
                        timestamp: fresh.now,
                        user_id: found.payload.user_id,
                        agent_id: found.payload.agent_id,
                        request_id: found.payload.run_id,
                    },
                })
                &&& recorded == ProgressView::<UpdateRunView, MemoryRecordView>::Done(Ok(new))
            }
            &&& !memory.has_history ==> replaced == ProgressView::<
                UpdateRunView,
                MemoryRecordView,
            >::Done(Ok(new))
            &&& UpdateRun::next(fetching->Ask_1, ReplyView::Failed(error), fresh) == failed
            &&& UpdateRun::next(fetched->Ask_1, ReplyView::Failed(error), fresh) == failed
            &&& UpdateRun::next(encoded->Ask_1, ReplyView::Failed(error), fresh) == failed
        }),
{
    let payload = PayloadView { data: content, hash: encoding.hash, ..found.payload };
    assert(payload_of(
        MemoryRecordView { content, hash: encoding.hash, ..record_of(found) },
    ) =~= payload);
}

/// A deletion on behalf of its owner, or of nobody, that the services carry out: the memory is
/// fetched, it is taken out under its identifier, and the history is told what it was, if there is
/// one. A failure of the history is passed over; any other failure is the end of the deletion.
pub proof fn deletions_go_their_way(
    memory: Memory,
    id: Seq<char>,
    caller: Option<CallerView>,
    found: VectorSearchResultView,
    error: MemoryErrorView,
    anything: ReplyView,
    fresh: FreshView,
)
    requires
        caller matches Some(c) ==> is_owner(record_of(found), c),
    ensures
        ({
            let fetching = delete_start(memory, id, caller);
            let fetched = DeleteRun::next(
                fetching->Ask_1,
                ReplyView::Fetched(Some(found)),
                fresh,
            );
            let removed = DeleteRun::next(fetched->Ask_1, ReplyView::Done, fresh);
            let recorded = DeleteRun::next(removed->Ask_1, anything, fresh);
            let failed = ProgressView::<DeleteRunView, Finished>::Done(Err(error));
            &&& fetching matches ProgressView::Ask(command, _) && command == (CommandView::Fetch {
                id,
            })
            &&& fetched matches ProgressView::Ask(command, _) && command == (CommandView::Remove {
                id,
            })
            &&& memory.has_history ==> {
                &&& removed matches ProgressView::Ask(command, _) && command == (
                CommandView::Record {
                    change: ChangeView {
                        memory_id: record_of(found).id,
                        previous_content: Some(found.payload.data),
                        new_content: "DELETED"@,
                        event: EventType::Delete,
                        timestamp: fresh.now,
                        user_id: found.payload.user_id,
                        agent_id: found.payload.agent_id,
                        request_id: found.payload.run_id,
                    },
                })
                &&& recorded matches ProgressView::Done(Ok(_))
            }
            &&& !memory.has_history ==> (removed matches ProgressView::Done(Ok(_)))
            &&& DeleteRun::next(fetching->Ask_1, ReplyView::Failed(error), fresh) == failed
            &&& DeleteRun::next(fetched->Ask_1, ReplyView::Failed(error), fresh) == failed
        }),
{
}

/// A memory that a store gives is given as it is stored: its content, its fingerprint, its time,
/// for whom it is, of what kind, and its metadata. A list gives each memory that the store found,
/// in order. Without a memory there is none.
pub proof fn reads_give_what_is_stored(
    found: VectorSearchResultView,
    all: Seq<VectorSearchResultView>,
    fresh: FreshView,
)
    ensures
        GetRun::next(
            GetRun {  },
            ReplyView::Fetched(Some(found)),
            fresh,
        ) matches ProgressView::Done(Ok(lookup)) && lookup.record matches Some(record) && is_stored(
            record,
            found,
        ),
        GetRun::next(GetRun {  }, ReplyView::Fetched(None), fresh) matches ProgressView::Done(
            Ok(lookup),
        ) && lookup.record is None,
        GetAllRun::next(GetAllRun {  }, ReplyView::Found(all), fresh) matches ProgressView::Done(
            Ok(listing),
        ) && listing.records.len() == all.len() && forall|i: int|
            0 <= i < all.len() ==> is_stored(#[trigger] listing.records[i], all[i]),
{
}

/// The memory is the one that a store has under an identifier.
pub open spec fn is_stored(record: MemoryRecordView, found: VectorSearchResultView) -> bool {
    &&& uuid_of(found.id) matches Some(id) ==> record.id == id as u128
    &&& uuid_of(found.id) is None ==> record.id == 0
    &&& record.content == found.payload.data
    &&& record.hash == found.payload.hash
    &&& record.created_at == found.payload.created_at
    &&& record.user_id == found.payload.user_id
    &&& record.agent_id == found.payload.agent_id
    &&& record.run_id == found.payload.run_id
    &&& record.memory_type == found.payload.memory_type
    &&& record.metadata == found.payload.metadata
}

} // verus!
