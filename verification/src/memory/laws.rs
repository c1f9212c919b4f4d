//! What holds of the operations on memories whatever the services reply.
use vstd::prelude::*;

use crate::errors::MemoryErrorView;
use crate::ids::{uuid_of, uuid_text, uuid_text_is_read_back};
use crate::memory::add::{
    add_start, added, inference_start, is_known, named, new_core, new_record, noted, plan, planned,
    proceed, raw_start, raw_task, raw_tasks, touched, AddCoreView, AddPhaseView, AddResultView,
    AddRun, AddRunView, KnownMemoryView, TaskView,
};
use crate::memory::manager::{
    above_threshold, best_of, denial, given_or, reset_start, scored_of, search_threshold,
    DeleteRun, DeleteRunView, GetRun, LookupView, Memory, ResetRun, SearchRun, SearchRunView,
    UpdateRun, UpdateRunView, DEFAULT_SEARCH_LIMIT,
};
use crate::memory::protocol::{
    CommandView, EncodingView, FreshView, MemoryActionView, ProgressView, ReplyView, Run,
};
use crate::memory::scope::{
    in_scope, is_owner, scope_filters, scope_filters_select_the_scope, CallerView,
};
use crate::models::{
    payload_of, record_of, AddOptionsView, EventType, MemoryEventView, MemoryRecordView,
    MessageView, PayloadView, ResetOptionsView, ScoredMemoryView, SearchOptionsView,
    VectorSearchResultView,
};
use crate::ranking::{
    best_first, ranked, ranking_is_stable, ranking_keeps_the_values, reaches, score_is_nan, score_rank,
};
use crate::text::decimal;
use crate::vector_stores::filter_eval::is_match;
use crate::vector_stores::memory::{store_get, store_insert, store_update, EntryView};
use crate::views::filtered_values_are_of_the_list;

verus! {

/// A reply, and what was new when it came.
pub type Told = (ReplyView, FreshView);

/// How far an addition comes with some replies. Once it has ended, replies change nothing.
pub open spec fn after(
    start: ProgressView<AddRunView, AddResultView>,
    replies: Seq<Told>,
) -> ProgressView<AddRunView, AddResultView>
    decreases replies.len(),
{
    if replies.len() == 0 {
        start
    } else {
        match after(start, replies.drop_last()) {
            ProgressView::Ask(_, run) => AddRun::next(run, replies.last().0, replies.last().1),
            done => done,
        }
    }
}

/// The task stores the text.
spec fn stores(task: TaskView, text: Seq<char>) -> bool {
    task == (TaskView::Add { text })
}

/// What an addition of texts as they are has done, is doing and has to do.
spec fn stores_in_order(
    progress: ProgressView<AddRunView, AddResultView>,
    tasks: Seq<TaskView>,
) -> bool {
    match progress {
        ProgressView::Done(Ok(result)) => events_of(result.results, tasks, tasks.len() as int),
        ProgressView::Done(Err(_)) => true,
        ProgressView::Ask(_, run) => {
            let done = run.core.events.len() as int;
            &&& done < tasks.len()
            &&& run.core.todo == tasks.skip(done + 1)
            &&& events_of(run.core.events, tasks, done)
            &&& match run.phase {
                AddPhaseView::NewEncoding { text, .. } => stores(tasks[done], text),
                AddPhaseView::Inserting { record } => stores(tasks[done], record.content),
                AddPhaseView::Recording { record } => stores(tasks[done], record.content),
                _ => false,
            }
        },
    }
}

/// The events are the additions of the first texts.
pub open spec fn events_of(
    events: Seq<MemoryEventView>,
    tasks: Seq<TaskView>,
    count: int,
) -> bool {
    &&& events.len() == count
    &&& forall|i: int|
        0 <= i < count ==> (#[trigger] events[i]).event == EventType::Add && tasks[i]
            == (TaskView::Add { text: events[i].memory })
}

proof fn proceeding_stores_in_order(core: AddCoreView, tasks: Seq<TaskView>, fresh: FreshView)
    requires
        core.events.len() <= tasks.len(),
        core.todo == tasks.skip(core.events.len() as int),
        events_of(core.events, tasks, core.events.len() as int),
        forall|i: int| 0 <= i < tasks.len() ==> (#[trigger] tasks[i]) is Add,
    ensures
        stores_in_order(proceed(core, fresh), tasks),
{
    if core.todo.len() > 0 {
        let done = core.events.len() as int;
        assert(core.todo[0] == tasks[done]);
        assert(core.todo.skip(1) =~= tasks.skip(done + 1));
        assert(tasks[done] is Add);
    }
}

proof fn a_step_stores_in_order(
    run: AddRunView,
    command: CommandView,
    tasks: Seq<TaskView>,
    told: Told,
)
    requires
        stores_in_order(ProgressView::Ask(command, run), tasks),
        forall|i: int| 0 <= i < tasks.len() ==> (#[trigger] tasks[i]) is Add,
    ensures
        stores_in_order(AddRun::next(run, told.0, told.1), tasks),
{
    let core = run.core;
    let done = core.events.len() as int;
    match run.phase {
        AddPhaseView::Inserting { record } | AddPhaseView::Recording { record } => {
            let event = added(record);
            let new = AddCoreView { events: core.events.push(event), ..core };
            assert(events_of(new.events, tasks, done + 1)) by {
                assert forall|i: int| 0 <= i < done + 1 implies (#[trigger] new.events[i]).event
                    == EventType::Add && tasks[i] == (TaskView::Add { text: new.events[i].memory }) by {
                    if i < done {
                        assert(new.events[i] == core.events[i]);
                    }
                }
            }
            proceeding_stores_in_order(new, tasks, told.1);
        },
        _ => {},
    }
}

/// Adding messages as they are tells of one new memory for each message that is not one of the
/// system, with the content of the message and in the order of the messages.
pub proof fn raw_additions_tell_of_every_message(
    memory: Memory,
    messages: Seq<MessageView>,
    options: AddOptionsView,
    fresh: FreshView,
    replies: Seq<Told>,
)
    requires
        after(raw_start(memory, messages, options, fresh), replies) matches ProgressView::Done(
            Ok(_),
        ),
    ensures
        after(raw_start(memory, messages, options, fresh), replies) matches ProgressView::Done(
            Ok(result),
        ) && events_of(
            result.results,
            raw_tasks(messages),
            raw_tasks(messages).len() as int,
        ),
{
    let tasks = raw_tasks(messages);
    raw_tasks_add(messages);
    let start = raw_start(memory, messages, options, fresh);
    let core = AddCoreView {
        todo: tasks,
        ..new_core(memory, options, false)
    };
    assert(core.todo =~= tasks.skip(0));
    proceeding_stores_in_order(core, tasks, fresh);
    assert(stores_in_order(start, tasks));
    stores_in_order_throughout(start, tasks, replies);
}

proof fn raw_tasks_add(messages: Seq<MessageView>)
    ensures
        forall|i: int|
            0 <= i < raw_tasks(messages).len() ==> (#[trigger] raw_tasks(messages)[i]) is Add,
    decreases messages.len(),
{
    let f = |m: MessageView| raw_task(m);
    if messages.len() > 0 {
        raw_tasks_add(messages.drop_last());
        messages.lemma_filter_map_take_succ(f, messages.len() - 1);
        assert(messages.take(messages.len() as int) =~= messages);
        assert(messages.take(messages.len() - 1) =~= messages.drop_last());
        let front = raw_tasks(messages.drop_last());
        assert forall|i: int| 0 <= i < raw_tasks(messages).len() implies (
        #[trigger] raw_tasks(messages)[i]) is Add by {
            if i < front.len() {
                assert(raw_tasks(messages)[i] == front[i]);
            }
        }
    }
}

proof fn stores_in_order_throughout(
    start: ProgressView<AddRunView, AddResultView>,
    tasks: Seq<TaskView>,
    replies: Seq<Told>,
)
    requires
        stores_in_order(start, tasks),
        forall|i: int| 0 <= i < tasks.len() ==> (#[trigger] tasks[i]) is Add,
    ensures
        stores_in_order(after(start, replies), tasks),
    decreases replies.len(),
{
    if replies.len() > 0 {
        stores_in_order_throughout(start, tasks, replies.drop_last());
        if let ProgressView::Ask(command, run) = after(start, replies.drop_last()) {
            a_step_stores_in_order(run, command, tasks, replies.last());
        }
    }
}

/// The stored memory that a command reads or changes by its identifier.
pub open spec fn target(command: CommandView) -> Option<Seq<char>> {
    match command {
        CommandView::Fetch { id } => Some(id),
        CommandView::Replace { id, .. } => Some(id),
        CommandView::Remove { id } => Some(id),
        _ => None,
    }
}

/// The reply tells of a stored memory that is related to a fact.
pub open spec fn tells_of(told: Told, id: Seq<char>) -> bool {
    told.0 matches ReplyView::Found(found) && exists|k: int|
        0 <= k < found.len() && (#[trigger] found[k]).id == id
}

/// One of the replies tells of a stored memory.
pub open spec fn was_told_of(replies: Seq<Told>, id: Seq<char>) -> bool {
    exists|j: int| 0 <= j < replies.len() && tells_of(#[trigger] replies[j], id)
}

/// The task changes a known memory, or none.
spec fn stays_with(task: TaskView, known: Seq<KnownMemoryView>) -> bool {
    match task {
        TaskView::Add { .. } => true,
        TaskView::Update { id, .. } => is_known(known, id),
        TaskView::Delete { id } => is_known(known, id),
        TaskView::Touch { id } => is_known(known, id),
    }
}

/// The addition knows only memories that it was told of, and means to change no others.
spec fn core_stays(core: AddCoreView, replies: Seq<Told>) -> bool {
    &&& forall|i: int|
        0 <= i < core.known.len() ==> was_told_of(replies, (#[trigger] core.known[i]).id)
    &&& forall|i: int|
        0 <= i < core.todo.len() ==> stays_with(#[trigger] core.todo[i], core.known)
}

/// The addition is at work on a known memory, or on none.
spec fn phase_stays(phase: AddPhaseView, known: Seq<KnownMemoryView>) -> bool {
    match phase {
        AddPhaseView::Updating { update, .. } => match update {
            UpdateRunView::Fetching { id, .. } => is_known(known, id),
            UpdateRunView::Encoding { id, .. } => is_known(known, id),
            _ => true,
        },
        AddPhaseView::Deleting { deletion, .. } => match deletion {
            DeleteRunView::Fetching { id, .. } => is_known(known, id),
            _ => true,
        },
        AddPhaseView::Touching { id } => is_known(known, id),
        _ => true,
    }
}

/// The addition stays with the memories that it was told of.
spec fn stays(progress: ProgressView<AddRunView, AddResultView>, replies: Seq<Told>) -> bool {
    match progress {
        ProgressView::Done(_) => true,
        ProgressView::Ask(command, run) => {
            &&& core_stays(run.core, replies)
            &&& phase_stays(run.phase, run.core.known)
            &&& target(command) matches Some(id) ==> is_known(run.core.known, id)
        },
    }
}

proof fn proceeding_stays(core: AddCoreView, replies: Seq<Told>, fresh: FreshView)
    requires
        core_stays(core, replies),
    ensures
        stays(proceed(core, fresh), replies),
{
    if core.todo.len() > 0 {
        let rest = AddCoreView { todo: core.todo.skip(1), ..core };
        assert forall|i: int| 0 <= i < rest.todo.len() implies stays_with(
            #[trigger] rest.todo[i],
            core.known,
        ) by {
            assert(rest.todo[i] == core.todo[i + 1]);
        }
        assert(stays_with(core.todo[0], core.known));
    }
}

/// What is noted of the memories that were found is known from before, or was found.
proof fn noted_is_known_or_found(
    known: Seq<KnownMemoryView>,
    found: Seq<VectorSearchResultView>,
)
    ensures
        forall|i: int|
            0 <= i < noted(known, found).len() ==> is_known(
                known,
                (#[trigger] noted(known, found)[i]).id,
            ) || exists|k: int|
                0 <= k < found.len() && (#[trigger] found[k]).id == noted(known, found)[i].id,
    decreases found.len(),
{
    if found.len() == 0 {
        assert forall|i: int| 0 <= i < known.len() implies is_known(
            known,
            (#[trigger] known[i]).id,
        ) by {}
    } else {
        let front = found.drop_last();
        noted_is_known_or_found(known, front);
        let all = noted(known, found);
        assert forall|i: int| 0 <= i < all.len() implies is_known(known, (#[trigger] all[i]).id)
            || exists|k: int| 0 <= k < found.len() && (#[trigger] found[k]).id == all[i].id by {
            let before = noted(known, front);
            if i < before.len() {
                assert(all[i] == before[i]);
                if !is_known(known, before[i].id) {
                    let k = choose|k: int|
                        0 <= k < front.len() && (#[trigger] front[k]).id == before[i].id;
                    assert(found[k].id == all[i].id);
                }
            } else {
                assert(found[found.len() - 1].id == all[i].id);
            }
        }
    }
}

/// What is planned for actions changes known memories only.
proof fn plans_stay(
    actions: Seq<MemoryActionView>,
    known: Seq<KnownMemoryView>,
    options: AddOptionsView,
)
    ensures
        forall|i: int|
            0 <= i < plan(actions, known, options).len() ==> stays_with(
                #[trigger] plan(actions, known, options)[i],
                known,
            ),
    decreases actions.len(),
{
    let f = |a: MemoryActionView| planned(a, known, options);
    if actions.len() > 0 {
        plans_stay(actions.drop_last(), known, options);
        actions.lemma_filter_map_take_succ(f, actions.len() - 1);
        assert(actions.take(actions.len() as int) =~= actions);
        assert(actions.take(actions.len() - 1) =~= actions.drop_last());
        let front = plan(actions.drop_last(), known, options);
        let all = plan(actions, known, options);
        assert forall|i: int| 0 <= i < all.len() implies stays_with(
            #[trigger] all[i],
            known,
        ) by {
            if i < front.len() {
                assert(all[i] == front[i]);
            } else {
                let action = actions.last();
                if let Some(name) = action.id {
                    if let Some(m) = named(known, name) {
                        let k = choose|k: int|
                            0 <= k < known.len() && #[trigger] decimal(k as nat)
                                == name;
                        assert(known[k].id == m.id);
                    }
                }
            }
        }
    }
}

proof fn more_replies_tell_no_less(replies: Seq<Told>, told: Told, id: Seq<char>)
    requires
        was_told_of(replies, id),
    ensures
        was_told_of(replies.push(told), id),
{
    let j = choose|j: int| 0 <= j < replies.len() && tells_of(#[trigger] replies[j], id);
    assert(replies.push(told)[j] == replies[j]);
}

proof fn a_step_stays(run: AddRunView, command: CommandView, replies: Seq<Told>, told: Told)
    requires
        stays(ProgressView::Ask(command, run), replies),
    ensures
        stays(AddRun::next(run, told.0, told.1), replies.push(told)),
{
    let core = run.core;
    let all = replies.push(told);
    assert forall|i: int| 0 <= i < core.known.len() implies was_told_of(
        all,
        (#[trigger] core.known[i]).id,
    ) by {
        more_replies_tell_no_less(replies, told, core.known[i].id);
    }
    assert(core_stays(core, all));
    let (reply, fresh) = told;
    match (run.phase, reply) {
        (AddPhaseView::FactHits, ReplyView::Found(found)) => {
            let known = noted(core.known, found);
            noted_is_known_or_found(core.known, found);
            noting_keeps_the_known(core.known, found);
            assert forall|i: int| 0 <= i < known.len() implies was_told_of(
                all,
                (#[trigger] known[i]).id,
            ) by {
                if is_known(core.known, known[i].id) {
                    let k = choose|k: int|
                        0 <= k < core.known.len() && (#[trigger] core.known[k]).id == known[i].id;
                    assert(was_told_of(all, core.known[k].id));
                } else {
                    assert(all[replies.len() as int] == told);
                    assert(tells_of(all[replies.len() as int], known[i].id));
                }
            }
            assert forall|i: int| 0 <= i < core.todo.len() implies stays_with(
                #[trigger] core.todo[i],
                known,
            ) by {
                assert(stays_with(core.todo[i], core.known));
            }
        },
        (AddPhaseView::Actions, ReplyView::Actions(actions)) => {
            plans_stay(actions, core.known, core.options);
            proceeding_stays(
                AddCoreView { todo: plan(actions, core.known, core.options), ..core },
                all,
                fresh,
            );
        },
        (AddPhaseView::Inserting { record }, _) | (AddPhaseView::Recording { record }, _) => {
            proceeding_stays(
                AddCoreView {
                    events: core.events.push(added(record)),
                    ..core
                },
                all,
                fresh,
            );
        },
        (AddPhaseView::Updating { update, content, previous }, _) => {
            proceeding_stays(core, all, fresh);
            if let ProgressView::Done(Ok(record)) = UpdateRun::next(update, reply, fresh) {
                let event = MemoryEventView {
                    id: record.id,
                    memory: content,
                    event: EventType::Update,
                    previous_memory: Some(previous),
                };
                proceeding_stays(
                    AddCoreView { events: core.events.push(event), ..core },
                    all,
                    fresh,
                );
            }
        },
        (AddPhaseView::Deleting { deletion, id }, _) => {
            proceeding_stays(core, all, fresh);
            if let Some(uuid) = uuid_of(id) {
                let event = MemoryEventView {
                    id: uuid as u128,
                    memory: Seq::empty(),
                    event: EventType::Delete,
                    previous_memory: None,
                };
                proceeding_stays(
                    AddCoreView { events: core.events.push(event), ..core },
                    all,
                    fresh,
                );
            }
        },
        (AddPhaseView::Touching { .. }, _) | (AddPhaseView::Touched, _) => {
            proceeding_stays(core, all, fresh);
        },
        _ => {},
    }
}

/// A memory that is known stays known when more are noted, and keeps its place.
pub proof fn noting_keeps_the_known(
    known: Seq<KnownMemoryView>,
    found: Seq<VectorSearchResultView>,
)
    ensures
        known.is_prefix_of(noted(known, found)),
        forall|id: Seq<char>| #[trigger] is_known(known, id) ==> is_known(noted(known, found), id),
    decreases found.len(),
{
    if found.len() > 0 {
        noting_keeps_the_known(known, found.drop_last());
        let before = noted(known, found.drop_last());
        let after = noted(known, found);
        assert(before.is_prefix_of(after));
        assert(known.is_prefix_of(after)) by {
            assert(known =~= after.take(known.len() as int));
        }
    }
    let after = noted(known, found);
    assert forall|id: Seq<char>| #[trigger] is_known(known, id) implies is_known(after, id) by {
        let k = choose|k: int| 0 <= k < known.len() && (#[trigger] known[k]).id == id;
        assert(after[k] == known[k]);
    }
}

/// No memory is known twice: each is named to the language model by one name only.
pub proof fn no_memory_is_known_twice(
    known: Seq<KnownMemoryView>,
    found: Seq<VectorSearchResultView>,
)
    requires
        forall|i: int, j: int|
            0 <= i < j < known.len() ==> (#[trigger] known[i]).id != (#[trigger] known[j]).id,
    ensures
        forall|i: int, j: int|
            0 <= i < j < noted(known, found).len() ==> (#[trigger] noted(known, found)[i]).id != (
            #[trigger] noted(known, found)[j]).id,
    decreases found.len(),
{
    if found.len() > 0 {
        no_memory_is_known_twice(known, found.drop_last());
        let before = noted(known, found.drop_last());
        let after = noted(known, found);
        assert forall|i: int, j: int| 0 <= i < j < after.len() implies (#[trigger] after[i]).id != (
        #[trigger] after[j]).id by {
            assert(after[i] == before[i]);
            if j < before.len() {
                assert(after[j] == before[j]);
            }
        }
    }
}

proof fn stays_throughout(
    start: ProgressView<AddRunView, AddResultView>,
    replies: Seq<Told>,
)
    requires
        stays(start, Seq::empty()),
    ensures
        stays(after(start, replies), replies),
    decreases replies.len(),
{
    if replies.len() == 0 {
        assert(replies =~= Seq::empty());
    } else {
        stays_throughout(start, replies.drop_last());
        if let ProgressView::Ask(command, run) = after(start, replies.drop_last()) {
            a_step_stays(run, command, replies.drop_last(), replies.last());
            assert(replies.drop_last().push(replies.last()) =~= replies);
        }
    }
}

/// Whatever the language model answers, an addition reads and changes no stored memories but those
/// that the store told it are related to the facts.
pub proof fn additions_touch_only_related_memories(
    memory: Memory,
    messages: Seq<MessageView>,
    options: AddOptionsView,
    fresh: FreshView,
    replies: Seq<Told>,
)
    ensures
        after(add_start(memory, messages, options, fresh), replies) matches ProgressView::Ask(
            command,
            _,
        ) ==> (target(command) matches Some(id) ==> was_told_of(replies, id)),
{
    let start = add_start(memory, messages, options, fresh);
    raw_tasks_add(messages);
    let core = AddCoreView {
        todo: raw_tasks(messages),
        ..new_core(memory, options, false)
    };
    proceeding_stays(core, Seq::empty(), fresh);
    assert(stays(start, Seq::empty()));
    stays_throughout(start, replies);
    if let ProgressView::Ask(command, run) = after(start, replies) {
        if let Some(id) = target(command) {
            let k = choose|k: int|
                0 <= k < run.core.known.len() && (#[trigger] run.core.known[k]).id == id;
            assert(was_told_of(replies, run.core.known[k].id));
        }
    }
}

/// The payload is one of a new memory under the options.
pub open spec fn belongs_to(payload: PayloadView, options: AddOptionsView) -> bool {
    &&& payload.user_id == options.user_id
    &&& payload.agent_id == options.agent_id
    &&& payload.run_id == options.run_id
    &&& payload.memory_type == options.memory_type
    &&& options.metadata matches Some(metadata) ==> payload.metadata == metadata
}

/// How the addition came to where it is: what it was asked stays, and it waits for what it asked.
spec fn sound(progress: ProgressView<AddRunView, AddResultView>, options: AddOptionsView) -> bool {
    match progress {
        ProgressView::Done(_) => true,
        ProgressView::Ask(command, run) => {
            &&& run.core.options == options
            &&& command matches CommandView::Insert { payload, .. } ==> belongs_to(payload, options)
            &&& run.phase matches AddPhaseView::FactEncoding { fact } ==> command == (
            CommandView::Encode { text: fact }) && !run.core.cache.contains_key(fact)
            &&& run.phase matches AddPhaseView::NewEncoding { text, .. } ==> command == (
            CommandView::Encode { text }) && (run.core.caching ==> !run.core.cache.contains_key(
                text,
            ))
        },
    }
}

proof fn a_step_is_sound(
    run: AddRunView,
    command: CommandView,
    options: AddOptionsView,
    told: Told,
)
    requires
        sound(ProgressView::Ask(command, run), options),
    ensures
        sound(AddRun::next(run, told.0, told.1), options),
        AddRun::next(run, told.0, told.1) matches ProgressView::Ask(_, later) ==> {
            &&& later.core.caching == run.core.caching
            &&& forall|text: Seq<char>| #[trigger]
                run.core.cache.contains_key(text) ==> later.core.cache.contains_key(text)
            &&& run.phase matches AddPhaseView::FactEncoding { fact }
                ==> later.core.cache.contains_key(fact)
            &&& run.phase matches AddPhaseView::NewEncoding { text, .. } ==> (run.core.caching
                ==> later.core.cache.contains_key(text))
        },
{
}

proof fn sound_throughout(
    start: ProgressView<AddRunView, AddResultView>,
    options: AddOptionsView,
    replies: Seq<Told>,
)
    requires
        sound(start, options),
    ensures
        sound(after(start, replies), options),
    decreases replies.len(),
{
    if replies.len() > 0 {
        sound_throughout(start, options, replies.drop_last());
        if let ProgressView::Ask(command, run) = after(start, replies.drop_last()) {
            a_step_is_sound(run, command, options, replies.last());
        }
    }
}

/// Every new memory is kept for exactly those for whom it was to be added, is of the kind that was
/// given, and carries the metadata that was given.
pub proof fn new_memories_belong_to_the_scope(
    memory: Memory,
    messages: Seq<MessageView>,
    options: AddOptionsView,
    fresh: FreshView,
    replies: Seq<Told>,
)
    ensures
        after(add_start(memory, messages, options, fresh), replies) matches ProgressView::Ask(
            CommandView::Insert { payload, .. },
            _,
        ) ==> belongs_to(payload, options) && in_scope(
            payload,
            options.user_id,
            options.agent_id,
            options.run_id,
            options.memory_type,
        ),
{
    sound_throughout(add_start(memory, messages, options, fresh), options, replies);
}

/// The text that an addition wants encoded for its own sake, not for that of an update.
pub open spec fn wants_encoded(progress: ProgressView<AddRunView, AddResultView>) -> Option<
    Seq<char>,
> {
    match progress {
        ProgressView::Ask(CommandView::Encode { text }, run) => if run.phase is Updating {
            None
        } else {
            Some(text)
        },
        _ => None,
    }
}

proof fn wants_are_phases(
    start: ProgressView<AddRunView, AddResultView>,
    options: AddOptionsView,
    replies: Seq<Told>,
)
    requires
        sound(start, options),
        encodes_by_phase(start),
    ensures
        encodes_by_phase(after(start, replies)),
    decreases replies.len(),
{
    if replies.len() > 0 {
        wants_are_phases(start, options, replies.drop_last());
    }
}

/// A text is encoded for a fact, for a new memory, or for an update.
spec fn encodes_by_phase(progress: ProgressView<AddRunView, AddResultView>) -> bool {
    progress matches ProgressView::Ask(CommandView::Encode { .. }, run) ==> run.phase is Updating
        || run.phase is FactEncoding || run.phase is NewEncoding
}

proof fn what_was_encoded_is_cached(
    start: ProgressView<AddRunView, AddResultView>,
    options: AddOptionsView,
    replies: Seq<Told>,
    i: int,
    text: Seq<char>,
)
    requires
        sound(start, options),
        encodes_by_phase(start),
        start matches ProgressView::Ask(_, run) ==> run.core.caching,
        0 <= i < replies.len(),
        wants_encoded(after(start, replies.take(i))) == Some(text),
    ensures
        after(start, replies) matches ProgressView::Ask(_, run) ==> run.core.caching
            && run.core.cache.contains_key(text),
    decreases replies.len(),
{
    let front = replies.drop_last();
    sound_throughout(start, options, front);
    wants_are_phases(start, options, front);
    caching_stays(start, options, front);
    if i < front.len() {
        assert(front.take(i) =~= replies.take(i));
        what_was_encoded_is_cached(start, options, front, i, text);
    } else {
        assert(front =~= replies.take(i));
    }
    if let ProgressView::Ask(command, run) = after(start, front) {
        a_step_is_sound(run, command, options, replies.last());
    }
}

proof fn caching_stays(
    start: ProgressView<AddRunView, AddResultView>,
    options: AddOptionsView,
    replies: Seq<Told>,
)
    requires
        sound(start, options),
        start matches ProgressView::Ask(_, run) ==> run.core.caching,
    ensures
        after(start, replies) matches ProgressView::Ask(_, run) ==> run.core.caching,
    decreases replies.len(),
{
    if replies.len() > 0 {
        caching_stays(start, options, replies.drop_last());
        sound_throughout(start, options, replies.drop_last());
        if let ProgressView::Ask(command, run) = after(start, replies.drop_last()) {
            a_step_is_sound(run, command, options, replies.last());
        }
    }
}

/// An addition of facts has no text encoded twice, neither for facts nor for new memories.
pub proof fn no_text_is_encoded_twice(
    memory: Memory,
    messages: Seq<MessageView>,
    options: AddOptionsView,
    replies: Seq<Told>,
    i: int,
)
    requires
        memory.has_llm,
        0 <= i < replies.len(),
        wants_encoded(
            after(
                inference_start(memory, messages, options),
                replies.take(i),
            ),
        ) is Some,
    ensures
        wants_encoded(after(inference_start(memory, messages, options), replies))
            != wants_encoded(
            after(
                inference_start(memory, messages, options),
                replies.take(i),
            ),
        ),
{
    let start = inference_start(memory, messages, options);
    let text = wants_encoded(after(start, replies.take(i)))->0;
    what_was_encoded_is_cached(start, options, replies, i, text);
    sound_throughout(start, options, replies);
    wants_are_phases(start, options, replies);
}

/// Meeting a memory again changes at most the agent and the session that it is kept for. Its
/// embedding stays, and the history keeps nothing of it.
pub proof fn meeting_again_changes_only_the_session(
    core: AddCoreView,
    id: Seq<char>,
    found: VectorSearchResultView,
    fresh: FreshView,
)
    ensures
        touched(found.payload, core.options) == (PayloadView {
            agent_id: touched(found.payload, core.options).agent_id,
            run_id: touched(found.payload, core.options).run_id,
            ..found.payload
        }),
        AddRun::next(
            AddRunView { core, phase: AddPhaseView::Touching { id } },
            ReplyView::Fetched(Some(found)),
            fresh,
        ) == (if touched(found.payload, core.options) != found.payload {
            ProgressView::Ask(
                CommandView::Replace {
                    id,
                    new_embedding: None,
                    payload: touched(found.payload, core.options),
                },
                AddRunView { core, phase: AddPhaseView::Touched },
            )
        } else {
            proceed(core, fresh)
        }),
        forall|reply: ReplyView| #[trigger]
            AddRun::next(AddRunView { core, phase: AddPhaseView::Touched }, reply, fresh)
                == proceed(core, fresh),
        !(proceed(core, fresh) matches ProgressView::Ask(CommandView::Record { .. }, _)),
{
}

/// Without anyone for whom memories are to be kept, nothing is asked of any service.
pub proof fn additions_need_a_scope(
    memory: Memory,
    messages: Seq<MessageView>,
    options: AddOptionsView,
    fresh: FreshView,
)
    requires
        options.user_id is None,
        options.agent_id is None,
        options.run_id is None,
    ensures
        add_start(memory, messages, options, fresh) matches ProgressView::Done(
            Err(MemoryErrorView::InvalidInput(_)),
        ),
{
}

/// Without a language model, messages are stored as they are even if facts are wanted.
pub proof fn without_a_model_messages_are_stored(
    memory: Memory,
    messages: Seq<MessageView>,
    options: AddOptionsView,
    fresh: FreshView,
)
    requires
        !memory.has_llm,
        options.user_id is Some || options.agent_id is Some || options.run_id is Some,
    ensures
        add_start(memory, messages, options, fresh) == raw_start(memory, messages, options, fresh),
{
}

/// An update on behalf of a caller goes beyond fetching the memory exactly if the memory is there
/// and is the caller's. Otherwise it ends without having written anything.
pub proof fn only_owners_update(
    id: Seq<char>,
    content: Seq<char>,
    caller: CallerView,
    history: bool,
    found: Option<VectorSearchResultView>,
    fresh: FreshView,
)
    ensures
        match UpdateRun::next(
            UpdateRunView::Fetching { id, content, caller: Some(caller), history },
            ReplyView::Fetched(found),
            fresh,
        ) {
            ProgressView::Ask(command, _) => found is Some && is_owner(
                record_of(found->0),
                caller,
            ) && command == (CommandView::Encode { text: content }),
            ProgressView::Done(Ok(_)) => false,
            ProgressView::Done(Err(MemoryErrorView::NotFound(missing))) => found is None && missing
                == id,
            ProgressView::Done(Err(MemoryErrorView::Unauthorized { memory_id, .. })) => found
                is Some && !is_owner(record_of(found->0), caller) && memory_id == id,
            ProgressView::Done(Err(_)) => false,
        },
{
}

/// A deletion on behalf of a caller takes the memory out exactly if the memory is there and is the
/// caller's. Otherwise it ends without having changed anything.
pub proof fn only_owners_delete(
    id: Seq<char>,
    caller: CallerView,
    history: bool,
    found: Option<VectorSearchResultView>,
    fresh: FreshView,
)
    ensures
        match DeleteRun::next(
            DeleteRunView::Fetching { id, caller: Some(caller), history },
            ReplyView::Fetched(found),
            fresh,
        ) {
            ProgressView::Ask(command, _) => found is Some && is_owner(
                record_of(found->0),
                caller,
            ) && command == (CommandView::Remove { id }),
            ProgressView::Done(Ok(_)) => false,
            ProgressView::Done(Err(MemoryErrorView::NotFound(missing))) => found is None && missing
                == id,
            ProgressView::Done(Err(MemoryErrorView::Unauthorized { memory_id, .. })) => found
                is Some && !is_owner(record_of(found->0), caller) && memory_id == id,
            ProgressView::Done(Err(_)) => false,
        },
{
}

/// An update that the services carry out replaces the content and its fingerprint, and leaves
/// everything else of the memory as it was. The history keeps what the content was before.
pub proof fn updates_change_only_the_content(
    id: Seq<char>,
    content: Seq<char>,
    caller: Option<CallerView>,
    history: bool,
    found: VectorSearchResultView,
    encoding: EncodingView,
    fresh: FreshView,
)
    requires
        denial(id, Some(found), caller) is None,
    ensures
        ({
            let old = record_of(found);
            let new = MemoryRecordView { content, hash: encoding.hash, ..old };
            let fetching = UpdateRunView::Fetching { id, content, caller, history };
            let encoded = UpdateRun::next(
                UpdateRun::next(fetching, ReplyView::Fetched(Some(found)), fresh)->Ask_1,
                ReplyView::Encoded(encoding),
                fresh,
            );
            let replaced = UpdateRun::next(encoded->Ask_1, ReplyView::Done, fresh);
            &&& encoded matches ProgressView::Ask(command, _) && command == (CommandView::Replace {
                id,
                new_embedding: Some(encoding.embedding),
                payload: PayloadView { data: content, hash: encoding.hash, ..payload_of(old) },
            })
            &&& history ==> (replaced matches ProgressView::Ask(
                CommandView::Record { change },
                _,
            ) && change.previous_content == Some(old.content) && change.new_content == content
                && change.memory_id == old.id)
            &&& !history ==> replaced == ProgressView::<UpdateRunView, MemoryRecordView>::Done(
                Ok(new),
            )
        }),
{
}

/// A search without rerank gives at most as many memories as were asked for, all of them memories
/// that the store found and whose score reaches the threshold, from the best to the worst.
pub proof fn searches_give_the_best(
    query: Seq<char>,
    options: SearchOptionsView,
    reranker: bool,
    found: Seq<VectorSearchResultView>,
    fresh: FreshView,
)
    requires
        !options.rerank || !reranker,
    ensures
        SearchRun::next(
            SearchRunView::Querying { query, options, reranker },
            ReplyView::Found(found),
            fresh,
        ) matches ProgressView::Done(Ok(result)) && {
            &&& result.results.len() <= given_or(options.limit, DEFAULT_SEARCH_LIMIT)
            &&& forall|i: int|
                0 <= i < result.results.len() ==> reaches(
                    (#[trigger] result.results[i]).score,
                    search_threshold(options),
                )
            &&& forall|i: int|
                0 <= i < result.results.len() ==> exists|k: int|
                    0 <= k < found.len() && (#[trigger] result.results[i]).record == record_of(
                        #[trigger] found[k],
                    ) && result.results[i].score == found[k].score
            &&& best_first(result.results, |m: ScoredMemoryView| m.score)
        },
{
    broadcast use vstd::seq_lib::group_to_multiset_ensures;
    broadcast use vstd::seq_lib::group_filter_ensures;

    let threshold = search_threshold(options);
    let limit = given_or(options.limit, DEFAULT_SEARCH_LIMIT);
    let kept = above_threshold(found, threshold);
    let score = |m: ScoredMemoryView| m.score;
    let all = found.map_values(|f: VectorSearchResultView| scored_of(f));
    let keep = |m: ScoredMemoryView| reaches(m.score, threshold);
    assert(kept == all.filter(keep));
    assert forall|i: int| 0 <= i < kept.len() implies !score_is_nan(score(#[trigger] kept[i])) by {
        assert(keep(kept[i]));
    }
    ranking_is_stable(kept, score);
    let ordered = ranked(kept, score);
    let results = best_of(kept, limit);
    assert forall|i: int| 0 <= i < results.len() implies kept.contains(#[trigger] results[i]) by {
        assert(results[i] == ordered[i]);
        assert(ordered.contains(ordered[i]));
        assert(ordered.to_multiset().count(ordered[i]) > 0);
        assert(kept.to_multiset().count(ordered[i]) > 0);
    }
    assert forall|i: int| 0 <= i < results.len() implies reaches(
        (#[trigger] results[i]).score,
        threshold,
    ) by {
        assert(kept.contains(results[i]));
        let j = choose|j: int| 0 <= j < kept.len() && kept[j] == results[i];
        assert(keep(kept[j]));
    }
    assert forall|i: int| 0 <= i < results.len() implies exists|k: int|
        0 <= k < found.len() && (#[trigger] results[i]).record == record_of(#[trigger] found[k])
            && results[i].score == found[k].score by {
        assert(kept.contains(results[i]));
        let j = choose|j: int| 0 <= j < kept.len() && kept[j] == results[i];
        filtered_values_are_of_the_list(all, keep, j);
        let k = choose|k: int| 0 <= k < all.len() && all[k] == kept[j];
        assert(all[k] == scored_of(found[k]));
    }
    assert(best_first(results, score)) by {
        assert forall|i: int, j: int| 0 <= i <= j < results.len() implies
            score_rank(score(#[trigger] results[i])) >= score_rank(
            score(#[trigger] results[j]),
        ) by {
            assert(results[i] == ordered[i]);
            assert(results[j] == ordered[j]);
        }
    }
}

/// A search with rerank gives at most as many memories as were asked for, all of them memories that
/// the reranker gave back. If the reranker gave each a score that is a number, they come from the
/// best to the worst.
pub proof fn reranked_searches_give_the_best(
    limit: usize,
    memories: Seq<ScoredMemoryView>,
    fresh: FreshView,
)
    ensures
        SearchRun::next(
            SearchRunView::Reranking { limit },
            ReplyView::Reranked(memories),
            fresh,
        ) matches ProgressView::Done(Ok(result)) && {
            &&& result.results.len() <= limit
            &&& forall|i: int|
                0 <= i < result.results.len() ==> memories.contains(#[trigger] result.results[i])
            &&& (forall|i: int|
                0 <= i < memories.len() ==> !score_is_nan((#[trigger] memories[i]).score))
                ==> best_first(result.results, |m: ScoredMemoryView| m.score)
        },
{
    broadcast use vstd::seq_lib::group_to_multiset_ensures;

    let score = |m: ScoredMemoryView| m.score;
    ranking_keeps_the_values(memories, score);
    let ordered = ranked(memories, score);
    let results = best_of(memories, limit);
    assert forall|i: int| 0 <= i < results.len() implies memories.contains(
        #[trigger] results[i],
    ) by {
        assert(results[i] == ordered[i]);
        assert(ordered.contains(ordered[i]));
        assert(ordered.to_multiset().count(ordered[i]) > 0);
        assert(memories.to_multiset().count(ordered[i]) > 0);
    }
    if forall|i: int| 0 <= i < memories.len() ==> !score_is_nan((#[trigger] memories[i]).score) {
        assert forall|i: int| 0 <= i < memories.len() implies !score_is_nan(
            score(#[trigger] memories[i]),
        ) by {}
        ranking_is_stable(memories, score);
        assert forall|i: int, j: int| 0 <= i <= j < results.len() implies
            score_rank(score(#[trigger] results[i])) >= score_rank(
            score(#[trigger] results[j]),
        ) by {
            assert(results[i] == ordered[i]);
            assert(results[j] == ordered[j]);
        }
    }
}

/// A reset takes out exactly the memories of the tiers that are given, and forgets the history
/// exactly if none is given and there is one.
pub proof fn resets_keep_to_their_scope(
    memory: Memory,
    options: ResetOptionsView,
    payload: PayloadView,
    fresh: FreshView,
)
    ensures
        reset_start(memory, options) matches ProgressView::Ask(
            CommandView::RemoveAll { filters },
            run,
        ) && {
            &&& is_match(payload, filters) <==> in_scope(
                payload,
                options.user_id,
                options.agent_id,
                options.run_id,
                None,
            )
            &&& (ResetRun::next(run, ReplyView::Done, fresh) matches ProgressView::Ask(
                CommandView::ClearHistory,
                _,
            )) <==> memory.has_history && options.user_id is None && options.agent_id is None
                && options.run_id is None
        },
{
    scope_filters_select_the_scope(
        payload,
        options.user_id,
        options.agent_id,
        options.run_id,
        None,
    );
}

/// A memory that an addition stored is found again: it is there under its identifier, as it was
/// made, and it is among the memories of the scope that it was added for.
pub proof fn added_memories_are_found_again(
    store: Map<Seq<char>, EntryView>,
    options: AddOptionsView,
    text: Seq<char>,
    encoding: EncodingView,
    drawn: FreshView,
    fresh: FreshView,
)
    ensures
        ({
            let record = new_record(options, text, encoding.hash, drawn);
            let id = uuid_text(record.id);
            let later = store_insert(store, id, encoding.embedding, payload_of(record));
            &&& GetRun::next(GetRun {  }, ReplyView::Fetched(store_get(later, id)), fresh)
                == ProgressView::<GetRun, LookupView>::Done(Ok(LookupView { record: Some(record) }))
            &&& is_match(
                later[id].payload,
                scope_filters(
                    options.user_id,
                    options.agent_id,
                    options.run_id,
                    options.memory_type,
                ),
            )
        }),
{
    let record = new_record(options, text, encoding.hash, drawn);
    uuid_text_is_read_back(record.id);
    scope_filters_select_the_scope(
        payload_of(record),
        options.user_id,
        options.agent_id,
        options.run_id,
        options.memory_type,
    );
}

/// A memory that was updated is found with its new content, and one that was deleted is not found.
pub proof fn changed_memories_are_found_changed(
    store: Map<Seq<char>, EntryView>,
    record: MemoryRecordView,
    content: Seq<char>,
    encoding: EncodingView,
    fresh: FreshView,
)
    ensures
        ({
            let id = uuid_text(record.id);
            let new = MemoryRecordView { content, hash: encoding.hash, ..record };
            let updated = store_update(store, id, Some(encoding.embedding), payload_of(new));
            &&& GetRun::next(GetRun {  }, ReplyView::Fetched(store_get(updated, id)), fresh)
                == ProgressView::<GetRun, LookupView>::Done(Ok(LookupView { record: Some(new) }))
            &&& GetRun::next(
                GetRun {  },
                ReplyView::Fetched(store_get(store.remove(id), id)),
                fresh,
            ) == ProgressView::<GetRun, LookupView>::Done(Ok(LookupView { record: None }))
        }),
{
    uuid_text_is_read_back(record.id);
}

} // verus!
