//! What an addition of facts tells of what it did.
use vstd::prelude::*;

use crate::ids::uuid_of;
use crate::memory::add::{
    added, inference_start, plan, proceed, touched, AddCoreView, AddPhaseView,
    AddResultView, AddRun, AddRunView, TaskView,
};
use crate::memory::laws::{after, Told};
use crate::memory::manager::{
    with_content, DeleteRun, DeleteRunView, Finished, Memory, UpdateRun, UpdateRunView,
};
use crate::memory::protocol::{
    CommandView, FreshView, ProgressView, ReplyView, Run,
};
use crate::models::{
    record_of, AddOptionsView, EventType, MemoryEventView, MemoryRecordView, MessageView,
};

verus! {

/// How far an operation comes with some replies. Once it has ended, replies change nothing.
pub open spec fn carried<R: Run>(
    start: ProgressView<R::V, <R::Output as View>::V>,
    replies: Seq<Told>,
) -> ProgressView<R::V, <R::Output as View>::V>
    decreases replies.len(),
{
    if replies.len() == 0 {
        start
    } else {
        match carried::<R>(start, replies.drop_last()) {
            ProgressView::Ask(_, run) => R::next(run, replies.last().0, replies.last().1),
            done => done,
        }
    }
}

/// The operation ends with the last of the replies, and not before.
pub open spec fn just_ends<R: Run>(
    start: ProgressView<R::V, <R::Output as View>::V>,
    replies: Seq<Told>,
) -> bool {
    &&& replies.len() > 0
    &&& carried::<R>(start, replies.drop_last()) is Ask
    &&& carried::<R>(start, replies) is Done
}

/// How a memory is updated on nobody's behalf.
pub open spec fn own_update(id: Seq<char>, content: Seq<char>, history: bool) -> ProgressView<
    UpdateRunView,
    MemoryRecordView,
> {
    ProgressView::Ask(
        CommandView::Fetch { id },
        UpdateRunView::Fetching { id, content, caller: None, history },
    )
}

/// How a memory is deleted on nobody's behalf.
pub open spec fn own_deletion(id: Seq<char>, history: bool) -> ProgressView<
    DeleteRunView,
    Finished,
> {
    ProgressView::Ask(
        CommandView::Fetch { id },
        DeleteRunView::Fetching { id, caller: None, history },
    )
}

/// A stored memory was fetched that has to be replaced for being met again.
pub open spec fn needs_touch(told: Told, options: AddOptionsView) -> bool {
    told.0 matches ReplyView::Fetched(Some(found)) && touched(found.payload, options)
        != found.payload
}

/// The replies are those from the beginning of a task to its end: a new memory was encoded, unless
/// that had been done, and stored; an update or a deletion ended, well or not; a memory that was
/// met again was fetched and, where that changes it, replaced.
pub open spec fn serves(
    task: TaskView,
    memory: Memory,
    options: AddOptionsView,
    part: Seq<Told>,
) -> bool {
    match task {
        TaskView::Add { .. } => {
            let stored = part.len() - if memory.has_history {
                2int
            } else {
                1int
            };
            &&& 0 <= stored <= 1
            &&& part[stored].0 is Done
            &&& stored == 1 ==> part[0].0 is Encoded
        },
        TaskView::Update { id, content, .. } => just_ends::<UpdateRun>(
            own_update(id, content, memory.has_history),
            part,
        ),
        TaskView::Delete { id } => just_ends::<DeleteRun>(
            own_deletion(id, memory.has_history),
            part,
        ),
        TaskView::Touch { .. } => {
            &&& part.len() > 0
            &&& part.len() == if needs_touch(part[0], options) {
                2nat
            } else {
                1nat
            }
        },
    }
}

/// What is told of a task, from what was new when it began and the replies while it was done. Of an
/// update or a deletion that failed nothing is told, nor of the deletion of a memory whose
/// identifier is no UUID, nor of a memory that was met again.
pub open spec fn task_event(
    task: TaskView,
    memory: Memory,
    began: FreshView,
    part: Seq<Told>,
) -> Option<MemoryEventView> {
    match task {
        TaskView::Add { text } => Some(
            MemoryEventView {
                id: began.id,
                memory: text,
                event: EventType::Add,
                previous_memory: None,
            },
        ),
        TaskView::Update { id, content, previous } => match carried::<UpdateRun>(
            own_update(id, content, memory.has_history),
            part,
        ) {
            ProgressView::Done(Ok(record)) => Some(
                MemoryEventView {
                    id: record.id,
                    memory: content,
                    event: EventType::Update,
                    previous_memory: Some(previous),
                },
            ),
            _ => None,
        },
        TaskView::Delete { id } => match (
            carried::<DeleteRun>(own_deletion(id, memory.has_history), part),
            uuid_of(id),
        ) {
            (ProgressView::Done(Ok(_)), Some(uuid)) => Some(
                MemoryEventView {
                    id: uuid as u128,
                    memory: Seq::empty(),
                    event: EventType::Delete,
                    previous_memory: None,
                },
            ),
            _ => None,
        },
        TaskView::Touch { .. } => None,
    }
}

/// The replies between two places.
pub open spec fn part_of(replies: Seq<Told>, cuts: Seq<int>, k: int) -> Seq<Told> {
    replies.subrange(cuts[k], cuts[k + 1])
}

/// The replies from one place to the next are those to a task.
pub open spec fn is_served(
    tasks: Seq<TaskView>,
    memory: Memory,
    options: AddOptionsView,
    replies: Seq<Told>,
    cuts: Seq<int>,
    k: int,
) -> bool {
    &&& 0 < cuts[k] < cuts[k + 1] <= replies.len()
    &&& serves(tasks[k], memory, options, part_of(replies, cuts, k))
}

/// What is told of the first tasks, one by one.
pub open spec fn outcomes(
    tasks: Seq<TaskView>,
    memory: Memory,
    replies: Seq<Told>,
    cuts: Seq<int>,
    count: nat,
) -> Seq<Option<MemoryEventView>> {
    Seq::new(
        count,
        |k: int|
            task_event(tasks[k], memory, replies[cuts[k] - 1].1, part_of(replies, cuts, k)),
    )
}

/// The events tell of the first tasks, in order: the replies after the first cut fall into parts,
/// one for each task, and there is an event for each task of which something is told.
pub open spec fn tells_of_tasks(
    events: Seq<MemoryEventView>,
    tasks: Seq<TaskView>,
    memory: Memory,
    options: AddOptionsView,
    replies: Seq<Told>,
    cuts: Seq<int>,
    count: nat,
) -> bool {
    &&& cuts.len() == count + 1
    &&& forall|k: int|
        0 <= k < count ==> #[trigger] is_served(tasks, memory, options, replies, cuts, k)
    &&& events == outcomes(tasks, memory, replies, cuts, count).filter_map(
        |e: Option<MemoryEventView>| e,
    )
}

/// The events tell of all tasks, with the replies that come after a place.
pub open spec fn is_account(
    events: Seq<MemoryEventView>,
    tasks: Seq<TaskView>,
    memory: Memory,
    options: AddOptionsView,
    replies: Seq<Told>,
    i: int,
) -> bool {
    exists|cuts: Seq<int>| #[trigger]
        tells_of_tasks(events, tasks, memory, options, replies, cuts, tasks.len()) && cuts[0] == i
            + 1
}

/// The addition is at work on a task, with the replies that it had since the task began.
spec fn underway(
    task: TaskView,
    memory: Memory,
    options: AddOptionsView,
    began: FreshView,
    part: Seq<Told>,
    command: CommandView,
    phase: AddPhaseView,
) -> bool {
    match (task, phase) {
        (TaskView::Add { text }, AddPhaseView::NewEncoding { text: t, fresh }) => {
            t == text && fresh == began && part.len() == 0
        },
        (TaskView::Add { text }, AddPhaseView::Inserting { record }) => {
            &&& record.content == text && record.id == began.id
            &&& part.len() <= 1
            &&& part.len() == 1 ==> part[0].0 is Encoded
        },
        (TaskView::Add { text }, AddPhaseView::Recording { record }) => {
            &&& memory.has_history
            &&& record.content == text && record.id == began.id
            &&& 1 <= part.len() <= 2
            &&& part.last().0 is Done
            &&& part.len() == 2 ==> part[0].0 is Encoded
        },
        (
            TaskView::Update { id, content, previous },
            AddPhaseView::Updating { update, content: c, previous: p },
        ) => {
            &&& c == content && p == previous
            &&& carried::<UpdateRun>(own_update(id, content, memory.has_history), part)
                == ProgressView::<UpdateRunView, MemoryRecordView>::Ask(command, update)
        },
        (TaskView::Delete { id }, AddPhaseView::Deleting { deletion, id: i }) => {
            &&& i == id
            &&& carried::<DeleteRun>(own_deletion(id, memory.has_history), part)
                == ProgressView::<DeleteRunView, Finished>::Ask(command, deletion)
        },
        (TaskView::Touch { .. }, AddPhaseView::Touching { .. }) => part.len() == 0,
        (TaskView::Touch { .. }, AddPhaseView::Touched) => part.len() == 1 && needs_touch(
            part[0],
            options,
        ),
        _ => false,
    }
}

/// The addition has an account of what it has done, and is at work on the next task.
spec fn keeps_account(
    progress: ProgressView<AddRunView, AddResultView>,
    tasks: Seq<TaskView>,
    memory: Memory,
    options: AddOptionsView,
    replies: Seq<Told>,
    cuts: Seq<int>,
) -> bool {
    match progress {
        ProgressView::Done(Err(_)) => true,
        ProgressView::Done(Ok(result)) => tells_of_tasks(
            result.results,
            tasks,
            memory,
            options,
            replies,
            cuts,
            tasks.len(),
        ),
        ProgressView::Ask(command, run) => {
            let done = cuts.len() - 1;
            &&& 0 <= done < tasks.len()
            &&& 0 < cuts[done] <= replies.len()
            &&& tells_of_tasks(
                run.core.events,
                tasks,
                memory,
                options,
                replies,
                cuts,
                done as nat,
            )
            &&& run.core.memory == memory
            &&& run.core.options == options
            &&& run.core.todo == tasks.skip(done + 1)
            &&& underway(
                tasks[done],
                memory,
                options,
                replies[cuts[done] - 1].1,
                replies.skip(cuts[done]),
                command,
                run.phase,
            )
        },
    }
}

/// What was told of tasks stays told when more replies come.
proof fn more_replies_change_no_account(
    events: Seq<MemoryEventView>,
    tasks: Seq<TaskView>,
    memory: Memory,
    options: AddOptionsView,
    replies: Seq<Told>,
    cuts: Seq<int>,
    count: nat,
    told: Told,
)
    requires
        tells_of_tasks(events, tasks, memory, options, replies, cuts, count),
    ensures
        tells_of_tasks(events, tasks, memory, options, replies.push(told), cuts, count),
{
    let more = replies.push(told);
    assert forall|k: int| 0 <= k < count implies #[trigger] is_served(
        tasks,
        memory,
        options,
        more,
        cuts,
        k,
    ) && part_of(more, cuts, k) == part_of(replies, cuts, k) by {
        assert(is_served(tasks, memory, options, replies, cuts, k));
        assert(part_of(more, cuts, k) =~= part_of(replies, cuts, k));
    }
    assert(outcomes(tasks, memory, more, cuts, count) =~= outcomes(
        tasks,
        memory,
        replies,
        cuts,
        count,
    )) by {
        assert forall|k: int| 0 <= k < count implies outcomes(
            tasks,
            memory,
            more,
            cuts,
            count,
        )[k] == outcomes(tasks, memory, replies, cuts, count)[k] by {
            assert(is_served(tasks, memory, options, replies, cuts, k));
            assert(is_served(tasks, memory, options, more, cuts, k));
            assert(part_of(more, cuts, k) =~= part_of(replies, cuts, k));
            assert(more[cuts[k] - 1] == replies[cuts[k] - 1]);
        }
    }
}

/// When a task ends, what is told of it comes last.
proof fn an_ended_task_is_told(
    events: Seq<MemoryEventView>,
    tasks: Seq<TaskView>,
    memory: Memory,
    options: AddOptionsView,
    replies: Seq<Told>,
    cuts: Seq<int>,
    count: nat,
)
    requires
        tells_of_tasks(events, tasks, memory, options, replies, cuts, count),
        0 < cuts[count as int] < replies.len(),
        serves(tasks[count as int], memory, options, replies.skip(cuts[count as int])),
    ensures
        tells_of_tasks(
            match task_event(
                tasks[count as int],
                memory,
                replies[cuts[count as int] - 1].1,
                replies.skip(cuts[count as int]),
            ) {
                Some(event) => events.push(event),
                None => events,
            },
            tasks,
            memory,
            options,
            replies,
            cuts.push(replies.len() as int),
            count + 1,
        ),
{
    let longer = cuts.push(replies.len() as int);
    let n = count as int;
    assert(part_of(replies, longer, n) =~= replies.skip(cuts[n]));
    assert forall|k: int| 0 <= k < count + 1 implies #[trigger] is_served(
        tasks,
        memory,
        options,
        replies,
        longer,
        k,
    ) by {
        if k < count {
            assert(is_served(tasks, memory, options, replies, cuts, k));
            assert(part_of(replies, longer, k) =~= part_of(replies, cuts, k));
        }
    }
    let before = outcomes(tasks, memory, replies, cuts, count);
    let all = outcomes(tasks, memory, replies, longer, count + 1);
    assert(all.drop_last() =~= before) by {
        assert forall|k: int| 0 <= k < count implies all[k] == before[k] by {
            assert(part_of(replies, longer, k) =~= part_of(replies, cuts, k));
        }
    }
    let same = |e: Option<MemoryEventView>| e;
    assert(all.last() == task_event(
        tasks[n],
        memory,
        replies[cuts[n] - 1].1,
        replies.skip(cuts[n]),
    ));
    if let Some(event) = all.last() {
        assert(all.filter_map(same) =~= before.filter_map(same).push(event));
    }
}

/// Turning to the next task, the addition keeps its account.
proof fn proceeding_keeps_account(
    core: AddCoreView,
    fresh: FreshView,
    tasks: Seq<TaskView>,
    memory: Memory,
    options: AddOptionsView,
    replies: Seq<Told>,
    cuts: Seq<int>,
)
    requires
        1 <= cuts.len() <= tasks.len() + 1,
        replies.len() > 0,
        cuts.last() == replies.len(),
        fresh == replies.last().1,
        tells_of_tasks(
            core.events,
            tasks,
            memory,
            options,
            replies,
            cuts,
            (cuts.len() - 1) as nat,
        ),
        core.memory == memory,
        core.options == options,
        core.todo == tasks.skip(cuts.len() - 1),
    ensures
        keeps_account(proceed(core, fresh), tasks, memory, options, replies, cuts),
{
    let done = cuts.len() - 1;
    if core.todo.len() > 0 {
        assert(core.todo[0] == tasks[done]);
        assert(core.todo.skip(1) =~= tasks.skip(done + 1));
        assert(replies.skip(cuts[done]).len() == 0);
    }
}

/// An addition whose task ends keeps its account.
proof fn ending_keeps_account(
    core: AddCoreView,
    event: Option<MemoryEventView>,
    tasks: Seq<TaskView>,
    memory: Memory,
    options: AddOptionsView,
    replies: Seq<Told>,
    cuts: Seq<int>,
)
    requires
        1 <= cuts.len() <= tasks.len(),
        0 < cuts.last() < replies.len(),
        tells_of_tasks(
            core.events,
            tasks,
            memory,
            options,
            replies,
            cuts,
            (cuts.len() - 1) as nat,
        ),
        core.memory == memory,
        core.options == options,
        core.todo == tasks.skip(cuts.len() as int),
        serves(tasks[cuts.len() - 1], memory, options, replies.skip(cuts.last())),
        event == task_event(
            tasks[cuts.len() - 1],
            memory,
            replies[cuts.last() - 1].1,
            replies.skip(cuts.last()),
        ),
    ensures
        keeps_account(
            proceed(
                AddCoreView {
                    events: match event {
                        Some(e) => core.events.push(e),
                        None => core.events,
                    },
                    ..core
                },
                replies.last().1,
            ),
            tasks,
            memory,
            options,
            replies,
            cuts.push(replies.len() as int),
        ),
{
    let count = (cuts.len() - 1) as nat;
    an_ended_task_is_told(core.events, tasks, memory, options, replies, cuts, count);
    proceeding_keeps_account(
        AddCoreView {
            events: match event {
                Some(e) => core.events.push(e),
                None => core.events,
            },
            ..core
        },
        replies.last().1,
        tasks,
        memory,
        options,
        replies,
        cuts.push(replies.len() as int),
    );
}

/// With each reply the addition keeps its account.
proof fn a_step_keeps_account(
    run: AddRunView,
    command: CommandView,
    tasks: Seq<TaskView>,
    memory: Memory,
    options: AddOptionsView,
    replies: Seq<Told>,
    cuts: Seq<int>,
    told: Told,
) -> (later: Seq<int>)
    requires
        keeps_account(ProgressView::Ask(command, run), tasks, memory, options, replies, cuts),
    ensures
        keeps_account(
            AddRun::next(run, told.0, told.1),
            tasks,
            memory,
            options,
            replies.push(told),
            later,
        ),
        later.len() > 0,
        later[0] == cuts[0],
{
    let core = run.core;
    let all = replies.push(told);
    let done = cuts.len() - 1;
    let task = tasks[done];
    let part = replies.skip(cuts[done]);
    let longer = all.skip(cuts[done]);
    assert(longer =~= part.push(told));
    assert(longer.drop_last() =~= part);
    assert(all[cuts[done] - 1] == replies[cuts[done] - 1]);
    let began = all[cuts[done] - 1].1;
    more_replies_change_no_account(
        core.events,
        tasks,
        memory,
        options,
        replies,
        cuts,
        done as nat,
        told,
    );
    let event = task_event(task, memory, began, longer);
    let (reply, fresh) = told;
    let ends = match (run.phase, reply) {
        (AddPhaseView::Inserting { .. }, ReplyView::Done) => !memory.has_history,
        (AddPhaseView::Recording { .. }, _) => true,
        (AddPhaseView::Updating { update, .. }, _) => UpdateRun::next(update, reply, fresh) is Done,
        (AddPhaseView::Deleting { deletion, .. }, _) => DeleteRun::next(deletion, reply, fresh)
            is Done,
        (AddPhaseView::Touching { .. }, _) => !needs_touch(told, options),
        (AddPhaseView::Touched, _) => true,
        _ => false,
    };
    if ends {
        if let AddPhaseView::Inserting { record } = run.phase {
            assert(event == Some(added(record)));
        }
        if let AddPhaseView::Recording { record } = run.phase {
            assert(event == Some(added(record)));
        }
        assert(serves(task, memory, options, longer));
        ending_keeps_account(core, event, tasks, memory, options, all, cuts);
        cuts.push(all.len() as int)
    } else {
        cuts
    }
}

/// The language model is yet to say what to do.
spec fn is_early(phase: AddPhaseView) -> bool {
    phase is Facts || phase is FactEncoding || phase is FactHits || phase is Actions
}

/// The place among the replies at which the language model says what to do.
pub open spec fn acts_at(
    start: ProgressView<AddRunView, AddResultView>,
    replies: Seq<Told>,
    i: int,
) -> bool {
    &&& 0 <= i < replies.len()
    &&& replies[i].0 is Actions
    &&& after(start, replies.take(i)) matches ProgressView::Ask(_, run) && run.phase is Actions
}

/// What the language model has an addition do: what is planned for its actions with the memories
/// that are known by then.
pub open spec fn tasks_at(
    start: ProgressView<AddRunView, AddResultView>,
    replies: Seq<Told>,
    i: int,
    options: AddOptionsView,
) -> Seq<TaskView> {
    match (after(start, replies.take(i)), replies[i].0) {
        (ProgressView::Ask(_, run), ReplyView::Actions(actions)) => plan(
            actions,
            run.core.known,
            options,
        ),
        _ => Seq::empty(),
    }
}

/// Until the language model says what to do, an addition of facts has done nothing. It begins with
/// the facts, and ends before that only if there are none.
spec fn awaits_actions(
    start: ProgressView<AddRunView, AddResultView>,
    memory: Memory,
    options: AddOptionsView,
    replies: Seq<Told>,
) -> bool {
    match after(start, replies) {
        ProgressView::Done(Err(_)) => true,
        ProgressView::Done(Ok(result)) => {
            ||| finds_no_facts(replies) && result.results.len() == 0
            ||| exists|i: int| #[trigger] acts_at(start, replies, i)
        },
        ProgressView::Ask(_, run) => {
            &&& run.core.memory == memory
            &&& run.core.options == options
            &&& run.phase is Facts ==> replies.len() == 0
            &&& if is_early(run.phase) {
                run.core.events.len() == 0
            } else {
                exists|i: int| #[trigger] acts_at(start, replies, i)
            }
        },
    }
}

/// The language model finds no facts.
pub open spec fn finds_no_facts(replies: Seq<Told>) -> bool {
    replies.len() > 0 && (replies[0].0 matches ReplyView::Facts(facts) && facts.len() == 0)
}

proof fn awaits_actions_throughout(
    memory: Memory,
    messages: Seq<MessageView>,
    options: AddOptionsView,
    replies: Seq<Told>,
)
    ensures
        awaits_actions(
            inference_start(memory, messages, options),
            memory,
            options,
            replies,
        ),
    decreases replies.len(),
{
    let start = inference_start(memory, messages, options);
    if replies.len() > 0 {
        let front = replies.drop_last();
        awaits_actions_throughout(memory, messages, options, front);
        let last = replies.len() - 1;
        assert(replies.take(last) =~= front);
        assert forall|i: int| #[trigger] acts_at(start, front, i) implies acts_at(
            start,
            replies,
            i,
        ) by {
            assert(front.take(i) =~= replies.take(i));
        }
        if exists|i: int| #[trigger] acts_at(start, front, i) {
            let i = choose|i: int| #[trigger] acts_at(start, front, i);
            assert(acts_at(start, replies, i));
        }
        if let ProgressView::Ask(_, run) = after(start, front) {
            if run.phase is Actions && replies.last().0 is Actions {
                assert(acts_at(start, replies, last));
            }
        }
    }
}

proof fn keeps_account_throughout(
    memory: Memory,
    messages: Seq<MessageView>,
    options: AddOptionsView,
    replies: Seq<Told>,
    i: int,
) -> (cuts: Seq<int>)
    requires
        acts_at(inference_start(memory, messages, options), replies, i),
    ensures
        keeps_account(
            after(inference_start(memory, messages, options), replies),
            tasks_at(inference_start(memory, messages, options), replies, i, options),
            memory,
            options,
            replies,
            cuts,
        ),
        cuts.len() > 0,
        cuts[0] == i + 1,
    decreases replies.len(),
{
    let start = inference_start(memory, messages, options);
    let tasks = tasks_at(start, replies, i, options);
    let front = replies.drop_last();
    if i == replies.len() - 1 {
        assert(replies.take(i) =~= front);
        awaits_actions_throughout(memory, messages, options, front);
        let cuts = seq![i + 1];
        if let ProgressView::Ask(_, run) = after(start, front) {
            let core = AddCoreView { todo: tasks, ..run.core };
            assert(tasks.skip(0) =~= tasks);
            assert(core.events =~= outcomes(tasks, memory, replies, cuts, 0).filter_map(
                |e: Option<MemoryEventView>| e,
            ));
            proceeding_keeps_account(
                core,
                replies.last().1,
                tasks,
                memory,
                options,
                replies,
                cuts,
            );
        }
        cuts
    } else {
        assert(front.take(i) =~= replies.take(i));
        let cuts = keeps_account_throughout(memory, messages, options, front, i);
        assert(front.push(replies.last()) =~= replies);
        match after(start, front) {
            ProgressView::Ask(command, run) => a_step_keeps_account(
                run,
                command,
                tasks,
                memory,
                options,
                front,
                cuts,
                replies.last(),
            ),
            ProgressView::Done(Ok(result)) => {
                more_replies_change_no_account(
                    result.results,
                    tasks,
                    memory,
                    options,
                    front,
                    cuts,
                    tasks.len(),
                    replies.last(),
                );
                cuts
            },
            ProgressView::Done(Err(_)) => cuts,
        }
    }
}

/// Once the language model has said what to do, an addition of facts that ends well tells of what
/// was planned, in the order of the plan. Each event tells of its own task: of a new memory its
/// text and the identifier that was drawn for it, of an update the new content, the content before
/// and the identifier of the memory, and of a deletion the identifier. There is none for a memory
/// that was met again, none for an update or a deletion that failed, and none for the deletion of a
/// memory whose identifier is no UUID.
pub proof fn inferred_additions_tell_of_every_task(
    memory: Memory,
    messages: Seq<MessageView>,
    options: AddOptionsView,
    replies: Seq<Told>,
    i: int,
)
    requires
        acts_at(inference_start(memory, messages, options), replies, i),
    ensures
        after(inference_start(memory, messages, options), replies) matches ProgressView::Done(
            Ok(result),
        ) ==> is_account(
            result.results,
            tasks_at(inference_start(memory, messages, options), replies, i, options),
            memory,
            options,
            replies,
            i,
        ),
{
    let cuts = keeps_account_throughout(memory, messages, options, replies, i);
}

/// The memory is the one that the first of the replies gave, with new content.
spec fn is_fetched(record: MemoryRecordView, content: Seq<char>, part: Seq<Told>) -> bool {
    &&& part.len() > 0
    &&& part[0].0 matches ReplyView::Fetched(Some(found)) && record == with_content(
        record_of(found),
        content,
        record.hash,
    )
}

proof fn updates_keep_to_the_fetched_memory(
    id: Seq<char>,
    content: Seq<char>,
    history: bool,
    part: Seq<Told>,
)
    ensures
        match carried::<UpdateRun>(own_update(id, content, history), part) {
            ProgressView::Ask(_, update) => match update {
                UpdateRunView::Fetching { id: i, content: c, caller, .. } => {
                    part.len() == 0 && i == id && c == content && caller is None
                },
                UpdateRunView::Encoding { record, .. } => is_fetched(record, content, part),
                UpdateRunView::Replacing { record, .. } => is_fetched(record, content, part),
                UpdateRunView::Recording { record } => is_fetched(record, content, part),
            },
            ProgressView::Done(Ok(record)) => is_fetched(record, content, part),
            ProgressView::Done(Err(_)) => true,
        },
    decreases part.len(),
{
    if part.len() > 0 {
        let front = part.drop_last();
        updates_keep_to_the_fetched_memory(id, content, history, front);
        if front.len() > 0 {
            assert(part[0] == front[0]);
        }
    }
}

/// What is told of an update that an addition carries out has the identifier of the memory that the
/// store gave for it.
pub proof fn updates_are_told_of_the_stored_memory(
    id: Seq<char>,
    content: Seq<char>,
    previous: Seq<char>,
    memory: Memory,
    began: FreshView,
    part: Seq<Told>,
)
    ensures
        task_event(TaskView::Update { id, content, previous }, memory, began, part) matches Some(
            event,
        ) ==> part.len() > 0 && (part[0].0 matches ReplyView::Fetched(Some(found)) && event.id
            == record_of(found).id),
{
    updates_keep_to_the_fetched_memory(id, content, memory.has_history, part);
}

/// An addition of facts that ends well either finds no facts and tells of nothing, or comes to
/// where the language model says what to do.
pub proof fn inferred_additions_follow_the_model(
    memory: Memory,
    messages: Seq<MessageView>,
    options: AddOptionsView,
    replies: Seq<Told>,
)
    ensures
        after(inference_start(memory, messages, options), replies) matches ProgressView::Done(
            Ok(result),
        ) ==> {
            ||| finds_no_facts(replies) && result.results.len() == 0
            ||| exists|i: int| #[trigger]
                acts_at(inference_start(memory, messages, options), replies, i)
        },
{
    awaits_actions_throughout(memory, messages, options, replies);
}

} // verus!
