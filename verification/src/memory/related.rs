//! What the language model is told before it says what to do.
use vstd::prelude::*;

use crate::memory::add::{
    action_question, add_start, inference_start, is_known, look_up, named, names, noted, plan,
    planned, raw_start, raw_task, raw_tasks, touched, AddCoreView, AddPhaseView, AddResultView,
    AddRun, AddRunView, KnownMemoryView, TaskView,
};
use crate::memory::laws::{after, noting_keeps_the_known, Told};
use crate::memory::manager::Memory;
use crate::memory::prompts::{
    conversation, fact_line, fact_list, fact_question, memory_line, memory_list, message_line,
    AGENT_FACT_EXTRACTION_PROMPT, FACT_EXTRACTION_PROMPT, MEMORY_UPDATE_PROMPT,
};
use crate::memory::protocol::{
    CommandView, EncodingView, FreshView, MemoryActionView, ProgressView, ReplyView, Run,
};
use crate::memory::scope::{in_scope, scope_filters, scope_filters_select_the_scope};
use crate::memory::writes::{
    encoded_at, more_replies_encode_no_less, was_encoded, what_is_cached_was_encoded,
};
use crate::models::{
    event_names_differ, AddOptionsView, MessageView, PayloadView, Role, VectorSearchResultView,
};
use crate::text::{
    decimal, decimal_is_injective, infixes_stay_infixes, is_infix, lines_are_infixes,
    parts_are_infixes, uppercase_of,
};
use crate::vector_stores::filter_eval::is_match;

verus! {

/// At a place among the replies, the store told of the five memories most like a fact.
pub open spec fn looked_up_at(
    start: ProgressView<AddRunView, AddResultView>,
    replies: Seq<Told>,
    j: int,
    fact: Seq<char>,
) -> bool {
    &&& 0 <= j < replies.len()
    &&& replies[j].0 is Found
    &&& after(start, replies.take(j)) matches ProgressView::Ask(
        CommandView::Query { embedding, limit, .. },
        _,
    ) && limit == 5 && exists|encoding: EncodingView| #[trigger]
        was_encoded(start, replies.take(j), fact, encoding) && encoding.embedding == embedding
}

/// The store was asked for the memories most like a fact, and told of them.
pub open spec fn was_looked_up(
    start: ProgressView<AddRunView, AddResultView>,
    replies: Seq<Told>,
    fact: Seq<char>,
) -> bool {
    exists|j: int| #[trigger] looked_up_at(start, replies, j, fact)
}

/// A reply tells of a stored memory with its content.
pub open spec fn tells_of_content(told: Told, known: KnownMemoryView) -> bool {
    told.0 matches ReplyView::Found(found) && exists|k: int|
        0 <= k < found.len() && (#[trigger] found[k]).id == known.id && found[k].payload.data
            == known.content
}

/// All memories that a reply tells of are known.
pub open spec fn is_covered(told: Told, known: Seq<KnownMemoryView>) -> bool {
    told.0 matches ReplyView::Found(found) ==> forall|k: int|
        0 <= k < found.len() ==> is_known(known, (#[trigger] found[k]).id)
}

/// One of the replies told of a memory with its content.
pub open spec fn was_told(replies: Seq<Told>, known: KnownMemoryView) -> bool {
    exists|j: int| 0 <= j < replies.len() && #[trigger] tells_of_content(replies[j], known)
}

/// The known memories are those that the replies told of, with their contents.
pub open spec fn knows_what_was_told(known: Seq<KnownMemoryView>, replies: Seq<Told>) -> bool {
    &&& forall|j: int| 0 <= j < replies.len() ==> is_covered(#[trigger] replies[j], known)
    &&& forall|i: int| 0 <= i < known.len() ==> was_told(replies, #[trigger] known[i])
}

/// The language model is yet to be asked what to do, or yet to answer.
spec fn is_early(phase: AddPhaseView) -> bool {
    phase is Facts || phase is FactEncoding || phase is FactHits || phase is Actions
}

/// What the addition was asked for stays, and only looking up facts asks the store for likeness.
spec fn asks_in_turn(
    progress: ProgressView<AddRunView, AddResultView>,
    options: AddOptionsView,
) -> bool {
    progress matches ProgressView::Ask(command, run) ==> {
        &&& run.core.options == options
        &&& command is Query ==> run.phase is FactHits
        &&& command is AskActions ==> run.phase is Actions
    }
}

proof fn a_step_asks_in_turn(
    run: AddRunView,
    command: CommandView,
    options: AddOptionsView,
    told: Told,
)
    requires
        asks_in_turn(ProgressView::Ask(command, run), options),
    ensures
        asks_in_turn(AddRun::next(run, told.0, told.1), options),
        !is_early(run.phase) ==> (AddRun::next(run, told.0, told.1) matches ProgressView::Ask(
            _,
            later,
        ) ==> !is_early(later.phase)),
        run.phase is Actions ==> (AddRun::next(run, told.0, told.1) matches ProgressView::Ask(
            _,
            later,
        ) ==> !is_early(later.phase)),
{
}

/// The facts that were begun with.
spec fn begun(core: AddCoreView) -> int {
    core.facts.len() - core.left.len()
}

/// The facts were found first; those that are left are the last of them, and the others were looked
/// up.
spec fn looks_up_in_order(
    start: ProgressView<AddRunView, AddResultView>,
    replies: Seq<Told>,
    core: AddCoreView,
    done: int,
) -> bool {
    &&& replies.len() > 0
    &&& replies[0].0 == ReplyView::Facts(core.facts)
    &&& core.facts.len() > 0
    &&& 0 <= done <= begun(core) <= core.facts.len()
    &&& core.left == core.facts.skip(begun(core))
    &&& forall|k: int| 0 <= k < done ==> was_looked_up(start, replies, #[trigger] core.facts[k])
    &&& knows_what_was_told(core.known, replies)
}

/// The embedding is what the embedder gave for a text.
spec fn is_of_text(
    start: ProgressView<AddRunView, AddResultView>,
    replies: Seq<Told>,
    embedding: Seq<u32>,
    text: Seq<char>,
) -> bool {
    exists|encoding: EncodingView| #[trigger]
        was_encoded(start, replies, text, encoding) && encoding.embedding == embedding
}

/// The addition has looked up what is related to the facts.
spec fn is_informed(
    start: ProgressView<AddRunView, AddResultView>,
    progress: ProgressView<AddRunView, AddResultView>,
    options: AddOptionsView,
    replies: Seq<Told>,
) -> bool {
    progress matches ProgressView::Ask(command, run) ==> {
        let core = run.core;
        match run.phase {
            AddPhaseView::Facts => replies.len() == 0 && core.known.len() == 0,
            AddPhaseView::FactEncoding { fact } => {
                &&& begun(core) > 0
                &&& looks_up_in_order(start, replies, core, begun(core) - 1)
                &&& fact == core.facts[begun(core) - 1]
                &&& command == (CommandView::Encode { text: fact })
            },
            AddPhaseView::FactHits => {
                &&& begun(core) > 0
                &&& looks_up_in_order(start, replies, core, begun(core) - 1)
                &&& command matches CommandView::Query { embedding, limit, filters } && limit == 5
                    && filters == scope_filters(
                    options.user_id,
                    options.agent_id,
                    options.run_id,
                    options.memory_type,
                ) && is_of_text(start, replies, embedding, core.facts[begun(core) - 1])
            },
            AddPhaseView::Actions => {
                &&& begun(core) == core.facts.len()
                &&& looks_up_in_order(start, replies, core, begun(core))
                &&& command == (CommandView::AskActions { messages: action_question(core) })
            },
            _ => true,
        }
    }
}

/// Turning to the next fact, the addition is informed about those before.
proof fn turning_is_informed(
    start: ProgressView<AddRunView, AddResultView>,
    options: AddOptionsView,
    replies: Seq<Told>,
    core: AddCoreView,
)
    requires
        looks_up_in_order(start, replies, core, begun(core)),
        core.options == options,
        forall|text: Seq<char>| #[trigger]
            core.cache.contains_key(text) ==> was_encoded(start, replies, text, core.cache[text]),
    ensures
        is_informed(start, look_up(core), options, replies),
{
    let n = begun(core);
    if core.left.len() > 0 {
        let fact = core.left[0];
        let rest = AddCoreView { left: core.left.skip(1), ..core };
        assert(rest.left =~= core.facts.skip(n + 1));
        assert(fact == core.facts[n]);
        assert(begun(rest) == n + 1);
        if core.cache.contains_key(fact) {
            assert(is_of_text(start, replies, core.cache[fact].embedding, fact));
        }
    }
}

proof fn looking_up_stays(
    start: ProgressView<AddRunView, AddResultView>,
    replies: Seq<Told>,
    told: Told,
    fact: Seq<char>,
)
    requires
        was_looked_up(start, replies, fact),
    ensures
        was_looked_up(start, replies.push(told), fact),
{
    let j = choose|j: int| #[trigger] looked_up_at(start, replies, j, fact);
    assert(replies.push(told).take(j) =~= replies.take(j));
    assert(looked_up_at(start, replies.push(told), j, fact));
}

/// What is noted of the memories that were found is known from before, or has its content from
/// one of them; and all of them are known then.
proof fn noted_are_all_that_were_found(
    known: Seq<KnownMemoryView>,
    found: Seq<VectorSearchResultView>,
)
    ensures
        forall|k: int|
            0 <= k < found.len() ==> is_known(noted(known, found), (#[trigger] found[k]).id),
        forall|i: int|
            0 <= i < noted(known, found).len() ==> {
                ||| i < known.len() && (#[trigger] noted(known, found)[i]) == known[i]
                ||| exists|k: int|
                    0 <= k < found.len() && (#[trigger] found[k]).id == noted(known, found)[i].id
                        && found[k].payload.data == noted(known, found)[i].content
            },
        noted(known, found).len() >= known.len(),
    decreases found.len(),
{
    if found.len() > 0 {
        let front = found.drop_last();
        noted_are_all_that_were_found(known, front);
        let before = noted(known, front);
        let all = noted(known, found);
        let last = found.last();
        assert(found[found.len() - 1] == last);
        assert forall|k: int| 0 <= k < found.len() implies is_known(
            all,
            (#[trigger] found[k]).id,
        ) by {
            if k < front.len() {
                assert(front[k] == found[k]);
                let i = choose|i: int|
                    0 <= i < before.len() && (#[trigger] before[i]).id == front[k].id;
                assert(all[i] == before[i]);
            } else if is_known(before, last.id) {
            } else {
                assert(all[before.len() as int].id == last.id);
            }
        }
        assert forall|i: int| 0 <= i < all.len() implies {
            ||| i < known.len() && (#[trigger] all[i]) == known[i]
            ||| exists|k: int|
                0 <= k < found.len() && (#[trigger] found[k]).id == all[i].id
                    && found[k].payload.data == all[i].content
        } by {
            if i < before.len() {
                assert(all[i] == before[i]);
                if !(i < known.len() && before[i] == known[i]) {
                    let k = choose|k: int|
                        0 <= k < front.len() && (#[trigger] front[k]).id == before[i].id
                            && front[k].payload.data == before[i].content;
                    assert(found[k] == front[k]);
                }
            } else {
                assert(found[found.len() - 1].id == all[i].id);
            }
        }
    }
}

proof fn knowing_goes_on(
    known: Seq<KnownMemoryView>,
    replies: Seq<Told>,
    told: Told,
    later: Seq<KnownMemoryView>,
)
    requires
        knows_what_was_told(known, replies),
        later == (match told.0 {
            ReplyView::Found(found) => noted(known, found),
            _ => known,
        }),
    ensures
        knows_what_was_told(later, replies.push(told)),
{
    let all = replies.push(told);
    if let ReplyView::Found(found) = told.0 {
        noted_are_all_that_were_found(known, found);
        noting_keeps_the_known(known, found);
    }
    assert forall|j: int| 0 <= j < all.len() implies is_covered(#[trigger] all[j], later) by {
        if j < replies.len() {
            assert(all[j] == replies[j]);
            assert(is_covered(replies[j], known));
        }
    }
    assert forall|i: int| 0 <= i < later.len() implies was_told(all, #[trigger] later[i]) by {
        if i < known.len() && later[i] == known[i] {
            assert(was_told(replies, known[i]));
            let j = choose|j: int|
                0 <= j < replies.len() && #[trigger] tells_of_content(replies[j], known[i]);
            assert(all[j] == replies[j]);
            assert(tells_of_content(all[j], later[i]));
        } else {
            assert(all[replies.len() as int] == told);
            assert(tells_of_content(all[replies.len() as int], later[i]));
        }
    }
}

proof fn informed_throughout(
    memory: Memory,
    messages: Seq<MessageView>,
    options: AddOptionsView,
    replies: Seq<Told>,
)
    ensures
        asks_in_turn(after(inference_start(memory, messages, options), replies), options),
        is_informed(
            inference_start(memory, messages, options),
            after(inference_start(memory, messages, options), replies),
            options,
            replies,
        ),
    decreases replies.len(),
{
    let start = inference_start(memory, messages, options);
    if replies.len() > 0 {
        let front = replies.drop_last();
        let told = replies.last();
        informed_throughout(memory, messages, options, front);
        assert(front.push(told) =~= replies);
        if let ProgressView::Ask(command, run) = after(start, front) {
            a_step_asks_in_turn(run, command, options, told);
            what_is_cached_was_encoded(memory, messages, options, front);
            if is_early(run.phase) {
                a_step_is_informed(start, options, front, command, run, told);
            }
        }
    }
}

proof fn a_step_is_informed(
    start: ProgressView<AddRunView, AddResultView>,
    options: AddOptionsView,
    front: Seq<Told>,
    command: CommandView,
    run: AddRunView,
    told: Told,
)
    requires
        after(start, front) == ProgressView::<AddRunView, AddResultView>::Ask(command, run),
        is_early(run.phase),
        asks_in_turn(after(start, front), options),
        is_informed(start, after(start, front), options, front),
        forall|text: Seq<char>| #[trigger]
            run.core.cache.contains_key(text) ==> was_encoded(
                start,
                front,
                text,
                run.core.cache[text],
            ),
    ensures
        is_informed(start, AddRun::next(run, told.0, told.1), options, front.push(told)),
{
    let replies = front.push(told);
    let core = run.core;
    let n = begun(core);
    assert(replies.take(front.len() as int) =~= front);
    assert forall|fact: Seq<char>| #[trigger] was_looked_up(start, front, fact) implies
        was_looked_up(start, replies, fact) by {
        looking_up_stays(start, front, told, fact);
    }
    assert forall|text: Seq<char>| #[trigger] core.cache.contains_key(text) implies was_encoded(
        start,
        replies,
        text,
        core.cache[text],
    ) by {
        more_replies_encode_no_less(start, front, told, text, core.cache[text]);
    }
    match (run.phase, told.0) {
        (AddPhaseView::Facts, ReplyView::Facts(facts)) => {
            let later = AddCoreView { facts, left: facts, ..core };
            assert(facts.skip(0) =~= facts);
            if facts.len() > 0 {
                assert(knows_what_was_told(later.known, replies));
                turning_is_informed(start, options, replies, later);
            }
        },
        (AddPhaseView::FactEncoding { fact }, ReplyView::Encoded(encoding)) => {
            assert(encoded_at(start, replies, front.len() as int, fact, encoding));
            assert(was_encoded(start, replies, fact, encoding));
            knowing_goes_on(core.known, front, told, core.known);
            let later = AddCoreView { cache: core.cache.insert(fact, encoding), ..core };
            assert(looks_up_in_order(start, replies, later, n - 1)) by {
                assert(replies[0] == front[0]);
            }
            assert(is_of_text(start, replies, encoding.embedding, fact));
        },
        (AddPhaseView::FactHits, ReplyView::Found(found)) => {
            let known = noted(core.known, found);
            knowing_goes_on(core.known, front, told, known);
            assert(looked_up_at(start, replies, front.len() as int, core.facts[n - 1]));
            assert(was_looked_up(start, replies, core.facts[n - 1]));
            let later = AddCoreView { known, ..core };
            assert(looks_up_in_order(start, replies, later, n)) by {
                assert(replies[0] == front[0]);
            }
            turning_is_informed(start, options, replies, later);
        },
        (AddPhaseView::Actions, _) => {
            a_step_asks_in_turn(run, command, options, told);
        },
        _ => {},
    }
}

/// A memory is named to the language model by its place, with its content.
pub open spec fn is_named(text: Seq<char>, place: nat, content: Seq<char>) -> bool {
    is_infix("["@ + decimal(place) + "] "@ + content + "\n"@, text)
}

/// When the language model is asked what to do, the five memories most like each fact have been
/// looked up; and it is shown each memory that the store told of, by its place and with its
/// content, and each fact.
pub proof fn the_model_is_shown_what_is_related(
    memory: Memory,
    messages: Seq<MessageView>,
    options: AddOptionsView,
    replies: Seq<Told>,
)
    ensures
        ({
            let start = inference_start(memory, messages, options);
            after(start, replies) matches ProgressView::Ask(
                CommandView::AskActions { messages: asked },
                run,
            ) ==> {
                &&& replies.len() > 0
                &&& replies[0].0 matches ReplyView::Facts(facts) && facts.len() > 0 && {
                    &&& forall|k: int|
                        0 <= k < facts.len() ==> was_looked_up(start, replies, #[trigger] facts[k])
                    &&& forall|k: int|
                        0 <= k < facts.len() ==> is_infix(
                            "- "@ + #[trigger] facts[k] + "\n"@,
                            asked[1].content,
                        )
                }
                &&& knows_what_was_told(run.core.known, replies)
                &&& forall|i: int|
                    0 <= i < run.core.known.len() ==> is_named(
                        asked[1].content,
                        i as nat,
                        (#[trigger] run.core.known[i]).content,
                    )
                &&& asked.len() == 2
                &&& asked[0] == (MessageView { role: Role::System, content: MEMORY_UPDATE_PROMPT@ })
                &&& asked[1].role == Role::User
            }
        }),
{
    let start = inference_start(memory, messages, options);
    informed_throughout(memory, messages, options, replies);
    if let ProgressView::Ask(CommandView::AskActions { messages: asked }, run) = after(
        start,
        replies,
    ) {
        let core = run.core;
        let facts = core.facts;
        let memories = names(core.known);
        let text = asked[1].content;
        let head = "Existing memories:\n"@;
        let middle = "\nNew facts to process:\n"@;
        let none = Seq::<char>::empty();
        let lines = facts.map_values(|f: Seq<char>| fact_line(f));
        assert forall|k: int| 0 <= k < facts.len() implies is_infix(
            "- "@ + #[trigger] facts[k] + "\n"@,
            text,
        ) by {
            parts_are_infixes(lines, k);
            assert(lines[k] == fact_line(facts[k]));
            infixes_stay_infixes(
                lines[k],
                head + memory_list(memories) + middle,
                fact_list(facts),
                none,
            );
            assert(text =~= head + memory_list(memories) + middle + fact_list(facts) + none);
        }
        let points = memories.map_values(|m: (Seq<char>, Seq<char>)| memory_line(m));
        assert forall|i: int| 0 <= i < core.known.len() implies is_named(
            text,
            i as nat,
            (#[trigger] core.known[i]).content,
        ) by {
            parts_are_infixes(points, i);
            assert(points[i] == memory_line((decimal(i as nat), core.known[i].content)));
            infixes_stay_infixes(
                points[i],
                head,
                memory_list(memories),
                middle + fact_list(facts),
            );
            assert(text =~= head + memory_list(memories) + (middle + fact_list(facts)));
        }
    }
}

/// Whatever an addition looks up, it looks up among exactly the memories of the scope for which it
/// adds.
pub proof fn additions_look_up_their_scope(
    memory: Memory,
    messages: Seq<MessageView>,
    options: AddOptionsView,
    replies: Seq<Told>,
    payload: PayloadView,
)
    ensures
        after(inference_start(memory, messages, options), replies) matches ProgressView::Ask(
            CommandView::Query { filters, .. },
            _,
        ) ==> (is_match(payload, filters) <==> in_scope(
            payload,
            options.user_id,
            options.agent_id,
            options.run_id,
            options.memory_type,
        )),
{
    informed_throughout(memory, messages, options, replies);
    scope_filters_select_the_scope(
        payload,
        options.user_id,
        options.agent_id,
        options.run_id,
        options.memory_type,
    );
}

/// The language model is asked for facts with the whole conversation, each message with its role.
/// It is asked for facts about the assistant exactly if memories of an agent are added and the
/// assistant says something.
pub proof fn the_model_is_shown_the_conversation(
    memory: Memory,
    messages: Seq<MessageView>,
    options: AddOptionsView,
)
    requires
        memory.has_llm,
    ensures
        inference_start(memory, messages, options) matches ProgressView::Ask(
            CommandView::AskFacts { messages: asked },
            _,
        ) && {
            &&& asked.len() == 2
            &&& asked[0].role == Role::System
            &&& asked[1].role == Role::User
            &&& (options.agent_id is Some && exists|i: int|
                0 <= i < messages.len() && (#[trigger] messages[i]).role == Role::Assistant)
                ==> asked[0].content == AGENT_FACT_EXTRACTION_PROMPT@
            &&& (options.agent_id is None || forall|i: int|
                0 <= i < messages.len() ==> (#[trigger] messages[i]).role != Role::Assistant)
                ==> asked[0].content == FACT_EXTRACTION_PROMPT@
            &&& forall|i: int|
                0 <= i < messages.len() ==> is_said(asked[1].content, #[trigger] messages[i])
        },
{
    let text = fact_question(conversation(messages));
    let head = "Extract facts from the following conversation:\n\n"@;
    let lines = messages.map_values(|m: MessageView| message_line(m));
    assert forall|i: int| 0 <= i < messages.len() implies is_said(
        text,
        #[trigger] messages[i],
    ) by {
        lines_are_infixes(lines, "\n"@, i);
        assert(lines[i] == message_line(messages[i]));
        let none = Seq::<char>::empty();
        infixes_stay_infixes(lines[i], head, conversation(messages), none);
        assert(text =~= head + conversation(messages) + none);
    }
}

/// A text tells of a message by its role and its content.
pub open spec fn is_said(text: Seq<char>, message: MessageView) -> bool {
    is_infix(
        (match message.role {
            Role::System => "System"@,
            Role::User => "User"@,
            Role::Assistant => "Assistant"@,
        }) + ": "@ + message.content,
        text,
    )
}

/// Messages go to the language model exactly if facts are wanted and there is one. Otherwise they
/// are stored as they are.
pub proof fn additions_infer_only_if_asked(
    memory: Memory,
    messages: Seq<MessageView>,
    options: AddOptionsView,
    fresh: FreshView,
)
    requires
        options.user_id is Some || options.agent_id is Some || options.run_id is Some,
    ensures
        options.infer && memory.has_llm ==> add_start(memory, messages, options, fresh)
            == inference_start(memory, messages, options),
        !options.infer || !memory.has_llm ==> add_start(memory, messages, options, fresh)
            == raw_start(memory, messages, options, fresh),
{
}

/// The name is the place of a known memory, in decimal.
pub open spec fn names_at(
    action: MemoryActionView,
    known: Seq<KnownMemoryView>,
    n: int,
) -> bool {
    0 <= n < known.len() && action.id == Some(decimal(n as nat))
}

/// The language model has done what it says and to the memory that it names: an addition takes a
/// text, an update a text and a known memory, a deletion a known memory; and nothing is done about
/// a memory that stays but noting that an agent or a session met it again. What it says may be in
/// any case.
pub proof fn actions_are_taken_at_their_word(
    action: MemoryActionView,
    known: Seq<KnownMemoryView>,
    options: AddOptionsView,
    text: Seq<char>,
    n: int,
)
    ensures
        ({
            let said = uppercase_of(action.event);
            let task = planned(action, known, options);
            &&& said == "ADD"@ && action.text == Some(text) ==> task == Some(
                TaskView::Add { text },
            )
            &&& said == "UPDATE"@ && action.text == Some(text) && names_at(action, known, n)
                ==> task == Some(
                TaskView::Update { id: known[n].id, content: text, previous: known[n].content },
            )
            &&& said == "DELETE"@ && names_at(action, known, n) ==> task == Some(
                TaskView::Delete { id: known[n].id },
            )
            &&& said == "NOOP"@ && names_at(action, known, n) && (options.agent_id is Some
                || options.run_id is Some) ==> task == Some(TaskView::Touch { id: known[n].id })
        }),
{
    event_names_differ();
    if names_at(action, known, n) {
        let name = decimal(n as nat);
        let k = choose|k: int| 0 <= k < known.len() && #[trigger] decimal(k as nat) == name;
        decimal_is_injective(n as nat, k as nat);
    }
}

/// Nothing is done that the language model does not say: each task has its action.
pub proof fn tasks_have_their_actions(
    action: MemoryActionView,
    known: Seq<KnownMemoryView>,
    options: AddOptionsView,
)
    ensures
        ({
            let said = uppercase_of(action.event);
            match planned(action, known, options) {
                None => true,
                Some(TaskView::Add { text }) => said == "ADD"@ && action.text == Some(text),
                Some(TaskView::Update { id, content, previous }) => said == "UPDATE"@
                    && action.text == Some(content) && exists|n: int| #[trigger]
                    names_at(action, known, n) && known[n].id == id && known[n].content == previous,
                Some(TaskView::Delete { id }) => said == "DELETE"@ && exists|n: int| #[trigger]
                    names_at(action, known, n) && known[n].id == id,
                Some(TaskView::Touch { id }) => said == "NOOP"@ && (options.agent_id is Some
                    || options.run_id is Some) && exists|n: int| #[trigger]
                    names_at(action, known, n) && known[n].id == id,
            }
        }),
{
    event_names_differ();
    if let Some(name) = action.id {
        if named(known, name) is Some {
            let k = choose|k: int| 0 <= k < known.len() && #[trigger] decimal(k as nat) == name;
            assert(names_at(action, known, k));
        }
    }
}

/// What is planned for some actions is what is planned for each of them, in order.
pub proof fn plans_keep_the_order(
    actions: Seq<MemoryActionView>,
    action: MemoryActionView,
    known: Seq<KnownMemoryView>,
    options: AddOptionsView,
)
    ensures
        plan(Seq::empty(), known, options).len() == 0,
        plan(actions.push(action), known, options) == match planned(action, known, options) {
            Some(task) => plan(actions, known, options).push(task),
            None => plan(actions, known, options),
        },
{
    assert(actions.push(action).drop_last() =~= actions);
    let f = |a: MemoryActionView| planned(a, known, options);
    if let Some(task) = planned(action, known, options) {
        assert(actions.push(action).filter_map(f) =~= actions.filter_map(f).push(task));
    }
}

/// A memory that was met again is given the agent and the session of the addition, where these are
/// given; all else of it stays, and so does its embedding. If that changes nothing, nothing is
/// written.
pub proof fn meeting_again_notes_agent_and_session(
    core: AddCoreView,
    id: Seq<char>,
    found: VectorSearchResultView,
    fresh: FreshView,
)
    ensures
        ({
            let agent_id = if core.options.agent_id is Some {
                core.options.agent_id
            } else {
                found.payload.agent_id
            };
            let run_id = if core.options.run_id is Some {
                core.options.run_id
            } else {
                found.payload.run_id
            };
            let next = AddRun::next(
                AddRunView { core, phase: AddPhaseView::Touching { id } },
                ReplyView::Fetched(Some(found)),
                fresh,
            );
            if agent_id == found.payload.agent_id && run_id == found.payload.run_id {
                !(next matches ProgressView::Ask(CommandView::Replace { .. }, _))
            } else {
                next matches ProgressView::Ask(command, _) && command == (CommandView::Replace {
                    id,
                    new_embedding: None,
                    payload: PayloadView { agent_id, run_id, ..found.payload },
                })
            }
        }),
{
    let agent_id = if core.options.agent_id is Some {
        core.options.agent_id
    } else {
        found.payload.agent_id
    };
    let run_id = if core.options.run_id is Some {
        core.options.run_id
    } else {
        found.payload.run_id
    };
    let payload = PayloadView { agent_id, run_id, ..found.payload };
    assert(touched(found.payload, core.options) =~= payload);
    if agent_id == found.payload.agent_id && run_id == found.payload.run_id {
        assert(payload =~= found.payload);
    }
}

/// Of messages that are stored as they are, each one that is not of the system is stored, with its
/// content and after those before. Those of the system are not.
pub proof fn messages_are_stored_in_order(messages: Seq<MessageView>, message: MessageView)
    ensures
        raw_tasks(Seq::empty()).len() == 0,
        message.role == Role::System ==> raw_tasks(messages.push(message)) == raw_tasks(messages),
        message.role != Role::System ==> raw_tasks(messages.push(message)) == raw_tasks(
            messages,
        ).push(TaskView::Add { text: message.content }),
{
    assert(messages.push(message).drop_last() =~= messages);
    let f = |m: MessageView| raw_task(m);
    if message.role != Role::System {
        assert(messages.push(message).filter_map(f) =~= messages.filter_map(f).push(
            TaskView::Add { text: message.content },
        ));
    }
}

} // verus!
