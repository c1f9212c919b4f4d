//! What the tools do for those who call them.
use vstd::prelude::*;

use crate::clock::{formatted_instant, minute_pattern, Instant};
use crate::errors::MemoryErrorView;
use crate::ids::{uuid_of, uuid_text, uuid_text_is_read_back};
use crate::json::JsonView;
use crate::memory::finding::{listings_keep_to_their_scope, searches_keep_to_their_scope};
use crate::memory::laws::resets_keep_to_their_scope;
use crate::memory::manager::{
    delete_start, get_all_start, reset_start, search_start, update_start, DeleteRun, Memory,
    ResetRun, SearchRun, UpdateRun,
};
use crate::memory::protocol::{
    CommandView, EncodingView, FreshView, ProgressView, ReplyView, Run,
};
use crate::memory::scope::in_scope;
use crate::models::{
    event_named, events_have_their_names, memory_types_have_their_names, EventType,
    MemoryEventView, MemoryRecordView, MemoryType, PayloadView, Role, ScoredMemoryView,
    VectorSearchResultView,
};
use crate::server::{
    add_answer, add_plan, dream_line, dream_list, dream_plan, dream_prompt,
    dreams_show_recent_memories, is_recent, kind_given, list_answer, list_plan, on_behalf,
    one_message, recent, reset_plan, search_answer, search_plan, tiers, tool_error,
    AddMemoryInputView, AuthContextView, DeleteAllMemoriesInputView, DreamInputView,
    GetAllMemoriesInputView, Scope, SearchMemoriesInputView, ToolErrorView,
    DREAM_CONSOLIDATION_PROMPT,
};
use crate::text::{
    concatenated, decimal, infixes_stay_infixes, is_infix, middles_are_infixes, parts_are_infixes,
};
use crate::vector_stores::filter_eval::is_match;

verus! {

/// The agent of an identity: what its claim `agent_id` says, if that is a text.
pub open spec fn agent_of(auth: Option<AuthContextView>) -> Option<Seq<char>> {
    match auth {
        Some(a) if a.claims.contains_key("agent_id"@) => match a.claims["agent_id"@] {
            JsonView::String(agent) => Some(agent),
            _ => None,
        },
        _ => None,
    }
}

/// The user whose memories are meant: for the tier of the user the caller, and else the one that is
/// named.
pub open spec fn meant_user(
    scope: Option<Scope>,
    auth: Option<AuthContextView>,
    named: Option<Seq<char>>,
) -> Option<Seq<char>> {
    if scope == Some(Scope::User) {
        match auth {
            Some(a) => Some(a.subject),
            None => None,
        }
    } else {
        named
    }
}

/// The agent whose memories are meant: for the tier of the agent that of the caller, and else the
/// one that is named.
pub open spec fn meant_agent(
    scope: Option<Scope>,
    auth: Option<AuthContextView>,
    named: Option<Seq<char>>,
) -> Option<Seq<char>> {
    if scope == Some(Scope::Agent) {
        agent_of(auth)
    } else {
        named
    }
}

/// The tier that is asked for can be told: there is a caller, the caller has an agent, or a session
/// is named.
pub open spec fn can_tell(
    scope: Option<Scope>,
    auth: Option<AuthContextView>,
    request_id: Option<Seq<char>>,
) -> bool {
    &&& scope == Some(Scope::User) ==> auth is Some
    &&& scope == Some(Scope::Agent) ==> agent_of(auth) is Some
    &&& scope == Some(Scope::Request) ==> request_id is Some
}

/// The name is that of a kind of memory, or there is none.
pub open spec fn names_kind(name: Option<Seq<char>>, kind: Option<MemoryType>) -> bool {
    match name {
        None => kind is None,
        Some(n) => {
            ||| n == "semantic_memory"@ && kind == Some(MemoryType::Semantic)
            ||| n == "episodic_memory"@ && kind == Some(MemoryType::Episodic)
            ||| n == "procedural_memory"@ && kind == Some(MemoryType::Procedural)
        },
    }
}

/// The tools work on the tiers that are meant, and refuse a request whose tier cannot be told.
pub proof fn tools_work_on_the_tiers_that_are_meant(
    scope: Option<Scope>,
    auth: Option<AuthContextView>,
    user_id: Option<Seq<char>>,
    agent_id: Option<Seq<char>>,
    request_id: Option<Seq<char>>,
)
    ensures
        match tiers(scope, auth, user_id, agent_id, request_id) {
            Ok(ids) => can_tell(scope, auth, request_id) && ids.user_id == meant_user(
                scope,
                auth,
                user_id,
            ) && ids.agent_id == meant_agent(scope, auth, agent_id) && ids.request_id == request_id,
            Err(e) => !can_tell(scope, auth, request_id) && e is InvalidParams,
        },
{
}

proof fn kinds_are_read(name: Option<Seq<char>>, kind: Option<MemoryType>)
    requires
        names_kind(name, kind),
    ensures
        kind_given(name) == Ok::<Option<MemoryType>, ToolErrorView>(kind),
{
    if let Some(k) = kind {
        memory_types_have_their_names(k);
    }
}

/// A confirmed mass deletion whose tiers can be told has the store remove exactly the memories of
/// those tiers, and forgets the history exactly if no tier is meant and there is one. One that is
/// not confirmed, or whose tiers cannot be told, is refused.
pub proof fn mass_deletions_delete_what_is_meant(
    memory: Memory,
    args: DeleteAllMemoriesInputView,
    auth: Option<AuthContextView>,
    payload: PayloadView,
    fresh: FreshView,
)
    ensures
        args.confirm && can_tell(args.scope, auth, args.request_id) ==> {
            let user_id = meant_user(args.scope, auth, args.user_id);
            let agent_id = meant_agent(args.scope, auth, args.agent_id);
            &&& reset_plan(args, auth) matches Ok(o) && (reset_start(
                memory,
                o,
            ) matches ProgressView::Ask(CommandView::RemoveAll { filters }, run) && {
                &&& is_match(payload, filters) <==> in_scope(
                    payload,
                    user_id,
                    agent_id,
                    args.request_id,
                    None,
                )
                &&& (ResetRun::next(run, ReplyView::Done, fresh) matches ProgressView::Ask(
                    CommandView::ClearHistory,
                    _,
                )) <==> memory.has_history && user_id is None && agent_id is None
                    && args.request_id is None
            })
        },
        !args.confirm || !can_tell(args.scope, auth, args.request_id) ==> (reset_plan(
            args,
            auth,
        ) matches Err(e) && e is InvalidParams),
{
    tools_work_on_the_tiers_that_are_meant(
        args.scope,
        auth,
        args.user_id,
        args.agent_id,
        args.request_id,
    );
    if let Ok(o) = reset_plan(args, auth) {
        resets_keep_to_their_scope(memory, o, payload, fresh);
    }
}

/// A listing whose tiers can be told and whose kind there is asks the store for exactly the
/// memories of those tiers and that kind: for as many as are wanted, a hundred if it is not said,
/// and never for more than a thousand.
pub proof fn listings_list_what_is_meant(
    args: GetAllMemoriesInputView,
    auth: Option<AuthContextView>,
    kind: Option<MemoryType>,
    payload: PayloadView,
)
    requires
        names_kind(args.memory_type, kind),
    ensures
        can_tell(args.scope, auth, args.request_id) ==> (list_plan(args, auth) matches Ok(o) && (
        get_all_start(o) matches ProgressView::Ask(CommandView::List { filters, limit }, _) && {
            &&& is_match(payload, filters) <==> in_scope(
                payload,
                meant_user(args.scope, auth, args.user_id),
                meant_agent(args.scope, auth, args.agent_id),
                args.request_id,
                kind,
            )
            &&& args.limit is None ==> limit == 100
            &&& args.limit matches Some(n) ==> limit == if n <= 1000 {
                n
            } else {
                1000
            }
        })),
        !can_tell(args.scope, auth, args.request_id) ==> list_plan(args, auth) is Err,
{
    kinds_are_read(args.memory_type, kind);
    tools_work_on_the_tiers_that_are_meant(
        args.scope,
        auth,
        args.user_id,
        args.agent_id,
        args.request_id,
    );
    if let Ok(o) = list_plan(args, auth) {
        listings_keep_to_their_scope(o, payload);
    }
}

/// A search whose tiers can be told and whose kind there is asks the store, with the embedding of
/// the query, for exactly the memories of those tiers and that kind. It sets no threshold and has
/// nothing scored anew.
pub proof fn searches_find_what_is_meant(
    memory: Memory,
    args: SearchMemoriesInputView,
    auth: Option<AuthContextView>,
    kind: Option<MemoryType>,
    encoding: EncodingView,
    payload: PayloadView,
    fresh: FreshView,
)
    requires
        names_kind(args.memory_type, kind),
    ensures
        can_tell(args.scope, auth, args.request_id) ==> (search_plan(args, auth) matches Ok(o) && {
            let start = search_start(memory, args.query, o);
            &&& o.limit == args.limit
            &&& o.threshold is None
            &&& !o.rerank
            &&& start matches ProgressView::Ask(CommandView::Encode { text }, _) && text
                == args.query
            &&& SearchRun::next(
                start->Ask_1,
                ReplyView::Encoded(encoding),
                fresh,
            ) matches ProgressView::Ask(CommandView::Query { embedding, filters, .. }, _)
                && embedding == encoding.embedding && (is_match(payload, filters) <==> in_scope(
                payload,
                meant_user(args.scope, auth, args.user_id),
                meant_agent(args.scope, auth, args.agent_id),
                args.request_id,
                kind,
            ))
        }),
        !can_tell(args.scope, auth, args.request_id) ==> search_plan(args, auth) is Err,
{
    kinds_are_read(args.memory_type, kind);
    tools_work_on_the_tiers_that_are_meant(
        args.scope,
        auth,
        args.user_id,
        args.agent_id,
        args.request_id,
    );
    if let Ok(o) = search_plan(args, auth) {
        searches_keep_to_their_scope(memory, args.query, o, encoding, payload, fresh);
    }
}

/// What is added is added for the tiers that are meant and is of the kind that is named, without
/// metadata; facts are drawn from it if there is a language model. A request for which nobody is
/// meant is refused.
pub proof fn additions_are_for_those_who_are_meant(
    args: AddMemoryInputView,
    auth: Option<AuthContextView>,
    kind: Option<MemoryType>,
)
    requires
        names_kind(args.memory_type, kind),
    ensures
        ({
            let user_id = meant_user(args.scope, auth, args.user_id);
            let agent_id = meant_agent(args.scope, auth, args.agent_id);
            if can_tell(args.scope, auth, args.request_id) && (user_id is Some || agent_id is Some
                || args.request_id is Some) {
                add_plan(args, auth) matches Ok(o) && {
                    &&& o.user_id == user_id
                    &&& o.agent_id == agent_id
                    &&& o.run_id == args.request_id
                    &&& o.memory_type == kind
                    &&& o.metadata is None
                    &&& o.infer
                }
            } else {
                add_plan(args, auth) matches Err(e) && e is InvalidParams
            }
        }),
{
    kinds_are_read(args.memory_type, kind);
    tools_work_on_the_tiers_that_are_meant(
        args.scope,
        auth,
        args.user_id,
        args.agent_id,
        args.request_id,
    );
}

/// A name that is that of no kind of memory is refused by all tools that take one.
pub proof fn unknown_kinds_are_refused(name: Seq<char>)
    requires
        name != "semantic_memory"@,
        name != "episodic_memory"@,
        name != "procedural_memory"@,
    ensures
        kind_given(Some(name)) matches Err(e) && e is InvalidParams,
{
}

/// The memory is one that may be changed on behalf of the tiers that are meant: each tier that it
/// has is the one that is meant.
pub open spec fn may_change(
    found: VectorSearchResultView,
    user_id: Option<Seq<char>>,
    agent_id: Option<Seq<char>>,
    request_id: Option<Seq<char>>,
) -> bool {
    &&& found.payload.user_id is Some ==> found.payload.user_id == user_id
    &&& found.payload.agent_id is Some ==> found.payload.agent_id == agent_id
    &&& found.payload.run_id is Some ==> found.payload.run_id == request_id
}

/// An update or a deletion by a tool goes beyond fetching the memory exactly if the memory is there
/// and belongs to the tiers that are meant. A memory that is not there is not found, and one that
/// belongs to others is refused.
pub proof fn tools_change_only_what_is_meant(
    memory: Memory,
    id: Seq<char>,
    content: Seq<char>,
    scope: Option<Scope>,
    auth: Option<AuthContextView>,
    user_id: Option<Seq<char>>,
    agent_id: Option<Seq<char>>,
    request_id: Option<Seq<char>>,
    found: Option<VectorSearchResultView>,
    fresh: FreshView,
)
    requires
        can_tell(scope, auth, request_id),
    ensures
        tiers(scope, auth, user_id, agent_id, request_id) matches Ok(ids) && {
            let updated = UpdateRun::next(
                update_start(memory, id, content, Some(on_behalf(ids)))->Ask_1,
                ReplyView::Fetched(found),
                fresh,
            );
            let deleted = DeleteRun::next(
                delete_start(memory, id, Some(on_behalf(ids)))->Ask_1,
                ReplyView::Fetched(found),
                fresh,
            );
            match found {
                None => {
                    &&& updated matches ProgressView::Done(Err(MemoryErrorView::NotFound(i))) && i
                        == id
                    &&& deleted matches ProgressView::Done(Err(MemoryErrorView::NotFound(i))) && i
                        == id
                },
                Some(f) => if may_change(
                    f,
                    meant_user(scope, auth, user_id),
                    meant_agent(scope, auth, agent_id),
                    request_id,
                ) {
                    &&& updated matches ProgressView::Ask(CommandView::Encode { text }, _) && text
                        == content
                    &&& deleted matches ProgressView::Ask(CommandView::Remove { id: i }, _) && i
                        == id
                } else {
                    &&& updated matches ProgressView::Done(
                        Err(MemoryErrorView::Unauthorized { memory_id, .. }),
                    ) && memory_id == id
                    &&& deleted matches ProgressView::Done(
                        Err(MemoryErrorView::Unauthorized { memory_id, .. }),
                    ) && memory_id == id
                },
            }
        },
{
    tools_work_on_the_tiers_that_are_meant(scope, auth, user_id, agent_id, request_id);
}

/// The tier that a consolidation names: the agent's, if nothing at all is named.
pub open spec fn dreamt_scope(args: DreamInputView, scope: Option<Scope>) -> bool {
    match args.scope {
        Some(name) => {
            ||| name == "user"@ && scope == Some(Scope::User)
            ||| name == "agent"@ && scope == Some(Scope::Agent)
            ||| name == "request"@ && scope == Some(Scope::Request)
        },
        None => scope == if args.user_id is None && args.agent_id is None && args.request_id
            is None {
            Some(Scope::Agent)
        } else {
            None
        },
    }
}

/// A consolidation whose tiers can be told lists the memories of exactly those tiers, of any kind
/// and at most two hundred.
pub proof fn dreams_list_what_is_meant(
    args: DreamInputView,
    auth: Option<AuthContextView>,
    scope: Option<Scope>,
    payload: PayloadView,
)
    requires
        dreamt_scope(args, scope),
    ensures
        can_tell(scope, auth, args.request_id) ==> (dream_plan(args, auth) matches Ok(o) && (
        get_all_start(o) matches ProgressView::Ask(CommandView::List { filters, limit }, _) && {
            &&& limit == 200
            &&& is_match(payload, filters) <==> in_scope(
                payload,
                meant_user(scope, auth, args.user_id),
                meant_agent(scope, auth, args.agent_id),
                args.request_id,
                None,
            )
        })),
        !can_tell(scope, auth, args.request_id) ==> dream_plan(args, auth) is Err,
{
    reveal_strlit("user");
    reveal_strlit("agent");
    reveal_strlit("request");
    assert("user"@.len() == 4);
    assert("agent"@.len() == 5);
    assert("request"@.len() == 7);
    tools_work_on_the_tiers_that_are_meant(
        scope,
        auth,
        args.user_id,
        args.agent_id,
        args.request_id,
    );
    if let Ok(o) = dream_plan(args, auth) {
        listings_keep_to_their_scope(o, payload);
    }
}

/// A memory is recent exactly if it was made at most thirty days ago. A leap second counts as the
/// second after it.
pub proof fn recent_is_within_thirty_days(record: MemoryRecordView, now: Instant)
    ensures
        ({
            let (secs, nanos) = if now.1 < 1_000_000_000 {
                (now.0 - 2_592_000, now.1 as int)
            } else {
                (now.0 - 2_591_999, now.1 - 1_000_000_000)
            };
            is_recent(record, now) <==> record.created_at.0 > secs || (record.created_at.0 == secs
                && record.created_at.1 >= nanos)
        }),
{
}

/// A consolidation shows each recent memory, with its identifier and its content, after what is
/// asked for. Without recent memories it says that there is nothing to do.
pub proof fn dreams_show_each_recent_memory(
    records: Seq<MemoryRecordView>,
    now: Instant,
    i: int,
)
    requires
        0 <= i < records.len(),
        is_recent(records[i], now),
    ensures
        ({
            let answer = dream_prompt(records, now);
            &&& answer.messages.len() == 2
            &&& answer.messages[0] == DREAM_CONSOLIDATION_PROMPT@
            &&& is_infix(uuid_text(records[i].id), answer.messages[1])
            &&& is_infix(records[i].content, answer.messages[1])
        }),
{
    dreams_show_recent_memories(records, now, i);
    let memories = recent(records, now);
    let k = choose|k: int| 0 <= k < memories.len() && memories[k] == records[i];
    let lines = Seq::new(memories.len(), |j: int| dream_line(memories[j], j));
    let text = dream_list(memories);
    let head = "## Memories to Review ("@ + decimal(memories.len())
        + " total)\n\n"@;
    let none = Seq::<char>::empty();
    parts_are_infixes(lines, k);
    let line = lines[k];
    let record = records[i];
    let number = decimal((k + 1) as nat);
    let created = formatted_instant(
        record.created_at.0,
        record.created_at.1,
        minute_pattern(),
    );
    let a = number + ". [ID: "@;
    let b = "] (created: "@ + created + ")\n   "@ + record.content + "\n\n"@;
    middles_are_infixes(a, uuid_text(record.id), b);
    assert(line =~= a + uuid_text(record.id) + b);
    let c = number + ". [ID: "@ + uuid_text(record.id) + "] (created: "@ + created + ")\n   "@;
    middles_are_infixes(c, record.content, "\n\n"@);
    assert(line =~= c + record.content + "\n\n"@);
    is_infix_of_infix(uuid_text(record.id), line, concatenated(lines));
    is_infix_of_infix(record.content, line, concatenated(lines));
    infixes_stay_infixes(uuid_text(record.id), head, concatenated(lines), none);
    infixes_stay_infixes(record.content, head, concatenated(lines), none);
    assert(text =~= head + concatenated(lines) + none);
}

proof fn is_infix_of_infix(part: Seq<char>, middle: Seq<char>, whole: Seq<char>)
    requires
        is_infix(part, middle),
        is_infix(middle, whole),
    ensures
        is_infix(part, whole),
{
    let i = choose|i: int|
        0 <= i <= whole.len() - middle.len() && #[trigger] whole.subrange(i, i + middle.len())
            == middle;
    infixes_stay_infixes(part, whole.take(i), middle, whole.skip(i + middle.len()));
    assert(whole =~= whole.take(i) + middle + whole.skip(i + middle.len()));
}

/// What a tool answers tells of the memory: its identifier is read back from the answer, the event
/// by its name, and its content is there.
pub proof fn answers_tell_of_their_memory(
    event: MemoryEventView,
    memory: ScoredMemoryView,
    record: MemoryRecordView,
)
    ensures
        uuid_of(add_answer(event).id) == Some(event.id as nat),
        add_answer(event).content == event.memory,
        event_named(add_answer(event).event) == event.event,
        uuid_of(search_answer(memory).id) == Some(memory.record.id as nat),
        search_answer(memory).content == memory.record.content,
        search_answer(memory).score == memory.score,
        search_answer(memory).user_id == memory.record.user_id,
        names_kind(search_answer(memory).memory_type, memory.record.memory_type),
        uuid_of(list_answer(record).id) == Some(record.id as nat),
        list_answer(record).content == record.content,
        list_answer(record).user_id == record.user_id,
        list_answer(record).agent_id == record.agent_id,
        list_answer(record).request_id == record.run_id,
        names_kind(list_answer(record).memory_type, record.memory_type),
{
    uuid_text_is_read_back(event.id);
    uuid_text_is_read_back(memory.record.id);
    uuid_text_is_read_back(record.id);
    events_have_their_names(event.event);
}

/// What is not there, what makes no sense and what belongs to others is told of as such; all other
/// errors are told of as faults of the server.
pub proof fn errors_are_told_apart(error: MemoryErrorView)
    ensures
        match error {
            MemoryErrorView::NotFound(id) => tool_error(error) == ToolErrorView::NotFound(id),
            MemoryErrorView::InvalidInput(m) => tool_error(error) == ToolErrorView::InvalidParams(
                m,
            ),
            MemoryErrorView::Unauthorized { .. } => tool_error(error) is InvalidParams,
            _ => tool_error(error) is Internal,
        },
{
}

/// The tool for adding takes its text for one message of the user.
pub proof fn texts_are_messages_of_the_user(text: Seq<char>)
    ensures
        one_message(text).len() == 1,
        one_message(text)[0].role == Role::User,
        one_message(text)[0].content == text,
{
}

/// The events are told of by these names.
pub proof fn events_are_told_by_name(event: MemoryEventView)
    ensures
        add_answer(event).event == match event.event {
            EventType::Add => "ADD"@,
            EventType::Update => "UPDATE"@,
            EventType::Delete => "DELETE"@,
            EventType::Noop => "NOOP"@,
        },
{
}

/// A consolidation of a tier that there is not is refused.
pub proof fn unknown_tiers_are_refused(args: DreamInputView, auth: Option<AuthContextView>)
    requires
        args.scope matches Some(name) && name != "user"@ && name != "agent"@ && name
            != "request"@,
    ensures
        dream_plan(args, auth) matches Err(e) && e is InvalidParams,
{
}

} // verus!
