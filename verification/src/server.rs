//! The tools by which agents reach their memories: what they are asked with, what they ask of the
//! library, and what they answer.
use vstd::prelude::*;

use crate::clock::{
    could_be_now, days_before, formatted_instant, minute_pattern, rfc3339_text, Instant, Timestamp,
    FIRST_SECOND,
};
use crate::errors::{memory_error_text, MemoryError, MemoryErrorView};
use crate::ids::{uuid_text, uuid_to_string};
use crate::json::{json_members, JsonValue, JsonView};
use crate::memory::add::{add_start, AddResult, AddRun};
use crate::memory::manager::{
    delete_start, get_all_start, reset_start, search_start, update_start, DeleteRun, Finished,
    GetAllRun, Listing, Memory, ResetRun, SearchResult, SearchRun, UpdateRun, DEFAULT_LIST_LIMIT,
};
use crate::memory::protocol::{is_drawn, FreshView, Progress};
use crate::memory::scope::{scope_filters, scope_filters_select_the_scope, CallerView};
use crate::models::{
    event_text, memory_type_named, opt_memory_type_text, opt_memory_type_to_text, AddOptions,
    AddOptionsView, DeleteOptions, GetAllOptions, GetAllOptionsView, MemoryEventView, MemoryRecord,
    MemoryRecordView, MemoryType, Message, MessageView, PayloadView, ResetOptions,
    ResetOptionsView, Role, ScoredMemoryView, SearchOptions, SearchOptionsView, UpdateOptions,
};
use crate::ranking::Score;
use crate::text::{concat, concatenated, decimal, decimal_text, text_eq};
use crate::text_map::TextMap;
use crate::vector_stores::filter_eval::is_match;
use crate::views::{copy_opt, opt_view, views};

verus! {

/// The tier of memories that a tool works on.
#[derive(Clone, Copy, Debug, PartialEq, Eq, Structural)]
pub enum Scope {
    /// Those of the user who calls.
    User,
    /// Those of the agent that calls.
    Agent,
    /// Those of the session that is named.
    Request,
}

/// What memories are added with.
#[derive(Debug)]
pub struct AddMemoryInput {
    pub messages: String,
    /// The tier whose identity is taken from the caller.
    pub scope: Option<Scope>,
    pub user_id: Option<String>,
    pub agent_id: Option<String>,
    pub request_id: Option<String>,
    pub memory_type: Option<String>,
}

/// [`AddMemoryInput`], as contracts see it.
#[verifier::ext_equal]
pub struct AddMemoryInputView {
    pub messages: Seq<char>,
    pub scope: Option<Scope>,
    pub user_id: Option<Seq<char>>,
    pub agent_id: Option<Seq<char>>,
    pub request_id: Option<Seq<char>>,
    pub memory_type: Option<Seq<char>>,
}

impl View for AddMemoryInput {
    type V = AddMemoryInputView;

    open spec fn view(&self) -> AddMemoryInputView {
        AddMemoryInputView {
            messages: self.messages@,
            scope: self.scope,
            user_id: opt_view(self.user_id),
            agent_id: opt_view(self.agent_id),
            request_id: opt_view(self.request_id),
            memory_type: opt_view(self.memory_type),
        }
    }
}

/// What memories are searched with.
#[derive(Debug)]
pub struct SearchMemoriesInput {
    pub query: String,
    /// The tier whose identity is taken from the caller.
    pub scope: Option<Scope>,
    pub user_id: Option<String>,
    pub agent_id: Option<String>,
    pub request_id: Option<String>,
    pub memory_type: Option<String>,
    pub limit: Option<usize>,
}

/// [`SearchMemoriesInput`], as contracts see it.
#[verifier::ext_equal]
pub struct SearchMemoriesInputView {
    pub query: Seq<char>,
    pub scope: Option<Scope>,
    pub user_id: Option<Seq<char>>,
    pub agent_id: Option<Seq<char>>,
    pub request_id: Option<Seq<char>>,
    pub memory_type: Option<Seq<char>>,
    pub limit: Option<usize>,
}

impl View for SearchMemoriesInput {
    type V = SearchMemoriesInputView;

    open spec fn view(&self) -> SearchMemoriesInputView {
        SearchMemoriesInputView {
            query: self.query@,
            scope: self.scope,
            user_id: opt_view(self.user_id),
            agent_id: opt_view(self.agent_id),
            request_id: opt_view(self.request_id),
            memory_type: opt_view(self.memory_type),
            limit: self.limit,
        }
    }
}

/// What a memory is updated with.
#[derive(Debug)]
pub struct UpdateMemoryInput {
    pub memory_id: String,
    pub content: String,
    /// The tier whose identity is taken from the caller.
    pub scope: Option<Scope>,
    pub user_id: Option<String>,
    pub agent_id: Option<String>,
    pub request_id: Option<String>,
}

/// [`UpdateMemoryInput`], as contracts see it.
#[verifier::ext_equal]
pub struct UpdateMemoryInputView {
    pub memory_id: Seq<char>,
    pub content: Seq<char>,
    pub scope: Option<Scope>,
    pub user_id: Option<Seq<char>>,
    pub agent_id: Option<Seq<char>>,
    pub request_id: Option<Seq<char>>,
}

impl View for UpdateMemoryInput {
    type V = UpdateMemoryInputView;

    open spec fn view(&self) -> UpdateMemoryInputView {
        UpdateMemoryInputView {
            memory_id: self.memory_id@,
            content: self.content@,
            scope: self.scope,
            user_id: opt_view(self.user_id),
            agent_id: opt_view(self.agent_id),
            request_id: opt_view(self.request_id),
        }
    }
}

/// What a memory is deleted with.
#[derive(Debug)]
pub struct DeleteMemoryInput {
    pub memory_id: String,
    /// The tier whose identity is taken from the caller.
    pub scope: Option<Scope>,
    pub user_id: Option<String>,
    pub agent_id: Option<String>,
    pub request_id: Option<String>,
}

/// [`DeleteMemoryInput`], as contracts see it.
#[verifier::ext_equal]
pub struct DeleteMemoryInputView {
    pub memory_id: Seq<char>,
    pub scope: Option<Scope>,
    pub user_id: Option<Seq<char>>,
    pub agent_id: Option<Seq<char>>,
    pub request_id: Option<Seq<char>>,
}

impl View for DeleteMemoryInput {
    type V = DeleteMemoryInputView;

    open spec fn view(&self) -> DeleteMemoryInputView {
        DeleteMemoryInputView {
            memory_id: self.memory_id@,
            scope: self.scope,
            user_id: opt_view(self.user_id),
            agent_id: opt_view(self.agent_id),
            request_id: opt_view(self.request_id),
        }
    }
}

/// What memories are listed with.
#[derive(Debug)]
pub struct GetAllMemoriesInput {
    /// The tier whose identity is taken from the caller.
    pub scope: Option<Scope>,
    pub user_id: Option<String>,
    pub agent_id: Option<String>,
    pub request_id: Option<String>,
    pub memory_type: Option<String>,
    pub limit: Option<usize>,
}

/// [`GetAllMemoriesInput`], as contracts see it.
#[verifier::ext_equal]
pub struct GetAllMemoriesInputView {
    pub scope: Option<Scope>,
    pub user_id: Option<Seq<char>>,
    pub agent_id: Option<Seq<char>>,
    pub request_id: Option<Seq<char>>,
    pub memory_type: Option<Seq<char>>,
    pub limit: Option<usize>,
}

impl View for GetAllMemoriesInput {
    type V = GetAllMemoriesInputView;

    open spec fn view(&self) -> GetAllMemoriesInputView {
        GetAllMemoriesInputView {
            scope: self.scope,
            user_id: opt_view(self.user_id),
            agent_id: opt_view(self.agent_id),
            request_id: opt_view(self.request_id),
            memory_type: opt_view(self.memory_type),
            limit: self.limit,
        }
    }
}

/// What memories are deleted with at once.
#[derive(Debug)]
pub struct DeleteAllMemoriesInput {
    /// The tier whose identity is taken from the caller.
    pub scope: Option<Scope>,
    pub user_id: Option<String>,
    pub agent_id: Option<String>,
    pub request_id: Option<String>,
    /// Nothing is deleted unless this is set.
    pub confirm: bool,
}

/// [`DeleteAllMemoriesInput`], as contracts see it.
#[verifier::ext_equal]
pub struct DeleteAllMemoriesInputView {
    pub scope: Option<Scope>,
    pub user_id: Option<Seq<char>>,
    pub agent_id: Option<Seq<char>>,
    pub request_id: Option<Seq<char>>,
    pub confirm: bool,
}

impl View for DeleteAllMemoriesInput {
    type V = DeleteAllMemoriesInputView;

    open spec fn view(&self) -> DeleteAllMemoriesInputView {
        DeleteAllMemoriesInputView {
            scope: self.scope,
            user_id: opt_view(self.user_id),
            agent_id: opt_view(self.agent_id),
            request_id: opt_view(self.request_id),
            confirm: self.confirm,
        }
    }
}

/// What a consolidation is asked for with.
#[derive(Debug)]
pub struct DreamInput {
    /// The name of a tier.
    pub scope: Option<String>,
    pub agent_id: Option<String>,
    pub user_id: Option<String>,
    pub request_id: Option<String>,
}

/// [`DreamInput`], as contracts see it.
#[verifier::ext_equal]
pub struct DreamInputView {
    pub scope: Option<Seq<char>>,
    pub agent_id: Option<Seq<char>>,
    pub user_id: Option<Seq<char>>,
    pub request_id: Option<Seq<char>>,
}

impl View for DreamInput {
    type V = DreamInputView;

    open spec fn view(&self) -> DreamInputView {
        DreamInputView {
            scope: opt_view(self.scope),
            agent_id: opt_view(self.agent_id),
            user_id: opt_view(self.user_id),
            request_id: opt_view(self.request_id),
        }
    }
}

/// What an addition did to one memory.
#[derive(Debug)]
pub struct AddMemoryResult {
    pub id: String,
    pub content: String,
    pub event: String,
}

/// [`AddMemoryResult`], as contracts see it.
#[verifier::ext_equal]
pub struct AddMemoryResultView {
    pub id: Seq<char>,
    pub content: Seq<char>,
    pub event: Seq<char>,
}

impl View for AddMemoryResult {
    type V = AddMemoryResultView;

    open spec fn view(&self) -> AddMemoryResultView {
        AddMemoryResultView {
            id: self.id@,
            content: self.content@,
            event: self.event@,
        }
    }
}

/// A memory that a search found.
#[derive(Debug)]
pub struct SearchMemoryResult {
    pub id: String,
    pub content: String,
    pub score: Score,
    pub user_id: Option<String>,
    pub memory_type: Option<String>,
}

/// [`SearchMemoryResult`], as contracts see it.
#[verifier::ext_equal]
pub struct SearchMemoryResultView {
    pub id: Seq<char>,
    pub content: Seq<char>,
    pub score: Score,
    pub user_id: Option<Seq<char>>,
    pub memory_type: Option<Seq<char>>,
}

impl View for SearchMemoryResult {
    type V = SearchMemoryResultView;

    open spec fn view(&self) -> SearchMemoryResultView {
        SearchMemoryResultView {
            id: self.id@,
            content: self.content@,
            score: self.score,
            user_id: opt_view(self.user_id),
            memory_type: opt_view(self.memory_type),
        }
    }
}

/// That an operation was done.
#[derive(Debug)]
pub struct MemoryOpResult {
    pub success: bool,
    pub id: String,
}

/// [`MemoryOpResult`], as contracts see it.
#[verifier::ext_equal]
pub struct MemoryOpResultView {
    pub success: bool,
    pub id: Seq<char>,
}

impl View for MemoryOpResult {
    type V = MemoryOpResultView;

    open spec fn view(&self) -> MemoryOpResultView {
        MemoryOpResultView {
            success: self.success,
            id: self.id@,
        }
    }
}

/// A memory of a list.
#[derive(Debug)]
pub struct GetAllMemoryResult {
    pub id: String,
    pub content: String,
    pub user_id: Option<String>,
    pub agent_id: Option<String>,
    pub request_id: Option<String>,
    pub memory_type: Option<String>,
    pub created_at: String,
}

/// [`GetAllMemoryResult`], as contracts see it.
#[verifier::ext_equal]
pub struct GetAllMemoryResultView {
    pub id: Seq<char>,
    pub content: Seq<char>,
    pub user_id: Option<Seq<char>>,
    pub agent_id: Option<Seq<char>>,
    pub request_id: Option<Seq<char>>,
    pub memory_type: Option<Seq<char>>,
    pub created_at: Seq<char>,
}

impl View for GetAllMemoryResult {
    type V = GetAllMemoryResultView;

    open spec fn view(&self) -> GetAllMemoryResultView {
        GetAllMemoryResultView {
            id: self.id@,
            content: self.content@,
            user_id: opt_view(self.user_id),
            agent_id: opt_view(self.agent_id),
            request_id: opt_view(self.request_id),
            memory_type: opt_view(self.memory_type),
            created_at: self.created_at@,
        }
    }
}

/// What is handed to the model of the agent: messages of the user, and what they are for.
#[derive(Debug)]
pub struct PromptResult {
    pub messages: Vec<String>,
    pub description: String,
}

/// [`PromptResult`], as contracts see it.
#[verifier::ext_equal]
pub struct PromptResultView {
    pub messages: Seq<Seq<char>>,
    pub description: Seq<char>,
}

impl View for PromptResult {
    type V = PromptResultView;

    open spec fn view(&self) -> PromptResultView {
        PromptResultView {
            messages: views(self.messages@),
            description: self.description@,
        }
    }
}

/// Why a tool did not do what it was asked.
#[derive(Debug)]
pub enum ToolError {
    /// There is no such memory.
    NotFound(String),
    /// It was asked the wrong way.
    InvalidParams(String),
    /// Something failed.
    Internal(String),
}

/// [`ToolError`], as contracts see it.
#[verifier::ext_equal]
pub enum ToolErrorView {
    NotFound(Seq<char>),
    InvalidParams(Seq<char>),
    Internal(Seq<char>),
}

impl View for ToolError {
    type V = ToolErrorView;

    open spec fn view(&self) -> ToolErrorView {
        match self {
            ToolError::NotFound(x) => ToolErrorView::NotFound(x@),
            ToolError::InvalidParams(x) => ToolErrorView::InvalidParams(x@),
            ToolError::Internal(x) => ToolErrorView::Internal(x@),
        }
    }
}

/// What is known of the identity of a caller.
#[derive(Debug)]
pub struct AuthContext {
    pub subject: String,
    pub claims: TextMap<JsonValue>,
}

/// [`AuthContext`], as contracts see it.
#[verifier::ext_equal]
pub struct AuthContextView {
    pub subject: Seq<char>,
    pub claims: Map<Seq<char>, JsonView>,
}

impl View for AuthContext {
    type V = AuthContextView;

    open spec fn view(&self) -> AuthContextView {
        AuthContextView {
            subject: self.subject@,
            claims: json_members(self.claims@),
        }
    }
}

/// Who calls.
#[derive(Debug)]
pub struct CallerContext {
    pub user_id: Option<String>,
    pub agent_id: Option<String>,
}

/// [`CallerContext`], as contracts see it.
#[verifier::ext_equal]
pub struct CallerContextView {
    pub user_id: Option<Seq<char>>,
    pub agent_id: Option<Seq<char>>,
}

impl View for CallerContext {
    type V = CallerContextView;

    open spec fn view(&self) -> CallerContextView {
        CallerContextView {
            user_id: opt_view(self.user_id),
            agent_id: opt_view(self.agent_id),
        }
    }
}

/// The tiers that a tool works on.
#[derive(Debug)]
pub struct ResolvedIds {
    pub user_id: Option<String>,
    pub agent_id: Option<String>,
    pub request_id: Option<String>,
}

/// [`ResolvedIds`], as contracts see it.
#[verifier::ext_equal]
pub struct ResolvedIdsView {
    pub user_id: Option<Seq<char>>,
    pub agent_id: Option<Seq<char>>,
    pub request_id: Option<Seq<char>>,
}

impl View for ResolvedIds {
    type V = ResolvedIdsView;

    open spec fn view(&self) -> ResolvedIdsView {
        ResolvedIdsView {
            user_id: opt_view(self.user_id),
            agent_id: opt_view(self.agent_id),
            request_id: opt_view(self.request_id),
        }
    }
}

/// How a consolidation is asked for.
pub const DREAM_CONSOLIDATION_PROMPT: &'static str = r#"You are reviewing your operational memories for consolidation. Your goal is to clean up redundant, superseded, or unclear memories so your memory stays sharp and useful.

## Actions You Can Take

For each issue you find, use one of these three actions:

### MERGE
Two memories say the same thing differently. Keep the better-worded one and delete the other.
- Use `update_memory` to improve the kept memory's wording if needed
- Use `delete_memory` to remove the redundant one

### SUPERSEDED
A newer memory contradicts or replaces an older one. The old one is no longer accurate.
- Use `delete_memory` to remove the outdated memory

### REWRITE
A memory is unclear, ambiguous, or poorly worded. Improve it without changing its meaning.
- Use `update_memory` to replace it with clearer wording

## Safeguards

Follow these rules strictly:

1. Do NOT merge memories about different topics even if they sound similar
2. Do NOT infer new facts -- only consolidate what already exists
3. When in doubt, KEEP BOTH memories (slight redundancy > lost nuance)
4. Only DELETE when a newer memory clearly contradicts an older one

## Output Format

Before executing any tool calls, first list your planned actions:

1. State which memories you are examining (by ID)
2. Explain what action you will take and why
3. Then execute the tool calls

If no consolidation is needed, say so and do not call any tools.

Review the memories below and consolidate where appropriate.
"#;

/// How many memories are listed at most.
pub const MAX_LIST_LIMIT: usize = 1000;

/// How many memories are consolidated at most.
pub const DREAM_LIMIT: usize = 200;

/// How many days back memories are consolidated.
pub const DREAM_DAYS: i64 = 30;

/// How a tool tells of an error of the library.
pub open spec fn tool_error(e: MemoryErrorView) -> ToolErrorView {
    match e {
        MemoryErrorView::NotFound(id) => ToolErrorView::NotFound(id),
        MemoryErrorView::InvalidInput(m) => ToolErrorView::InvalidParams(m),
        MemoryErrorView::Unauthorized { memory_id, reason } => ToolErrorView::InvalidParams(
            "ownership validation failed for memory "@ + memory_id + ": "@ + reason,
        ),
        other => ToolErrorView::Internal(memory_error_text(other)),
    }
}

/// How a tool tells of an error of the library.
pub fn map_memory_error(e: MemoryError) -> (r: ToolError)
    ensures
        r@ == tool_error(e@),
{
    match e {
        MemoryError::NotFound(id) => ToolError::NotFound(id),
        MemoryError::InvalidInput(m) => ToolError::InvalidParams(m),
        MemoryError::Unauthorized { memory_id, reason } => {
            let mut text = concat("ownership validation failed for memory ", memory_id.as_str());
            text.append(": ");
            text.append(reason.as_str());
            ToolError::InvalidParams(text)
        },
        other => ToolError::Internal(other.to_text()),
    }
}

/// The kind of memory that is named, if one is.
pub open spec fn kind_given(name: Option<Seq<char>>) -> Result<Option<MemoryType>, ToolErrorView> {
    match name {
        None => Ok(None),
        Some(text) => match memory_type_named(text) {
            Some(t) => Ok(Some(t)),
            None => Err(
                ToolErrorView::InvalidParams(
                    "Invalid memory_type '"@ + text
                        + "': expected semantic_memory, episodic_memory, or procedural_memory"@,
                ),
            ),
        },
    }
}

/// Reads the name of a kind of memory, if one is given.
pub fn parse_memory_type(name: &Option<String>) -> (r: Result<Option<MemoryType>, ToolError>)
    ensures
        match r {
            Ok(t) => kind_given(opt_view(*name)) == Ok::<Option<MemoryType>, ToolErrorView>(t),
            Err(e) => kind_given(opt_view(*name)) == Err::<Option<MemoryType>, ToolErrorView>(e@),
        },
{
    match name {
        None => Ok(None),
        Some(text) => match MemoryType::from_text(text.as_str()) {
            Some(t) => Ok(Some(t)),
            None => {
                let mut message = concat("Invalid memory_type '", text.as_str());
                message.append(
                    "': expected semantic_memory, episodic_memory, or procedural_memory",
                );
                Err(ToolError::InvalidParams(message))
            },
        },
    }
}

/// The name of a tier.
pub open spec fn scope_text(scope: Scope) -> Seq<char> {
    match scope {
        Scope::User => "user"@,
        Scope::Agent => "agent"@,
        Scope::Request => "request"@,
    }
}

/// The tier that has the name.
pub open spec fn scope_named(name: Seq<char>) -> Result<Scope, ToolErrorView> {
    if name == "user"@ {
        Ok(Scope::User)
    } else if name == "agent"@ {
        Ok(Scope::Agent)
    } else if name == "request"@ {
        Ok(Scope::Request)
    } else {
        Err(
            ToolErrorView::InvalidParams(
                "Invalid scope '"@ + name + "': expected 'user', 'agent', or 'request'"@,
            ),
        )
    }
}

/// A tier is found again by its name.
pub proof fn scopes_have_their_names(scope: Scope)
    ensures
        scope_named(scope_text(scope)) == Ok::<Scope, ToolErrorView>(scope),
{
    reveal_strlit("user");
    reveal_strlit("agent");
    reveal_strlit("request");
    assert("user"@.len() == 4);
    assert("agent"@.len() == 5);
    assert("request"@.len() == 7);
}

/// Reads the name of a tier.
pub fn parse_scope(name: &str) -> (r: Result<Scope, ToolError>)
    ensures
        match r {
            Ok(scope) => scope_named(name@) == Ok::<Scope, ToolErrorView>(scope),
            Err(e) => scope_named(name@) == Err::<Scope, ToolErrorView>(e@),
        },
{
    if text_eq(name, "user") {
        Ok(Scope::User)
    } else if text_eq(name, "agent") {
        Ok(Scope::Agent)
    } else if text_eq(name, "request") {
        Ok(Scope::Request)
    } else {
        let mut message = concat("Invalid scope '", name);
        message.append("': expected 'user', 'agent', or 'request'");
        Err(ToolError::InvalidParams(message))
    }
}

/// Who calls: the subject of the identity is the user, a claim of it is the agent.
pub open spec fn caller_of(auth: Option<AuthContextView>) -> CallerContextView {
    match auth {
        None => CallerContextView { user_id: None, agent_id: None },
        Some(a) => CallerContextView {
            user_id: Some(a.subject),
            agent_id: if a.claims.contains_key("agent_id"@) {
                match a.claims["agent_id"@] {
                    JsonView::String(s) => Some(s),
                    _ => None,
                }
            } else {
                None
            },
        },
    }
}

/// Who calls.
pub fn extract_caller_context(auth: &Option<AuthContext>) -> (r: CallerContext)
    ensures
        r@ == caller_of(opt_view(*auth)),
{
    match auth {
        None => CallerContext { user_id: None, agent_id: None },
        Some(a) => {
            let agent_id: Option<String> = match a.claims.get("agent_id") {
                Some(value) => match value.as_str() {
                    Some(s) => Some(s.to_owned()),
                    None => None,
                },
                None => None,
            };
            CallerContext { user_id: Some(a.subject.clone()), agent_id }
        },
    }
}

/// The tiers that a tool works on: those that are named, but for the one whose identity is taken
/// from the caller. A session is never taken from the caller; it has to be named.
pub open spec fn resolved(
    scope: Option<Scope>,
    caller: CallerContextView,
    named: ResolvedIdsView,
) -> Result<ResolvedIdsView, ToolErrorView> {
    match scope {
        None => Ok(named),
        Some(Scope::User) => match caller.user_id {
            Some(_) => Ok(ResolvedIdsView { user_id: caller.user_id, ..named }),
            None => Err(
                ToolErrorView::InvalidParams(
                    "scope='user' requires X-Pmcp-User-Id header (not present)"@,
                ),
            ),
        },
        Some(Scope::Agent) => match caller.agent_id {
            Some(_) => Ok(ResolvedIdsView { agent_id: caller.agent_id, ..named }),
            None => Err(
                ToolErrorView::InvalidParams(
                    "scope='agent' requires X-Pmcp-Agent-Id header (not present)"@,
                ),
            ),
        },
        Some(Scope::Request) => match named.request_id {
            Some(_) => Ok(named),
            None => Err(
                ToolErrorView::InvalidParams(
                    "scope='request' requires request_id to be provided in args"@,
                ),
            ),
        },
    }
}

/// Finds the tiers that a tool works on.
pub fn resolve_scope(scope: Option<Scope>, caller: &CallerContext, named: ResolvedIds) -> (r: Result<
    ResolvedIds,
    ToolError,
>)
    ensures
        match r {
            Ok(ids) => resolved(scope, caller@, named@) == Ok::<ResolvedIdsView, ToolErrorView>(
                ids@,
            ),
            Err(e) => resolved(scope, caller@, named@) == Err::<ResolvedIdsView, ToolErrorView>(
                e@,
            ),
        },
{
    match scope {
        None => Ok(named),
        Some(Scope::User) => {
            if caller.user_id.is_none() {
                return Err(
                    ToolError::InvalidParams(
                        "scope='user' requires X-Pmcp-User-Id header (not present)".to_owned(),
                    ),
                );
            }
            Ok(
                ResolvedIds {
                    user_id: copy_opt(&caller.user_id),
                    agent_id: named.agent_id,
                    request_id: named.request_id,
                },
            )
        },
        Some(Scope::Agent) => {
            if caller.agent_id.is_none() {
                return Err(
                    ToolError::InvalidParams(
                        "scope='agent' requires X-Pmcp-Agent-Id header (not present)".to_owned(),
                    ),
                );
            }
            Ok(
                ResolvedIds {
                    user_id: named.user_id,
                    agent_id: copy_opt(&caller.agent_id),
                    request_id: named.request_id,
                },
            )
        },
        Some(Scope::Request) => {
            if named.request_id.is_none() {
                return Err(
                    ToolError::InvalidParams(
                        "scope='request' requires request_id to be provided in args".to_owned(),
                    ),
                );
            }
            Ok(named)
        },
    }
}

/// Resolving a scope touches only the tier of the scope. That tier is then the caller's own, or for
/// a session the one that is named; what is named of the other tiers stays.
pub proof fn scopes_override_only_their_tier(
    scope: Option<Scope>,
    caller: CallerContextView,
    named: ResolvedIdsView,
)
    ensures
        resolved(scope, caller, named) matches Ok(ids) ==> {
            &&& scope != Some(Scope::User) ==> ids.user_id == named.user_id
            &&& scope != Some(Scope::Agent) ==> ids.agent_id == named.agent_id
            &&& ids.request_id == named.request_id
            &&& scope == Some(Scope::User) ==> ids.user_id == caller.user_id && ids.user_id is Some
            &&& scope == Some(Scope::Agent) ==> ids.agent_id == caller.agent_id && ids.agent_id
                is Some
            &&& scope == Some(Scope::Request) ==> ids.request_id is Some
        },
        resolved(scope, caller, named) is Err <==> {
            ||| scope == Some(Scope::User) && caller.user_id is None
            ||| scope == Some(Scope::Agent) && caller.agent_id is None
            ||| scope == Some(Scope::Request) && named.request_id is None
        },
{
}

/// The tiers that a tool works on, for a caller.
pub open spec fn tiers(
    scope: Option<Scope>,
    auth: Option<AuthContextView>,
    user_id: Option<Seq<char>>,
    agent_id: Option<Seq<char>>,
    request_id: Option<Seq<char>>,
) -> Result<ResolvedIdsView, ToolErrorView> {
    resolved(scope, caller_of(auth), ResolvedIdsView { user_id, agent_id, request_id })
}

/// Finds the tiers that a tool works on, for a caller.
fn find_tiers(
    scope: Option<Scope>,
    auth: &Option<AuthContext>,
    user_id: Option<String>,
    agent_id: Option<String>,
    request_id: Option<String>,
) -> (r: Result<ResolvedIds, ToolError>)
    ensures
        match r {
            Ok(ids) => tiers(
                scope,
                opt_view(*auth),
                opt_view(user_id),
                opt_view(agent_id),
                opt_view(request_id),
            ) == Ok::<ResolvedIdsView, ToolErrorView>(ids@),
            Err(e) => tiers(
                scope,
                opt_view(*auth),
                opt_view(user_id),
                opt_view(agent_id),
                opt_view(request_id),
            ) == Err::<ResolvedIdsView, ToolErrorView>(e@),
        },
{
    let caller = extract_caller_context(auth);
    resolve_scope(scope, &caller, ResolvedIds { user_id, agent_id, request_id })
}

/// How memories are added.
pub open spec fn add_plan(args: AddMemoryInputView, auth: Option<AuthContextView>) -> Result<
    AddOptionsView,
    ToolErrorView,
> {
    match tiers(args.scope, auth, args.user_id, args.agent_id, args.request_id) {
        Err(e) => Err(e),
        Ok(ids) => if ids.user_id is None && ids.agent_id is None && ids.request_id is None {
            Err(
                ToolErrorView::InvalidParams(
                    "At least one of user_id, agent_id, request_id, or scope is required"@,
                ),
            )
        } else {
            match kind_given(args.memory_type) {
                Err(e) => Err(e),
                Ok(memory_type) => Ok(
                    AddOptionsView {
                        user_id: ids.user_id,
                        agent_id: ids.agent_id,
                        run_id: ids.request_id,
                        metadata: None,
                        memory_type,
                        infer: true,
                    },
                ),
            }
        },
    }
}

/// How memories are searched.
pub open spec fn search_plan(
    args: SearchMemoriesInputView,
    auth: Option<AuthContextView>,
) -> Result<SearchOptionsView, ToolErrorView> {
    match tiers(args.scope, auth, args.user_id, args.agent_id, args.request_id) {
        Err(e) => Err(e),
        Ok(ids) => match kind_given(args.memory_type) {
            Err(e) => Err(e),
            Ok(memory_type) => Ok(
                SearchOptionsView {
                    user_id: ids.user_id,
                    agent_id: ids.agent_id,
                    run_id: ids.request_id,
                    memory_type,
                    limit: args.limit,
                    threshold: None,
                    filters: None,
                    rerank: false,
                },
            ),
        },
    }
}

/// How many memories are listed.
pub open spec fn list_limit(limit: Option<usize>) -> usize {
    let wanted = match limit {
        Some(n) => n,
        None => DEFAULT_LIST_LIMIT,
    };
    if wanted <= MAX_LIST_LIMIT {
        wanted
    } else {
        MAX_LIST_LIMIT
    }
}

/// How memories are listed.
pub open spec fn list_plan(args: GetAllMemoriesInputView, auth: Option<AuthContextView>) -> Result<
    GetAllOptionsView,
    ToolErrorView,
> {
    match tiers(args.scope, auth, args.user_id, args.agent_id, args.request_id) {
        Err(e) => Err(e),
        Ok(ids) => match kind_given(args.memory_type) {
            Err(e) => Err(e),
            Ok(memory_type) => Ok(
                GetAllOptionsView {
                    user_id: ids.user_id,
                    agent_id: ids.agent_id,
                    run_id: ids.request_id,
                    memory_type,
                    limit: Some(list_limit(args.limit)),
                },
            ),
        },
    }
}

/// How memories are deleted at once. It has to be confirmed.
pub open spec fn reset_plan(
    args: DeleteAllMemoriesInputView,
    auth: Option<AuthContextView>,
) -> Result<ResetOptionsView, ToolErrorView> {
    if !args.confirm {
        Err(ToolErrorView::InvalidParams("confirm=true required to delete memories"@))
    } else {
        match tiers(args.scope, auth, args.user_id, args.agent_id, args.request_id) {
            Err(e) => Err(e),
            Ok(ids) => Ok(
                ResetOptionsView {
                    user_id: ids.user_id,
                    agent_id: ids.agent_id,
                    run_id: ids.request_id,
                },
            ),
        }
    }
}

/// The tier that a consolidation works on: the one that is named, or if nothing at all is named
/// that of the agent.
pub open spec fn dream_scope(args: DreamInputView) -> Result<Option<Scope>, ToolErrorView> {
    match args.scope {
        Some(name) => match scope_named(name) {
            Ok(scope) => Ok(Some(scope)),
            Err(e) => Err(e),
        },
        None => if args.user_id is None && args.agent_id is None && args.request_id is None {
            Ok(Some(Scope::Agent))
        } else {
            Ok(None)
        },
    }
}

/// How the memories of a consolidation are listed.
pub open spec fn dream_plan(args: DreamInputView, auth: Option<AuthContextView>) -> Result<
    GetAllOptionsView,
    ToolErrorView,
> {
    match dream_scope(args) {
        Err(e) => Err(e),
        Ok(scope) => match tiers(scope, auth, args.user_id, args.agent_id, args.request_id) {
            Err(e) => Err(e),
            Ok(ids) => Ok(
                GetAllOptionsView {
                    user_id: ids.user_id,
                    agent_id: ids.agent_id,
                    run_id: ids.request_id,
                    memory_type: None,
                    limit: Some(DREAM_LIMIT),
                },
            ),
        },
    }
}

/// A text is taken for one message of the user.
pub open spec fn one_message(text: Seq<char>) -> Seq<MessageView> {
    seq![MessageView { role: Role::User, content: text }]
}

/// On whose behalf a memory is changed.
pub open spec fn on_behalf(ids: ResolvedIdsView) -> CallerView {
    CallerView { user_id: ids.user_id, agent_id: ids.agent_id, run_id: ids.request_id }
}

/// The tools.
#[derive(Clone, Copy, Debug, PartialEq, Eq, Structural)]
pub struct MemoryServer {
    pub memory: Memory,
}

impl MemoryServer {
    /// How memories are added.
    pub fn plan_add(args: &AddMemoryInput, auth: &Option<AuthContext>) -> (r: Result<
        AddOptions,
        ToolError,
    >)
        ensures
            match r {
                Ok(o) => add_plan(args@, opt_view(*auth)) == Ok::<AddOptionsView, ToolErrorView>(
                    o@,
                ),
                Err(e) => add_plan(args@, opt_view(*auth)) == Err::<AddOptionsView, ToolErrorView>(
                    e@,
                ),
            },
    {
        let ids = match find_tiers(
            args.scope,
            auth,
            copy_opt(&args.user_id),
            copy_opt(&args.agent_id),
            copy_opt(&args.request_id),
        ) {
            Ok(ids) => ids,
            Err(e) => {
                return Err(e);
            },
        };
        if ids.user_id.is_none() && ids.agent_id.is_none() && ids.request_id.is_none() {
            return Err(
                ToolError::InvalidParams(
                    "At least one of user_id, agent_id, request_id, or scope is required".to_owned(),
                ),
            );
        }
        match parse_memory_type(&args.memory_type) {
            Err(e) => Err(e),
            Ok(memory_type) => Ok(
                AddOptions {
                    user_id: ids.user_id,
                    agent_id: ids.agent_id,
                    run_id: ids.request_id,
                    metadata: None,
                    memory_type,
                    infer: true,
                },
            ),
        }
    }

    /// Adds memories from a message.
    pub fn add_memory(&self, args: AddMemoryInput, auth: &Option<AuthContext>) -> (r: Result<
        Progress<AddRun, AddResult>,
        ToolError,
    >)
        ensures
            match r {
                Ok(progress) => add_plan(args@, opt_view(*auth)) is Ok && exists|fresh: FreshView|
                    is_drawn(fresh) && progress@ == #[trigger] add_start(
                        self.memory,
                        one_message(args@.messages),
                        add_plan(args@, opt_view(*auth))->Ok_0,
                        fresh,
                    ),
                Err(e) => add_plan(args@, opt_view(*auth)) == Err::<AddOptionsView, ToolErrorView>(
                    e@,
                ),
            },
    {
        let options = match MemoryServer::plan_add(&args, auth) {
            Ok(options) => options,
            Err(e) => {
                return Err(e);
            },
        };
        let mut messages: Vec<Message> = Vec::new();
        messages.push(Message::user(args.messages.as_str()));
        proof {
            assert(views(messages@) =~= one_message(args@.messages));
        }
        let ghost o = options@;
        let progress = self.memory.add(messages, options);
        proof {
            let fresh = choose|fresh: FreshView|
                is_drawn(fresh) && progress@ == #[trigger] add_start(
                    self.memory,
                    one_message(args@.messages),
                    o,
                    fresh,
                );
            assert(is_drawn(fresh) && progress@ == add_start(
                self.memory,
                one_message(args@.messages),
                add_plan(args@, opt_view(*auth))->Ok_0,
                fresh,
            ));
        }
        Ok(progress)
    }

    /// Searches memories.
    pub fn search_memories(&self, args: SearchMemoriesInput, auth: &Option<AuthContext>) -> (r:
        Result<Progress<SearchRun, SearchResult>, ToolError>)
        requires
            args@.limit matches Some(n) ==> 2 * n <= usize::MAX,
        ensures
            match r {
                Ok(progress) => search_plan(args@, opt_view(*auth)) matches Ok(o) && progress@
                    == search_start(self.memory, args@.query, o),
                Err(e) => search_plan(args@, opt_view(*auth)) == Err::<
                    SearchOptionsView,
                    ToolErrorView,
                >(e@),
            },
    {
        let ids = match find_tiers(
            args.scope,
            auth,
            args.user_id,
            args.agent_id,
            args.request_id,
        ) {
            Ok(ids) => ids,
            Err(e) => {
                return Err(e);
            },
        };
        match parse_memory_type(&args.memory_type) {
            Err(e) => Err(e),
            Ok(memory_type) => {
                let options = SearchOptions {
                    user_id: ids.user_id,
                    agent_id: ids.agent_id,
                    run_id: ids.request_id,
                    memory_type,
                    limit: args.limit,
                    threshold: None,
                    filters: None,
                    rerank: false,
                };
                Ok(self.memory.search(args.query.as_str(), options))
            },
        }
    }

    /// Updates a memory. It has to be the caller's.
    pub fn update_memory(&self, args: &UpdateMemoryInput, auth: &Option<AuthContext>) -> (r: Result<
        Progress<UpdateRun, MemoryRecord>,
        ToolError,
    >)
        ensures
            ({
                let ids = tiers(
                    args@.scope,
                    opt_view(*auth),
                    args@.user_id,
                    args@.agent_id,
                    args@.request_id,
                );
                match r {
                    Ok(progress) => ids is Ok && progress@ == update_start(
                        self.memory,
                        args@.memory_id,
                        args@.content,
                        Some(on_behalf(ids->Ok_0)),
                    ),
                    Err(e) => ids == Err::<ResolvedIdsView, ToolErrorView>(e@),
                }
            }),
    {
        match find_tiers(
            args.scope,
            auth,
            copy_opt(&args.user_id),
            copy_opt(&args.agent_id),
            copy_opt(&args.request_id),
        ) {
            Err(e) => Err(e),
            Ok(ids) => {
                let options = UpdateOptions {
                    user_id: ids.user_id,
                    agent_id: ids.agent_id,
                    run_id: ids.request_id,
                };
                Ok(self.memory.update(args.memory_id.as_str(), args.content.as_str(), options))
            },
        }
    }

    /// Deletes a memory. It has to be the caller's.
    pub fn delete_memory(&self, args: &DeleteMemoryInput, auth: &Option<AuthContext>) -> (r: Result<
        Progress<DeleteRun, Finished>,
        ToolError,
    >)
        ensures
            ({
                let ids = tiers(
                    args@.scope,
                    opt_view(*auth),
                    args@.user_id,
                    args@.agent_id,
                    args@.request_id,
                );
                match r {
                    Ok(progress) => ids is Ok && progress@ == delete_start(
                        self.memory,
                        args@.memory_id,
                        Some(on_behalf(ids->Ok_0)),
                    ),
                    Err(e) => ids == Err::<ResolvedIdsView, ToolErrorView>(e@),
                }
            }),
    {
        match find_tiers(
            args.scope,
            auth,
            copy_opt(&args.user_id),
            copy_opt(&args.agent_id),
            copy_opt(&args.request_id),
        ) {
            Err(e) => Err(e),
            Ok(ids) => {
                let options = DeleteOptions {
                    user_id: ids.user_id,
                    agent_id: ids.agent_id,
                    run_id: ids.request_id,
                };
                Ok(self.memory.delete(args.memory_id.as_str(), options))
            },
        }
    }

    /// Lists memories.
    pub fn get_all_memories(&self, args: GetAllMemoriesInput, auth: &Option<AuthContext>) -> (r:
        Result<Progress<GetAllRun, Listing>, ToolError>)
        ensures
            match r {
                Ok(progress) => list_plan(args@, opt_view(*auth)) matches Ok(o) && progress@
                    == get_all_start(o),
                Err(e) => list_plan(args@, opt_view(*auth)) == Err::<
                    GetAllOptionsView,
                    ToolErrorView,
                >(e@),
            },
    {
        let ids = match find_tiers(
            args.scope,
            auth,
            args.user_id,
            args.agent_id,
            args.request_id,
        ) {
            Ok(ids) => ids,
            Err(e) => {
                return Err(e);
            },
        };
        match parse_memory_type(&args.memory_type) {
            Err(e) => Err(e),
            Ok(memory_type) => {
                let wanted = match args.limit {
                    Some(n) => n,
                    None => DEFAULT_LIST_LIMIT,
                };
                let limit = if wanted <= MAX_LIST_LIMIT {
                    wanted
                } else {
                    MAX_LIST_LIMIT
                };
                let options = GetAllOptions {
                    user_id: ids.user_id,
                    agent_id: ids.agent_id,
                    run_id: ids.request_id,
                    memory_type,
                    limit: Some(limit),
                };
                Ok(self.memory.get_all(options))
            },
        }
    }

    /// Deletes memories at once. It has to be confirmed.
    pub fn delete_all_memories(
        &self,
        args: DeleteAllMemoriesInput,
        auth: &Option<AuthContext>,
    ) -> (r: Result<Progress<ResetRun, Finished>, ToolError>)
        ensures
            match r {
                Ok(progress) => reset_plan(args@, opt_view(*auth)) matches Ok(o) && progress@
                    == reset_start(self.memory, o),
                Err(e) => reset_plan(args@, opt_view(*auth)) == Err::<
                    ResetOptionsView,
                    ToolErrorView,
                >(e@),
            },
    {
        if !args.confirm {
            return Err(
                ToolError::InvalidParams("confirm=true required to delete memories".to_owned()),
            );
        }
        match find_tiers(args.scope, auth, args.user_id, args.agent_id, args.request_id) {
            Err(e) => Err(e),
            Ok(ids) => {
                let options = ResetOptions {
                    user_id: ids.user_id,
                    agent_id: ids.agent_id,
                    run_id: ids.request_id,
                };
                Ok(self.memory.reset(options))
            },
        }
    }

    /// Lists the memories of a consolidation.
    pub fn dream(&self, args: DreamInput, auth: &Option<AuthContext>) -> (r: Result<
        Progress<GetAllRun, Listing>,
        ToolError,
    >)
        ensures
            match r {
                Ok(progress) => dream_plan(args@, opt_view(*auth)) matches Ok(o) && progress@
                    == get_all_start(o),
                Err(e) => dream_plan(args@, opt_view(*auth)) == Err::<
                    GetAllOptionsView,
                    ToolErrorView,
                >(e@),
            },
    {
        let scope: Option<Scope> = match &args.scope {
            Some(name) => match parse_scope(name.as_str()) {
                Ok(scope) => Some(scope),
                Err(e) => {
                    return Err(e);
                },
            },
            None => {
                if args.user_id.is_none() && args.agent_id.is_none() && args.request_id.is_none() {
                    Some(Scope::Agent)
                } else {
                    None
                }
            },
        };
        match find_tiers(scope, auth, args.user_id, args.agent_id, args.request_id) {
            Err(e) => Err(e),
            Ok(ids) => {
                let options = GetAllOptions {
                    user_id: ids.user_id,
                    agent_id: ids.agent_id,
                    run_id: ids.request_id,
                    memory_type: None,
                    limit: Some(DREAM_LIMIT),
                };
                Ok(self.memory.get_all(options))
            },
        }
    }
}

/// What a tool answers about a change of a memory.
pub open spec fn add_answer(event: MemoryEventView) -> AddMemoryResultView {
    AddMemoryResultView {
        id: uuid_text(event.id),
        content: event.memory,
        event: event_text(event.event),
    }
}

/// What a tool answers about a memory that was found.
pub open spec fn search_answer(memory: ScoredMemoryView) -> SearchMemoryResultView {
    SearchMemoryResultView {
        id: uuid_text(memory.record.id),
        content: memory.record.content,
        score: memory.score,
        user_id: memory.record.user_id,
        memory_type: opt_memory_type_text(memory.record.memory_type),
    }
}

/// What a tool answers about a memory of a list, with the time at which it was made as a text.
pub open spec fn list_answer_with(
    record: MemoryRecordView,
    created_at: Seq<char>,
) -> GetAllMemoryResultView {
    GetAllMemoryResultView {
        id: uuid_text(record.id),
        content: record.content,
        user_id: record.user_id,
        agent_id: record.agent_id,
        request_id: record.run_id,
        memory_type: opt_memory_type_text(record.memory_type),
        created_at,
    }
}

/// What a tool answers about a memory of a list.
pub open spec fn list_answer(record: MemoryRecordView) -> GetAllMemoryResultView {
    list_answer_with(record, rfc3339_text(record.created_at.0, record.created_at.1))
}

/// Answers about an addition.
pub fn answer_add(result: Result<AddResult, MemoryError>) -> (r: Result<
    Vec<AddMemoryResult>,
    ToolError,
>)
    ensures
        match (result, r) {
            (Ok(done), Ok(answers)) => views(answers@) == done@.results.map_values(
                |e: MemoryEventView| add_answer(e),
            ),
            (Err(e), Err(t)) => t@ == tool_error(e@),
            _ => false,
        },
{
    let events = match result {
        Ok(done) => done.results,
        Err(e) => {
            return Err(map_memory_error(e));
        },
    };
    let mut answers: Vec<AddMemoryResult> = Vec::new();
    let mut i: usize = 0;
    while i < events.len()
        invariant
            i <= events@.len(),
            answers@.len() == i,
            forall|j: int| 0 <= j < i ==> (#[trigger] answers@[j])@ == add_answer(events@[j]@),
        decreases events@.len() - i,
    {
        let event = &events[i];
        answers.push(
            AddMemoryResult {
                id: uuid_to_string(event.id),
                content: event.memory.clone(),
                event: event.event.to_text(),
            },
        );
        i += 1;
    }
    proof {
        assert(views(answers@) =~= views(events@).map_values(|e: MemoryEventView| add_answer(e)));
    }
    Ok(answers)
}

/// Answers about a search.
pub fn answer_search(result: Result<SearchResult, MemoryError>) -> (r: Result<
    Vec<SearchMemoryResult>,
    ToolError,
>)
    ensures
        match (result, r) {
            (Ok(done), Ok(answers)) => views(answers@) == done@.results.map_values(
                |m: ScoredMemoryView| search_answer(m),
            ),
            (Err(e), Err(t)) => t@ == tool_error(e@),
            _ => false,
        },
{
    let memories = match result {
        Ok(done) => done.results,
        Err(e) => {
            return Err(map_memory_error(e));
        },
    };
    let mut answers: Vec<SearchMemoryResult> = Vec::new();
    let mut i: usize = 0;
    while i < memories.len()
        invariant
            i <= memories@.len(),
            answers@.len() == i,
            forall|j: int| 0 <= j < i ==> (#[trigger] answers@[j])@ == search_answer(memories@[j]@),
        decreases memories@.len() - i,
    {
        let memory = &memories[i];
        answers.push(
            SearchMemoryResult {
                id: uuid_to_string(memory.record.id),
                content: memory.record.content.clone(),
                score: memory.score,
                user_id: copy_opt(&memory.record.user_id),
                memory_type: opt_memory_type_to_text(memory.record.memory_type),
            },
        );
        i += 1;
    }
    proof {
        assert(views(answers@) =~= views(memories@).map_values(
            |m: ScoredMemoryView| search_answer(m),
        ));
    }
    Ok(answers)
}

/// Answers about a memory of a list, with the time at which it was made as a text.
pub fn fill_list_answer(record: &MemoryRecord, created_at: String) -> (r: GetAllMemoryResult)
    ensures
        r@ == list_answer_with(record@, created_at@),
{
    GetAllMemoryResult {
        id: uuid_to_string(record.id),
        content: record.content.clone(),
        user_id: copy_opt(&record.user_id),
        agent_id: copy_opt(&record.agent_id),
        request_id: copy_opt(&record.run_id),
        memory_type: opt_memory_type_to_text(record.memory_type),
        created_at,
    }
}

/// Answers with a list.
pub fn answer_list(result: Result<Listing, MemoryError>) -> (r: Result<
    Vec<GetAllMemoryResult>,
    ToolError,
>)
    ensures
        match (result, r) {
            (Ok(done), Ok(answers)) => views(answers@) == done@.records.map_values(
                |m: MemoryRecordView| list_answer(m),
            ),
            (Err(e), Err(t)) => t@ == tool_error(e@),
            _ => false,
        },
{
    let records = match result {
        Ok(done) => done.records,
        Err(e) => {
            return Err(map_memory_error(e));
        },
    };
    let mut answers: Vec<GetAllMemoryResult> = Vec::new();
    let mut i: usize = 0;
    while i < records.len()
        invariant
            i <= records@.len(),
            answers@.len() == i,
            forall|j: int| 0 <= j < i ==> (#[trigger] answers@[j])@ == list_answer(records@[j]@),
        decreases records@.len() - i,
    {
        let record = &records[i];
        answers.push(fill_list_answer(record, record.created_at.to_rfc3339()));
        i += 1;
    }
    proof {
        assert(views(answers@) =~= views(records@).map_values(|m: MemoryRecordView| list_answer(m)));
    }
    Ok(answers)
}

/// Answers about an update or a deletion of the memory that was named.
pub fn answer_change(memory_id: String, error: Option<MemoryError>) -> (r: Result<
    MemoryOpResult,
    ToolError,
>)
    ensures
        match (error, r) {
            (None, Ok(answer)) => answer@ == (MemoryOpResultView { success: true, id: memory_id@ }),
            (Some(e), Err(t)) => t@ == tool_error(e@),
            _ => false,
        },
{
    match error {
        None => Ok(MemoryOpResult { success: true, id: memory_id }),
        Some(e) => Err(map_memory_error(e)),
    }
}

/// Answers about a deletion of many memories.
pub fn answer_reset(result: Result<Finished, MemoryError>) -> (r: Result<MemoryOpResult, ToolError>)
    ensures
        match (result, r) {
            (Ok(_), Ok(answer)) => answer@ == (MemoryOpResultView { success: true, id: "all"@ }),
            (Err(e), Err(t)) => t@ == tool_error(e@),
            _ => false,
        },
{
    match result {
        Ok(_) => Ok(MemoryOpResult { success: true, id: "all".to_owned() }),
        Err(e) => Err(map_memory_error(e)),
    }
}

/// A memory as one point of the list for a consolidation, with its number and the time at which it
/// was made as a text.
pub open spec fn dream_point(number: nat, record: MemoryRecordView, created: Seq<char>) -> Seq<
    char,
> {
    decimal(number) + ". [ID: "@ + uuid_text(record.id) + "] (created: "@ + created + ")\n   "@
        + record.content + "\n\n"@
}

/// A memory as one point of the list for a consolidation.
pub open spec fn dream_line(record: MemoryRecordView, place: int) -> Seq<char> {
    dream_point(
        (place + 1) as nat,
        record,
        formatted_instant(record.created_at.0, record.created_at.1, minute_pattern()),
    )
}

/// The list for a consolidation.
pub open spec fn dream_list(records: Seq<MemoryRecordView>) -> Seq<char> {
    "## Memories to Review ("@ + decimal(records.len()) + " total)\n\n"@ + concatenated(
        Seq::new(records.len(), |i: int| dream_line(records[i], i)),
    )
}

/// Writes a memory as one point of the list for a consolidation.
pub fn format_dream_point(number: usize, record: &MemoryRecord, created: &str) -> (r: String)
    ensures
        r@ == dream_point(number as nat, record@, created@),
{
    let mut line = concat(decimal_text(number).as_str(), ". [ID: ");
    line.append(uuid_to_string(record.id).as_str());
    line.append("] (created: ");
    line.append(created);
    line.append(")\n   ");
    line.append(record.content.as_str());
    line.append("\n\n");
    line
}

/// Writes the list for a consolidation: the memories, numbered from one.
pub fn format_dream_memories(records: &[MemoryRecord]) -> (r: String)
    ensures
        r@ == dream_list(views(records@)),
{
    let ghost all = views(records@);
    let ghost lines = Seq::new(all.len(), |i: int| dream_line(all[i], i));
    let mut out = concat("## Memories to Review (", decimal_text(records.len()).as_str());
    out.append(" total)\n\n");
    let ghost head = out@;
    let mut i: usize = 0;
    proof {
        assert(lines.take(0) =~= Seq::empty());
        assert(out@ =~= head + concatenated(lines.take(0)));
    }
    while i < records.len()
        invariant
            i <= records@.len(),
            all == views(records@),
            lines == Seq::new(all.len(), |k: int| dream_line(all[k], k)),
            out@ == head + concatenated(lines.take(i as int)),
        decreases records@.len() - i,
    {
        let record = &records[i];
        let line = format_dream_point(i + 1, record, record.created_at.to_minute_text().as_str());
        out.append(line.as_str());
        proof {
            assert(all[i as int] == records@[i as int]@);
            assert(line@ == dream_line(all[i as int], i as int));
            assert(lines.take(i + 1).drop_last() =~= lines.take(i as int));
            assert(lines.take(i + 1).last() == line@);
            assert(out@ =~= head + concatenated(lines.take(i + 1)));
        }
        i += 1;
    }
    proof {
        assert(lines.take(records@.len() as int) =~= lines);
    }
    out
}

/// The memory was made within the days that a consolidation looks back.
pub open spec fn is_recent(record: MemoryRecordView, now: Instant) -> bool {
    let cutoff = days_before(now, DREAM_DAYS as int);
    record.created_at.0 > cutoff.0 || (record.created_at.0 == cutoff.0 && record.created_at.1
        >= cutoff.1)
}

/// The memories that are consolidated, in order.
pub open spec fn recent(records: Seq<MemoryRecordView>, now: Instant) -> Seq<MemoryRecordView> {
    records.filter(|m: MemoryRecordView| is_recent(m, now))
}

/// What a consolidation hands to the model of the agent.
pub open spec fn dream_prompt(records: Seq<MemoryRecordView>, now: Instant) -> PromptResultView {
    let memories = recent(records, now);
    if memories.len() == 0 {
        PromptResultView {
            messages: seq!["No recent memories found for consolidation. Nothing to do."@],
            description: "Dream: no memories to consolidate"@,
        }
    } else {
        PromptResultView {
            messages: seq![DREAM_CONSOLIDATION_PROMPT@, dream_list(memories)],
            description: "Dream: "@ + decimal(memories.len())
                + " memories loaded for consolidation"@,
        }
    }
}

/// The memories of a list that were made within the days that a consolidation looks back.
fn keep_recent(records: Vec<MemoryRecord>, now: Timestamp) -> (r: Vec<MemoryRecord>)
    ensures
        views(r@) == recent(views(records@), now@),
{
    let ghost all = views(records@);
    let ghost keep = |m: MemoryRecordView| is_recent(m, now@);
    let cutoff = now.thirty_days_before();
    let mut rest = records;
    let mut kept: Vec<MemoryRecord> = Vec::new();
    let ghost mut done: int = 0;
    proof {
        assert(all.skip(0) =~= all);
        assert(all.take(0) =~= Seq::empty());
        assert(views(kept@) =~= all.take(0).filter(keep));
    }
    while rest.len() > 0
        invariant
            0 <= done <= all.len(),
            keep == (|m: MemoryRecordView| is_recent(m, now@)),
            match cutoff {
                Some(t) => (t@.0 as int, t@.1 as int) == days_before(now@, 30),
                None => days_before(now@, 30).0 < FIRST_SECOND,
            },
            views(rest@) == all.skip(done),
            views(kept@) == all.take(done).filter(keep),
        decreases rest.len(),
    {
        let ghost before = views(rest@);
        let ghost kept_before = views(kept@);
        proof {
            assert(before.len() == rest@.len());
            assert(done < all.len());
        }
        let record = rest.remove(0);
        let ghost m = record@;
        let is_new = match cutoff {
            Some(t) => record.created_at.is_not_before(&t),
            None => record.created_at.secs() >= FIRST_SECOND,
        };
        proof {
            assert(m == before[0]);
            assert(m == all[done]);
            assert(views(rest@) =~= before.skip(1));
            assert(before.skip(1) =~= all.skip(done + 1));
            assert(all.take(done + 1) =~= all.take(done).push(m));
            Seq::lemma_filter_push(all.take(done), m, keep);
            assert(is_new == is_recent(m, now@));
        }
        if is_new {
            kept.push(record);
            proof {
                assert(views(kept@) =~= kept_before.push(m));
            }
        }
        proof {
            done = done + 1;
        }
    }
    proof {
        assert(done == all.len());
        assert(all.take(done) =~= all);
    }
    kept
}

/// Makes what a consolidation hands to the model of the agent, at a time.
pub fn make_dream_prompt_at(records: Vec<MemoryRecord>, now: Timestamp) -> (r: PromptResult)
    ensures
        r@ == dream_prompt(views(records@), now@),
{
    let memories = keep_recent(records, now);
    let mut messages: Vec<String> = Vec::new();
    if memories.len() == 0 {
        messages.push("No recent memories found for consolidation. Nothing to do.".to_owned());
        proof {
            assert(views(messages@) =~= seq![
                "No recent memories found for consolidation. Nothing to do."@,
            ]);
        }
        return PromptResult {
            messages,
            description: "Dream: no memories to consolidate".to_owned(),
        };
    }
    messages.push(DREAM_CONSOLIDATION_PROMPT.to_owned());
    messages.push(format_dream_memories(memories.as_slice()));
    proof {
        assert(views(messages@) =~= seq![DREAM_CONSOLIDATION_PROMPT@, dream_list(views(memories@))]);
    }
    let mut description = concat("Dream: ", decimal_text(memories.len()).as_str());
    description.append(" memories loaded for consolidation");
    PromptResult { messages, description }
}

/// Answers with what a consolidation hands to the model of the agent.
pub fn answer_dream(result: Result<Listing, MemoryError>) -> (r: Result<PromptResult, ToolError>)
    ensures
        match (result, r) {
            (Ok(done), Ok(answer)) => exists|now: Instant|
                could_be_now(now) && answer@ == #[trigger] dream_prompt(done@.records, now),
            (Err(e), Err(t)) => t@ == tool_error(e@),
            _ => false,
        },
{
    match result {
        Ok(done) => {
            let now = Timestamp::now();
            let answer = make_dream_prompt_at(done.records, now);
            assert(could_be_now(now@) && answer@ == dream_prompt(done@.records, now@));
            Ok(answer)
        },
        Err(e) => Err(map_memory_error(e)),
    }
}

/// Nothing is deleted at once unless it is confirmed, whatever the rest of the request says.
pub proof fn mass_deletion_has_to_be_confirmed(
    args: DeleteAllMemoriesInputView,
    auth: Option<AuthContextView>,
)
    requires
        !args.confirm,
    ensures
        reset_plan(args, auth) is Err,
{
}

/// A tool that works on a tier reads and deletes no memories but those of that tier: for a user or
/// an agent the caller's own, for a session those of the session that is named.
pub proof fn tools_keep_to_the_tier(
    scope: Scope,
    auth: Option<AuthContextView>,
    named: ResolvedIdsView,
    memory_type: Option<MemoryType>,
    payload: PayloadView,
)
    requires
        resolved(Some(scope), caller_of(auth), named) is Ok,
    ensures
        ({
            let ids = resolved(Some(scope), caller_of(auth), named)->Ok_0;
            is_match(
                payload,
                scope_filters(ids.user_id, ids.agent_id, ids.request_id, memory_type),
            ) ==> match scope {
                Scope::User => payload.user_id is Some && payload.user_id == caller_of(
                    auth,
                ).user_id,
                Scope::Agent => payload.agent_id is Some && payload.agent_id == caller_of(
                    auth,
                ).agent_id,
                Scope::Request => payload.run_id is Some && payload.run_id == named.request_id,
            }
        }),
{
    let ids = resolved(Some(scope), caller_of(auth), named)->Ok_0;
    scope_filters_select_the_scope(
        payload,
        ids.user_id,
        ids.agent_id,
        ids.request_id,
        memory_type,
    );
}

/// No list is longer than the longest that there may be.
pub proof fn lists_are_bounded(args: GetAllMemoriesInputView, auth: Option<AuthContextView>)
    ensures
        list_plan(args, auth) matches Ok(o) ==> (o.limit matches Some(n) && n <= MAX_LIST_LIMIT),
{
}

/// A consolidation shows exactly the recent ones of the memories that were listed.
pub proof fn dreams_show_recent_memories(records: Seq<MemoryRecordView>, now: Instant, i: int)
    requires
        0 <= i < records.len(),
    ensures
        recent(records, now).contains(records[i]) <==> is_recent(records[i], now),
{
    let keep = |m: MemoryRecordView| is_recent(m, now);
    if is_recent(records[i], now) {
        records.lemma_filter_contains(keep, i);
    }
    if recent(records, now).contains(records[i]) {
        let k = choose|k: int|
            0 <= k < recent(records, now).len() && recent(records, now)[k] == records[i];
        records.lemma_filter_pred(keep, k);
    }
}

} // verus!
