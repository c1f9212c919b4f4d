//! For whom a memory is kept, and who may touch it.
use vstd::prelude::*;

use crate::json::{same_text_is_equal, JsonValue, JsonView};
use crate::models::{
    memory_types_have_their_names, opt_memory_type_text, opt_memory_type_to_text, FilterCondition, FilterConditionView, FilterLogic, FilterOperator,
    Filters, FiltersView, MemoryRecord, MemoryRecordView, MemoryType, PayloadView,
    REQUEST_ID_FIELD,
};
use crate::text::text_eq;
use crate::vector_stores::filter_eval::{holds, is_match};
use crate::views::{copy_opt, copy_vec, opt_view, views, Duplicate};

verus! {

/// The condition that a field is a text.
pub open spec fn equality(field: Seq<char>, text: Seq<char>) -> FilterConditionView {
    FilterConditionView { field, operator: FilterOperator::Eq, value: JsonView::String(text) }
}

/// The condition that a field is a text, if one is given.
pub open spec fn equality_if_given(field: Seq<char>, text: Option<Seq<char>>) -> Seq<
    FilterConditionView,
> {
    match text {
        Some(t) => seq![equality(field, t)],
        None => Seq::empty(),
    }
}

/// The conditions that a memory is of the given user, agent and session, and of the given kind.
pub open spec fn scope_conditions(
    user_id: Option<Seq<char>>,
    agent_id: Option<Seq<char>>,
    run_id: Option<Seq<char>>,
    memory_type: Option<MemoryType>,
) -> Seq<FilterConditionView> {
    equality_if_given("user_id"@, user_id) + equality_if_given("agent_id"@, agent_id)
        + equality_if_given("run_id"@, run_id) + equality_if_given(
        "memory_type"@,
        opt_memory_type_text(memory_type),
    )
}

/// The filter for a scope. There is none if nothing is given.
pub open spec fn scope_filters(
    user_id: Option<Seq<char>>,
    agent_id: Option<Seq<char>>,
    run_id: Option<Seq<char>>,
    memory_type: Option<MemoryType>,
) -> Option<FiltersView> {
    let conditions = scope_conditions(user_id, agent_id, run_id, memory_type);
    if conditions.len() == 0 {
        None
    } else {
        Some(FiltersView { conditions, logic: FilterLogic::And })
    }
}

/// The filter for a scope, narrowed by the conditions of another filter.
pub open spec fn merged_filters(
    scope: Option<FiltersView>,
    custom: Option<FiltersView>,
) -> Option<FiltersView> {
    match (scope, custom) {
        (Some(s), Some(c)) => Some(
            FiltersView { conditions: s.conditions + c.conditions, logic: FilterLogic::And },
        ),
        (Some(s), None) => Some(s),
        (None, custom) => custom,
    }
}

/// Adds the condition that a field is a text, if one is given.
fn require_text(conditions: &mut Vec<FilterCondition>, field: &str, text: &Option<String>)
    ensures
        views(final(conditions)@) == views(old(conditions)@) + equality_if_given(
            field@,
            opt_view(*text),
        ),
{
    let ghost before = views(conditions@);
    match text {
        Some(t) => {
            let cond = FilterCondition {
                field: field.to_owned(),
                operator: FilterOperator::Eq,
                value: JsonValue::String(t.clone()),
            };
            let ghost c = cond@;
            conditions.push(cond);
            proof {
                assert(c == equality(field@, t@));
                assert(views(conditions@) =~= before + seq![c]);
            }
        },
        None => {
            proof {
                assert(before =~= before + Seq::<FilterConditionView>::empty());
            }
        },
    }
}

/// Makes the filter for a scope: one condition for each tier that is given, and for the kind. There
/// is no filter if nothing is given.
pub fn build_scope_filters(
    user_id: &Option<String>,
    agent_id: &Option<String>,
    run_id: &Option<String>,
    memory_type: Option<MemoryType>,
) -> (r: Option<Filters>)
    ensures
        opt_view(r) == scope_filters(
            opt_view(*user_id),
            opt_view(*agent_id),
            opt_view(*run_id),
            memory_type,
        ),
{
    let mut conditions: Vec<FilterCondition> = Vec::new();
    require_text(&mut conditions, "user_id", user_id);
    require_text(&mut conditions, "agent_id", agent_id);
    require_text(&mut conditions, "run_id", run_id);
    require_text(&mut conditions, "memory_type", &opt_memory_type_to_text(memory_type));
    proof {
        assert(views(conditions@) =~= scope_conditions(
            opt_view(*user_id),
            opt_view(*agent_id),
            opt_view(*run_id),
            memory_type,
        ));
    }
    if conditions.len() == 0 {
        None
    } else {
        Some(Filters { conditions, logic: FilterLogic::And })
    }
}

/// Narrows the filter for a scope by the conditions of another filter.
pub fn merge_filters(scope: Option<Filters>, custom: &Option<Filters>) -> (r: Option<Filters>)
    ensures
        opt_view(r) == merged_filters(opt_view(scope), opt_view(*custom)),
{
    match (scope, custom) {
        (Some(s), Some(c)) => {
            let ghost first = views(s.conditions@);
            let mut conditions = s.conditions;
            let mut more = copy_vec(&c.conditions);
            let ghost second = views(more@);
            conditions.append(&mut more);
            proof {
                assert(views(conditions@) =~= first + second);
            }
            Some(Filters { conditions, logic: FilterLogic::And })
        },
        (Some(s), None) => Some(s),
        (None, custom) => copy_opt(custom),
    }
}

/// The tier of a memory is the given one, if one is given.
pub open spec fn tier_fits(given: Option<Seq<char>>, tier: Option<Seq<char>>) -> bool {
    given is Some ==> tier == given
}

/// A payload is in a scope.
pub open spec fn in_scope(
    payload: PayloadView,
    user_id: Option<Seq<char>>,
    agent_id: Option<Seq<char>>,
    run_id: Option<Seq<char>>,
    memory_type: Option<MemoryType>,
) -> bool {
    &&& tier_fits(user_id, payload.user_id)
    &&& tier_fits(agent_id, payload.agent_id)
    &&& tier_fits(run_id, payload.run_id)
    &&& memory_type is Some ==> payload.memory_type == memory_type
}

proof fn field_names_differ()
    ensures
        "user_id"@ != "agent_id"@,
        "user_id"@ != "run_id"@,
        "user_id"@ != "memory_type"@,
        "agent_id"@ != "run_id"@,
        "agent_id"@ != "memory_type"@,
        "run_id"@ != "memory_type"@,
        REQUEST_ID_FIELD@ == "run_id"@,
{
    reveal_strlit("user_id");
    reveal_strlit("agent_id");
    reveal_strlit("run_id");
    reveal_strlit("memory_type");
    assert("user_id"@.len() == 7);
    assert("agent_id"@.len() == 8);
    assert("run_id"@.len() == 6);
    assert("memory_type"@.len() == 11);
}

/// An equality on a tier says that the tier is the text.
proof fn tier_conditions(payload: PayloadView, text: Seq<char>)
    ensures
        holds(payload, equality("user_id"@, text)) <==> payload.user_id == Some(text),
        holds(payload, equality("agent_id"@, text)) <==> payload.agent_id == Some(text),
        holds(payload, equality("run_id"@, text)) <==> payload.run_id == Some(text),
        holds(payload, equality("memory_type"@, text)) <==> opt_memory_type_text(
            payload.memory_type,
        ) == Some(text),
{
    field_names_differ();
    assert forall|v: JsonView| #[trigger]
        crate::json::same_json(v, JsonView::String(text)) <==> v == JsonView::String(text) by {
        same_text_is_equal(v, text);
    }
}

proof fn kind_names_differ(a: Option<MemoryType>, b: Option<MemoryType>)
    requires
        opt_memory_type_text(a) == opt_memory_type_text(b),
    ensures
        a == b,
{
    if let Some(x) = a {
        memory_types_have_their_names(x);
    }
    if let Some(y) = b {
        memory_types_have_their_names(y);
    }
}

/// The filter for a scope lets exactly those payloads through that are in the scope: every tier
/// that is given is that of the payload, and so is the kind.
pub proof fn scope_filters_select_the_scope(
    payload: PayloadView,
    user_id: Option<Seq<char>>,
    agent_id: Option<Seq<char>>,
    run_id: Option<Seq<char>>,
    memory_type: Option<MemoryType>,
)
    ensures
        is_match(payload, scope_filters(user_id, agent_id, run_id, memory_type)) <==> in_scope(
            payload,
            user_id,
            agent_id,
            run_id,
            memory_type,
        ),
{
    let kind = opt_memory_type_text(memory_type);
    let a = equality_if_given("user_id"@, user_id);
    let b = equality_if_given("agent_id"@, agent_id);
    let c = equality_if_given("run_id"@, run_id);
    let d = equality_if_given("memory_type"@, kind);
    let all = scope_conditions(user_id, agent_id, run_id, memory_type);
    assert(all == a + b + c + d);
    if let Some(t) = user_id {
        tier_conditions(payload, t);
        assert(all[0] == a[0]);
    }
    if let Some(t) = agent_id {
        tier_conditions(payload, t);
        assert(all[a.len() as int] == b[0]);
    }
    if let Some(t) = run_id {
        tier_conditions(payload, t);
        assert(all[(a.len() + b.len()) as int] == c[0]);
    }
    if let Some(t) = kind {
        tier_conditions(payload, t);
        assert(all[(a.len() + b.len() + c.len()) as int] == d[0]);
        if opt_memory_type_text(payload.memory_type) == kind {
            kind_names_differ(payload.memory_type, memory_type);
        }
    }
    if in_scope(payload, user_id, agent_id, run_id, memory_type) {
        assert forall|i: int| 0 <= i < all.len() implies holds(payload, #[trigger] all[i]) by {
            if i < a.len() {
                assert(all[i] == a[i]);
            } else if i < a.len() + b.len() {
                assert(all[i] == b[i - a.len()]);
            } else if i < a.len() + b.len() + c.len() {
                assert(all[i] == c[i - a.len() - b.len()]);
            } else {
                assert(all[i] == d[i - a.len() - b.len() - c.len()]);
            }
        }
        if all.len() > 0 {
            let filters = scope_filters(user_id, agent_id, run_id, memory_type)->0;
            assert(filters.conditions == all);
        }
    } else {
        let i = choose|i: int| 0 <= i < all.len() && !holds(payload, #[trigger] all[i]);
        assert(0 <= i < all.len() && !holds(payload, all[i]));
        let filters = scope_filters(user_id, agent_id, run_id, memory_type)->0;
        assert(!holds(payload, filters.conditions[i]));
    }
}

/// A filter that is merged with one for a scope only narrows it: what the two let through together
/// is in the scope, and meets every condition of the other filter.
pub proof fn merging_narrows_the_scope(
    payload: PayloadView,
    scope: FiltersView,
    custom: FiltersView,
)
    requires
        scope.conditions.len() > 0,
        scope.logic == FilterLogic::And,
    ensures
        is_match(payload, merged_filters(Some(scope), Some(custom))) <==> is_match(
            payload,
            Some(scope),
        ) && forall|i: int|
            0 <= i < custom.conditions.len() ==> holds(payload, #[trigger] custom.conditions[i]),
{
    let both = scope.conditions + custom.conditions;
    if is_match(payload, merged_filters(Some(scope), Some(custom))) {
        assert forall|i: int| 0 <= i < scope.conditions.len() implies holds(
            payload,
            #[trigger] scope.conditions[i],
        ) by {
            assert(holds(payload, both[i]));
        }
        assert forall|i: int| 0 <= i < custom.conditions.len() implies holds(
            payload,
            #[trigger] custom.conditions[i],
        ) by {
            assert(holds(payload, both[scope.conditions.len() + i]));
        }
    }
    if is_match(payload, Some(scope)) && forall|i: int|
        0 <= i < custom.conditions.len() ==> holds(payload, #[trigger] custom.conditions[i]) {
        assert forall|i: int| 0 <= i < both.len() implies holds(payload, #[trigger] both[i]) by {
            if i < scope.conditions.len() {
                assert(both[i] == scope.conditions[i]);
            } else {
                assert(both[i] == custom.conditions[i - scope.conditions.len()]);
            }
        }
    }
}

/// Who asks for a memory to be changed.
#[derive(Debug)]
pub struct Caller {
    pub user_id: Option<String>,
    pub agent_id: Option<String>,
    pub run_id: Option<String>,
}

/// [`Caller`], as contracts see it.
#[verifier::ext_equal]
pub struct CallerView {
    pub user_id: Option<Seq<char>>,
    pub agent_id: Option<Seq<char>>,
    pub run_id: Option<Seq<char>>,
}

impl View for Caller {
    type V = CallerView;

    open spec fn view(&self) -> CallerView {
        CallerView {
            user_id: opt_view(self.user_id),
            agent_id: opt_view(self.agent_id),
            run_id: opt_view(self.run_id),
        }
    }
}

/// Why a caller may not touch a memory: the first tier of the memory that is not the caller's.
pub open spec fn refusal(record: MemoryRecordView, caller: CallerView) -> Option<Seq<char>> {
    if record.user_id is Some && record.user_id != caller.user_id {
        Some("user_id does not match"@)
    } else if record.agent_id is Some && record.agent_id != caller.agent_id {
        Some("agent_id does not match"@)
    } else if record.run_id is Some && record.run_id != caller.run_id {
        Some("request_id does not match"@)
    } else {
        None
    }
}

/// A memory is the caller's: every tier that it has is the caller's.
pub open spec fn is_owner(record: MemoryRecordView, caller: CallerView) -> bool {
    &&& tier_fits(record.user_id, caller.user_id)
    &&& tier_fits(record.agent_id, caller.agent_id)
    &&& tier_fits(record.run_id, caller.run_id)
}

/// A caller is refused exactly the memories that are not the caller's.
pub proof fn only_owners_are_let_through(record: MemoryRecordView, caller: CallerView)
    ensures
        refusal(record, caller) is None <==> is_owner(record, caller),
{
}

/// Whether a tier of a memory is that of the caller, or the memory has none.
fn tier_is_callers(tier: &Option<String>, callers: &Option<String>) -> (r: bool)
    ensures
        r == tier_fits(opt_view(*tier), opt_view(*callers)),
{
    match (tier, callers) {
        (None, _) => true,
        (Some(a), Some(b)) => text_eq(a.as_str(), b.as_str()),
        (Some(_), None) => false,
    }
}

/// Why a caller may not touch a memory.
pub fn refuse(record: &MemoryRecord, caller: &Caller) -> (r: Option<String>)
    ensures
        opt_view(r) == refusal(record@, caller@),
{
    if !tier_is_callers(&record.user_id, &caller.user_id) {
        Some("user_id does not match".to_owned())
    } else if !tier_is_callers(&record.agent_id, &caller.agent_id) {
        Some("agent_id does not match".to_owned())
    } else if !tier_is_callers(&record.run_id, &caller.run_id) {
        Some("request_id does not match".to_owned())
    } else {
        None
    }
}

} // verus!
