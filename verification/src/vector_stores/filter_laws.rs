//! What filters let through.
use vstd::prelude::*;

use crate::json::{same_json, same_text_is_equal, JsonView};
use crate::models::{
    FilterConditionView, FilterLogic, FilterOperator, FiltersView, MemoryType, PayloadView,
};
use crate::number::{is_finite, JsonNumber};
use crate::numeric_order::{
    double_value, doubles_compare_as_numbers, is_small, whole, whole_numbers_compare_as_numbers,
};
use crate::text::{is_infix, lowercase_of};
use crate::vector_stores::filter_eval::{condition_holds, field_value, holds, is_match};

verus! {

/// A filter with one condition.
pub open spec fn only(
    field: Seq<char>,
    operator: FilterOperator,
    value: JsonView,
    logic: FilterLogic,
) -> Option<FiltersView> {
    Some(FiltersView { conditions: seq![FilterConditionView { field, operator, value }], logic })
}

/// The name is that of a field that every payload has of its own.
pub open spec fn is_own_field(field: Seq<char>) -> bool {
    ||| field == "user_id"@
    ||| field == "agent_id"@
    ||| field == "run_id"@
    ||| field == "memory_type"@
    ||| field == "hash"@
    ||| field == "data"@
}

proof fn own_fields_differ()
    ensures
        "user_id"@.len() == 7,
        "agent_id"@.len() == 8,
        "run_id"@.len() == 6,
        "memory_type"@.len() == 11,
        "hash"@.len() == 4,
        "data"@.len() == 4,
        "hash"@ != "data"@,
{
    reveal_strlit("user_id");
    reveal_strlit("agent_id");
    reveal_strlit("run_id");
    reveal_strlit("memory_type");
    reveal_strlit("hash");
    reveal_strlit("data");
    assert("hash"@[0] == 'h');
    assert("data"@[0] == 'd');
}

/// One condition decides alone, however conditions are combined.
proof fn one_condition_decides(
    payload: PayloadView,
    field: Seq<char>,
    operator: FilterOperator,
    value: JsonView,
    logic: FilterLogic,
)
    ensures
        is_match(payload, only(field, operator, value, logic)) == condition_holds(
            field_value(payload, field),
            operator,
            value,
        ),
{
    let f = only(field, operator, value, logic)->0;
    assert(f.conditions[0].field == field);
}

/// A condition on a number of the metadata compares it with the operand: of whole numbers that are
/// at most two to the power of 53, one that is greater is let through by [`FilterOperator::Gt`],
/// and so on.
pub proof fn conditions_compare_whole_numbers(
    payload: PayloadView,
    field: Seq<char>,
    a: JsonNumber,
    b: JsonNumber,
    logic: FilterLogic,
)
    requires
        !is_own_field(field),
        payload.metadata.contains_key(field),
        payload.metadata[field] == JsonView::Number(a),
        whole(a) matches Some(x) && is_small(x),
        whole(b) matches Some(y) && is_small(y),
    ensures
        is_match(payload, only(field, FilterOperator::Gt, JsonView::Number(b), logic)) <==> whole(
            a,
        )->0 > whole(b)->0,
        is_match(payload, only(field, FilterOperator::Gte, JsonView::Number(b), logic)) <==> whole(
            a,
        )->0 >= whole(b)->0,
        is_match(payload, only(field, FilterOperator::Lt, JsonView::Number(b), logic)) <==> whole(
            a,
        )->0 < whole(b)->0,
        is_match(payload, only(field, FilterOperator::Lte, JsonView::Number(b), logic)) <==> whole(
            a,
        )->0 <= whole(b)->0,
{
    whole_numbers_compare_as_numbers(a, b);
    one_condition_decides(payload, field, FilterOperator::Gt, JsonView::Number(b), logic);
    one_condition_decides(payload, field, FilterOperator::Gte, JsonView::Number(b), logic);
    one_condition_decides(payload, field, FilterOperator::Lt, JsonView::Number(b), logic);
    one_condition_decides(payload, field, FilterOperator::Lte, JsonView::Number(b), logic);
}

/// A condition on a finite double of the metadata compares the number that it stands for with that
/// of the operand.
pub proof fn conditions_compare_doubles(
    payload: PayloadView,
    field: Seq<char>,
    a: u64,
    b: u64,
    logic: FilterLogic,
)
    requires
        !is_own_field(field),
        payload.metadata.contains_key(field),
        payload.metadata[field] == JsonView::Number(JsonNumber::Float(a)),
        is_finite(a as nat),
        is_finite(b as nat),
    ensures
        ({
            let operand = JsonView::Number(JsonNumber::Float(b));
            &&& is_match(payload, only(field, FilterOperator::Gt, operand, logic))
                <==> double_value(a) > double_value(b)
            &&& is_match(payload, only(field, FilterOperator::Gte, operand, logic))
                <==> double_value(a) >= double_value(b)
            &&& is_match(payload, only(field, FilterOperator::Lt, operand, logic))
                <==> double_value(a) < double_value(b)
            &&& is_match(payload, only(field, FilterOperator::Lte, operand, logic))
                <==> double_value(a) <= double_value(b)
        }),
{
    let operand = JsonView::Number(JsonNumber::Float(b));
    doubles_compare_as_numbers(a, b);
    one_condition_decides(payload, field, FilterOperator::Gt, operand, logic);
    one_condition_decides(payload, field, FilterOperator::Gte, operand, logic);
    one_condition_decides(payload, field, FilterOperator::Lt, operand, logic);
    one_condition_decides(payload, field, FilterOperator::Lte, operand, logic);
}

/// What is no number is neither greater nor smaller than anything.
pub proof fn only_numbers_are_compared(value: Option<JsonView>, operand: JsonView)
    requires
        !(value matches Some(JsonView::Number(_))) || !(operand is Number),
    ensures
        !condition_holds(value, FilterOperator::Gt, operand),
        !condition_holds(value, FilterOperator::Gte, operand),
        !condition_holds(value, FilterOperator::Lt, operand),
        !condition_holds(value, FilterOperator::Lte, operand),
{
}

/// The name of a kind of memory.
pub open spec fn is_kind(kind: Option<MemoryType>, name: Seq<char>) -> bool {
    match kind {
        Some(MemoryType::Semantic) => name == "semantic_memory"@,
        Some(MemoryType::Episodic) => name == "episodic_memory"@,
        Some(MemoryType::Procedural) => name == "procedural_memory"@,
        None => false,
    }
}

/// A condition that a field is a text is about the field that it names: a tier of the payload, its
/// kind, its fingerprint, its content, or else an entry of its metadata. That it is not that text
/// is the contrary, and holds of what is not there.
pub proof fn equalities_are_about_their_field(
    payload: PayloadView,
    field: Seq<char>,
    text: Seq<char>,
    logic: FilterLogic,
)
    ensures
        ({
            let equals = |name: Seq<char>|
                is_match(payload, only(name, FilterOperator::Eq, JsonView::String(text), logic));
            &&& equals("user_id"@) <==> payload.user_id == Some(text)
            &&& equals("agent_id"@) <==> payload.agent_id == Some(text)
            &&& equals("run_id"@) <==> payload.run_id == Some(text)
            &&& equals("memory_type"@) <==> is_kind(payload.memory_type, text)
            &&& equals("hash"@) <==> payload.hash == text
            &&& equals("data"@) <==> payload.data == text
            &&& !is_own_field(field) ==> (equals(field) <==> payload.metadata.contains_key(field)
                && payload.metadata[field] == JsonView::String(text))
            &&& is_match(payload, only(field, FilterOperator::Ne, JsonView::String(text), logic))
                <==> !equals(field)
        }),
{
    own_fields_differ();
    let value = JsonView::String(text);
    assert forall|v: JsonView| #[trigger] same_json(v, value) <==> v == value by {
        same_text_is_equal(v, text);
    }
    assert forall|name: Seq<char>|
        is_match(payload, #[trigger] only(name, FilterOperator::Eq, value, logic))
            == condition_holds(
            field_value(payload, name),
            FilterOperator::Eq,
            value,
        ) by {
        one_condition_decides(payload, name, FilterOperator::Eq, value, logic);
    }
    one_condition_decides(payload, field, FilterOperator::Ne, value, logic);
}

/// A text is among a list exactly if the list holds it, and is not among it otherwise. What is not
/// there is among no list.
pub proof fn membership_is_about_the_list(value: Option<JsonView>, list: Seq<JsonView>)
    ensures
        value matches Some(JsonView::String(text)) ==> (condition_holds(
            value,
            FilterOperator::In,
            JsonView::Array(list),
        ) <==> list.contains(JsonView::String(text))),
        value is None ==> !condition_holds(value, FilterOperator::In, JsonView::Array(list)),
        condition_holds(value, FilterOperator::Nin, JsonView::Array(list)) <==> !condition_holds(
            value,
            FilterOperator::In,
            JsonView::Array(list),
        ),
{
    if let Some(JsonView::String(text)) = value {
        assert forall|v: JsonView| #[trigger]
            same_json(v, JsonView::String(text)) <==> v == JsonView::String(text) by {
            same_text_is_equal(v, text);
        }
    }
}

/// A text contains another exactly if it is what comes before it, the other, and what comes after
/// it.
pub proof fn containment_is_about_the_text(text: Seq<char>, part: Seq<char>)
    ensures
        condition_holds(
            Some(JsonView::String(text)),
            FilterOperator::Contains,
            JsonView::String(part),
        ) <==> exists|before: Seq<char>, after: Seq<char>|
            text == #[trigger] (before + part + after),
{
    if is_infix(part, text) {
        let i = choose|i: int|
            0 <= i <= text.len() - part.len() && #[trigger] text.subrange(i, i + part.len())
                == part;
        let before = text.take(i);
        let after = text.skip(i + part.len());
        assert(text =~= before + part + after);
    }
    if exists|before: Seq<char>, after: Seq<char>| text == #[trigger] (before + part + after) {
        let (before, after) = choose|before: Seq<char>, after: Seq<char>|
            text == #[trigger] (before + part + after);
        let i = before.len() as int;
        assert(text.subrange(i, i + part.len()) =~= part);
    }
}

/// Looking for a text without regard to case is looking for it with both texts in lower case.
pub proof fn case_does_not_matter_to_containment(text: Seq<char>, part: Seq<char>)
    ensures
        condition_holds(
            Some(JsonView::String(text)),
            FilterOperator::IContains,
            JsonView::String(part),
        ) <==> condition_holds(
            Some(JsonView::String(lowercase_of(text))),
            FilterOperator::Contains,
            JsonView::String(lowercase_of(part)),
        ),
{
}

/// Only texts contain anything, and nothing but texts.
pub proof fn only_texts_are_searched(value: Option<JsonView>, operand: JsonView)
    requires
        !(value matches Some(JsonView::String(_))) || !(operand is String),
    ensures
        !condition_holds(value, FilterOperator::Contains, operand),
        !condition_holds(value, FilterOperator::IContains, operand),
{
}

/// Conditions that are combined by [`FilterLogic::And`] let through what each of them alone lets
/// through, and those combined by [`FilterLogic::Or`] what one of them does. Without conditions all
/// is let through.
pub proof fn filters_combine_their_conditions(
    payload: PayloadView,
    conditions: Seq<FilterConditionView>,
)
    ensures
        ({
            let alone = |c: FilterConditionView|
                is_match(payload, only(c.field, c.operator, c.value, FilterLogic::And));
            &&& is_match(payload, None)
            &&& conditions.len() == 0 ==> is_match(
                payload,
                Some(FiltersView { conditions, logic: FilterLogic::And }),
            ) && is_match(payload, Some(FiltersView { conditions, logic: FilterLogic::Or }))
            &&& conditions.len() > 0 ==> {
                &&& is_match(payload, Some(FiltersView { conditions, logic: FilterLogic::And }))
                    <==> forall|i: int|
                    0 <= i < conditions.len() ==> alone(#[trigger] conditions[i])
                &&& is_match(payload, Some(FiltersView { conditions, logic: FilterLogic::Or }))
                    <==> exists|i: int|
                    0 <= i < conditions.len() && alone(#[trigger] conditions[i])
            }
        }),
{
    let alone = |c: FilterConditionView|
        is_match(payload, only(c.field, c.operator, c.value, FilterLogic::And));
    assert forall|i: int| 0 <= i < conditions.len() implies alone(#[trigger] conditions[i])
        == holds(payload, conditions[i]) by {
        let c = conditions[i];
        one_condition_decides(payload, c.field, c.operator, c.value, FilterLogic::And);
    }
}

/// Two numbers of one kind are the same exactly if they are equal: whole numbers as such, and
/// finite doubles by what they stand for. What is true is not false, and no value of one kind is
/// the same as one of another.
pub proof fn equal_values_are_the_same(x: u64, y: u64, p: bool, q: bool)
    ensures
        same_json(
            JsonView::Number(JsonNumber::PosInt(x)),
            JsonView::Number(JsonNumber::PosInt(y)),
        ) <==> x == y,
        is_finite(x as nat) && is_finite(y as nat) ==> (same_json(
            JsonView::Number(JsonNumber::Float(x)),
            JsonView::Number(JsonNumber::Float(y)),
        ) <==> double_value(x) == double_value(y)),
        same_json(JsonView::Bool(p), JsonView::Bool(q)) <==> p == q,
        same_json(JsonView::Null, JsonView::Null),
        !same_json(JsonView::Null, JsonView::Bool(p)),
        !same_json(JsonView::Bool(p), JsonView::Number(JsonNumber::PosInt(x))),
{
    if is_finite(x as nat) && is_finite(y as nat) {
        doubles_compare_as_numbers(x, y);
    }
}

/// Lists of texts are the same exactly if they are equal, and so are objects whose members are
/// texts.
pub proof fn equal_texts_make_the_same_values(
    a: Seq<Seq<char>>,
    b: Seq<Seq<char>>,
    x: Map<Seq<char>, Seq<char>>,
    y: Map<Seq<char>, Seq<char>>,
)
    ensures
        same_json(
            JsonView::Array(a.map_values(|t: Seq<char>| JsonView::String(t))),
            JsonView::Array(b.map_values(|t: Seq<char>| JsonView::String(t))),
        ) <==> a == b,
        same_json(
            JsonView::Object(x.map_values(|t: Seq<char>| JsonView::String(t))),
            JsonView::Object(y.map_values(|t: Seq<char>| JsonView::String(t))),
        ) <==> x == y,
{
    reveal_with_fuel(same_json, 2);
    let text = |t: Seq<char>| JsonView::String(t);
    assert forall|s: Seq<char>, t: Seq<char>| #[trigger]
        same_json(JsonView::String(s), JsonView::String(t)) <==> s == t by {}
    let (la, lb) = (a.map_values(text), b.map_values(text));
    if same_json(JsonView::Array(la), JsonView::Array(lb)) {
        assert forall|i: int| 0 <= i < a.len() implies a[i] == b[i] by {
            assert(same_json(la[i], lb[i]));
        }
        assert(a =~= b);
    }
    let (ox, oy) = (x.map_values(text), y.map_values(text));
    if same_json(JsonView::Object(ox), JsonView::Object(oy)) {
        assert(ox.dom() =~= x.dom());
        assert(oy.dom() =~= y.dom());
        assert forall|key: Seq<char>| #[trigger] x.contains_key(key) implies x[key] == y[key] by {
            assert(ox.contains_key(key));
            assert(same_json(ox[key], oy[key]));
            assert(oy.contains_key(key));
        }
        assert(x =~= y);
    }
    if x == y {
        assert(ox.dom() == oy.dom());
    }
}

/// Without a list to look in, nothing is among it.
pub proof fn membership_needs_a_list(value: Option<JsonView>, operand: JsonView)
    requires
        !(operand is Array),
    ensures
        !condition_holds(value, FilterOperator::In, operand),
        condition_holds(value, FilterOperator::Nin, operand),
{
}

/// What is not there is equal to nothing.
pub proof fn what_is_missing_equals_nothing(operand: JsonView)
    ensures
        !condition_holds(None, FilterOperator::Eq, operand),
        condition_holds(None, FilterOperator::Ne, operand),
        condition_holds(None, FilterOperator::Nin, operand),
{
}

} // verus!
