//! Which payloads a filter lets through, decided where the payloads are.
use vstd::prelude::*;

use crate::json::{json_items, json_view_of_containers, same_json, JsonValue, JsonView};
use crate::models::{
    memory_type_text, FilterConditionView, FilterLogic, FilterOperator, Filters, FiltersView,
    Payload, PayloadView, REQUEST_ID_FIELD,
};
use crate::number::{double_of, double_related, related, NumericRelation};
use crate::text::{
    ascii_lowercase, contains_text, is_ascii_text, is_infix, lowercase_of, text_eq, to_lowercase,
};
use crate::views::{opt_ref_view, opt_view, views, Duplicate};

verus! {

/// An optional text as a JSON value.
pub open spec fn json_text(text: Option<Seq<char>>) -> Option<JsonView> {
    match text {
        Some(t) => Some(JsonView::String(t)),
        None => None,
    }
}

/// What a payload has under the name of a field: one of its own fields, or an entry of its
/// metadata.
pub open spec fn field_value(payload: PayloadView, field: Seq<char>) -> Option<JsonView> {
    if field == "user_id"@ {
        json_text(payload.user_id)
    } else if field == "agent_id"@ {
        json_text(payload.agent_id)
    } else if field == REQUEST_ID_FIELD@ {
        json_text(payload.run_id)
    } else if field == "memory_type"@ {
        match payload.memory_type {
            Some(t) => Some(JsonView::String(memory_type_text(t))),
            None => None,
        }
    } else if field == "hash"@ {
        Some(JsonView::String(payload.hash))
    } else if field == "data"@ {
        Some(JsonView::String(payload.data))
    } else if payload.metadata.contains_key(field) {
        Some(payload.metadata[field])
    } else {
        None
    }
}

/// The field is there, and both it and the operand are numbers that stand in the relation.
pub open spec fn numbers_related(
    value: Option<JsonView>,
    relation: NumericRelation,
    operand: JsonView,
) -> bool {
    match (value, operand) {
        (Some(JsonView::Number(a)), JsonView::Number(b)) => related(
            double_of(a),
            relation,
            double_of(b),
        ),
        _ => false,
    }
}

/// The list holds the value.
pub open spec fn is_among(value: JsonView, list: Seq<JsonView>) -> bool {
    exists|i: int| 0 <= i < list.len() && same_json(#[trigger] list[i], value)
}

/// A condition holds of the value that a field has.
pub open spec fn condition_holds(
    value: Option<JsonView>,
    operator: FilterOperator,
    operand: JsonView,
) -> bool {
    match operator {
        FilterOperator::Eq => value matches Some(v) && same_json(v, operand),
        FilterOperator::Ne => !(value matches Some(v) && same_json(v, operand)),
        FilterOperator::Gt => numbers_related(value, NumericRelation::Greater, operand),
        FilterOperator::Gte => numbers_related(value, NumericRelation::GreaterOrEqual, operand),
        FilterOperator::Lt => numbers_related(value, NumericRelation::Less, operand),
        FilterOperator::Lte => numbers_related(value, NumericRelation::LessOrEqual, operand),
        FilterOperator::In => match (value, operand) {
            (Some(v), JsonView::Array(list)) => is_among(v, list),
            _ => false,
        },
        FilterOperator::Nin => match (value, operand) {
            (Some(v), JsonView::Array(list)) => !is_among(v, list),
            _ => true,
        },
        FilterOperator::Contains => match (value, operand) {
            (Some(JsonView::String(text)), JsonView::String(part)) => is_infix(part, text),
            _ => false,
        },
        FilterOperator::IContains => match (value, operand) {
            (Some(JsonView::String(text)), JsonView::String(part)) => is_infix(
                lowercase_of(part),
                lowercase_of(text),
            ),
            _ => false,
        },
    }
}

/// A condition holds of a payload.
pub open spec fn holds(payload: PayloadView, cond: FilterConditionView) -> bool {
    condition_holds(field_value(payload, cond.field), cond.operator, cond.value)
}

/// A filter lets a payload through. No filter, and one without conditions, lets all through.
pub open spec fn is_match(payload: PayloadView, filters: Option<FiltersView>) -> bool {
    match filters {
        None => true,
        Some(f) => {
            ||| f.conditions.len() == 0
            ||| f.logic == FilterLogic::And && forall|i: int|
                0 <= i < f.conditions.len() ==> holds(payload, #[trigger] f.conditions[i])
            ||| f.logic == FilterLogic::Or && exists|i: int|
                0 <= i < f.conditions.len() && holds(payload, #[trigger] f.conditions[i])
        },
    }
}

/// Whether a filter lets a payload through.
pub fn matches_filters(payload: &Payload, filters: Option<&Filters>) -> (r: bool)
    ensures
        r == is_match(payload@, opt_ref_view(filters)),
{
    let given = match filters {
        Some(f) => f,
        None => {
            return true;
        },
    };
    let ghost conditions = given@.conditions;
    let n = given.conditions.len();
    if n == 0 {
        return true;
    }
    let mut i: usize = 0;
    while i < n
        invariant
            i <= n,
            filters == Some(given),
            0 < n == given.conditions@.len(),
            conditions == views(given.conditions@),
            forall|j: int|
                0 <= j < i ==> holds(payload@, #[trigger] conditions[j]) == (given.logic
                    == FilterLogic::And),
        decreases n - i,
    {
        let cond = &given.conditions[i];
        let value = resolve_payload_field(payload, cond.field.as_str());
        let met = evaluate_condition(&value, cond.operator, &cond.value);
        assert(met == holds(payload@, conditions[i as int]));
        match given.logic {
            FilterLogic::And => {
                if !met {
                    return false;
                }
            },
            FilterLogic::Or => {
                if met {
                    return true;
                }
            },
        }
        i += 1;
    }
    match given.logic {
        FilterLogic::And => true,
        FilterLogic::Or => false,
    }
}

/// The text of an optional string as a JSON value.
fn text_value(text: &Option<String>) -> (r: Option<JsonValue>)
    ensures
        opt_view(r) == json_text(opt_view(*text)),
{
    match text {
        Some(t) => Some(JsonValue::String(t.clone())),
        None => None,
    }
}

/// What a payload has under the name of a field.
fn resolve_payload_field(payload: &Payload, field: &str) -> (r: Option<JsonValue>)
    ensures
        opt_view(r) == field_value(payload@, field@),
{
    if text_eq(field, "user_id") {
        text_value(&payload.user_id)
    } else if text_eq(field, "agent_id") {
        text_value(&payload.agent_id)
    } else if text_eq(field, REQUEST_ID_FIELD) {
        text_value(&payload.run_id)
    } else if text_eq(field, "memory_type") {
        match payload.memory_type {
            Some(t) => Some(JsonValue::String(t.to_text())),
            None => None,
        }
    } else if text_eq(field, "hash") {
        Some(JsonValue::String(payload.hash.clone()))
    } else if text_eq(field, "data") {
        Some(JsonValue::String(payload.data.clone()))
    } else {
        match payload.metadata.get(field) {
            Some(v) => Some(v.duplicate()),
            None => None,
        }
    }
}

/// Whether a condition holds of the value that a field has. Of ASCII texts it is told what looking
/// for one in the other without regard to case comes to.
pub fn evaluate_condition(
    value: &Option<JsonValue>,
    operator: FilterOperator,
    operand: &JsonValue,
) -> (r: bool)
    ensures
        r == condition_holds(opt_view(*value), operator, operand@),
        operator == FilterOperator::IContains ==> match (opt_view(*value), operand@) {
            (Some(JsonView::String(text)), JsonView::String(part)) => is_ascii_text(text)
                && is_ascii_text(part) ==> r == is_infix(
                ascii_lowercase(part),
                ascii_lowercase(text),
            ),
            _ => true,
        },
{
    match operator {
        FilterOperator::Eq => equals(value, operand),
        FilterOperator::Ne => !equals(value, operand),
        FilterOperator::Gt => compare_numeric(value, NumericRelation::Greater, operand),
        FilterOperator::Gte => compare_numeric(value, NumericRelation::GreaterOrEqual, operand),
        FilterOperator::Lt => compare_numeric(value, NumericRelation::Less, operand),
        FilterOperator::Lte => compare_numeric(value, NumericRelation::LessOrEqual, operand),
        FilterOperator::In => match (value, operand) {
            (Some(v), JsonValue::Array(list)) => {
                proof {
                    json_view_of_containers(operand);
                }
                list_holds(list, v)
            },
            _ => false,
        },
        FilterOperator::Nin => match (value, operand) {
            (Some(v), JsonValue::Array(list)) => {
                proof {
                    json_view_of_containers(operand);
                }
                !list_holds(list, v)
            },
            _ => true,
        },
        FilterOperator::Contains => match (value, operand) {
            (Some(JsonValue::String(text)), JsonValue::String(part)) => contains_text(
                text.as_str(),
                part.as_str(),
            ),
            _ => false,
        },
        FilterOperator::IContains => match (value, operand) {
            (Some(JsonValue::String(text)), JsonValue::String(part)) => contains_text(
                to_lowercase(text.as_str()).as_str(),
                to_lowercase(part.as_str()).as_str(),
            ),
            _ => false,
        },
    }
}

/// Whether a field is there and equal to the operand.
fn equals(value: &Option<JsonValue>, operand: &JsonValue) -> (r: bool)
    ensures
        r == (opt_view(*value) matches Some(v) && same_json(v, operand@)),
{
    match value {
        Some(v) => v.same(operand),
        None => false,
    }
}

/// Whether a field and the operand are numbers in a relation.
fn compare_numeric(
    value: &Option<JsonValue>,
    relation: NumericRelation,
    operand: &JsonValue,
) -> (r: bool)
    ensures
        r == numbers_related(opt_view(*value), relation, operand@),
{
    match (value, operand) {
        (Some(JsonValue::Number(a)), JsonValue::Number(b)) => double_related(
            a.as_double(),
            relation,
            b.as_double(),
        ),
        _ => false,
    }
}

/// Whether a list holds a value.
fn list_holds(list: &Vec<JsonValue>, value: &JsonValue) -> (r: bool)
    ensures
        r == is_among(value@, json_items(list@)),
{
    let ghost items = json_items(list@);
    let mut i: usize = 0;
    while i < list.len()
        invariant
            i <= list.len(),
            items == json_items(list@),
            forall|j: int| 0 <= j < i ==> !same_json(#[trigger] items[j], value@),
        decreases list.len() - i,
    {
        if list[i].same(value) {
            assert(same_json(items[i as int], value@));
            return true;
        }
        i += 1;
    }
    false
}

} // verus!
