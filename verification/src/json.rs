//! JSON values.
use vstd::prelude::*;

use crate::number::{same_number, JsonNumber};
use crate::text_map::TextMap;
use crate::views::Duplicate;

verus! {

/// A JSON value.
#[derive(Debug)]
pub enum JsonValue {
    Null,
    Bool(bool),
    Number(JsonNumber),
    String(String),
    Array(Vec<JsonValue>),
    Object(TextMap<JsonValue>),
}

/// What a JSON value is: its texts are sequences of characters, its objects are maps.
#[verifier::ext_equal]
pub enum JsonView {
    Null,
    Bool(bool),
    Number(JsonNumber),
    String(Seq<char>),
    Array(Seq<JsonView>),
    Object(Map<Seq<char>, JsonView>),
}

impl View for JsonValue {
    type V = JsonView;

    open spec fn view(&self) -> JsonView
        decreases self,
    {
        match self {
            JsonValue::Null => JsonView::Null,
            JsonValue::Bool(b) => JsonView::Bool(*b),
            JsonValue::Number(n) => JsonView::Number(*n),
            JsonValue::String(s) => JsonView::String(s@),
            JsonValue::Array(items) => JsonView::Array(
                Seq::new(
                    items@.len(),
                    |i: int|
                        if 0 <= i < items@.len() {
                            items@[i].view()
                        } else {
                            JsonView::Null
                        },
                ),
            ),
            JsonValue::Object(members) => {
                proof {
                    members.decreases_to_values();
                }
                JsonView::Object(
                    Map::new(
                        |key: Seq<char>| members@.contains_key(key),
                        |key: Seq<char>|
                            if members@.contains_key(key) {
                                members@[key].view()
                            } else {
                                JsonView::Null
                            },
                    ),
                )
            },
        }
    }
}

/// What a list of JSON values is.
pub open spec fn json_items(items: Seq<JsonValue>) -> Seq<JsonView> {
    items.map_values(|v: JsonValue| v@)
}

/// What the members of a JSON object are.
pub open spec fn json_members(members: Map<Seq<char>, JsonValue>) -> Map<Seq<char>, JsonView> {
    members.map_values(|v: JsonValue| v@)
}

/// JSON takes the two values for the same. The order of an object's members does not matter.
pub open spec fn same_json(a: JsonView, b: JsonView) -> bool
    decreases a,
{
    match (a, b) {
        (JsonView::Null, JsonView::Null) => true,
        (JsonView::Bool(x), JsonView::Bool(y)) => x == y,
        (JsonView::Number(x), JsonView::Number(y)) => same_number(x, y),
        (JsonView::String(x), JsonView::String(y)) => x == y,
        (JsonView::Array(x), JsonView::Array(y)) => {
            &&& x.len() == y.len()
            &&& forall|i: int| 0 <= i < x.len() ==> same_json(#[trigger] x[i], y[i])
        },
        (JsonView::Object(x), JsonView::Object(y)) => {
            &&& x.dom() == y.dom()
            &&& forall|key: Seq<char>|
                x.contains_key(key) ==> same_json(#[trigger] x[key], y[key])
        },
        _ => false,
    }
}

/// An array and an object, by the views of what they hold.
pub proof fn json_view_of_containers(value: &JsonValue)
    ensures
        value matches JsonValue::Array(items) ==> value@ == JsonView::Array(json_items(items@)),
        value matches JsonValue::Object(members) ==> value@ == JsonView::Object(
            json_members(members@),
        ),
{
    reveal_with_fuel(<JsonValue as View>::view, 2);
    if let JsonValue::Array(items) = value {
        assert(value@->Array_0 =~= json_items(items@));
    }
    if let JsonValue::Object(members) = value {
        assert(value@->Object_0 =~= json_members(members@));
    }
}

/// A copy of a JSON value.
fn copy_value(value: &JsonValue) -> (r: JsonValue)
    ensures
        r@ == value@,
    decreases value,
{
    let r = match value {
        JsonValue::Null => JsonValue::Null,
        JsonValue::Bool(b) => JsonValue::Bool(*b),
        JsonValue::Number(n) => JsonValue::Number(*n),
        JsonValue::String(s) => JsonValue::String(s.clone()),
        JsonValue::Array(items) => JsonValue::Array(copy_items(items)),
        JsonValue::Object(members) => JsonValue::Object(copy_members(members)),
    };
    proof {
        json_view_of_containers(value);
        json_view_of_containers(&r);
    }
    r
}

/// A copy of a list of JSON values.
pub fn copy_items(items: &Vec<JsonValue>) -> (r: Vec<JsonValue>)
    ensures
        json_items(r@) == json_items(items@),
    decreases items,
{
    let mut copies: Vec<JsonValue> = Vec::new();
    let mut i: usize = 0;
    while i < items.len()
        invariant
            i <= items.len(),
            copies@.len() == i,
            forall|j: int| 0 <= j < i ==> (#[trigger] copies@[j])@ == items@[j]@,
        decreases items.len() - i,
    {
        copies.push(copy_value(&items[i]));
        i += 1;
    }
    assert(json_items(copies@) =~= json_items(items@));
    copies
}

/// A copy of the members of a JSON object.
pub fn copy_members(members: &TextMap<JsonValue>) -> (r: TextMap<JsonValue>)
    ensures
        json_members(r@) == json_members(members@),
        r.keys() == members.keys(),
    decreases members,
{
    let mut copies: TextMap<JsonValue> = TextMap::new();
    let n = members.len();
    let mut i: usize = 0;
    while i < n
        invariant
            i <= n,
            n == members.keys().len(),
            members.keys().no_duplicates(),
            copies.keys() == members.keys().take(i as int),
            forall|key: Seq<char>| #[trigger]
                copies@.contains_key(key) ==> members@.contains_key(key) && copies@[key]@
                    == members@[key]@,
        decreases n - i,
    {
        let (key, value) = members.entry(i);
        proof {
            copies.keys_are_the_domain();
            assert(!copies@.contains_key(key@)) by {
                if copies.keys().contains(key@) {
                    let j = choose|j: int|
                        0 <= j < copies.keys().len() && copies.keys()[j] == key@;
                    assert(members.keys()[j] == members.keys()[i as int]);
                }
            }
        }
        copies.insert(key.clone(), copy_value(value));
        i += 1;
        proof {
            assert(copies.keys() =~= members.keys().take(i as int));
        }
    }
    proof {
        assert(members.keys().take(n as int) =~= members.keys());
        copies.keys_are_the_domain();
        members.keys_are_the_domain();
        assert forall|key: Seq<char>| members@.contains_key(key) implies #[trigger]
            copies@.contains_key(key) by {
            assert(copies.keys().contains(key));
        }
        assert(json_members(copies@) =~= json_members(members@));
    }
    copies
}

impl Duplicate for JsonValue {
    fn duplicate(&self) -> (r: Self) {
        copy_value(self)
    }
}

impl JsonValue {
    /// Whether JSON takes the two values for the same.
    pub fn same(&self, other: &JsonValue) -> (r: bool)
        ensures
            r == same_json(self@, other@),
        decreases self,
    {
        proof {
            json_view_of_containers(self);
            json_view_of_containers(other);
        }
        match (self, other) {
            (JsonValue::Null, JsonValue::Null) => true,
            (JsonValue::Bool(x), JsonValue::Bool(y)) => *x == *y,
            (JsonValue::Number(x), JsonValue::Number(y)) => x.same(y),
            (JsonValue::String(x), JsonValue::String(y)) => *x == *y,
            (JsonValue::Array(x), JsonValue::Array(y)) => same_items(x, y),
            (JsonValue::Object(x), JsonValue::Object(y)) => same_members(x, y),
            _ => false,
        }
    }

    /// The text of a JSON string.
    pub fn as_str(&self) -> (r: Option<&str>)
        ensures
            match r {
                Some(s) => self@ == JsonView::String(s@),
                None => !(self@ is String),
            },
    {
        match self {
            JsonValue::String(s) => Some(s.as_str()),
            _ => None,
        }
    }
}

/// Whether two lists hold the same JSON values in the same order.
fn same_items(x: &Vec<JsonValue>, y: &Vec<JsonValue>) -> (r: bool)
    ensures
        r == same_json(JsonView::Array(json_items(x@)), JsonView::Array(json_items(y@))),
    decreases x,
{
    if x.len() != y.len() {
        return false;
    }
    let ghost (xs, ys) = (json_items(x@), json_items(y@));
    let mut i: usize = 0;
    while i < x.len()
        invariant
            i <= x.len(),
            x.len() == y.len(),
            xs == json_items(x@),
            ys == json_items(y@),
            forall|j: int| 0 <= j < i ==> same_json(#[trigger] xs[j], ys[j]),
        decreases x.len() - i,
    {
        if !x[i].same(&y[i]) {
            assert(!same_json(xs[i as int], ys[i as int]));
            return false;
        }
        i += 1;
    }
    true
}

/// Whether two objects have the same keys, with the same JSON values under them.
fn same_members(x: &TextMap<JsonValue>, y: &TextMap<JsonValue>) -> (r: bool)
    ensures
        r == same_json(JsonView::Object(json_members(x@)), JsonView::Object(json_members(y@))),
    decreases x,
{
    let ghost (xs, ys) = (json_members(x@), json_members(y@));
    let (m, n) = (x.len(), y.len());
    proof {
        x.keys_are_the_domain();
        y.keys_are_the_domain();
    }
    let mut i: usize = 0;
    while i < m
        invariant
            i <= m,
            m == x.keys().len(),
            xs == json_members(x@),
            ys == json_members(y@),
            forall|j: int|
                0 <= j < i ==> y@.contains_key(#[trigger] x.keys()[j]) && same_json(
                    xs[x.keys()[j]],
                    ys[x.keys()[j]],
                ),
        decreases m - i,
    {
        let (key, value) = x.entry(i);
        match y.get(key.as_str()) {
            Some(other) => {
                if !value.same(other) {
                    assert(!same_json(xs[key@], ys[key@]));
                    return false;
                }
            },
            None => {
                assert(xs.dom().contains(key@) && !ys.dom().contains(key@));
                return false;
            },
        }
        i += 1;
    }
    let mut k: usize = 0;
    while k < n
        invariant
            k <= n,
            n == y.keys().len(),
            xs == json_members(x@),
            ys == json_members(y@),
            forall|j: int| 0 <= j < k ==> x@.contains_key(#[trigger] y.keys()[j]),
        decreases n - k,
    {
        let (key, _) = y.entry(k);
        if !x.contains_key(key.as_str()) {
            assert(ys.dom().contains(key@) && !xs.dom().contains(key@));
            return false;
        }
        k += 1;
    }
    proof {
        assert forall|key: Seq<char>| xs.contains_key(key) implies ys.contains_key(key)
            && same_json(#[trigger] xs[key], ys[key]) by {
            assert(x@.contains_key(key));
            let j = choose|j: int| 0 <= j < x.keys().len() && x.keys()[j] == key;
            assert(y@.contains_key(x.keys()[j]));
        }
        assert forall|key: Seq<char>| ys.contains_key(key) implies xs.contains_key(key) by {
            assert(y@.contains_key(key));
            let j = choose|j: int| 0 <= j < y.keys().len() && y.keys()[j] == key;
            assert(x@.contains_key(y.keys()[j]));
        }
        assert(xs.dom() =~= ys.dom());
    }
    true
}

/// A value that JSON takes for the same as a text is that text.
pub proof fn same_text_is_equal(a: JsonView, text: Seq<char>)
    ensures
        same_json(a, JsonView::String(text)) <==> a == JsonView::String(text),
        same_json(JsonView::String(text), a) <==> a == JsonView::String(text),
{
}

} // verus!
