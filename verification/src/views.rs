//! How values are seen in contracts, and how they are copied.
use vstd::prelude::*;

verus! {

/// What an optional value is.
pub open spec fn opt_view<T: View>(value: Option<T>) -> Option<T::V> {
    match value {
        Some(v) => Some(v@),
        None => None,
    }
}

/// What an optional reference is.
pub open spec fn opt_ref_view<T: View>(value: Option<&T>) -> Option<T::V> {
    match value {
        Some(v) => Some(v@),
        None => None,
    }
}

/// What the values of a list are.
pub open spec fn views<T: View>(list: Seq<T>) -> Seq<T::V> {
    list.map_values(|v: T| v@)
}

/// What is filtered out of a list is in the list.
pub(crate) proof fn filtered_values_are_of_the_list<A>(
    list: Seq<A>,
    keep: spec_fn(A) -> bool,
    i: int,
)
    requires
        0 <= i < list.filter(keep).len(),
    ensures
        list.contains(list.filter(keep)[i]),
    decreases list.len(),
{
    if list.len() == 0 {
        reveal(Seq::filter);
    } else {
        let front = list.drop_last();
        assert(list =~= front.push(list.last()));
        Seq::lemma_filter_push(front, list.last(), keep);
        if i < front.filter(keep).len() {
            filtered_values_are_of_the_list(front, keep, i);
            let k = choose|k: int| 0 <= k < front.len() && front[k] == front.filter(keep)[i];
            assert(list[k] == list.filter(keep)[i]);
        } else {
            assert(list[list.len() - 1] == list.filter(keep)[i]);
        }
    }
}

/// A value that can be copied so that the copy is the same in every contract.
pub trait Duplicate: View + Sized {
    fn duplicate(&self) -> (r: Self)
        ensures
            r@ == self@,
    ;
}

impl Duplicate for String {
    fn duplicate(&self) -> (r: Self) {
        self.clone()
    }
}

/// A copy of an optional value.
pub(crate) fn copy_opt<T: Duplicate>(value: &Option<T>) -> (r: Option<T>)
    ensures
        opt_view(r) == opt_view(*value),
{
    match value {
        Some(v) => Some(v.duplicate()),
        None => None,
    }
}

/// A copy of a list.
pub(crate) fn copy_vec<T: Duplicate>(list: &Vec<T>) -> (r: Vec<T>)
    ensures
        views(r@) == views(list@),
{
    let mut copies: Vec<T> = Vec::new();
    let mut i: usize = 0;
    while i < list.len()
        invariant
            i <= list.len(),
            copies@.len() == i,
            forall|j: int| 0 <= j < i ==> (#[trigger] copies@[j])@ == list@[j]@,
        decreases list.len() - i,
    {
        copies.push(list[i].duplicate());
        i += 1;
    }
    assert(views(copies@) =~= views(list@));
    copies
}

/// A copy of a list of numbers.
pub(crate) fn copy_numbers(list: &Vec<u32>) -> (r: Vec<u32>)
    ensures
        r@ == list@,
{
    let r = list.clone();
    assert(r@ =~= list@);
    r
}

} // verus!
