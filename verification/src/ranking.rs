//! Scores, and the order of search results.
use vstd::prelude::*;

use crate::views::views;

verus! {

/// The likeness of a memory to a query: the bit pattern of an IEEE 754 single.
#[derive(Clone, Copy, Debug, PartialEq, Eq, Structural)]
pub struct Score {
    pub bits: u32,
}

/// The sign bit of a single.
pub const SIGN_BIT: u32 = 0x8000_0000;

/// The magnitude bits of an infinite single. Those of a number that is none are above.
pub const INFINITE_MAGNITUDE: u32 = 0x7f80_0000;

/// The score of a memory that was asked for by its identifier: one.
pub const FULL_SCORE: u32 = 0x3f80_0000;

/// The magnitude bits of a score.
pub open spec fn score_magnitude(s: Score) -> int {
    if s.bits >= SIGN_BIT {
        s.bits - SIGN_BIT
    } else {
        s.bits as int
    }
}

/// The score is no number.
pub open spec fn score_is_nan(s: Score) -> bool {
    score_magnitude(s) > INFINITE_MAGNITUDE
}

/// The place of a score in the order of the singles. The two zeros share one place.
pub open spec fn score_rank(s: Score) -> int {
    if s.bits >= SIGN_BIT {
        -score_magnitude(s)
    } else {
        score_magnitude(s)
    }
}

/// The score is a number that reaches the other.
pub open spec fn reaches(s: Score, threshold: Score) -> bool {
    !score_is_nan(s) && !score_is_nan(threshold) && score_rank(s) >= score_rank(threshold)
}

/// The score is a number below the other.
pub open spec fn is_below(s: Score, other: Score) -> bool {
    !score_is_nan(s) && !score_is_nan(other) && score_rank(s) < score_rank(other)
}

impl Score {
    /// The score one.
    pub fn full() -> (r: Score)
        ensures
            r.bits == FULL_SCORE,
    {
        Score { bits: FULL_SCORE }
    }

    /// The score zero.
    pub fn zero() -> (r: Score)
        ensures
            r.bits == 0,
    {
        Score { bits: 0 }
    }

    /// The place of the score in the order of the singles, unless it is no number.
    fn rank(&self) -> (r: Option<i64>)
        ensures
            match r {
                Some(rank) => !score_is_nan(*self) && rank == score_rank(*self),
                None => score_is_nan(*self),
            },
    {
        let magnitude: u32 = if self.bits >= SIGN_BIT {
            self.bits - SIGN_BIT
        } else {
            self.bits
        };
        if magnitude > INFINITE_MAGNITUDE {
            None
        } else if self.bits >= SIGN_BIT {
            Some(-(magnitude as i64))
        } else {
            Some(magnitude as i64)
        }
    }

    /// Whether the score reaches a threshold. No score reaches what is no number.
    pub fn reaches(&self, threshold: &Score) -> (r: bool)
        ensures
            r == reaches(*self, *threshold),
    {
        match (self.rank(), threshold.rank()) {
            (Some(a), Some(b)) => a >= b,
            _ => false,
        }
    }

    /// Whether the score is below another.
    pub fn is_below(&self, other: &Score) -> (r: bool)
        ensures
            r == is_below(*self, *other),
    {
        match (self.rank(), other.rank()) {
            (Some(a), Some(b)) => a < b,
            _ => false,
        }
    }
}

/// Something that has a score.
pub trait Scored: View {
    spec fn score_of(value: Self::V) -> Score;

    fn score(&self) -> (r: Score)
        ensures
            r == Self::score_of(self@),
    ;
}

/// The list with one more value, put before the values that are below it at the end of the list.
pub open spec fn placed<V>(list: Seq<V>, value: V, score: spec_fn(V) -> Score) -> Seq<V>
    decreases list.len(),
{
    if list.len() > 0 && is_below(score(list.last()), score(value)) {
        placed(list.drop_last(), value, score).push(list.last())
    } else {
        list.push(value)
    }
}

/// The list, best first. Values of one score keep the order in which they came.
pub open spec fn ranked<V>(list: Seq<V>, score: spec_fn(V) -> Score) -> Seq<V>
    decreases list.len(),
{
    if list.len() == 0 {
        list
    } else {
        placed(ranked(list.drop_last(), score), list.last(), score)
    }
}

/// No value of the list has a score that is no number.
pub open spec fn all_scored<V>(list: Seq<V>, score: spec_fn(V) -> Score) -> bool {
    forall|i: int| 0 <= i < list.len() ==> !score_is_nan(score(#[trigger] list[i]))
}

/// The list goes from the best to the worst.
pub open spec fn best_first<V>(list: Seq<V>, score: spec_fn(V) -> Score) -> bool {
    forall|i: int, j: int|
        0 <= i <= j < list.len() ==> score_rank(score(#[trigger] list[i])) >= score_rank(
            score(#[trigger] list[j]),
        )
}

/// The values of one place in the order of scores.
pub open spec fn of_rank<V>(list: Seq<V>, score: spec_fn(V) -> Score, rank: int) -> Seq<V> {
    list.filter(|v: V| score_rank(score(v)) == rank)
}

proof fn placed_is_an_insertion<V>(list: Seq<V>, value: V, score: spec_fn(V) -> Score)
    ensures
        exists|i: int|
            0 <= i <= list.len() && #[trigger] list.insert(i, value) == placed(list, value, score)
                && (i > 0 ==> !is_below(score(list[i - 1]), score(value))) && (forall|j: int|
                i <= j < list.len() ==> is_below(score(#[trigger] list[j]), score(value))),
    decreases list.len(),
{
    if list.len() > 0 && is_below(score(list.last()), score(value)) {
        placed_is_an_insertion(list.drop_last(), value, score);
        let i = choose|i: int|
            0 <= i <= list.drop_last().len() && #[trigger] list.drop_last().insert(i, value)
                == placed(list.drop_last(), value, score) && (i > 0 ==> !is_below(
                score(list.drop_last()[i - 1]),
                score(value),
            )) && (forall|j: int|
                i <= j < list.drop_last().len() ==> is_below(
                    score(#[trigger] list.drop_last()[j]),
                    score(value),
                ));
        assert(list.drop_last().insert(i, value).push(list.last()) =~= list.insert(i, value));
        assert forall|j: int| i <= j < list.len() implies is_below(
            score(#[trigger] list[j]),
            score(value),
        ) by {
            if j < list.len() - 1 {
                assert(list.drop_last()[j] == list[j]);
            }
        }
        assert(list.insert(i, value) == placed(list, value, score));
    } else {
        assert(list.insert(list.len() as int, value) =~= list.push(value));
    }
}

/// Puts one more value into a list, before the values below it at the end of the list.
fn place<T: Scored>(list: &mut Vec<T>, value: T)
    ensures
        views(final(list)@) == placed(
            views(old(list)@),
            value@,
            |v: T::V| T::score_of(v),
        ),
{
    let ghost score = |v: T::V| T::score_of(v);
    let ghost all = views(list@);
    let s = value.score();
    let mut i: usize = list.len();
    while i > 0 && list[i - 1].score().is_below(&s)
        invariant
            i <= list@.len(),
            list@ == old(list)@,
            all == views(list@),
            s == T::score_of(value@),
            forall|j: int| i <= j < list@.len() ==> is_below(T::score_of(#[trigger] all[j]), s),
        decreases i,
    {
        assert(all[i - 1] == list@[i - 1]@);
        i -= 1;
    }
    proof {
        placed_is_an_insertion(all, value@, score);
        let k = choose|k: int|
            0 <= k <= all.len() && #[trigger] all.insert(k, value@) == placed(all, value@, score)
                && (k > 0 ==> !is_below(score(all[k - 1]), score(value@))) && (forall|j: int|
                k <= j < all.len() ==> is_below(score(#[trigger] all[j]), score(value@)));
        if k < i {
            assert(all[i - 1] == list@[i - 1]@);
            assert(is_below(score(all[i - 1]), score(value@)));
        } else if k > i {
            assert(is_below(T::score_of(all[k - 1]), s));
        }
        assert(k == i);
    }
    let ghost v = value@;
    list.insert(i, value);
    proof {
        assert(views(list@) =~= all.insert(i as int, v));
    }
}

/// Ranks a list, best first. Values of one score keep the order in which they came.
pub fn rank<T: Scored>(list: Vec<T>) -> (r: Vec<T>)
    ensures
        views(r@) == ranked(views(list@), |v: T::V| T::score_of(v)),
{
    let ghost all = views(list@);
    let ghost score = |v: T::V| T::score_of(v);
    let mut rest = list;
    let mut reversed: Vec<T> = Vec::new();
    while rest.len() > 0
        invariant
            views(rest@) + views(reversed@).reverse() == all,
        decreases rest.len(),
    {
        let ghost before = views(rest@);
        let ghost turned = views(reversed@);
        match rest.pop() {
            Some(value) => {
                let ghost v = value@;
                reversed.push(value);
                proof {
                    assert(before =~= views(rest@).push(v));
                    assert(views(reversed@) =~= turned.push(v));
                    assert(views(rest@) + turned.push(v).reverse() =~= before
                        + turned.reverse());
                }
            },
            None => {},
        }
    }
    let mut out: Vec<T> = Vec::new();
    proof {
        assert(views(rest@) =~= Seq::empty());
        assert(views(reversed@).reverse() =~= all);
        assert(all.take(0) =~= Seq::empty());
        assert(views(out@) =~= Seq::empty());
    }
    while reversed.len() > 0
        invariant
            reversed@.len() <= all.len(),
            views(reversed@).reverse() == all.skip(all.len() - reversed@.len()),
            views(out@) == ranked(
                all.take(all.len() - reversed@.len()),
                |v: T::V| T::score_of(v),
            ),
        decreases reversed.len(),
    {
        let ghost turned = views(reversed@);
        let ghost n = all.len() - reversed@.len();
        match reversed.pop() {
            Some(value) => {
                proof {
                    assert(turned =~= views(reversed@).push(value@));
                    assert(turned.reverse()[0] == value@);
                    assert(all[n] == value@);
                    assert(views(reversed@).reverse() =~= all.skip(n + 1)) by {
                        assert forall|i: int| 0 <= i < reversed@.len() implies views(
                            reversed@,
                        ).reverse()[i] == all.skip(n + 1)[i] by {
                            assert(turned.reverse()[i + 1] == all.skip(n)[i + 1]);
                        }
                    }
                    assert(all.take(n + 1).drop_last() =~= all.take(n));
                    assert(all.take(n + 1).last() == value@);
                }
                place(&mut out, value);
            },
            None => {},
        }
    }
    proof {
        assert(all.take(all.len() as int) =~= all);
    }
    out
}

proof fn placed_keeps_order<V>(list: Seq<V>, value: V, score: spec_fn(V) -> Score)
    requires
        all_scored(list, score),
        best_first(list, score),
        !score_is_nan(score(value)),
    ensures
        all_scored(placed(list, value, score), score),
        best_first(placed(list, value, score), score),
        placed(list, value, score).len() == list.len() + 1,
        placed(list, value, score).to_multiset() == list.push(value).to_multiset(),
        forall|rank: int| #[trigger]
            of_rank(placed(list, value, score), score, rank) == of_rank(
                list.push(value),
                score,
                rank,
            ),
    decreases list.len(),
{
    broadcast use vstd::seq_lib::group_to_multiset_ensures;

    let out = placed(list, value, score);
    if list.len() > 0 && is_below(score(list.last()), score(value)) {
        let last = list.last();
        let front = list.drop_last();
        assert(all_scored(front, score) && best_first(front, score));
        placed_keeps_order(front, value, score);
        let inner = placed(front, value, score);
        assert(inner.len() == list.len());
        placed_is_an_insertion(front, value, score);
        assert forall|i: int| 0 <= i < inner.len() implies score_rank(score(#[trigger] inner[i]))
            >= score_rank(score(last)) by {
            let k = choose|k: int| 0 <= k <= front.len() && #[trigger] front.insert(k, value) == inner;
            if i < k {
                assert(inner[i] == list[i]);
            } else if i > k {
                assert(inner[i] == list[i - 1]);
            }
        }
        assert(front.push(value).push(last).to_multiset() == list.push(value).to_multiset()) by {
            assert(list =~= front.push(last));
            assert(front.push(value).push(last).to_multiset() =~= list.push(value).to_multiset());
        }
        assert(out == inner.push(last));
        assert forall|rank: int| #[trigger] of_rank(out, score, rank) == of_rank(
            list.push(value),
            score,
            rank,
        ) by {
            let p = |v: V| score_rank(score(v)) == rank;
            Seq::lemma_filter_push(inner, last, p);
            Seq::lemma_filter_push(front, value, p);
            Seq::lemma_filter_push(front, last, p);
            Seq::lemma_filter_push(list, value, p);
            assert(list =~= front.push(last));
            assert(of_rank(inner, score, rank) == of_rank(front.push(value), score, rank));
        }
    } else {
        assert(out == list.push(value));
        assert forall|i: int| 0 <= i < list.len() implies score_rank(score(#[trigger] list[i]))
            >= score_rank(score(value)) by {
            assert(score_rank(score(list.last())) >= score_rank(score(value)));
        }
    }
}

/// A ranked list holds the values that came in, best first, and values of one score stand in the
/// order in which they came. This holds of lists in which every score is a number.
pub proof fn ranking_is_stable<V>(list: Seq<V>, score: spec_fn(V) -> Score)
    requires
        all_scored(list, score),
    ensures
        ranked(list, score).to_multiset() == list.to_multiset(),
        ranked(list, score).len() == list.len(),
        all_scored(ranked(list, score), score),
        best_first(ranked(list, score), score),
        forall|rank: int| #[trigger]
            of_rank(ranked(list, score), score, rank) == of_rank(list, score, rank),
    decreases list.len(),
{
    broadcast use vstd::seq_lib::group_to_multiset_ensures;

    if list.len() > 0 {
        let front = list.drop_last();
        let value = list.last();
        ranking_is_stable(front, score);
        let inner = ranked(front, score);
        placed_keeps_order(inner, value, score);
        assert(list =~= front.push(value));
        assert(inner.push(value).to_multiset() =~= front.push(value).to_multiset());
        assert forall|rank: int| #[trigger] of_rank(ranked(list, score), score, rank) == of_rank(
            list,
            score,
            rank,
        ) by {
            let p = |v: V| score_rank(score(v)) == rank;
            Seq::lemma_filter_push(inner, value, p);
            Seq::lemma_filter_push(front, value, p);
            assert(of_rank(inner, score, rank) == of_rank(front, score, rank));
            assert(of_rank(placed(inner, value, score), score, rank) == of_rank(
                inner.push(value),
                score,
                rank,
            ));
        }
    }
}

/// Whatever the scores are, a ranked list holds exactly the values that came in.
pub proof fn ranking_keeps_the_values<V>(list: Seq<V>, score: spec_fn(V) -> Score)
    ensures
        ranked(list, score).to_multiset() == list.to_multiset(),
        ranked(list, score).len() == list.len(),
    decreases list.len(),
{
    broadcast use vstd::seq_lib::group_to_multiset_ensures;

    if list.len() > 0 {
        let front = list.drop_last();
        ranking_keeps_the_values(front, score);
        let inner = ranked(front, score);
        placed_keeps_values(inner, list.last(), score);
        assert(list =~= front.push(list.last()));
        assert(inner.push(list.last()).to_multiset() =~= front.push(list.last()).to_multiset());
    }
}

proof fn placed_keeps_values<V>(list: Seq<V>, value: V, score: spec_fn(V) -> Score)
    ensures
        placed(list, value, score).to_multiset() == list.push(value).to_multiset(),
        placed(list, value, score).len() == list.len() + 1,
    decreases list.len(),
{
    broadcast use vstd::seq_lib::group_to_multiset_ensures;

    if list.len() > 0 && is_below(score(list.last()), score(value)) {
        let front = list.drop_last();
        placed_keeps_values(front, value, score);
        assert(list =~= front.push(list.last()));
        assert(placed(front, value, score).push(list.last()).to_multiset() =~= list.push(
            value,
        ).to_multiset());
    }
}

} // verus!
