//! What searches ask for, and what they give.
use vstd::prelude::*;

use crate::errors::MemoryErrorView;
use crate::ids::uuid_of;
use crate::memory::manager::{
    above_threshold, at_most, get_all_start, history_start, scored_of, search_start,
    search_threshold, HistoryRun, Memory, SearchRun, SearchRunView,
};
use crate::memory::protocol::{
    CommandView, EncodingView, FreshView, ProgressView, ReplyView, Run,
};
use crate::memory::scope::{
    in_scope, merging_narrows_the_scope, scope_conditions, scope_filters,
    scope_filters_select_the_scope,
};
use crate::memory::writes::is_stored;
use crate::models::{
    FilterLogic, GetAllOptionsView, HistoryEntryView, PayloadView, ScoredMemoryView,
    SearchOptionsView, VectorSearchResultView,
};
use crate::ranking::{ranked, ranking_is_stable, reaches, score_is_nan, Score};
use crate::vector_stores::filter_eval::{holds, is_match};
use crate::vector_stores::filter_laws::only;

verus! {

/// The results are the best of a list, best first: as many as are wanted or as there are, and with
/// what is left over they are the list. None that is left over is better than a result.
pub open spec fn is_best<V>(
    results: Seq<V>,
    rest: Seq<V>,
    list: Seq<V>,
    limit: usize,
    score: spec_fn(V) -> Score,
) -> bool {
    &&& results.len() == if list.len() <= limit {
        list.len()
    } else {
        limit as nat
    }
    &&& (results + rest).to_multiset() == list.to_multiset()
    &&& forall|i: int, j: int|
        0 <= i <= j < results.len() ==> reaches(
            score(#[trigger] results[i]),
            score(#[trigger] results[j]),
        )
    &&& forall|i: int, j: int|
        0 <= i < results.len() && 0 <= j < rest.len() ==> reaches(
            score(#[trigger] results[i]),
            score(#[trigger] rest[j]),
        )
}

/// Memories are compared by their scores.
pub open spec fn by_score() -> spec_fn(ScoredMemoryView) -> Score {
    |m: ScoredMemoryView| m.score
}

/// The results are the best of some memories, best first.
pub open spec fn are_best(
    results: Seq<ScoredMemoryView>,
    memories: Seq<ScoredMemoryView>,
    limit: usize,
) -> bool {
    exists|rest: Seq<ScoredMemoryView>| #[trigger]
        is_best(results, rest, memories, limit, by_score())
}

/// Cutting off a ranked list keeps its best.
pub proof fn the_best_come_first<V>(list: Seq<V>, limit: usize, score: spec_fn(V) -> Score)
    requires
        forall|i: int| 0 <= i < list.len() ==> !score_is_nan(score(#[trigger] list[i])),
    ensures
        is_best(
            at_most(ranked(list, score), limit),
            ranked(list, score).skip(at_most(ranked(list, score), limit).len() as int),
            list,
            limit,
            score,
        ),
{
    ranking_is_stable(list, score);
    let all = ranked(list, score);
    let results = at_most(all, limit);
    let rest = all.skip(results.len() as int);
    assert(results + rest =~= all);
    assert forall|i: int, j: int| 0 <= i <= j < results.len() implies reaches(
        score(#[trigger] results[i]),
        score(#[trigger] results[j]),
    ) by {
        assert(results[i] == all[i]);
        assert(results[j] == all[j]);
    }
    assert forall|i: int, j: int| 0 <= i < results.len() && 0 <= j < rest.len() implies reaches(
        score(#[trigger] results[i]),
        score(#[trigger] rest[j]),
    ) by {
        assert(results[i] == all[i]);
        assert(rest[j] == all[results.len() + j]);
    }
}

/// The memories are those of the places, in order: the places are all those at which a memory was
/// found whose score reaches the threshold.
pub open spec fn is_pick(
    memories: Seq<ScoredMemoryView>,
    found: Seq<VectorSearchResultView>,
    threshold: Score,
    places: Seq<int>,
) -> bool {
    &&& places.len() == memories.len()
    &&& forall|i: int|
        0 <= i < places.len() ==> 0 <= (#[trigger] places[i]) < found.len() && reaches(
            found[places[i]].score,
            threshold,
        ) && is_stored(memories[i].record, found[places[i]]) && memories[i].score
            == found[places[i]].score
    &&& forall|i: int, j: int|
        0 <= i < j < places.len() ==> (#[trigger] places[i]) < (#[trigger] places[j])
    &&& forall|k: int|
        0 <= k < found.len() && reaches((#[trigger] found[k]).score, threshold) ==> places.contains(
            k,
        )
}

/// What is above a threshold is exactly what reaches it.
proof fn what_reaches_is_picked(
    found: Seq<VectorSearchResultView>,
    threshold: Score,
) -> (places: Seq<int>)
    ensures
        is_pick(above_threshold(found, threshold), found, threshold, places),
    decreases found.len(),
{
    let all = found.map_values(|f: VectorSearchResultView| scored_of(f));
    let keep = |m: ScoredMemoryView| reaches(m.score, threshold);
    if found.len() == 0 {
        assert(all.filter(keep).len() == 0) by {
            all.lemma_filter_len(keep);
        }
        Seq::empty()
    } else {
        let front = found.drop_last();
        let before = what_reaches_is_picked(front, threshold);
        let head = front.map_values(|f: VectorSearchResultView| scored_of(f));
        assert(all =~= head.push(scored_of(found.last())));
        Seq::lemma_filter_push(head, scored_of(found.last()), keep);
        let last = found.len() - 1;
        let places = if reaches(found.last().score, threshold) {
            before.push(last)
        } else {
            before
        };
        let memories = above_threshold(found, threshold);
        assert forall|i: int| 0 <= i < places.len() implies 0 <= (#[trigger] places[i])
            < found.len() && reaches(found[places[i]].score, threshold) && is_stored(
            memories[i].record,
            found[places[i]],
        ) && memories[i].score == found[places[i]].score by {
            if i < before.len() {
                assert(places[i] == before[i]);
                assert(front[before[i]] == found[before[i]]);
            }
        }
        assert forall|k: int| 0 <= k < found.len() && reaches(
            (#[trigger] found[k]).score,
            threshold,
        ) implies places.contains(k) by {
            if k < last {
                assert(front[k] == found[k]);
                assert(before.contains(k));
                let i = choose|i: int| 0 <= i < before.len() && before[i] == k;
                assert(places[i] == k);
            } else {
                assert(places[before.len() as int] == k);
            }
        }
        places
    }
}

/// The threshold of a search: the one that is given, or zero.
pub open spec fn is_threshold(threshold: Score, options: SearchOptionsView) -> bool {
    match options.threshold {
        Some(t) => threshold == t,
        None => threshold.bits == 0,
    }
}

/// With rerank and a reranker, the reranker is asked, with the query, about every memory that the
/// store found and whose score reaches the threshold, and about no other.
pub proof fn rerankers_are_asked_about_all(
    query: Seq<char>,
    options: SearchOptionsView,
    found: Seq<VectorSearchResultView>,
    threshold: Score,
    fresh: FreshView,
)
    requires
        options.rerank,
        is_threshold(threshold, options),
    ensures
        SearchRun::next(
            SearchRunView::Querying { query, options, reranker: true },
            ReplyView::Found(found),
            fresh,
        ) matches ProgressView::Ask(CommandView::Rerank { query: q, memories }, _) && q == query
            && exists|places: Seq<int>| #[trigger] is_pick(memories, found, threshold, places),
{
    let places = what_reaches_is_picked(found, threshold);
    assert(search_threshold(options) == threshold);
    let next = SearchRun::next(
        SearchRunView::Querying { query, options, reranker: true },
        ReplyView::Found(found),
        fresh,
    );
    if let ProgressView::Ask(CommandView::Rerank { memories, .. }, _) = next {
        assert(memories == above_threshold(found, threshold));
        assert(is_pick(memories, found, threshold, places));
    }
}

/// With rerank and a reranker, a search gives the best of what the reranker gave back, by the new
/// scores: at most as many as are wanted, ten if it is not said, and all that there are if these
/// are fewer.
pub proof fn reranked_searches_give_the_best_by_the_new_scores(
    query: Seq<char>,
    options: SearchOptionsView,
    found: Seq<VectorSearchResultView>,
    memories: Seq<ScoredMemoryView>,
    fresh: FreshView,
    later: FreshView,
)
    requires
        options.rerank,
        forall|i: int| 0 <= i < memories.len() ==> !score_is_nan((#[trigger] memories[i]).score),
    ensures
        SearchRun::next(
            SearchRun::next(
                SearchRunView::Querying { query, options, reranker: true },
                ReplyView::Found(found),
                fresh,
            )->Ask_1,
            ReplyView::Reranked(memories),
            later,
        ) matches ProgressView::Done(Ok(result)) && are_best(
            result.results,
            memories,
            match options.limit {
                Some(n) => n,
                None => 10,
            },
        ),
{
    let limit = match options.limit {
        Some(n) => n,
        None => 10,
    };
    the_best_come_first(memories, limit, by_score());
    assert(by_score() =~= (|m: ScoredMemoryView| m.score));
}

/// Without rerank, or without a reranker, a search gives the best of the memories that the store
/// found and whose score reaches the threshold: at most as many as are wanted, ten if it is not
/// said, and all that there are if these are fewer.
pub proof fn plain_searches_give_the_best(
    query: Seq<char>,
    options: SearchOptionsView,
    reranker: bool,
    found: Seq<VectorSearchResultView>,
    threshold: Score,
    fresh: FreshView,
)
    requires
        !options.rerank || !reranker,
        is_threshold(threshold, options),
    ensures
        SearchRun::next(
            SearchRunView::Querying { query, options, reranker },
            ReplyView::Found(found),
            fresh,
        ) matches ProgressView::Done(Ok(result)) && exists|
            memories: Seq<ScoredMemoryView>,
            places: Seq<int>,
        | #[trigger]
            is_pick(memories, found, threshold, places) && are_best(
                result.results,
                memories,
                match options.limit {
                    Some(n) => n,
                    None => 10,
                },
            ),
{
    let limit = match options.limit {
        Some(n) => n,
        None => 10,
    };
    let score = by_score();
    assert(score =~= (|m: ScoredMemoryView| m.score));
    let places = what_reaches_is_picked(found, threshold);
    let memories = above_threshold(found, threshold);
    assert(search_threshold(options) == threshold);
    assert forall|i: int| 0 <= i < memories.len() implies !score_is_nan(
        score(#[trigger] memories[i]),
    ) by {
        assert(0 <= places[i] < found.len());
        assert(reaches(found[places[i]].score, threshold));
    }
    the_best_come_first(memories, limit, score);
}

/// A search encodes its query, and asks the store with that embedding for twice as many memories as
/// are wanted, ten times as many if they are to be scored anew.
pub proof fn searches_ask_with_their_query(
    memory: Memory,
    query: Seq<char>,
    options: SearchOptionsView,
    encoding: EncodingView,
    fresh: FreshView,
)
    requires
        (match options.limit {
            Some(n) => n as int,
            None => 10int,
        }) * 10 <= usize::MAX,
    ensures
        search_start(memory, query, options) matches ProgressView::Ask(
            CommandView::Encode { text },
            _,
        ) && text == query,
        SearchRun::next(
            search_start(memory, query, options)->Ask_1,
            ReplyView::Encoded(encoding),
            fresh,
        ) matches ProgressView::Ask(CommandView::Query { embedding, limit, .. }, run) && {
            &&& embedding == encoding.embedding
            &&& limit == (match options.limit {
                Some(n) => n as int,
                None => 10int,
            }) * (if options.rerank {
                10int
            } else {
                2int
            })
            &&& run == (SearchRunView::Querying { query, options, reranker: memory.has_reranker })
        },
{
}

/// A search keeps to its scope: the store is asked for exactly the memories of the tiers and the
/// kind that are given, of which every condition of the filter holds that is given.
pub proof fn searches_keep_to_their_scope(
    memory: Memory,
    query: Seq<char>,
    options: SearchOptionsView,
    encoding: EncodingView,
    payload: PayloadView,
    fresh: FreshView,
)
    ensures
        SearchRun::next(
            search_start(memory, query, options)->Ask_1,
            ReplyView::Encoded(encoding),
            fresh,
        ) matches ProgressView::Ask(CommandView::Query { filters, .. }, _) && {
            let fits = in_scope(
                payload,
                options.user_id,
                options.agent_id,
                options.run_id,
                options.memory_type,
            );
            &&& is_match(payload, filters) ==> fits
            &&& options.filters is None ==> (is_match(payload, filters) <==> fits)
            &&& options.user_id is None && options.agent_id is None && options.run_id is None
                && options.memory_type is None ==> (is_match(payload, filters) <==> is_match(
                payload,
                options.filters,
            ))
            &&& options.filters matches Some(custom) ==> {
                &&& options.user_id is Some || options.agent_id is Some || options.run_id is Some
                    || options.memory_type is Some ==> (is_match(payload, filters) <==> fits
                    && forall|i: int|
                    0 <= i < custom.conditions.len() ==> is_match(
                        payload,
                        only(
                            (#[trigger] custom.conditions[i]).field,
                            custom.conditions[i].operator,
                            custom.conditions[i].value,
                            FilterLogic::And,
                        ),
                    ))
            }
        },
{
    let scope = scope_filters(
        options.user_id,
        options.agent_id,
        options.run_id,
        options.memory_type,
    );
    scope_filters_select_the_scope(
        payload,
        options.user_id,
        options.agent_id,
        options.run_id,
        options.memory_type,
    );
    let conditions = scope_conditions(
        options.user_id,
        options.agent_id,
        options.run_id,
        options.memory_type,
    );
    assert(conditions.len() == 0 <==> options.user_id is None && options.agent_id is None
        && options.run_id is None && options.memory_type is None);
    if let Some(custom) = options.filters {
        if let Some(s) = scope {
            merging_narrows_the_scope(payload, s, custom);
        }
        assert forall|i: int| 0 <= i < custom.conditions.len() implies is_match(
            payload,
            only(
                (#[trigger] custom.conditions[i]).field,
                custom.conditions[i].operator,
                custom.conditions[i].value,
                FilterLogic::And,
            ),
        ) == holds(payload, custom.conditions[i]) by {
            let c = custom.conditions[i];
            let f = only(c.field, c.operator, c.value, FilterLogic::And)->0;
            assert(f.conditions[0] == c);
        }
    }
}

/// A failure of the embedder, the store or the reranker is the end of a search.
pub proof fn failures_end_a_search(run: SearchRunView, error: MemoryErrorView, fresh: FreshView)
    ensures
        SearchRun::next(run, ReplyView::Failed(error), fresh) matches ProgressView::Done(Err(e))
            && e == error,
{
}

/// A listing asks the store for exactly the memories of the tiers and the kind that are given, and
/// for as many as are wanted, a hundred if it is not said.
pub proof fn listings_keep_to_their_scope(options: GetAllOptionsView, payload: PayloadView)
    ensures
        get_all_start(options) matches ProgressView::Ask(
            CommandView::List { filters, limit },
            _,
        ) && {
            &&& is_match(payload, filters) <==> in_scope(
                payload,
                options.user_id,
                options.agent_id,
                options.run_id,
                options.memory_type,
            )
            &&& limit == match options.limit {
                Some(n) => n,
                None => 100,
            }
        },
{
    scope_filters_select_the_scope(
        payload,
        options.user_id,
        options.agent_id,
        options.run_id,
        options.memory_type,
    );
}

/// The changes of a memory are those that the history has of it, as it gives them. An identifier
/// that is no UUID is refused, and without a history there are no changes.
pub proof fn histories_are_those_of_the_memory(
    memory: Memory,
    id: Seq<char>,
    entries: Seq<HistoryEntryView>,
    fresh: FreshView,
)
    ensures
        memory.has_history ==> match uuid_of(id) {
            Some(uuid) => history_start(memory, id) matches ProgressView::Ask(
                CommandView::ReadHistory { memory_id },
                run,
            ) && memory_id == uuid as u128 && (HistoryRun::next(
                run,
                ReplyView::Entries(entries),
                fresh,
            ) matches ProgressView::Done(Ok(ledger)) && ledger.entries == entries),
            None => history_start(memory, id) matches ProgressView::Done(
                Err(MemoryErrorView::InvalidInput(_)),
            ),
        },
        !memory.has_history ==> (history_start(memory, id) matches ProgressView::Done(Ok(ledger))
            && ledger.entries.len() == 0),
{
}

} // verus!
