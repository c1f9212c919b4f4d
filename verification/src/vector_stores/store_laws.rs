//! What stores keep, and what they give back.
use vstd::arithmetic::power2::pow2;
use vstd::prelude::*;

use crate::clock::{rfc3339_instant, Instant};
use crate::errors::VectorStoreErrorView;
use crate::json::JsonView;
use crate::memory::finding::{is_best, the_best_come_first};
use crate::memory::manager::at_most;
use crate::models::{
    memory_types_have_their_names, FilterConditionView, FilterLogic, FilterOperator, FiltersView,
    PayloadView, VectorSearchResultView,
};
use crate::number::{doubles_fit, JsonNumber};
use crate::numeric_order::{size_of_bits, small_doubles_stand_for_themselves};
use crate::ranking::{score_is_nan, Score};
use crate::text::{is_infix, lowercase_of, middles_are_infixes};
use crate::vector_stores::document::{
    document_of, document_payload, document_payload_made, field_keys_differ, field_members,
    is_field_key, json_of_doubles_is_read_back, keeps_to_its_keys, metadata_members, only_doubles,
    payload_document_with, time_made, DocumentView,
};
use crate::vector_stores::filter_eval::is_match;
use crate::vector_stores::filter_laws::is_kind;
use crate::vector_stores::memory::{
    best_hits, lists_store, matching, may_rate, plain_hit, scored_hits, store_get, store_insert,
    store_update, EntryView,
};
use crate::vector_stores::s3_vectors::{
    batches_hold_all_keys, condition_document, condition_documents, filter_document, full_hit,
    in_batches, matching_hits, s3_next, store_of, tells_absence, S3CommandView, S3OutcomeView,
    S3ProgressView, S3ReplyView, S3RunView, S3VectorView, S3VectorsConfigView, S3VectorsStoreView,
};
use crate::views::filtered_values_are_of_the_list;

verus! {

/// What is put into a store is there as it was put in, and is given back with the score one. What
/// is replaced has the new payload, and the new embedding if one is given.
pub proof fn stores_keep_what_they_are_given(
    store: Map<Seq<char>, EntryView>,
    id: Seq<char>,
    embedding: Seq<u32>,
    payload: PayloadView,
)
    ensures
        ({
            let with = store_insert(store, id, embedding, payload);
            let replaced = store_update(store, id, Some(embedding), payload);
            &&& with.contains_key(id) && with[id].embedding == embedding && with[id].payload
                == payload
            &&& replaced.contains_key(id) && replaced[id].embedding == embedding
                && replaced[id].payload == payload
            &&& store_get(with, id) matches Some(hit) && hit.id == id && hit.payload == payload
                && hit.score.bits == 0x3f80_0000
            &&& store_update(store, id, None, payload)[id].payload == payload
            &&& forall|other: Seq<char>|
                other != id ==> (#[trigger] with.contains_key(other) <==> store.contains_key(other))
                    && (#[trigger] replaced.contains_key(other) <==> store.contains_key(other))
                    && (store.contains_key(other) ==> with[other] == store[other]
                    && replaced[other] == store[other])
        }),
{
}

/// The places among the identifiers of a store at which a filter lets the memory through.
proof fn what_matches_is_there(
    keys: Seq<Seq<char>>,
    store: Map<Seq<char>, EntryView>,
    filters: Option<FiltersView>,
    id: Seq<char>,
)
    requires
        lists_store(keys, store),
    ensures
        matching(keys, store, filters).contains(id) <==> store.contains_key(id) && is_match(
            store[id].payload,
            filters,
        ),
        matching(keys, store, filters).no_duplicates(),
{
    let keep = |k: Seq<char>| is_match(store[k].payload, filters);
    let ids = matching(keys, store, filters);
    if store.contains_key(id) && is_match(store[id].payload, filters) {
        assert(keys.contains(id));
        let i = choose|i: int| 0 <= i < keys.len() && keys[i] == id;
        keys.lemma_filter_contains(keep, i);
    }
    if ids.contains(id) {
        let i = choose|i: int| 0 <= i < ids.len() && ids[i] == id;
        keys.lemma_filter_pred(keep, i);
        filtered_values_are_of_the_list(keys, keep, i);
        assert(keys.contains(id));
    }
    filtering_keeps_apart(keys, keep);
}

proof fn filtering_keeps_apart(keys: Seq<Seq<char>>, keep: spec_fn(Seq<char>) -> bool)
    requires
        keys.no_duplicates(),
    ensures
        keys.filter(keep).no_duplicates(),
    decreases keys.len(),
{
    if keys.len() > 0 {
        let front = keys.drop_last();
        filtering_keeps_apart(front, keep);
        assert(keys =~= front.push(keys.last()));
        Seq::lemma_filter_push(front, keys.last(), keep);
        assert forall|i: int| 0 <= i < front.filter(keep).len() implies front.filter(keep)[i]
            != keys.last() by {
            filtered_values_are_of_the_list(front, keep, i);
        }
    } else {
        keys.lemma_filter_len(keep);
    }
}

/// A list of a store holds each memory that the filter lets through once, as it is stored and with
/// the score one, and no other, unless it is cut off at the number that is wanted.
pub proof fn lists_are_complete(
    keys: Seq<Seq<char>>,
    store: Map<Seq<char>, EntryView>,
    filters: Option<FiltersView>,
    limit: usize,
    id: Seq<char>,
)
    requires
        lists_store(keys, store),
    ensures
        ({
            let all = matching(keys, store, filters).map_values(
                |k: Seq<char>| plain_hit(k, store[k].payload),
            );
            let found = at_most(all, limit);
            &&& found.len() <= limit
            &&& found.len() < limit ==> (store.contains_key(id) && is_match(
                store[id].payload,
                filters,
            ) ==> exists|i: int| 0 <= i < found.len() && (#[trigger] found[i]).id == id)
            &&& forall|i: int|
                0 <= i < found.len() ==> store.contains_key((#[trigger] found[i]).id)
                    && found[i].payload == store[found[i].id].payload && is_match(
                    found[i].payload,
                    filters,
                ) && found[i].score.bits == 0x3f80_0000
            &&& forall|i: int, j: int|
                0 <= i < j < found.len() ==> (#[trigger] found[i]).id != (#[trigger] found[j]).id
        }),
{
    let ids = matching(keys, store, filters);
    let all = ids.map_values(|k: Seq<char>| plain_hit(k, store[k].payload));
    let found = at_most(all, limit);
    what_matches_is_there(keys, store, filters, id);
    if found.len() < limit && ids.contains(id) {
        let i = choose|i: int| 0 <= i < ids.len() && ids[i] == id;
        assert(found[i].id == id);
    }
    assert forall|i: int| 0 <= i < found.len() implies store.contains_key((#[trigger] found[i]).id)
        && found[i].payload == store[found[i].id].payload && is_match(found[i].payload, filters)
        && found[i].score.bits == 0x3f80_0000 by {
        assert(ids.contains(ids[i]));
        what_matches_is_there(keys, store, filters, ids[i]);
    }
}

/// A search of a store rates each memory that the filter lets through, by its embedding and once,
/// and no other; and it gives the best of them, best first.
pub proof fn searches_rate_what_matches<F: Fn(&Vec<u32>) -> Score>(
    keys: Seq<Seq<char>>,
    store: Map<Seq<char>, EntryView>,
    filters: Option<FiltersView>,
    likeness: F,
    hits: Seq<VectorSearchResultView>,
    limit: usize,
    id: Seq<char>,
)
    requires
        lists_store(keys, store),
        scored_hits(hits, matching(keys, store, filters), store, likeness),
    ensures
        store.contains_key(id) && is_match(store[id].payload, filters) <==> exists|i: int|
            0 <= i < hits.len() && (#[trigger] hits[i]).id == id,
        forall|i: int|
            0 <= i < hits.len() ==> store.contains_key((#[trigger] hits[i]).id) && hits[i].payload
                == store[hits[i].id].payload && may_rate(
                likeness,
                store[hits[i].id].embedding,
                hits[i].score,
            ),
        forall|i: int, j: int|
            0 <= i < j < hits.len() ==> (#[trigger] hits[i]).id != (#[trigger] hits[j]).id,
        (forall|i: int| 0 <= i < hits.len() ==> !score_is_nan((#[trigger] hits[i]).score))
            ==> are_best_hits(best_hits(hits, limit), hits, limit),
{
    let ids = matching(keys, store, filters);
    what_matches_is_there(keys, store, filters, id);
    if ids.contains(id) {
        let i = choose|i: int| 0 <= i < ids.len() && ids[i] == id;
        assert(hits[i].id == id);
    }
    assert forall|i: int| 0 <= i < hits.len() implies store.contains_key((#[trigger] hits[i]).id)
        && hits[i].payload == store[hits[i].id].payload && may_rate(
        likeness,
        store[hits[i].id].embedding,
        hits[i].score,
    ) by {
        assert(ids.contains(ids[i]));
        what_matches_is_there(keys, store, filters, ids[i]);
    }
    if exists|i: int| 0 <= i < hits.len() && (#[trigger] hits[i]).id == id {
        let i = choose|i: int| 0 <= i < hits.len() && (#[trigger] hits[i]).id == id;
        assert(ids.contains(ids[i]));
    }
    if forall|i: int| 0 <= i < hits.len() ==> !score_is_nan((#[trigger] hits[i]).score) {
        the_best_come_first(hits, limit, by_hit_score());
        assert(by_hit_score() =~= (|h: VectorSearchResultView| h.score));
    }
}

/// Hits are compared by their scores.
pub open spec fn by_hit_score() -> spec_fn(VectorSearchResultView) -> Score {
    |h: VectorSearchResultView| h.score
}

/// The results are the best of some hits, best first.
pub open spec fn are_best_hits(
    results: Seq<VectorSearchResultView>,
    hits: Seq<VectorSearchResultView>,
    limit: usize,
) -> bool {
    exists|rest: Seq<VectorSearchResultView>| #[trigger]
        is_best(results, rest, hits, limit, by_hit_score())
}

/// A payload that is written as a document is read back from it: its content, its fingerprint, for
/// whom it is, of what kind, and its metadata, of which values without numbers or with finite
/// doubles come back as they were. The time at which it was made is kept as a text of its own.
pub proof fn documents_give_payloads_back(
    payload: PayloadView,
    text: Seq<char>,
    made: Instant,
    now: Instant,
    key: Seq<char>,
)
    requires
        keeps_to_its_keys(payload),
    ensures
        ({
            let doc = payload_document_with(payload, text);
            let read = document_payload_made(doc, made);
            &&& read.data == payload.data
            &&& read.hash == payload.hash
            &&& read.created_at == made
            &&& read.user_id == payload.user_id
            &&& read.agent_id == payload.agent_id
            &&& read.run_id == payload.run_id
            &&& read.memory_type == payload.memory_type
            &&& read.metadata.contains_key(key) <==> payload.metadata.contains_key(key)
            &&& payload.metadata.contains_key(key) && only_doubles(payload.metadata[key])
                ==> read.metadata[key] == payload.metadata[key]
            &&& time_made(doc, now) == match rfc3339_instant(text) {
                Some(time) => time,
                None => now,
            }
            &&& document_payload(doc, now) == document_payload_made(doc, time_made(doc, now))
        }),
{
    field_keys_differ();
    let doc = payload_document_with(payload, text);
    let fields = field_members(payload, text);
    let entries = metadata_members(payload.metadata);
    let members = fields.union_prefer_right(entries);
    if let Some(t) = payload.memory_type {
        memory_types_have_their_names(t);
    }
    assert forall|k: Seq<char>| is_field_key(k) implies !(
    #[trigger] entries.contains_key(k)) by {
        assert(payload.metadata.contains_key(k) == entries.contains_key(k));
    }
    assert(!entries.contains_key("data"@));
    assert(!entries.contains_key("hash"@));
    assert(!entries.contains_key("created_at"@));
    assert(!entries.contains_key("user_id"@));
    assert(!entries.contains_key("agent_id"@));
    assert(!entries.contains_key("run_id"@));
    assert(!entries.contains_key("memory_type"@));
    assert(payload.metadata.contains_key(key) == entries.contains_key(key));
    if fields.contains_key(key) {
        assert(is_field_key(key));
    }
    if payload.metadata.contains_key(key) {
        if only_doubles(payload.metadata[key]) {
            json_of_doubles_is_read_back(payload.metadata[key]);
        }
    }
}

/// The document is an object with one member.
pub open spec fn is_single(doc: DocumentView, key: Seq<char>, value: DocumentView) -> bool {
    doc matches DocumentView::Object(members) && members.contains_key(key) && members[key] == value
        && forall|k: Seq<char>| #[trigger] members.contains_key(k) ==> k == key
}

/// The name under which the service knows an operator. It knows none for texts in texts.
pub open spec fn service_name(operator: FilterOperator, name: Seq<char>) -> bool {
    match operator {
        FilterOperator::Eq => name == "$eq"@,
        FilterOperator::Ne => name == "$ne"@,
        FilterOperator::Gt => name == "$gt"@,
        FilterOperator::Gte => name == "$gte"@,
        FilterOperator::Lt => name == "$lt"@,
        FilterOperator::Lte => name == "$lte"@,
        FilterOperator::In => name == "$in"@,
        FilterOperator::Nin => name == "$nin"@,
        FilterOperator::Contains | FilterOperator::IContains => false,
    }
}

/// A condition is written for the service as the field with the operator with the operand. Those
/// for texts in texts are left out.
pub proof fn conditions_are_written_for_the_service(cond: FilterConditionView, name: Seq<char>)
    requires
        service_name(cond.operator, name),
    ensures
        condition_document(cond) matches Some(DocumentView::Object(members))
            && members.contains_key(cond.field) && is_single(
            DocumentView::Object(members),
            cond.field,
            members[cond.field],
        ) && is_single(members[cond.field], name, document_of(cond.value)),
{
}

/// The document combines others.
pub open spec fn is_combined(
    doc: Option<DocumentView>,
    logic: FilterLogic,
    list: Seq<DocumentView>,
) -> bool {
    doc matches Some(d) && is_single(
        d,
        match logic {
            FilterLogic::And => "$and"@,
            FilterLogic::Or => "$or"@,
        },
        DocumentView::Array(list),
    )
}

/// A filter is written for the service as its conditions are, in order and combined as they are
/// combined, if there are several; one alone stands for itself, and without one there is no filter.
pub proof fn filters_are_written_for_the_service(
    conditions: Seq<FilterConditionView>,
    logic: FilterLogic,
)
    requires
        forall|i: int|
            0 <= i < conditions.len() ==> (#[trigger] conditions[i]).operator
                != FilterOperator::Contains && conditions[i].operator != FilterOperator::IContains,
    ensures
        ({
            let doc = filter_document(FiltersView { conditions, logic });
            &&& conditions.len() == 0 ==> doc is None
            &&& conditions.len() == 1 ==> doc == condition_document(conditions[0])
            &&& conditions.len() > 1 ==> exists|list: Seq<DocumentView>|
                #[trigger] is_combined(doc, logic, list) && list.len() == conditions.len()
                    && forall|i: int|
                    0 <= i < list.len() ==> Some(#[trigger] list[i]) == condition_document(
                        conditions[i],
                    )
        }),
{
    all_conditions_are_written(conditions);
    let list = condition_documents(conditions);
    if conditions.len() > 1 {
        assert(is_combined(filter_document(FiltersView { conditions, logic }), logic, list));
    }
}

proof fn all_conditions_are_written(conditions: Seq<FilterConditionView>)
    requires
        forall|i: int|
            0 <= i < conditions.len() ==> (#[trigger] conditions[i]).operator
                != FilterOperator::Contains && conditions[i].operator != FilterOperator::IContains,
    ensures
        condition_documents(conditions).len() == conditions.len(),
        forall|i: int|
            0 <= i < conditions.len() ==> Some(#[trigger] condition_documents(conditions)[i])
                == condition_document(conditions[i]),
    decreases conditions.len(),
{
    if conditions.len() > 0 {
        let front = conditions.drop_last();
        assert forall|i: int| 0 <= i < front.len() implies (#[trigger] front[i]).operator
            != FilterOperator::Contains && front[i].operator != FilterOperator::IContains by {
            assert(front[i] == conditions[i]);
        }
        all_conditions_are_written(front);
        let last = conditions.last();
        assert(conditions[conditions.len() - 1] == last);
        let f = |c: FilterConditionView| condition_document(c);
        assert(conditions.filter_map(f) =~= front.filter_map(f) + seq![
            condition_document(last)->0,
        ]);
        assert forall|i: int| 0 <= i < conditions.len() implies Some(
            #[trigger] condition_documents(conditions)[i],
        ) == condition_document(conditions[i]) by {
            if i < front.len() {
                assert(condition_documents(conditions)[i] == condition_documents(front)[i]);
                assert(front[i] == conditions[i]);
            }
        }
    }
}

/// The hit tells of a vector: of its key, and of the payload that its metadata hold.
pub open spec fn is_hit_of(
    hit: VectorSearchResultView,
    vector: S3VectorView,
    now: Instant,
) -> bool {
    &&& hit.id == vector.key
    &&& hit.payload == document_payload(
        match vector.metadata {
            Some(doc) => doc,
            None => DocumentView::Null,
        },
        now,
    )
}

/// A search of the service gives each vector that the service found, in order and with its score. A
/// lookup gives the first one with the score one, or none if there is none.
pub proof fn services_are_taken_at_their_word(
    store: S3VectorsStoreView,
    vectors: Seq<S3VectorView>,
    now: Instant,
)
    ensures
        s3_next(
            store,
            S3RunView::Searching,
            S3ReplyView::Vectors(vectors),
            now,
        ) matches S3ProgressView::Done(Ok(S3OutcomeView::Hits(hits))) && hits.len() == vectors.len()
            && forall|i: int|
            0 <= i < hits.len() ==> is_hit_of(#[trigger] hits[i], vectors[i], now) && hits[i].score
                == vectors[i].score,
        s3_next(
            store,
            S3RunView::Getting,
            S3ReplyView::Vectors(vectors),
            now,
        ) matches S3ProgressView::Done(Ok(S3OutcomeView::Hit(found))) && match found {
            None => vectors.len() == 0,
            Some(hit) => vectors.len() > 0 && is_hit_of(hit, vectors[0], now) && hit.score.bits
                == 0x3f80_0000,
        },
{
}

/// The hits are those of the places, in order: the places are all those of vectors whose payload
/// the filter lets through.
pub open spec fn is_selection(
    hits: Seq<VectorSearchResultView>,
    vectors: Seq<S3VectorView>,
    filters: Option<FiltersView>,
    now: Instant,
    places: Seq<int>,
) -> bool {
    &&& places.len() == hits.len()
    &&& forall|i: int|
        0 <= i < places.len() ==> 0 <= (#[trigger] places[i]) < vectors.len() && is_hit_of(
            hits[i],
            vectors[places[i]],
            now,
        ) && is_match(hits[i].payload, filters) && hits[i].score.bits == 0x3f80_0000
    &&& forall|i: int, j: int|
        0 <= i < j < places.len() ==> (#[trigger] places[i]) < (#[trigger] places[j])
    &&& forall|k: int, hit: VectorSearchResultView|
        0 <= k < vectors.len() && #[trigger] is_hit_of(hit, vectors[k], now) && is_match(
            hit.payload,
            filters,
        ) ==> places.contains(k)
}

/// Of the vectors of an index, those count whose payload the filter lets through.
pub proof fn vectors_are_selected_by_their_payload(
    vectors: Seq<S3VectorView>,
    filters: Option<FiltersView>,
    now: Instant,
) -> (places: Seq<int>)
    ensures
        is_selection(matching_hits(vectors, filters, now), vectors, filters, now, places),
    decreases vectors.len(),
{
    let hit = |v: S3VectorView| full_hit(v, now);
    let keep = |h: VectorSearchResultView| is_match(h.payload, filters);
    let all = vectors.map_values(hit);
    if vectors.len() == 0 {
        all.lemma_filter_len(keep);
        Seq::empty()
    } else {
        let front = vectors.drop_last();
        let before = vectors_are_selected_by_their_payload(front, filters, now);
        let last = vectors.len() - 1;
        let h = hit(vectors.last());
        assert(all =~= front.map_values(hit).push(h));
        Seq::lemma_filter_push(front.map_values(hit), h, keep);
        let places = if is_match(h.payload, filters) {
            before.push(last)
        } else {
            before
        };
        let hits = matching_hits(vectors, filters, now);
        assert forall|i: int| 0 <= i < places.len() implies 0 <= (#[trigger] places[i])
            < vectors.len() && is_hit_of(hits[i], vectors[places[i]], now) && is_match(
            hits[i].payload,
            filters,
        ) && hits[i].score.bits == 0x3f80_0000 by {
            if i < before.len() {
                assert(places[i] == before[i]);
                assert(front[before[i]] == vectors[before[i]]);
            }
        }
        assert forall|k: int, x: VectorSearchResultView|
            0 <= k < vectors.len() && #[trigger] is_hit_of(x, vectors[k], now) && is_match(
                x.payload,
                filters,
            ) implies places.contains(k) by {
            if k < last {
                assert(front[k] == vectors[k]);
                assert(is_hit_of(x, front[k], now));
                assert(before.contains(k));
                let i = choose|i: int| 0 <= i < before.len() && before[i] == k;
                assert(places[i] == k);
            } else {
                assert(places[before.len() as int] == k);
            }
        }
        places
    }
}

/// Whatever the service fails at ends the operation in an error, but for one thing: where it is
/// looked for a bucket or an index, a failure may tell that there is none.
pub proof fn failures_of_the_service_are_errors(
    store: S3VectorsStoreView,
    run: S3RunView,
    text: Seq<char>,
    now: Instant,
)
    requires
        !(run is Checking),
        !(run is OpeningBucket),
        !(run is OpeningIndex),
    ensures
        s3_next(store, run, S3ReplyView::Failed(text), now) matches S3ProgressView::Done(Err(_)),
{
}

/// A failure tells that something is not there if its text says so in one of three ways, wherever
/// in the text; a failure that says none of them does not.
pub proof fn absence_is_told_anywhere(before: Seq<char>, after: Seq<char>, text: Seq<char>)
    ensures
        tells_absence(before + "NotFoundException"@ + after),
        tells_absence(before + "not found"@ + after),
        tells_absence(before + "Not Found"@ + after),
        !is_infix("NotFoundException"@, text) && !is_infix("not found"@, text) && !is_infix(
            "Not Found"@,
            text,
        ) ==> !tells_absence(text),
{
    middles_are_infixes(before, "NotFoundException"@, after);
    middles_are_infixes(before, "not found"@, after);
    middles_are_infixes(before, "Not Found"@, after);
}

/// Opening a store looks for its bucket and then for its index, and makes what is not there. The
/// index is made for the dimensions and the metric of the store, the latter in lower case, and the
/// content of memories cannot be filtered by.
pub proof fn opening_makes_what_is_missing(
    store: S3VectorsStoreView,
    text: Seq<char>,
    now: Instant,
)
    requires
        tells_absence(text),
    ensures
        ({
            let none = S3ReplyView::Failed(text);
            let index = S3CommandView::CreateIndex {
                dimension: store.dimensions as i32,
                metric: lowercase_of(store.distance_metric),
                unfiltered_key: "data"@,
            };
            &&& s3_next(store, S3RunView::OpeningBucket, S3ReplyView::Done, now) matches
                S3ProgressView::Ask(command, run) && command is GetIndex && run is OpeningIndex
            &&& s3_next(store, S3RunView::OpeningBucket, none, now) matches S3ProgressView::Ask(
                command,
                run,
            ) && command is CreateBucket && (s3_next(
                store,
                run,
                S3ReplyView::Done,
                now,
            ) matches S3ProgressView::Ask(next, _) && next is GetIndex)
            &&& s3_next(store, S3RunView::OpeningIndex, S3ReplyView::Done, now) matches
                S3ProgressView::Done(Ok(_))
            &&& s3_next(store, S3RunView::OpeningIndex, none, now) matches S3ProgressView::Ask(
                command,
                run,
            ) && command == index && (s3_next(
                store,
                run,
                S3ReplyView::Done,
                now,
            ) matches S3ProgressView::Done(Ok(_)))
            &&& s3_next(store, S3RunView::Checking, none, now) matches S3ProgressView::Done(
                Ok(S3OutcomeView::Exists(false)),
            )
            &&& s3_next(store, S3RunView::Checking, S3ReplyView::Done, now) matches
                S3ProgressView::Done(Ok(S3OutcomeView::Exists(true)))
        }),
{
}

/// Deleting everything deletes the index, and makes it anew as it was.
pub proof fn deleting_everything_makes_the_index_anew(store: S3VectorsStoreView, now: Instant)
    ensures
        s3_next(store, S3RunView::Dropping, S3ReplyView::Done, now) matches S3ProgressView::Ask(
            command,
            run,
        ) && command == (S3CommandView::CreateIndex {
            dimension: store.dimensions as i32,
            metric: lowercase_of(store.distance_metric),
            unfiltered_key: "data"@,
        }) && (s3_next(store, run, S3ReplyView::Done, now) matches S3ProgressView::Done(
            Ok(S3OutcomeView::Count(0)),
        )),
{
}

/// A memory that is not there, or has no embedding, is not updated.
pub proof fn only_stored_vectors_are_updated(
    store: S3VectorsStoreView,
    id: Seq<char>,
    payload: PayloadView,
    vectors: Seq<S3VectorView>,
    now: Instant,
)
    ensures
        ({
            let next = s3_next(
                store,
                S3RunView::Fetching { id, payload },
                S3ReplyView::Vectors(vectors),
                now,
            );
            &&& vectors.len() == 0 ==> (next matches S3ProgressView::Done(
                Err(VectorStoreErrorView::NotFound(i)),
            ) && i == id)
            &&& vectors.len() > 0 && vectors[0].data is None ==> (next matches
                S3ProgressView::Done(Err(VectorStoreErrorView::Update(_))))
            &&& vectors.len() > 0 && vectors[0].data is Some ==> (next matches
                S3ProgressView::Ask(S3CommandView::PutVector { key, data, .. }, run) && key == id
                && Some(data) == vectors[0].data && (s3_next(
                store,
                run,
                S3ReplyView::Done,
                now,
            ) matches S3ProgressView::Done(Ok(S3OutcomeView::Finished))))
        }),
{
}

/// A store is that of the configuration: its bucket, its index and its dimensions, and its metric,
/// which is the cosine if it is not said.
pub proof fn stores_are_those_of_their_configuration(
    config: S3VectorsConfigView,
    index_name: Seq<char>,
    dimensions: usize,
)
    ensures
        ({
            let store = store_of(config, index_name, dimensions);
            &&& store.vector_bucket_name == config.bucket_name
            &&& store.index_name == index_name
            &&& store.dimensions == dimensions
            &&& config.distance_metric matches Some(m) ==> store.distance_metric == m
            &&& config.distance_metric is None ==> store.distance_metric == "cosine"@
        }),
{
}

/// A member of a document is a text exactly if one is given.
pub open spec fn holds_text(
    members: Map<Seq<char>, DocumentView>,
    key: Seq<char>,
    text: Option<Seq<char>>,
) -> bool {
    match text {
        Some(t) => members.contains_key(key) && members[key] == DocumentView::String(t),
        None => !members.contains_key(key),
    }
}

/// The document of a payload has a member for each of its fields, under the name by which filters
/// ask for it, and one for each entry of its metadata. What is not given has none.
pub proof fn documents_can_be_filtered_by_their_fields(
    payload: PayloadView,
    text: Seq<char>,
    key: Seq<char>,
)
    requires
        keeps_to_its_keys(payload),
    ensures
        payload_document_with(payload, text) matches DocumentView::Object(members) && {
            &&& holds_text(members, "user_id"@, payload.user_id)
            &&& holds_text(members, "agent_id"@, payload.agent_id)
            &&& holds_text(members, "run_id"@, payload.run_id)
            &&& holds_text(members, "hash"@, Some(payload.hash))
            &&& holds_text(members, "data"@, Some(payload.data))
            &&& holds_text(members, "created_at"@, Some(text))
            &&& match payload.memory_type {
                Some(_) => members.contains_key("memory_type"@) && (
                members["memory_type"@] matches DocumentView::String(name) && is_kind(
                    payload.memory_type,
                    name,
                )),
                None => !members.contains_key("memory_type"@),
            }
            &&& payload.metadata.contains_key(key) ==> members.contains_key(key) && members[key]
                == document_of(payload.metadata[key])
        },
{
    field_keys_differ();
    let fields = field_members(payload, text);
    let entries = metadata_members(payload.metadata);
    assert forall|k: Seq<char>| is_field_key(k) implies !(#[trigger] entries.contains_key(k)) by {
        assert(payload.metadata.contains_key(k) == entries.contains_key(k));
    }
    assert(!entries.contains_key("data"@));
    assert(!entries.contains_key("hash"@));
    assert(!entries.contains_key("created_at"@));
    assert(!entries.contains_key("user_id"@));
    assert(!entries.contains_key("agent_id"@));
    assert(!entries.contains_key("run_id"@));
    assert(!entries.contains_key("memory_type"@));
    assert(payload.metadata.contains_key(key) == entries.contains_key(key));
}

/// A document holds the values that it is made of: texts, truth values and null as they are, a
/// small whole number as the double that stands for it, and a double as it is.
pub proof fn documents_hold_their_values(text: Seq<char>, p: bool, n: u64, bits: u64)
    requires
        n <= 0x20_0000_0000_0000,
    ensures
        document_of(JsonView::String(text)) == DocumentView::String(text),
        document_of(JsonView::Bool(p)) == DocumentView::Bool(p),
        document_of(JsonView::Null) == DocumentView::Null,
        document_of(JsonView::Number(JsonNumber::Float(bits))) == DocumentView::Number(
            JsonNumber::Float(bits),
        ),
        document_of(JsonView::Number(JsonNumber::PosInt(n))) matches DocumentView::Number(
            JsonNumber::Float(b),
        ) && size_of_bits(b as nat, 0x10_0000_0000_0000) == n * pow2(1074),
{
    doubles_fit(JsonNumber::PosInt(n));
    small_doubles_stand_for_themselves(n as nat);
}

/// No request names more than five hundred keys.
pub proof fn requests_name_at_most_five_hundred(keys: Seq<Seq<char>>, i: int)
    requires
        0 <= i < in_batches(keys).len(),
    ensures
        0 < in_batches(keys)[i].keys.len() <= 500,
{
    batches_hold_all_keys(keys);
}

} // verus!
