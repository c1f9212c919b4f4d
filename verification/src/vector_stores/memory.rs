//! A store that keeps memories in the process.
use vstd::prelude::*;

use crate::errors::{VectorStoreError, VectorStoreErrorView};
use crate::memory::manager::at_most;
use crate::models::{
    Filters, FiltersView, Payload, PayloadView, VectorSearchResult, VectorSearchResultView,
};
use crate::ranking::{rank, ranked, Score, Scored, FULL_SCORE};
use crate::text_map::TextMap;
use crate::vector_stores::filter_eval::{is_match, matches_filters};
use crate::views::{copy_numbers, opt_ref_view, opt_view, views, Duplicate};

verus! {

/// A stored memory.
#[derive(Debug)]
pub struct Entry {
    pub embedding: Vec<u32>,
    pub payload: Payload,
}

/// [`Entry`], as contracts see it.
#[verifier::ext_equal]
pub struct EntryView {
    pub embedding: Seq<u32>,
    pub payload: PayloadView,
}

impl View for Entry {
    type V = EntryView;

    open spec fn view(&self) -> EntryView {
        EntryView {
            embedding: self.embedding@,
            payload: self.payload@,
        }
    }
}

/// What stored memories are.
pub open spec fn stored(entries: Map<Seq<char>, Entry>) -> Map<Seq<char>, EntryView> {
    entries.map_values(|e: Entry| e@)
}

/// A store that keeps memories in the process, by their identifiers.
#[derive(Debug)]
pub struct InMemoryStore {
    entries: TextMap<Entry>,
}

impl View for InMemoryStore {
    type V = Map<Seq<char>, EntryView>;

    closed spec fn view(&self) -> Map<Seq<char>, EntryView> {
        stored(self.entries@)
    }
}

impl Scored for VectorSearchResult {
    open spec fn score_of(value: VectorSearchResultView) -> Score {
        value.score
    }

    fn score(&self) -> Score {
        self.score
    }
}

/// A memory that was not asked for by its likeness to something.
pub open spec fn plain_hit(id: Seq<char>, payload: PayloadView) -> VectorSearchResultView {
    VectorSearchResultView { id, score: Score { bits: FULL_SCORE }, payload }
}

/// What a store has under an identifier.
pub open spec fn store_get(store: Map<Seq<char>, EntryView>, id: Seq<char>) -> Option<
    VectorSearchResultView,
> {
    if store.contains_key(id) {
        Some(plain_hit(id, store[id].payload))
    } else {
        None
    }
}

/// The store after a memory was put in.
pub open spec fn store_insert(
    store: Map<Seq<char>, EntryView>,
    id: Seq<char>,
    embedding: Seq<u32>,
    payload: PayloadView,
) -> Map<Seq<char>, EntryView> {
    store.insert(id, EntryView { embedding, payload })
}

/// The store after a memory that it has was replaced. Without a new embedding the old one stays.
pub open spec fn store_update(
    store: Map<Seq<char>, EntryView>,
    id: Seq<char>,
    embedding: Option<Seq<u32>>,
    payload: PayloadView,
) -> Map<Seq<char>, EntryView> {
    store.insert(
        id,
        EntryView {
            embedding: match embedding {
                Some(e) => e,
                None => store[id].embedding,
            },
            payload,
        },
    )
}

/// The memories of a list of identifiers that a filter lets through.
pub open spec fn matching(
    keys: Seq<Seq<char>>,
    store: Map<Seq<char>, EntryView>,
    filters: Option<FiltersView>,
) -> Seq<Seq<char>> {
    keys.filter(|id: Seq<char>| is_match(store[id].payload, filters))
}

/// The store after the memories that a filter lets through were taken out.
pub open spec fn store_delete_all(
    store: Map<Seq<char>, EntryView>,
    filters: Option<FiltersView>,
) -> Map<Seq<char>, EntryView> {
    store.restrict(
        Set::new(|id: Seq<char>| store.contains_key(id) && !is_match(store[id].payload, filters)),
    )
}

/// The identifiers are those of the store, each once.
pub open spec fn lists_store(keys: Seq<Seq<char>>, store: Map<Seq<char>, EntryView>) -> bool {
    &&& keys.no_duplicates()
    &&& forall|id: Seq<char>| #[trigger] keys.contains(id) <==> store.contains_key(id)
}

impl InMemoryStore {
    /// The identifiers of the stored memories, in the order in which the store goes through them.
    pub closed spec fn keys(&self) -> Seq<Seq<char>> {
        self.entries.keys()
    }

    /// The store without memories.
    pub fn new() -> (r: Self)
        ensures
            r@ == Map::<Seq<char>, EntryView>::empty(),
    {
        let r = InMemoryStore { entries: TextMap::new() };
        proof {
            assert(r@ =~= Map::<Seq<char>, EntryView>::empty());
        }
        r
    }

    /// How many memories there are.
    fn count(&self) -> (n: usize)
        ensures
            n == self.keys().len(),
            lists_store(self.keys(), self@),
    {
        let n = self.entries.len();
        proof {
            self.entries.keys_are_the_domain();
            assert forall|id: Seq<char>| #[trigger] self.keys().contains(id)
                <==> self@.contains_key(id) by {
                assert(self.entries@.contains_key(id) == self.entries.keys().contains(id));
            }
        }
        n
    }

    /// Puts a memory in, in place of one that is there under the same identifier.
    pub fn insert(&mut self, id: &str, embedding: Vec<u32>, payload: Payload) -> (r: Result<
        (),
        VectorStoreError,
    >)
        ensures
            r is Ok,
            final(self)@ == store_insert(old(self)@, id@, embedding@, payload@),
    {
        let ghost entry = EntryView { embedding: embedding@, payload: payload@ };
        self.entries.insert(id.to_owned(), Entry { embedding, payload });
        proof {
            assert(self@ =~= old(self)@.insert(id@, entry));
        }
        Ok(())
    }

    /// Gets a memory.
    pub fn get(&self, id: &str) -> (r: Result<Option<VectorSearchResult>, VectorStoreError>)
        ensures
            r matches Ok(found) && opt_view(found) == store_get(self@, id@),
    {
        match self.entries.get(id) {
            Some(entry) => Ok(
                Some(
                    VectorSearchResult {
                        id: id.to_owned(),
                        score: Score::full(),
                        payload: entry.payload.duplicate(),
                    },
                ),
            ),
            None => Ok(None),
        }
    }

    /// Takes a memory out. There has to be one.
    pub fn delete(&mut self, id: &str) -> (r: Result<(), VectorStoreError>)
        ensures
            final(self)@ == old(self)@.remove(id@),
            match r {
                Ok(_) => old(self)@.contains_key(id@),
                Err(e) => !old(self)@.contains_key(id@) && e@ == VectorStoreErrorView::NotFound(id@),
            },
    {
        let removed = self.entries.remove(id);
        proof {
            assert(self@ =~= old(self)@.remove(id@));
        }
        match removed {
            Some(_) => Ok(()),
            None => Err(VectorStoreError::NotFound(id.to_owned())),
        }
    }

    /// Replaces a memory. There has to be one. Without a new embedding the old one stays.
    pub fn update(&mut self, id: &str, embedding: Option<Vec<u32>>, payload: Payload) -> (r: Result<
        (),
        VectorStoreError,
    >)
        ensures
            match r {
                Ok(_) => old(self)@.contains_key(id@) && final(self)@ == store_update(
                    old(self)@,
                    id@,
                    opt_view(embedding),
                    payload@,
                ),
                Err(e) => !old(self)@.contains_key(id@) && final(self)@ == old(self)@ && e@
                    == VectorStoreErrorView::NotFound(id@),
            },
    {
        let kept: Vec<u32> = match self.entries.get(id) {
            Some(entry) => copy_numbers(&entry.embedding),
            None => {
                return Err(VectorStoreError::NotFound(id.to_owned()));
            },
        };
        let new: Vec<u32> = match embedding {
            Some(e) => e,
            None => kept,
        };
        let ghost entry = EntryView { embedding: new@, payload: payload@ };
        self.entries.insert(id.to_owned(), Entry { embedding: new, payload });
        proof {
            assert(self@ =~= old(self)@.insert(id@, entry));
        }
        Ok(())
    }

    /// Lists memories that a filter lets through, at most so many.
    pub fn list(&self, filters: Option<&Filters>, limit: usize) -> (r: Result<
        Vec<VectorSearchResult>,
        VectorStoreError,
    >)
        ensures
            lists_store(self.keys(), self@),
            r matches Ok(found) && views(found@) == at_most(
                matching(self.keys(), self@, opt_ref_view(filters)).map_values(
                    |id: Seq<char>| plain_hit(id, self@[id].payload),
                ),
                limit,
            ),
    {
        let ghost keys = self.keys();
        let ghost f = opt_ref_view(filters);
        let ghost keep = |id: Seq<char>| is_match(self@[id].payload, f);
        let ghost hit = |id: Seq<char>| plain_hit(id, self@[id].payload);
        let n = self.count();
        let mut found: Vec<VectorSearchResult> = Vec::new();
        let mut i: usize = 0;
        proof {
            assert(keys.take(0) =~= Seq::empty());
            assert(views(found@) =~= keys.take(0).filter(keep).map_values(hit));
        }
        while i < n && found.len() < limit
            invariant
                i <= n,
                n == keys.len(),
                keys == self.entries.keys(),
                f == opt_ref_view(filters),
                keep == (|id: Seq<char>| is_match(self@[id].payload, f)),
                hit == (|id: Seq<char>| plain_hit(id, self@[id].payload)),
                found@.len() <= limit,
                views(found@) == keys.take(i as int).filter(keep).map_values(hit),
            decreases n - i,
        {
            let (id, entry) = self.entries.entry(i);
            let ghost before = keys.take(i as int).filter(keep);
            proof {
                assert(keys.take(i + 1) =~= keys.take(i as int).push(keys[i as int]));
                Seq::lemma_filter_push(keys.take(i as int), keys[i as int], keep);
                assert(self@[id@] == entry@);
            }
            if matches_filters(&entry.payload, filters) {
                let ghost seen = views(found@);
                found.push(
                    VectorSearchResult {
                        id: id.clone(),
                        score: Score::full(),
                        payload: entry.payload.duplicate(),
                    },
                );
                proof {
                    assert(views(found@) =~= seen.push(hit(id@)));
                    assert(before.push(id@).map_values(hit) =~= before.map_values(hit).push(
                        hit(id@),
                    ));
                }
            }
            i += 1;
        }
        proof {
            let all = matching(keys, self@, f);
            assert(keys =~= keys.take(i as int) + keys.skip(i as int));
            Seq::filter_distributes_over_add(keys.take(i as int), keys.skip(i as int), keep);
            let head = keys.take(i as int).filter(keep);
            assert(all == head + keys.skip(i as int).filter(keep));
            if i == n {
                assert(keys.take(i as int) =~= keys);
                assert(views(found@) =~= at_most(all.map_values(hit), limit));
            } else {
                assert(found@.len() == limit);
                assert(head.map_values(hit) =~= all.map_values(hit).take(limit as int));
                if all.len() == limit {
                    assert(head =~= all);
                }
            }
            assert(hit =~= (|id: Seq<char>| plain_hit(id, self@[id].payload)));
        }
        Ok(found)
    }

    /// Finds the memories that a filter lets through and that score best, best first and at most
    /// so many. The score of a memory is what `likeness` makes of its embedding.
    pub fn search<F: Fn(&Vec<u32>) -> Score>(
        &self,
        likeness: F,
        limit: usize,
        filters: Option<&Filters>,
    ) -> (r: Result<Vec<VectorSearchResult>, VectorStoreError>)
        requires
            forall|e: &Vec<u32>| #[trigger] call_requires(likeness, (e,)),
        ensures
            lists_store(self.keys(), self@),
            r matches Ok(found) && exists|hits: Seq<VectorSearchResultView>|
                scored_hits(
                    hits,
                    matching(self.keys(), self@, opt_ref_view(filters)),
                    self@,
                    likeness,
                ) && views(found@) == #[trigger] best_hits(hits, limit),
    {
        let ghost keys = self.keys();
        let ghost f = opt_ref_view(filters);
        let ghost keep = |id: Seq<char>| is_match(self@[id].payload, f);
        let n = self.count();
        let mut found: Vec<VectorSearchResult> = Vec::new();
        let mut i: usize = 0;
        proof {
            assert(keys.take(0) =~= Seq::empty());
            assert(scored_hits(views(found@), keys.take(0).filter(keep), self@, likeness));
        }
        while i < n
            invariant
                i <= n,
                n == keys.len(),
                keys == self.entries.keys(),
                f == opt_ref_view(filters),
                keep == (|id: Seq<char>| is_match(self@[id].payload, f)),
                forall|e: &Vec<u32>| #[trigger] call_requires(likeness, (e,)),
                scored_hits(views(found@), keys.take(i as int).filter(keep), self@, likeness),
            decreases n - i,
        {
            let (id, entry) = self.entries.entry(i);
            let ghost before = keys.take(i as int).filter(keep);
            proof {
                assert(keys.take(i + 1) =~= keys.take(i as int).push(keys[i as int]));
                Seq::lemma_filter_push(keys.take(i as int), keys[i as int], keep);
                assert(self@[id@] == entry@);
            }
            if matches_filters(&entry.payload, filters) {
                let ghost seen = views(found@);
                let score = likeness(&entry.embedding);
                proof {
                    let v = entry.embedding;
                    assert(v@ == entry@.embedding && call_ensures(likeness, (&v,), score));
                    assert(may_rate(likeness, self@[id@].embedding, score));
                }
                let hit = VectorSearchResult {
                    id: id.clone(),
                    score,
                    payload: entry.payload.duplicate(),
                };
                let ghost h = hit@;
                found.push(hit);
                proof {
                    assert(views(found@) =~= seen.push(h));
                    assert(scored_hits(seen.push(h), before.push(id@), self@, likeness));
                }
            }
            i += 1;
        }
        proof {
            assert(keys.take(n as int) =~= keys);
        }
        let ghost hits = views(found@);
        let mut best = rank(found);
        let ghost all = views(best@);
        best.truncate(limit);
        proof {
            assert((|v: VectorSearchResultView| VectorSearchResult::score_of(v)) =~= (
            |h: VectorSearchResultView| h.score));
            assert(views(best@) =~= best_hits(hits, limit));
            assert(scored_hits(hits, matching(keys, self@, f), self@, likeness));
        }
        Ok(best)
    }

    /// Takes out all memories that a filter lets through, and says how many they were.
    pub fn delete_all(&mut self, filters: Option<&Filters>) -> (r: Result<usize, VectorStoreError>)
        ensures
            final(self)@ == store_delete_all(old(self)@, opt_ref_view(filters)),
            lists_store(old(self).keys(), old(self)@),
            r matches Ok(count) && count == matching(
                old(self).keys(),
                old(self)@,
                opt_ref_view(filters),
            ).len(),
    {
        let ghost keys = self.keys();
        let ghost store = self@;
        let ghost f = opt_ref_view(filters);
        let ghost keep = |id: Seq<char>| is_match(store[id].payload, f);
        let n = self.count();
        let mut doomed: Vec<String> = Vec::new();
        let mut i: usize = 0;
        proof {
            assert(keys.take(0) =~= Seq::empty());
            assert(views(doomed@) =~= keys.take(0).filter(keep));
        }
        while i < n
            invariant
                i <= n,
                n == keys.len(),
                keys == self.entries.keys(),
                store == self@,
                *self == *old(self),
                f == opt_ref_view(filters),
                keep == (|id: Seq<char>| is_match(store[id].payload, f)),
                views(doomed@) == keys.take(i as int).filter(keep),
            decreases n - i,
        {
            let (id, entry) = self.entries.entry(i);
            proof {
                assert(keys.take(i + 1) =~= keys.take(i as int).push(keys[i as int]));
                Seq::lemma_filter_push(keys.take(i as int), keys[i as int], keep);
                assert(self@[id@] == entry@);
            }
            if matches_filters(&entry.payload, filters) {
                let ghost seen = views(doomed@);
                doomed.push(id.clone());
                proof {
                    assert(views(doomed@) =~= seen.push(id@));
                }
            }
            i += 1;
        }
        proof {
            assert(keys.take(n as int) =~= keys);
        }
        let ghost gone = views(doomed@);
        let mut k: usize = 0;
        while k < doomed.len()
            invariant
                k <= doomed@.len(),
                gone == views(doomed@),
                self@ == store.remove_keys(gone.take(k as int).to_set()),
            decreases doomed@.len() - k,
        {
            let ghost before = self@;
            let _ = self.entries.remove(doomed[k].as_str());
            proof {
                assert(gone[k as int] == doomed@[k as int]@);
                assert(gone.take(k + 1) =~= gone.take(k as int).push(gone[k as int]));
                assert(self@ =~= before.remove(gone[k as int]));
                assert(self@ =~= store.remove_keys(gone.take(k + 1).to_set())) by {
                    assert forall|id: Seq<char>| #[trigger] gone.take(k + 1).contains(id)
                        <==> gone.take(k as int).contains(id) || id == gone[k as int] by {
                        let longer = gone.take(k + 1);
                        if gone.take(k as int).contains(id) {
                            let j = choose|j: int|
                                0 <= j < gone.take(k as int).len() && gone.take(k as int)[j] == id;
                            assert(longer[j] == id);
                        }
                        if id == gone[k as int] {
                            assert(longer[k as int] == id);
                        }
                    }
                }
            }
            k += 1;
        }
        proof {
            assert(gone.take(doomed@.len() as int) =~= gone);
            assert forall|id: Seq<char>| store.contains_key(id) implies (#[trigger] gone.contains(
                id,
            ) <==> is_match(store[id].payload, f)) by {
                assert(keys.contains(id));
                if is_match(store[id].payload, f) {
                    let j = choose|j: int| 0 <= j < keys.len() && keys[j] == id;
                    keys.lemma_filter_contains(keep, j);
                }
                if gone.contains(id) {
                    let j = choose|j: int| 0 <= j < gone.len() && gone[j] == id;
                    keys.lemma_filter_pred(keep, j);
                }
            }
            assert(self@ =~= store_delete_all(store, f));
        }
        Ok(doomed.len())
    }

    /// Whether the place for memories is there: always.
    pub fn collection_exists(&self) -> (r: Result<bool, VectorStoreError>)
        ensures
            r matches Ok(there) && there,
    {
        Ok(true)
    }

    /// Makes the place for memories: there is nothing to do.
    pub fn create_collection(&mut self) -> (r: Result<(), VectorStoreError>)
        ensures
            r is Ok,
            final(self)@ == old(self)@,
    {
        Ok(())
    }
}

impl Default for InMemoryStore {
    fn default() -> (r: Self)
        ensures
            r@ == Map::<Seq<char>, EntryView>::empty(),
    {
        InMemoryStore::new()
    }
}

/// The score is one that an embedding may be given.
pub open spec fn may_rate<F: Fn(&Vec<u32>) -> Score>(
    likeness: F,
    embedding: Seq<u32>,
    score: Score,
) -> bool {
    exists|v: Vec<u32>| v@ == embedding && #[trigger] call_ensures(likeness, (&v,), score)
}

/// The best of some hits, best first.
pub open spec fn best_hits(hits: Seq<VectorSearchResultView>, limit: usize) -> Seq<
    VectorSearchResultView,
> {
    at_most(ranked(hits, |h: VectorSearchResultView| h.score), limit)
}

/// The hits are the memories with the identifiers, in order, each with a score that its embedding
/// may be given.
pub open spec fn scored_hits<F: Fn(&Vec<u32>) -> Score>(
    hits: Seq<VectorSearchResultView>,
    ids: Seq<Seq<char>>,
    store: Map<Seq<char>, EntryView>,
    likeness: F,
) -> bool {
    &&& hits.len() == ids.len()
    &&& forall|i: int|
        0 <= i < hits.len() ==> (#[trigger] hits[i]).id == ids[i] && hits[i].payload
            == store[ids[i]].payload && may_rate(likeness, store[ids[i]].embedding, hits[i].score)
}

/// A read gives back the last write: what was put in or replaced is there with the payload that
/// was written, and what was taken out is not there.
pub proof fn reads_give_back_the_last_write(
    store: Map<Seq<char>, EntryView>,
    id: Seq<char>,
    embedding: Seq<u32>,
    new_embedding: Option<Seq<u32>>,
    payload: PayloadView,
)
    ensures
        store_get(store_insert(store, id, embedding, payload), id) == Some(plain_hit(id, payload)),
        store_get(store_update(store, id, new_embedding, payload), id) == Some(
            plain_hit(id, payload),
        ),
        store_get(store.remove(id), id) is None,
{
}

/// Writing one memory leaves all others as they are.
pub proof fn writes_leave_others_alone(
    store: Map<Seq<char>, EntryView>,
    id: Seq<char>,
    embedding: Seq<u32>,
    new_embedding: Option<Seq<u32>>,
    payload: PayloadView,
    other: Seq<char>,
)
    requires
        other != id,
    ensures
        store_get(store_insert(store, id, embedding, payload), other) == store_get(store, other),
        store_get(store_update(store, id, new_embedding, payload), other) == store_get(
            store,
            other,
        ),
        store_get(store.remove(id), other) == store_get(store, other),
{
}

/// Replacing a memory without a new embedding keeps the one that it has.
pub proof fn updates_keep_the_embedding(
    store: Map<Seq<char>, EntryView>,
    id: Seq<char>,
    payload: PayloadView,
)
    ensures
        store_update(store, id, None, payload)[id].embedding == store[id].embedding,
{
}

/// After all memories of a filter were taken out, no memory that it lets through is left, and
/// every other one is as it was.
pub proof fn deleting_all_spares_the_rest(
    store: Map<Seq<char>, EntryView>,
    filters: Option<FiltersView>,
    id: Seq<char>,
)
    ensures
        store_get(store_delete_all(store, filters), id) == (if store.contains_key(id) && is_match(
            store[id].payload,
            filters,
        ) {
            None
        } else {
            store_get(store, id)
        }),
{
}

/// A list holds as many memories as the filter lets through, but no more than were asked for, and
/// the filter lets each of them through.
pub proof fn lists_hold_what_matches(
    keys: Seq<Seq<char>>,
    store: Map<Seq<char>, EntryView>,
    filters: Option<FiltersView>,
    limit: usize,
)
    requires
        lists_store(keys, store),
    ensures
        ({
            let found = at_most(
                matching(keys, store, filters).map_values(
                    |id: Seq<char>| plain_hit(id, store[id].payload),
                ),
                limit,
            );
            &&& found.len() == if matching(keys, store, filters).len() <= limit {
                matching(keys, store, filters).len()
            } else {
                limit as nat
            }
            &&& forall|i: int|
                0 <= i < found.len() ==> is_match((#[trigger] found[i]).payload, filters)
                    && store_get(store, found[i].id) == Some(found[i])
        }),
{
    let keep = |id: Seq<char>| is_match(store[id].payload, filters);
    let ids = matching(keys, store, filters);
    let found = at_most(
        ids.map_values(|id: Seq<char>| plain_hit(id, store[id].payload)),
        limit,
    );
    assert forall|i: int| 0 <= i < found.len() implies is_match(
        (#[trigger] found[i]).payload,
        filters,
    ) && store_get(store, found[i].id) == Some(found[i]) by {
        keys.lemma_filter_pred(keep, i);
        crate::views::filtered_values_are_of_the_list(keys, keep, i);
        assert(keys.contains(ids[i]));
    }
}

} // verus!
