//! The operations on memories.
use vstd::prelude::*;

use crate::errors::{MemoryError, MemoryErrorView};
use crate::ids::{parse_uuid, uuid_complaint, uuid_of};
use crate::memory::protocol::{
    break_off, broken_off, failed, Change, ChangeView, Command, CommandView, Encoding, Fresh,
    FreshView, Progress, ProgressView, Reply, ReplyView, Run,
};
use crate::memory::scope::{
    build_scope_filters, merge_filters, merged_filters, refusal, refuse, scope_filters, Caller,
    CallerView,
};
use crate::models::{
    payload_of, record_of, DeleteOptions, EventType, GetAllOptions,
    GetAllOptionsView, HistoryEntry, HistoryEntryView, MemoryRecord, MemoryRecordView,
    ResetOptions, ResetOptionsView, ScoredMemory, ScoredMemoryView, SearchOptions,
    SearchOptionsView, UpdateOptions, VectorSearchResult,
    VectorSearchResultView,
};
use crate::clock::{Instant, Timestamp};
use crate::ranking::{rank, ranked, reaches, Score, Scored};
use crate::views::{copy_opt, opt_view, views};

verus! {

/// The entry to all operations: which services there are besides the embedder and the store.
#[derive(Clone, Copy, Debug, PartialEq, Eq, Structural)]
pub struct Memory {
    /// There is a language model.
    pub has_llm: bool,
    /// Changes are kept in a history.
    pub has_history: bool,
    /// There is a reranker.
    pub has_reranker: bool,
}

/// A memory that was asked for, if there is one.
#[derive(Debug)]
pub struct Lookup {
    pub record: Option<MemoryRecord>,
}

/// [`Lookup`], as contracts see it.
#[verifier::ext_equal]
pub struct LookupView {
    pub record: Option<MemoryRecordView>,
}

impl View for Lookup {
    type V = LookupView;

    open spec fn view(&self) -> LookupView {
        LookupView {
            record: opt_view(self.record),
        }
    }
}

/// The memories of a scope.
#[derive(Debug)]
pub struct Listing {
    pub records: Vec<MemoryRecord>,
}

/// [`Listing`], as contracts see it.
#[verifier::ext_equal]
pub struct ListingView {
    pub records: Seq<MemoryRecordView>,
}

impl View for Listing {
    type V = ListingView;

    open spec fn view(&self) -> ListingView {
        ListingView {
            records: views(self.records@),
        }
    }
}

/// The memories most like a query, best first.
#[derive(Debug)]
pub struct SearchResult {
    pub results: Vec<ScoredMemory>,
}

/// [`SearchResult`], as contracts see it.
#[verifier::ext_equal]
pub struct SearchResultView {
    pub results: Seq<ScoredMemoryView>,
}

impl View for SearchResult {
    type V = SearchResultView;

    open spec fn view(&self) -> SearchResultView {
        SearchResultView {
            results: views(self.results@),
        }
    }
}

/// The changes of a memory, the latest first.
#[derive(Debug)]
pub struct Ledger {
    pub entries: Vec<HistoryEntry>,
}

/// [`Ledger`], as contracts see it.
#[verifier::ext_equal]
pub struct LedgerView {
    pub entries: Seq<HistoryEntryView>,
}

impl View for Ledger {
    type V = LedgerView;

    open spec fn view(&self) -> LedgerView {
        LedgerView {
            entries: views(self.entries@),
        }
    }
}

/// The end of an operation that gives nothing back.
#[derive(Clone, Copy, Debug, PartialEq, Eq, Structural)]
pub struct Finished {}

impl View for Finished {
    type V = Finished;

    open spec fn view(&self) -> Finished {
        *self
    }
}

/// A memory is being fetched.
#[derive(Clone, Copy, Debug, PartialEq, Eq, Structural)]
pub struct GetRun {}

impl View for GetRun {
    type V = GetRun;

    open spec fn view(&self) -> GetRun {
        *self
    }
}

/// Memories are being listed.
#[derive(Clone, Copy, Debug, PartialEq, Eq, Structural)]
pub struct GetAllRun {}

impl View for GetAllRun {
    type V = GetAllRun;

    open spec fn view(&self) -> GetAllRun {
        *self
    }
}

/// Changes are being read.
#[derive(Clone, Copy, Debug, PartialEq, Eq, Structural)]
pub struct HistoryRun {}

impl View for HistoryRun {
    type V = HistoryRun;

    open spec fn view(&self) -> HistoryRun {
        *self
    }
}

/// A search on its way.
#[derive(Debug)]
pub enum SearchRun {
    /// The query is being encoded.
    Encoding { query: String, options: SearchOptions, span: usize, reranker: bool },
    /// The store is being searched.
    Querying { query: String, options: SearchOptions, reranker: bool },
    /// What was found is being scored anew.
    Reranking { limit: usize },
}

/// [`SearchRun`], as contracts see it.
#[verifier::ext_equal]
pub enum SearchRunView {
    Encoding { query: Seq<char>, options: SearchOptionsView, span: usize, reranker: bool },
    Querying { query: Seq<char>, options: SearchOptionsView, reranker: bool },
    Reranking { limit: usize },
}

impl View for SearchRun {
    type V = SearchRunView;

    open spec fn view(&self) -> SearchRunView {
        match self {
            SearchRun::Encoding { query, options, span, reranker } => SearchRunView::Encoding {
                query: query@,
                options: options@,
                span: *span,
                reranker: *reranker,
            },
            SearchRun::Querying { query, options, reranker } => SearchRunView::Querying {
                query: query@,
                options: options@,
                reranker: *reranker,
            },
            SearchRun::Reranking { limit } => SearchRunView::Reranking {
                limit: *limit,
            },
        }
    }
}

/// An update on its way. It is made on behalf of a caller, or by the library itself.
#[derive(Debug)]
pub enum UpdateRun {
    /// The memory is being fetched.
    Fetching { id: String, content: String, caller: Option<Caller>, history: bool },
    /// The new content is being encoded.
    Encoding { id: String, record: MemoryRecord, previous: String, history: bool },
    /// The memory is being replaced.
    Replacing { record: MemoryRecord, previous: String, history: bool },
    /// The change is being kept.
    Recording { record: MemoryRecord },
}

/// [`UpdateRun`], as contracts see it.
#[verifier::ext_equal]
pub enum UpdateRunView {
    Fetching { id: Seq<char>, content: Seq<char>, caller: Option<CallerView>, history: bool },
    Encoding { id: Seq<char>, record: MemoryRecordView, previous: Seq<char>, history: bool },
    Replacing { record: MemoryRecordView, previous: Seq<char>, history: bool },
    Recording { record: MemoryRecordView },
}

impl View for UpdateRun {
    type V = UpdateRunView;

    open spec fn view(&self) -> UpdateRunView {
        match self {
            UpdateRun::Fetching { id, content, caller, history } => UpdateRunView::Fetching {
                id: id@,
                content: content@,
                caller: opt_view(*caller),
                history: *history,
            },
            UpdateRun::Encoding { id, record, previous, history } => UpdateRunView::Encoding {
                id: id@,
                record: record@,
                previous: previous@,
                history: *history,
            },
            UpdateRun::Replacing { record, previous, history } => UpdateRunView::Replacing {
                record: record@,
                previous: previous@,
                history: *history,
            },
            UpdateRun::Recording { record } => UpdateRunView::Recording {
                record: record@,
            },
        }
    }
}

/// A deletion on its way. It is made on behalf of a caller, or by the library itself.
#[derive(Debug)]
pub enum DeleteRun {
    /// The memory is being fetched.
    Fetching { id: String, caller: Option<Caller>, history: bool },
    /// The memory is being taken out.
    Removing { record: Option<MemoryRecord>, history: bool },
    /// The change is being kept.
    Recording,
}

/// [`DeleteRun`], as contracts see it.
#[verifier::ext_equal]
pub enum DeleteRunView {
    Fetching { id: Seq<char>, caller: Option<CallerView>, history: bool },
    Removing { record: Option<MemoryRecordView>, history: bool },
    Recording,
}

impl View for DeleteRun {
    type V = DeleteRunView;

    open spec fn view(&self) -> DeleteRunView {
        match self {
            DeleteRun::Fetching { id, caller, history } => DeleteRunView::Fetching {
                id: id@,
                caller: opt_view(*caller),
                history: *history,
            },
            DeleteRun::Removing { record, history } => DeleteRunView::Removing {
                record: opt_view(*record),
                history: *history,
            },
            DeleteRun::Recording => DeleteRunView::Recording,
        }
    }
}

/// A reset on its way.
#[derive(Debug)]
pub enum ResetRun {
    /// Memories are being taken out.
    Removing { clears_history: bool },
    /// The history is being cleared.
    Clearing,
}

/// [`ResetRun`], as contracts see it.
#[verifier::ext_equal]
pub enum ResetRunView {
    Removing { clears_history: bool },
    Clearing,
}

impl View for ResetRun {
    type V = ResetRunView;

    open spec fn view(&self) -> ResetRunView {
        match self {
            ResetRun::Removing { clears_history } => ResetRunView::Removing {
                clears_history: *clears_history,
            },
            ResetRun::Clearing => ResetRunView::Clearing,
        }
    }
}

/// How many memories a search gives if it is not said.
pub const DEFAULT_SEARCH_LIMIT: usize = 10;

/// How many memories are listed if it is not said.
pub const DEFAULT_LIST_LIMIT: usize = 100;

/// The number that is given, or another one.
pub open spec fn given_or(limit: Option<usize>, default: usize) -> usize {
    match limit {
        Some(n) => n,
        None => default,
    }
}

/// The score that a memory has to reach.
pub open spec fn search_threshold(options: SearchOptionsView) -> Score {
    match options.threshold {
        Some(t) => t,
        None => Score { bits: 0 },
    }
}

/// How many memories the store is asked for: more than are wanted, and still more if they are to
/// be scored anew.
pub open spec fn search_span(options: SearchOptionsView) -> int {
    given_or(options.limit, DEFAULT_SEARCH_LIMIT) * (if options.rerank {
        10int
    } else {
        2int
    })
}

/// The filter of a search.
pub open spec fn search_filters(options: SearchOptionsView) -> Option<crate::models::FiltersView> {
    merged_filters(
        scope_filters(options.user_id, options.agent_id, options.run_id, options.memory_type),
        options.filters,
    )
}

/// A memory that was found, with its score.
pub open spec fn scored_of(found: VectorSearchResultView) -> ScoredMemoryView {
    ScoredMemoryView { record: record_of(found), score: found.score }
}

/// What of the memories that were found reaches the threshold, in the order in which they came.
pub open spec fn above_threshold(
    found: Seq<VectorSearchResultView>,
    threshold: Score,
) -> Seq<ScoredMemoryView> {
    found.map_values(|f: VectorSearchResultView| scored_of(f)).filter(
        |m: ScoredMemoryView| reaches(m.score, threshold),
    )
}

/// The list, cut off after a number of values.
pub open spec fn at_most<V>(list: Seq<V>, limit: usize) -> Seq<V> {
    if list.len() <= limit {
        list
    } else {
        list.take(limit as int)
    }
}

/// The best of some memories, best first.
pub open spec fn best_of(memories: Seq<ScoredMemoryView>, limit: usize) -> Seq<ScoredMemoryView> {
    at_most(ranked(memories, |m: ScoredMemoryView| m.score), limit)
}

impl Scored for ScoredMemory {
    open spec fn score_of(value: ScoredMemoryView) -> Score {
        value.score
    }

    fn score(&self) -> Score {
        self.score
    }
}

/// The change of a memory, as the history keeps it.
pub open spec fn change_of(
    record: MemoryRecordView,
    previous: Option<Seq<char>>,
    content: Seq<char>,
    event: EventType,
    now: Instant,
) -> ChangeView {
    ChangeView {
        memory_id: record.id,
        previous_content: previous,
        new_content: content,
        event,
        timestamp: now,
        user_id: record.user_id,
        agent_id: record.agent_id,
        request_id: record.run_id,
    }
}

/// Makes the change of a memory, as the history keeps it.
pub(crate) fn describe_change(
    record: &MemoryRecord,
    previous: Option<String>,
    content: String,
    event: EventType,
    now: Timestamp,
) -> (r: Change)
    ensures
        r@ == change_of(record@, opt_view(previous), content@, event, now@),
{
    Change {
        memory_id: record.id,
        previous_content: previous,
        new_content: content,
        event,
        timestamp: now,
        user_id: copy_opt(&record.user_id),
        agent_id: copy_opt(&record.agent_id),
        request_id: copy_opt(&record.run_id),
    }
}

/// The memory in a reply, if there is one.
pub open spec fn fetched_record(found: Option<VectorSearchResultView>) -> Option<
    MemoryRecordView,
> {
    match found {
        Some(f) => Some(record_of(f)),
        None => None,
    }
}

impl Run for GetRun {
    type Output = Lookup;

    open spec fn next(state: GetRun, reply: ReplyView, fresh: FreshView) -> ProgressView<
        GetRun,
        LookupView,
    > {
        match reply {
            ReplyView::Fetched(found) => ProgressView::Done(
                Ok(LookupView { record: fetched_record(found) }),
            ),
            _ => broken_off(reply),
        }
    }

    fn step_at(self, reply: Reply, fresh: Fresh) -> Progress<Self, Lookup> {
        match reply {
            Reply::Fetched(Some(found)) => Progress::Done(
                Ok(Lookup { record: Some(found.to_memory_record()) }),
            ),
            Reply::Fetched(None) => Progress::Done(Ok(Lookup { record: None })),
            other => break_off(other),
        }
    }
}

/// The memories that were found.
fn to_records(found: &Vec<VectorSearchResult>) -> (r: Vec<MemoryRecord>)
    ensures
        views(r@) == views(found@).map_values(|f: VectorSearchResultView| record_of(f)),
{
    let mut records: Vec<MemoryRecord> = Vec::new();
    let mut i: usize = 0;
    while i < found.len()
        invariant
            i <= found@.len(),
            records@.len() == i,
            forall|j: int| 0 <= j < i ==> (#[trigger] records@[j])@ == record_of(found@[j]@),
        decreases found@.len() - i,
    {
        records.push(found[i].to_memory_record());
        i += 1;
    }
    proof {
        assert(views(records@) =~= views(found@).map_values(
            |f: VectorSearchResultView| record_of(f),
        ));
    }
    records
}

impl Run for GetAllRun {
    type Output = Listing;

    open spec fn next(state: GetAllRun, reply: ReplyView, fresh: FreshView) -> ProgressView<
        GetAllRun,
        ListingView,
    > {
        match reply {
            ReplyView::Found(found) => ProgressView::Done(
                Ok(
                    ListingView {
                        records: found.map_values(|f: VectorSearchResultView| record_of(f)),
                    },
                ),
            ),
            _ => broken_off(reply),
        }
    }

    fn step_at(self, reply: Reply, fresh: Fresh) -> Progress<Self, Listing> {
        match reply {
            Reply::Found(found) => Progress::Done(Ok(Listing { records: to_records(&found) })),
            other => break_off(other),
        }
    }
}

impl Run for HistoryRun {
    type Output = Ledger;

    open spec fn next(state: HistoryRun, reply: ReplyView, fresh: FreshView) -> ProgressView<
        HistoryRun,
        LedgerView,
    > {
        match reply {
            ReplyView::Entries(entries) => ProgressView::Done(Ok(LedgerView { entries })),
            _ => broken_off(reply),
        }
    }

    fn step_at(self, reply: Reply, fresh: Fresh) -> Progress<Self, Ledger> {
        match reply {
            Reply::Entries(entries) => Progress::Done(Ok(Ledger { entries })),
            other => break_off(other),
        }
    }
}

/// The memories that were found and reach a threshold, with their scores.
fn retain(found: &Vec<VectorSearchResult>, threshold: &Score) -> (r: Vec<ScoredMemory>)
    ensures
        views(r@) == above_threshold(views(found@), *threshold),
{
    let ghost all = views(found@).map_values(|f: VectorSearchResultView| scored_of(f));
    let ghost keep = |m: ScoredMemoryView| reaches(m.score, *threshold);
    let mut scored: Vec<ScoredMemory> = Vec::new();
    let mut i: usize = 0;
    proof {
        assert(all.take(0) =~= Seq::empty());
        assert(views(scored@) =~= all.take(0).filter(keep));
    }
    while i < found.len()
        invariant
            i <= found@.len(),
            all == views(found@).map_values(|f: VectorSearchResultView| scored_of(f)),
            keep == (|m: ScoredMemoryView| reaches(m.score, *threshold)),
            views(scored@) == all.take(i as int).filter(keep),
        decreases found@.len() - i,
    {
        let ghost before = views(scored@);
        proof {
            assert(all.take(i + 1) =~= all.take(i as int).push(all[i as int]));
            Seq::lemma_filter_push(all.take(i as int), all[i as int], keep);
            assert(all[i as int] == scored_of(found@[i as int]@));
        }
        if found[i].score.reaches(threshold) {
            scored.push(found[i].to_scored_memory());
            proof {
                assert(views(scored@) =~= before.push(all[i as int]));
            }
        }
        i += 1;
    }
    proof {
        assert(all.take(found@.len() as int) =~= all);
    }
    scored
}

/// The best of some memories, best first.
fn take_best(memories: Vec<ScoredMemory>, limit: usize) -> (r: Vec<ScoredMemory>)
    ensures
        views(r@) == best_of(views(memories@), limit),
{
    let mut best = rank(memories);
    let ghost all = views(best@);
    proof {
        let f = |v: ScoredMemoryView| ScoredMemory::score_of(v);
        let g = |m: ScoredMemoryView| m.score;
        assert(f =~= g);
    }
    best.truncate(limit);
    proof {
        assert(views(best@) =~= at_most(all, limit));
    }
    best
}

impl Run for SearchRun {
    type Output = SearchResult;

    open spec fn next(state: SearchRunView, reply: ReplyView, fresh: FreshView) -> ProgressView<
        SearchRunView,
        SearchResultView,
    > {
        match (state, reply) {
            (
                SearchRunView::Encoding { query, options, span, reranker },
                ReplyView::Encoded(encoding),
            ) => ProgressView::Ask(
                CommandView::Query {
                    embedding: encoding.embedding,
                    limit: span,
                    filters: search_filters(options),
                },
                SearchRunView::Querying { query, options, reranker },
            ),
            (SearchRunView::Querying { query, options, reranker }, ReplyView::Found(found)) => {
                let limit = given_or(options.limit, DEFAULT_SEARCH_LIMIT);
                let memories = above_threshold(found, search_threshold(options));
                if options.rerank && reranker {
                    ProgressView::Ask(
                        CommandView::Rerank { query, memories },
                        SearchRunView::Reranking { limit },
                    )
                } else {
                    ProgressView::Done(Ok(SearchResultView { results: best_of(memories, limit) }))
                }
            },
            (SearchRunView::Reranking { limit }, ReplyView::Reranked(memories)) => {
                ProgressView::Done(Ok(SearchResultView { results: best_of(memories, limit) }))
            },
            _ => broken_off(reply),
        }
    }

    fn step_at(self, reply: Reply, fresh: Fresh) -> Progress<Self, SearchResult> {
        match (self, reply) {
            (SearchRun::Encoding { query, options, span, reranker }, Reply::Encoded(encoding)) => {
                let scope = build_scope_filters(
                    &options.user_id,
                    &options.agent_id,
                    &options.run_id,
                    options.memory_type,
                );
                let filters = merge_filters(scope, &options.filters);
                Progress::Ask(
                    Command::Query { embedding: encoding.embedding, limit: span, filters },
                    SearchRun::Querying { query, options, reranker },
                )
            },
            (SearchRun::Querying { query, options, reranker }, Reply::Found(found)) => {
                let limit = limit_or(options.limit, DEFAULT_SEARCH_LIMIT);
                let threshold = match options.threshold {
                    Some(t) => t,
                    None => Score::zero(),
                };
                let memories = retain(&found, &threshold);
                if options.rerank && reranker {
                    Progress::Ask(
                        Command::Rerank { query, memories },
                        SearchRun::Reranking { limit },
                    )
                } else {
                    Progress::Done(Ok(SearchResult { results: take_best(memories, limit) }))
                }
            },
            (SearchRun::Reranking { limit }, Reply::Reranked(memories)) => {
                Progress::Done(Ok(SearchResult { results: take_best(memories, limit) }))
            },
            (_, other) => break_off(other),
        }
    }
}

/// The number that is given, or another one.
pub(crate) fn limit_or(limit: Option<usize>, default: usize) -> (r: usize)
    ensures
        r == given_or(limit, default),
{
    match limit {
        Some(n) => n,
        None => default,
    }
}

/// A memory with new content, and the fingerprint of that.
pub open spec fn with_content(
    record: MemoryRecordView,
    content: Seq<char>,
    hash: Seq<char>,
) -> MemoryRecordView {
    MemoryRecordView { content, hash, ..record }
}

/// The memory that a caller asked for may not be changed: there is none, or it is not the
/// caller's.
pub open spec fn denial(
    id: Seq<char>,
    found: Option<VectorSearchResultView>,
    caller: Option<CallerView>,
) -> Option<MemoryErrorView> {
    match (found, caller) {
        (None, _) => Some(MemoryErrorView::NotFound(id)),
        (Some(f), Some(c)) => match refusal(record_of(f), c) {
            Some(reason) => Some(MemoryErrorView::Unauthorized { memory_id: id, reason }),
            None => None,
        },
        (Some(_), None) => None,
    }
}

/// Why the memory that a caller asked for may not be changed.
fn deny(id: &String, found: &Option<VectorSearchResult>, caller: &Option<Caller>) -> (r: Option<
    MemoryError,
>)
    ensures
        opt_view(r) == denial(id@, opt_view(*found), opt_view(*caller)),
{
    match (found, caller) {
        (None, _) => Some(MemoryError::NotFound(id.clone())),
        (Some(f), Some(c)) => match refuse(&f.to_memory_record(), c) {
            Some(reason) => Some(MemoryError::Unauthorized { memory_id: id.clone(), reason }),
            None => None,
        },
        (Some(_), None) => None,
    }
}

impl Run for UpdateRun {
    type Output = MemoryRecord;

    open spec fn next(state: UpdateRunView, reply: ReplyView, fresh: FreshView) -> ProgressView<
        UpdateRunView,
        MemoryRecordView,
    > {
        match (state, reply) {
            (
                UpdateRunView::Fetching { id, content, caller, history },
                ReplyView::Fetched(found),
            ) => match denial(id, found, caller) {
                Some(error) => failed(error),
                None => {
                    let old = record_of(found->0);
                    ProgressView::Ask(
                        CommandView::Encode { text: content },
                        UpdateRunView::Encoding {
                            id,
                            record: with_content(old, content, old.hash),
                            previous: old.content,
                            history,
                        },
                    )
                },
            },
            (
                UpdateRunView::Encoding { id, record, previous, history },
                ReplyView::Encoded(encoding),
            ) => {
                let new = with_content(record, record.content, encoding.hash);
                ProgressView::Ask(
                    CommandView::Replace {
                        id,
                        new_embedding: Some(encoding.embedding),
                        payload: payload_of(new),
                    },
                    UpdateRunView::Replacing { record: new, previous, history },
                )
            },
            (UpdateRunView::Replacing { record, previous, history }, ReplyView::Done) => {
                if history {
                    ProgressView::Ask(
                        CommandView::Record {
                            change: change_of(
                                record,
                                Some(previous),
                                record.content,
                                EventType::Update,
                                fresh.now,
                            ),
                        },
                        UpdateRunView::Recording { record },
                    )
                } else {
                    ProgressView::Done(Ok(record))
                }
            },
            (UpdateRunView::Recording { record }, _) => ProgressView::Done(Ok(record)),
            _ => broken_off(reply),
        }
    }

    fn step_at(self, reply: Reply, fresh: Fresh) -> Progress<Self, MemoryRecord> {
        match (self, reply) {
            (UpdateRun::Fetching { id, content, caller, history }, Reply::Fetched(found)) => {
                if let Some(error) = deny(&id, &found, &caller) {
                    return Progress::Done(Err(error));
                }
                match found {
                    Some(f) => {
                        let mut record = f.to_memory_record();
                        let previous = record.content;
                        record.content = content.clone();
                        Progress::Ask(
                            Command::Encode { text: content },
                            UpdateRun::Encoding { id, record, previous, history },
                        )
                    },
                    None => Progress::Done(Err(MemoryError::NotFound(id))),
                }
            },
            (UpdateRun::Encoding { id, record, previous, history }, Reply::Encoded(encoding)) => {
                let mut record = record;
                let Encoding { embedding, hash } = encoding;
                record.hash = hash;
                let payload = record.to_payload();
                Progress::Ask(
                    Command::Replace { id, new_embedding: Some(embedding), payload },
                    UpdateRun::Replacing { record, previous, history },
                )
            },
            (UpdateRun::Replacing { record, previous, history }, Reply::Done) => {
                if history {
                    let change = describe_change(
                        &record,
                        Some(previous),
                        record.content.clone(),
                        EventType::Update,
                        fresh.now,
                    );
                    Progress::Ask(Command::Record { change }, UpdateRun::Recording { record })
                } else {
                    Progress::Done(Ok(record))
                }
            },
            (UpdateRun::Recording { record }, _) => Progress::Done(Ok(record)),
            (_, other) => break_off(other),
        }
    }
}

impl Run for DeleteRun {
    type Output = Finished;

    open spec fn next(state: DeleteRunView, reply: ReplyView, fresh: FreshView) -> ProgressView<
        DeleteRunView,
        Finished,
    > {
        match (state, reply) {
            (DeleteRunView::Fetching { id, caller, history }, ReplyView::Fetched(found)) => {
                if caller is Some && denial(id, found, caller) is Some {
                    failed(denial(id, found, caller)->0)
                } else {
                    ProgressView::Ask(
                        CommandView::Remove { id },
                        DeleteRunView::Removing { record: fetched_record(found), history },
                    )
                }
            },
            (DeleteRunView::Removing { record, history }, ReplyView::Done) => match record {
                Some(r) => {
                    if history {
                        ProgressView::Ask(
                            CommandView::Record {
                                change: change_of(
                                    r,
                                    Some(r.content),
                                    "DELETED"@,
                                    EventType::Delete,
                                    fresh.now,
                                ),
                            },
                            DeleteRunView::Recording,
                        )
                    } else {
                        ProgressView::Done(Ok(Finished {  }))
                    }
                },
                None => ProgressView::Done(Ok(Finished {  })),
            },
            (DeleteRunView::Recording, _) => ProgressView::Done(Ok(Finished {  })),
            _ => broken_off(reply),
        }
    }

    fn step_at(self, reply: Reply, fresh: Fresh) -> Progress<Self, Finished> {
        match (self, reply) {
            (DeleteRun::Fetching { id, caller, history }, Reply::Fetched(found)) => {
                if caller.is_some() {
                    if let Some(error) = deny(&id, &found, &caller) {
                        return Progress::Done(Err(error));
                    }
                }
                let record = match found {
                    Some(f) => Some(f.to_memory_record()),
                    None => None,
                };
                Progress::Ask(Command::Remove { id }, DeleteRun::Removing { record, history })
            },
            (DeleteRun::Removing { record, history }, Reply::Done) => match record {
                Some(r) => {
                    if history {
                        let change = describe_change(
                            &r,
                            Some(r.content.clone()),
                            "DELETED".to_owned(),
                            EventType::Delete,
                            fresh.now,
                        );
                        Progress::Ask(Command::Record { change }, DeleteRun::Recording)
                    } else {
                        Progress::Done(Ok(Finished {  }))
                    }
                },
                None => Progress::Done(Ok(Finished {  })),
            },
            (DeleteRun::Recording, _) => Progress::Done(Ok(Finished {  })),
            (_, other) => break_off(other),
        }
    }
}

impl Run for ResetRun {
    type Output = Finished;

    open spec fn next(state: ResetRunView, reply: ReplyView, fresh: FreshView) -> ProgressView<
        ResetRunView,
        Finished,
    > {
        match (state, reply) {
            (ResetRunView::Removing { clears_history }, ReplyView::Done) => {
                if clears_history {
                    ProgressView::Ask(CommandView::ClearHistory, ResetRunView::Clearing)
                } else {
                    ProgressView::Done(Ok(Finished {  }))
                }
            },
            (ResetRunView::Clearing, ReplyView::Done) => ProgressView::Done(Ok(Finished {  })),
            _ => broken_off(reply),
        }
    }

    fn step_at(self, reply: Reply, fresh: Fresh) -> Progress<Self, Finished> {
        match (self, reply) {
            (ResetRun::Removing { clears_history }, Reply::Done) => {
                if clears_history {
                    Progress::Ask(Command::ClearHistory, ResetRun::Clearing)
                } else {
                    Progress::Done(Ok(Finished {  }))
                }
            },
            (ResetRun::Clearing, Reply::Done) => Progress::Done(Ok(Finished {  })),
            (_, other) => break_off(other),
        }
    }
}

/// How a search begins.
pub open spec fn search_start(
    memory: Memory,
    query: Seq<char>,
    options: SearchOptionsView,
) -> ProgressView<SearchRunView, SearchResultView> {
    ProgressView::Ask(
        CommandView::Encode { text: query },
        SearchRunView::Encoding {
            query,
            options,
            span: search_span(options) as usize,
            reranker: memory.has_reranker,
        },
    )
}

/// How an update begins.
pub open spec fn update_start(
    memory: Memory,
    id: Seq<char>,
    content: Seq<char>,
    caller: Option<CallerView>,
) -> ProgressView<UpdateRunView, MemoryRecordView> {
    ProgressView::Ask(
        CommandView::Fetch { id },
        UpdateRunView::Fetching { id, content, caller, history: memory.has_history },
    )
}

/// How a deletion begins.
pub open spec fn delete_start(
    memory: Memory,
    id: Seq<char>,
    caller: Option<CallerView>,
) -> ProgressView<DeleteRunView, Finished> {
    ProgressView::Ask(
        CommandView::Fetch { id },
        DeleteRunView::Fetching { id, caller, history: memory.has_history },
    )
}

/// How a reset begins. If no tier is given everything goes, and the history with it.
pub open spec fn reset_start(memory: Memory, options: ResetOptionsView) -> ProgressView<
    ResetRunView,
    Finished,
> {
    let filters = scope_filters(options.user_id, options.agent_id, options.run_id, None);
    ProgressView::Ask(
        CommandView::RemoveAll { filters },
        ResetRunView::Removing { clears_history: memory.has_history && filters is None },
    )
}

/// How the changes of a memory are asked for, once its identifier was read or could not be.
pub open spec fn history_asked(id: Result<u128, Seq<char>>) -> ProgressView<
    HistoryRun,
    LedgerView,
> {
    match id {
        Ok(memory_id) => ProgressView::Ask(
            CommandView::ReadHistory { memory_id },
            HistoryRun {  },
        ),
        Err(complaint) => failed(MemoryErrorView::InvalidInput(complaint)),
    }
}

/// How the changes of a memory are asked for. Without a history there are none.
pub open spec fn history_start(memory: Memory, id: Seq<char>) -> ProgressView<
    HistoryRun,
    LedgerView,
> {
    if !memory.has_history {
        ProgressView::Done(Ok(LedgerView { entries: Seq::empty() }))
    } else {
        history_asked(
            match uuid_of(id) {
                Some(memory_id) => Ok(memory_id as u128),
                None => Err(uuid_complaint(id)),
            },
        )
    }
}

/// Asks for the changes of a memory, once its identifier was read or could not be.
pub fn ask_history(id: Result<u128, String>) -> (r: Progress<HistoryRun, Ledger>)
    ensures
        r@ == history_asked(
            match id {
                Ok(memory_id) => Ok(memory_id),
                Err(complaint) => Err(complaint@),
            },
        ),
{
    match id {
        Ok(memory_id) => Progress::Ask(Command::ReadHistory { memory_id }, HistoryRun {  }),
        Err(complaint) => Progress::Done(Err(MemoryError::InvalidInput(complaint))),
    }
}

/// How the memories of a scope are asked for.
pub open spec fn get_all_start(options: GetAllOptionsView) -> ProgressView<GetAllRun, ListingView> {
    ProgressView::Ask(
        CommandView::List {
            filters: scope_filters(
                options.user_id,
                options.agent_id,
                options.run_id,
                options.memory_type,
            ),
            limit: given_or(options.limit, DEFAULT_LIST_LIMIT),
        },
        GetAllRun {  },
    )
}

impl Memory {
    /// Searches for memories.
    pub fn search(&self, query: &str, options: SearchOptions) -> (r: Progress<
        SearchRun,
        SearchResult,
    >)
        requires
            search_span(options@) <= usize::MAX,
        ensures
            r@ == search_start(*self, query@, options@),
    {
        let limit = limit_or(options.limit, DEFAULT_SEARCH_LIMIT);
        let span = if options.rerank {
            limit * 10
        } else {
            limit * 2
        };
        Progress::Ask(
            Command::Encode { text: query.to_owned() },
            SearchRun::Encoding {
                query: query.to_owned(),
                options,
                span,
                reranker: self.has_reranker,
            },
        )
    }

    /// Gets a memory.
    pub fn get(&self, id: &str) -> (r: Progress<GetRun, Lookup>)
        ensures
            r@ == ProgressView::<GetRun, LookupView>::Ask(
                CommandView::Fetch { id: id@ },
                GetRun {  },
            ),
    {
        Progress::Ask(Command::Fetch { id: id.to_owned() }, GetRun {  })
    }

    /// Lists the memories of a scope.
    pub fn get_all(&self, options: GetAllOptions) -> (r: Progress<GetAllRun, Listing>)
        ensures
            r@ == get_all_start(options@),
    {
        let filters = build_scope_filters(
            &options.user_id,
            &options.agent_id,
            &options.run_id,
            options.memory_type,
        );
        let limit = limit_or(options.limit, DEFAULT_LIST_LIMIT);
        Progress::Ask(Command::List { filters, limit }, GetAllRun {  })
    }

    /// Replaces the content of a memory on behalf of a caller, whose memory it has to be.
    pub fn update(&self, id: &str, content: &str, options: UpdateOptions) -> (r: Progress<
        UpdateRun,
        MemoryRecord,
    >)
        ensures
            r@ == update_start(
                *self,
                id@,
                content@,
                Some(
                    CallerView {
                        user_id: options@.user_id,
                        agent_id: options@.agent_id,
                        run_id: options@.run_id,
                    },
                ),
            ),
    {
        let caller = Some(
            Caller {
                user_id: options.user_id,
                agent_id: options.agent_id,
                run_id: options.run_id,
            },
        );
        Progress::Ask(
            Command::Fetch { id: id.to_owned() },
            UpdateRun::Fetching {
                id: id.to_owned(),
                content: content.to_owned(),
                caller,
                history: self.has_history,
            },
        )
    }

    /// Deletes a memory on behalf of a caller, whose memory it has to be.
    pub fn delete(&self, id: &str, options: DeleteOptions) -> (r: Progress<DeleteRun, Finished>)
        ensures
            r@ == delete_start(
                *self,
                id@,
                Some(
                    CallerView {
                        user_id: options@.user_id,
                        agent_id: options@.agent_id,
                        run_id: options@.run_id,
                    },
                ),
            ),
    {
        let caller = Some(
            Caller {
                user_id: options.user_id,
                agent_id: options.agent_id,
                run_id: options.run_id,
            },
        );
        Progress::Ask(
            Command::Fetch { id: id.to_owned() },
            DeleteRun::Fetching { id: id.to_owned(), caller, history: self.has_history },
        )
    }

    /// Gets the changes of a memory, the latest first.
    pub fn history(&self, id: &str) -> (r: Progress<HistoryRun, Ledger>)
        ensures
            r@ == history_start(*self, id@),
    {
        if !self.has_history {
            let entries: Vec<HistoryEntry> = Vec::new();
            proof {
                assert(views(entries@) =~= Seq::<HistoryEntryView>::empty());
            }
            return Progress::Done(Ok(Ledger { entries }));
        }
        ask_history(parse_uuid(id))
    }

    /// Deletes all memories of a scope. If no tier is given it deletes all there are, and forgets
    /// their changes.
    pub fn reset(&self, options: ResetOptions) -> (r: Progress<ResetRun, Finished>)
        ensures
            r@ == reset_start(*self, options@),
    {
        let filters = build_scope_filters(
            &options.user_id,
            &options.agent_id,
            &options.run_id,
            None,
        );
        let clears_history = self.has_history && filters.is_none();
        Progress::Ask(Command::RemoveAll { filters }, ResetRun::Removing { clears_history })
    }
}

} // verus!
