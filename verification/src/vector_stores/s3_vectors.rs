//! A store that keeps memories in an S3 Vectors index: what it asks of the service, and what it
//! makes of the replies.
use vstd::prelude::*;

use crate::clock::{could_be_now, in_rfc3339_range, Instant, Timestamp};
use crate::errors::{store_error_text, VectorStoreError, VectorStoreErrorView};
use crate::memory::manager::at_most;
use crate::models::{
    FilterCondition, FilterConditionView, FilterLogic, FilterOperator, Filters, FiltersView,
    Payload, PayloadView, VectorSearchResult, VectorSearchResultView,
};
use crate::ranking::{Score, FULL_SCORE};
use crate::text::{
    ascii_lowercase, concat, contains_text, is_ascii_text, is_infix, lowercase_of, to_lowercase,
};
use crate::text_map::TextMap;
use crate::vector_stores::document::{
    document_items, document_of, document_payload, document_to_payload_at,
    document_view_of_containers, json_value_to_document, keeps_to_its_keys, payload_document,
    payload_to_document, payload_with_doubles, Document, DocumentView,
};
use crate::vector_stores::filter_eval::{is_match, matches_filters};
use crate::views::{
    copy_numbers, copy_opt, filtered_values_are_of_the_list, opt_ref_view, opt_view, views,
    Duplicate,
};

verus! {

/// How many vectors one request may name.
pub const BATCH_LIMIT: usize = 500;

/// Where the index is, and how likeness is measured.
#[derive(Debug)]
pub struct S3VectorsConfig {
    pub bucket_name: String,
    pub region: Option<String>,
    pub index_name: String,
    pub dimensions: usize,
    pub distance_metric: Option<String>,
}

/// [`S3VectorsConfig`], as contracts see it.
#[verifier::ext_equal]
pub struct S3VectorsConfigView {
    pub bucket_name: Seq<char>,
    pub region: Option<Seq<char>>,
    pub index_name: Seq<char>,
    pub dimensions: usize,
    pub distance_metric: Option<Seq<char>>,
}

impl View for S3VectorsConfig {
    type V = S3VectorsConfigView;

    open spec fn view(&self) -> S3VectorsConfigView {
        S3VectorsConfigView {
            bucket_name: self.bucket_name@,
            region: opt_view(self.region),
            index_name: self.index_name@,
            dimensions: self.dimensions,
            distance_metric: opt_view(self.distance_metric),
        }
    }
}

impl Duplicate for S3VectorsConfig {
    fn duplicate(&self) -> (r: Self) {
        S3VectorsConfig {
            bucket_name: self.bucket_name.clone(),
            region: copy_opt(&self.region),
            index_name: self.index_name.clone(),
            dimensions: self.dimensions,
            distance_metric: copy_opt(&self.distance_metric),
        }
    }
}

/// An S3 Vectors index.
#[derive(Debug)]
pub struct S3VectorsStore {
    pub vector_bucket_name: String,
    pub index_name: String,
    pub dimensions: usize,
    pub distance_metric: String,
}

/// [`S3VectorsStore`], as contracts see it.
#[verifier::ext_equal]
pub struct S3VectorsStoreView {
    pub vector_bucket_name: Seq<char>,
    pub index_name: Seq<char>,
    pub dimensions: usize,
    pub distance_metric: Seq<char>,
}

impl View for S3VectorsStore {
    type V = S3VectorsStoreView;

    open spec fn view(&self) -> S3VectorsStoreView {
        S3VectorsStoreView {
            vector_bucket_name: self.vector_bucket_name@,
            index_name: self.index_name@,
            dimensions: self.dimensions,
            distance_metric: self.distance_metric@,
        }
    }
}

/// A vector that the service gave back.
#[derive(Debug)]
pub struct S3Vector {
    pub key: String,
    /// One less its distance, where it was asked for by that.
    pub score: Score,
    /// The embedding, if it was asked for and is one of singles.
    pub data: Option<Vec<u32>>,
    pub metadata: Option<Document>,
}

/// [`S3Vector`], as contracts see it.
#[verifier::ext_equal]
pub struct S3VectorView {
    pub key: Seq<char>,
    pub score: Score,
    pub data: Option<Seq<u32>>,
    pub metadata: Option<DocumentView>,
}

impl View for S3Vector {
    type V = S3VectorView;

    open spec fn view(&self) -> S3VectorView {
        S3VectorView {
            key: self.key@,
            score: self.score,
            data: opt_view(self.data),
            metadata: opt_view(self.metadata),
        }
    }
}

/// What is asked of the service.
#[derive(Debug)]
pub enum S3Command {
    /// Look the bucket up.
    GetBucket,
    /// Make the bucket.
    CreateBucket,
    /// Look the index up.
    GetIndex,
    /// Make the index. One key of the metadata cannot be filtered by.
    CreateIndex { dimension: i32, metric: String, unfiltered_key: String },
    /// Delete the index.
    DeleteIndex,
    /// Put a vector in, in place of one of the same key.
    PutVector { key: String, data: Vec<u32>, metadata: Document },
    /// Get a vector.
    GetVector { key: String, with_data: bool, with_metadata: bool },
    /// Find the nearest vectors, with metadata and distance.
    QueryVectors { query: Vec<u32>, top_k: i32, filter: Option<Document> },
    /// List vectors, with metadata, from the first page on.
    ListVectors,
    /// List the vectors of the page that a token stands for.
    ListMore { token: String },
    /// Delete vectors.
    DeleteVectors { keys: Vec<String> },
}

/// [`S3Command`], as contracts see it.
#[verifier::ext_equal]
pub enum S3CommandView {
    GetBucket,
    CreateBucket,
    GetIndex,
    CreateIndex { dimension: i32, metric: Seq<char>, unfiltered_key: Seq<char> },
    DeleteIndex,
    PutVector { key: Seq<char>, data: Seq<u32>, metadata: DocumentView },
    GetVector { key: Seq<char>, with_data: bool, with_metadata: bool },
    QueryVectors { query: Seq<u32>, top_k: i32, filter: Option<DocumentView> },
    ListVectors,
    ListMore { token: Seq<char> },
    DeleteVectors { keys: Seq<Seq<char>> },
}

impl View for S3Command {
    type V = S3CommandView;

    open spec fn view(&self) -> S3CommandView {
        match self {
            S3Command::GetBucket => S3CommandView::GetBucket,
            S3Command::CreateBucket => S3CommandView::CreateBucket,
            S3Command::GetIndex => S3CommandView::GetIndex,
            S3Command::CreateIndex { dimension, metric, unfiltered_key } => S3CommandView::CreateIndex {
                dimension: *dimension,
                metric: metric@,
                unfiltered_key: unfiltered_key@,
            },
            S3Command::DeleteIndex => S3CommandView::DeleteIndex,
            S3Command::PutVector { key, data, metadata } => S3CommandView::PutVector {
                key: key@,
                data: data@,
                metadata: metadata@,
            },
            S3Command::GetVector { key, with_data, with_metadata } => S3CommandView::GetVector {
                key: key@,
                with_data: *with_data,
                with_metadata: *with_metadata,
            },
            S3Command::QueryVectors { query, top_k, filter } => S3CommandView::QueryVectors {
                query: query@,
                top_k: *top_k,
                filter: opt_view(*filter),
            },
            S3Command::ListVectors => S3CommandView::ListVectors,
            S3Command::ListMore { token } => S3CommandView::ListMore {
                token: token@,
            },
            S3Command::DeleteVectors { keys } => S3CommandView::DeleteVectors {
                keys: views(keys@),
            },
        }
    }
}

/// What came of it.
#[derive(Debug)]
pub enum S3Reply {
    /// It was done.
    Done,
    /// The vectors that were found.
    Vectors(Vec<S3Vector>),
    /// A page of the vectors that there are, and a token if there are more.
    Page { vectors: Vec<S3Vector>, next: Option<String> },
    /// The service failed, as the text tells.
    Failed(String),
    /// The request could not be made, as the text tells.
    Malformed(String),
}

/// [`S3Reply`], as contracts see it.
#[verifier::ext_equal]
pub enum S3ReplyView {
    Done,
    Vectors(Seq<S3VectorView>),
    Page { vectors: Seq<S3VectorView>, next: Option<Seq<char>> },
    Failed(Seq<char>),
    Malformed(Seq<char>),
}

impl View for S3Reply {
    type V = S3ReplyView;

    open spec fn view(&self) -> S3ReplyView {
        match self {
            S3Reply::Done => S3ReplyView::Done,
            S3Reply::Vectors(x) => S3ReplyView::Vectors(views(x@)),
            S3Reply::Page { vectors, next } => S3ReplyView::Page {
                vectors: views(vectors@),
                next: opt_view(*next),
            },
            S3Reply::Failed(x) => S3ReplyView::Failed(x@),
            S3Reply::Malformed(x) => S3ReplyView::Malformed(x@),
        }
    }
}

/// What an operation on the store gives.
#[derive(Debug)]
pub enum S3Outcome {
    Finished,
    Hits(Vec<VectorSearchResult>),
    Hit(Option<VectorSearchResult>),
    Count(usize),
    Exists(bool),
}

/// [`S3Outcome`], as contracts see it.
#[verifier::ext_equal]
pub enum S3OutcomeView {
    Finished,
    Hits(Seq<VectorSearchResultView>),
    Hit(Option<VectorSearchResultView>),
    Count(usize),
    Exists(bool),
}

impl View for S3Outcome {
    type V = S3OutcomeView;

    open spec fn view(&self) -> S3OutcomeView {
        match self {
            S3Outcome::Finished => S3OutcomeView::Finished,
            S3Outcome::Hits(x) => S3OutcomeView::Hits(views(x@)),
            S3Outcome::Hit(x) => S3OutcomeView::Hit(opt_view(*x)),
            S3Outcome::Count(x) => S3OutcomeView::Count(*x),
            S3Outcome::Exists(x) => S3OutcomeView::Exists(*x),
        }
    }
}

/// An operation on the store that waits for a reply.
#[derive(Debug)]
pub enum S3Run {
    Inserting,
    Searching,
    Getting,
    Deleting,
    /// The embedding that an update keeps is being fetched.
    Fetching { id: String, payload: Payload },
    Updating,
    /// The first page is being listed.
    Listing { filters: Option<Filters>, limit: usize },
    /// A further page is being listed.
    ListingOn { filters: Option<Filters>, limit: usize, seen: Vec<S3Vector> },
    /// The index is being deleted, to be made anew.
    Dropping,
    /// The index is being made anew.
    Remaking,
    /// The vectors that are to be deleted are being looked for on the first page.
    Matching { chosen: Filters },
    /// The vectors that are to be deleted are being looked for on a further page.
    MatchingOn { chosen: Filters, seen: Vec<S3Vector> },
    /// Vectors are being deleted.
    Purging { left: Vec<Batch>, total: usize },
    /// The index is being looked for.
    Checking,
    /// The index is being made.
    Creating,
    /// The store is opened: the bucket is being looked for.
    OpeningBucket,
    /// The store is opened: the bucket is being made.
    MakingBucket,
    /// The store is opened: the index is being looked for.
    OpeningIndex,
    /// The store is opened: the index is being made.
    MakingIndex,
}

/// [`S3Run`], as contracts see it.
#[verifier::ext_equal]
pub enum S3RunView {
    Inserting,
    Searching,
    Getting,
    Deleting,
    Fetching { id: Seq<char>, payload: PayloadView },
    Updating,
    Listing { filters: Option<FiltersView>, limit: usize },
    ListingOn { filters: Option<FiltersView>, limit: usize, seen: Seq<S3VectorView> },
    Dropping,
    Remaking,
    Matching { chosen: FiltersView },
    MatchingOn { chosen: FiltersView, seen: Seq<S3VectorView> },
    Purging { left: Seq<BatchView>, total: usize },
    Checking,
    Creating,
    OpeningBucket,
    MakingBucket,
    OpeningIndex,
    MakingIndex,
}

impl View for S3Run {
    type V = S3RunView;

    open spec fn view(&self) -> S3RunView {
        match self {
            S3Run::Inserting => S3RunView::Inserting,
            S3Run::Searching => S3RunView::Searching,
            S3Run::Getting => S3RunView::Getting,
            S3Run::Deleting => S3RunView::Deleting,
            S3Run::Fetching { id, payload } => S3RunView::Fetching {
                id: id@,
                payload: payload@,
            },
            S3Run::Updating => S3RunView::Updating,
            S3Run::Listing { filters, limit } => S3RunView::Listing {
                filters: opt_view(*filters),
                limit: *limit,
            },
            S3Run::ListingOn { filters, limit, seen } => S3RunView::ListingOn {
                filters: opt_view(*filters),
                limit: *limit,
                seen: views(seen@),
            },
            S3Run::Dropping => S3RunView::Dropping,
            S3Run::Remaking => S3RunView::Remaking,
            S3Run::Matching { chosen } => S3RunView::Matching {
                chosen: chosen@,
            },
            S3Run::MatchingOn { chosen, seen } => S3RunView::MatchingOn {
                chosen: chosen@,
                seen: views(seen@),
            },
            S3Run::Purging { left, total } => S3RunView::Purging {
                left: views(left@),
                total: *total,
            },
            S3Run::Checking => S3RunView::Checking,
            S3Run::Creating => S3RunView::Creating,
            S3Run::OpeningBucket => S3RunView::OpeningBucket,
            S3Run::MakingBucket => S3RunView::MakingBucket,
            S3Run::OpeningIndex => S3RunView::OpeningIndex,
            S3Run::MakingIndex => S3RunView::MakingIndex,
        }
    }
}

/// Keys that one request names.
#[derive(Debug)]
pub struct Batch {
    pub keys: Vec<String>,
}

/// [`Batch`], as contracts see it.
#[verifier::ext_equal]
pub struct BatchView {
    pub keys: Seq<Seq<char>>,
}

impl View for Batch {
    type V = BatchView;

    open spec fn view(&self) -> BatchView {
        BatchView {
            keys: views(self.keys@),
        }
    }
}

/// How far an operation has come.
#[derive(Debug)]
pub enum S3Progress {
    Ask(S3Command, S3Run),
    Done(Result<S3Outcome, VectorStoreError>),
}

/// [`S3Progress`], as contracts see it.
#[verifier::ext_equal]
pub enum S3ProgressView {
    Ask(S3CommandView, S3RunView),
    Done(Result<S3OutcomeView, VectorStoreErrorView>),
}

impl View for S3Progress {
    type V = S3ProgressView;

    open spec fn view(&self) -> S3ProgressView {
        match self {
            S3Progress::Ask(command, run) => S3ProgressView::Ask(command@, run@),
            S3Progress::Done(Ok(outcome)) => S3ProgressView::Done(Ok(outcome@)),
            S3Progress::Done(Err(error)) => S3ProgressView::Done(Err(error@)),
        }
    }
}

/// The text of an error says that something is not there.
pub open spec fn tells_absence(text: Seq<char>) -> bool {
    ||| is_infix("NotFoundException"@, text)
    ||| is_infix("not found"@, text)
    ||| is_infix("Not Found"@, text)
}

/// Whether the text of an error of the service says that something is not there.
pub fn is_not_found_error(text: &str) -> (r: bool)
    ensures
        r == tells_absence(text@),
{
    contains_text(text, "NotFoundException") || contains_text(text, "not found") || contains_text(
        text,
        "Not Found",
    )
}

/// How the service writes an operator. It has none for texts that occur in others.
pub open spec fn operator_key(operator: FilterOperator) -> Option<Seq<char>> {
    match operator {
        FilterOperator::Eq => Some("$eq"@),
        FilterOperator::Ne => Some("$ne"@),
        FilterOperator::Gt => Some("$gt"@),
        FilterOperator::Gte => Some("$gte"@),
        FilterOperator::Lt => Some("$lt"@),
        FilterOperator::Lte => Some("$lte"@),
        FilterOperator::In => Some("$in"@),
        FilterOperator::Nin => Some("$nin"@),
        FilterOperator::Contains => None,
        FilterOperator::IContains => None,
    }
}

/// The document with one member.
pub open spec fn single(key: Seq<char>, value: DocumentView) -> DocumentView {
    DocumentView::Object(Map::empty().insert(key, value))
}

/// A condition as the service writes it.
pub open spec fn condition_document(cond: FilterConditionView) -> Option<DocumentView> {
    match operator_key(cond.operator) {
        Some(key) => Some(single(cond.field, single(key, document_of(cond.value)))),
        None => None,
    }
}

/// The conditions of a filter that the service can write, in order.
pub open spec fn condition_documents(conditions: Seq<FilterConditionView>) -> Seq<DocumentView> {
    conditions.filter_map(|c: FilterConditionView| condition_document(c))
}

/// How the service writes the way in which conditions are combined.
pub open spec fn logic_key(logic: FilterLogic) -> Seq<char> {
    match logic {
        FilterLogic::And => "$and"@,
        FilterLogic::Or => "$or"@,
    }
}

/// A filter as the service writes it. Conditions that it cannot write are left out; if none is left
/// there is no filter, and one alone stands for itself.
pub open spec fn filter_document(filters: FiltersView) -> Option<DocumentView> {
    let conditions = condition_documents(filters.conditions);
    if conditions.len() == 0 {
        None
    } else if conditions.len() == 1 {
        Some(conditions[0])
    } else {
        Some(single(logic_key(filters.logic), DocumentView::Array(conditions)))
    }
}

/// Makes the document with one member.
fn make_single(key: &str, value: Document) -> (r: Document)
    ensures
        r@ == single(key@, value@),
{
    let ghost v = value@;
    let mut members: TextMap<Document> = TextMap::new();
    members.insert(key.to_owned(), value);
    let r = Document::Object(members);
    proof {
        document_view_of_containers(&r);
        assert(r@->Object_0 =~= Map::<Seq<char>, DocumentView>::empty().insert(key@, v));
    }
    r
}

/// Writes a condition for the service, if it can be written.
pub fn condition_to_document(cond: &FilterCondition) -> (r: Option<Document>)
    ensures
        opt_view(r) == condition_document(cond@),
{
    let key = match cond.operator {
        FilterOperator::Eq => "$eq",
        FilterOperator::Ne => "$ne",
        FilterOperator::Gt => "$gt",
        FilterOperator::Gte => "$gte",
        FilterOperator::Lt => "$lt",
        FilterOperator::Lte => "$lte",
        FilterOperator::In => "$in",
        FilterOperator::Nin => "$nin",
        FilterOperator::Contains => {
            return None;
        },
        FilterOperator::IContains => {
            return None;
        },
    };
    let value = json_value_to_document(&cond.value);
    Some(make_single(cond.field.as_str(), make_single(key, value)))
}

/// Writes a filter for the service, as far as it can be written.
pub fn build_filter(filters: &Filters) -> (r: Option<Document>)
    ensures
        opt_view(r) == filter_document(filters@),
{
    let ghost all = filters@.conditions;
    let ghost choice = |c: FilterConditionView| condition_document(c);
    let mut conditions: Vec<Document> = Vec::new();
    let mut i: usize = 0;
    proof {
        assert(all.take(0) =~= Seq::empty());
        assert(document_items(conditions@) =~= all.take(0).filter_map(choice));
    }
    while i < filters.conditions.len()
        invariant
            i <= filters.conditions@.len(),
            all == views(filters.conditions@),
            choice == (|c: FilterConditionView| condition_document(c)),
            document_items(conditions@) == all.take(i as int).filter_map(choice),
        decreases filters.conditions@.len() - i,
    {
        let ghost before = document_items(conditions@);
        proof {
            all.lemma_filter_map_take_succ(choice, i as int);
            assert(all[i as int] == filters.conditions@[i as int]@);
        }
        match condition_to_document(&filters.conditions[i]) {
            Some(doc) => {
                let ghost d = doc@;
                conditions.push(doc);
                proof {
                    assert(document_items(conditions@) =~= before + seq![d]);
                }
            },
            None => {
                proof {
                    assert(before =~= before + Seq::<DocumentView>::empty());
                }
            },
        }
        i += 1;
    }
    proof {
        assert(all.take(filters.conditions@.len() as int) =~= all);
        assert(document_items(conditions@) == condition_documents(all));
    }
    let ghost written = document_items(conditions@);
    if conditions.len() == 0 {
        return None;
    }
    if conditions.len() == 1 {
        let doc = conditions.remove(0);
        proof {
            assert(written[0] == doc@);
        }
        return Some(doc);
    }
    let key = match filters.logic {
        FilterLogic::And => "$and",
        FilterLogic::Or => "$or",
    };
    let list = Document::Array(conditions);
    proof {
        document_view_of_containers(&list);
    }
    Some(make_single(key, list))
}

/// The keys in runs of at most so many.
pub open spec fn in_batches(keys: Seq<Seq<char>>) -> Seq<BatchView>
    decreases keys.len(),
{
    if keys.len() == 0 {
        Seq::empty()
    } else if keys.len() <= BATCH_LIMIT {
        seq![BatchView { keys }]
    } else {
        seq![BatchView { keys: keys.take(BATCH_LIMIT as int) }] + in_batches(
            keys.skip(BATCH_LIMIT as int),
        )
    }
}

/// All keys of some batches, in order.
pub open spec fn all_keys(batches: Seq<BatchView>) -> Seq<Seq<char>>
    decreases batches.len(),
{
    if batches.len() == 0 {
        Seq::empty()
    } else {
        batches[0].keys + all_keys(batches.skip(1))
    }
}

/// Splits keys into runs of at most as many as one request may name.
pub fn batches(keys: Vec<String>) -> (r: Vec<Batch>)
    ensures
        views(r@) == in_batches(views(keys@)),
{
    let ghost all = views(keys@);
    let mut rest = keys;
    let mut out: Vec<Batch> = Vec::new();
    proof {
        assert(views(out@) + in_batches(all) =~= in_batches(all));
    }
    while rest.len() > BATCH_LIMIT
        invariant
            views(out@) + in_batches(views(rest@)) == in_batches(all),
        decreases rest.len(),
    {
        let ghost before = views(rest@);
        let ghost done = views(out@);
        let tail = rest.split_off(BATCH_LIMIT);
        proof {
            assert(views(rest@) =~= before.take(BATCH_LIMIT as int));
            assert(views(tail@) =~= before.skip(BATCH_LIMIT as int));
        }
        let batch = Batch { keys: rest };
        let ghost b = batch@;
        out.push(batch);
        rest = tail;
        proof {
            assert(views(out@) =~= done.push(b));
            assert(in_batches(before) == seq![b] + in_batches(views(rest@)));
            assert(views(out@) + in_batches(views(rest@)) =~= done + in_batches(before));
        }
    }
    if rest.len() > 0 {
        let ghost done = views(out@);
        let ghost last = views(rest@);
        let batch = Batch { keys: rest };
        let ghost b = batch@;
        out.push(batch);
        proof {
            assert(views(out@) =~= done.push(b));
            assert(in_batches(last) == seq![b]);
            assert(done.push(b) =~= done + seq![b]);
        }
    } else {
        proof {
            assert(in_batches(views(rest@)) =~= Seq::<BatchView>::empty());
            assert(views(out@) + Seq::<BatchView>::empty() =~= views(out@));
        }
    }
    out
}

/// Batches hold all keys, in order and each once. None is empty and none is larger than one
/// request may be.
pub proof fn batches_hold_all_keys(keys: Seq<Seq<char>>)
    ensures
        all_keys(in_batches(keys)) == keys,
        forall|i: int|
            0 <= i < in_batches(keys).len() ==> 0 < (#[trigger] in_batches(keys)[i]).keys.len()
                <= BATCH_LIMIT,
    decreases keys.len(),
{
    let list = in_batches(keys);
    if keys.len() == 0 {
        assert(all_keys(list) =~= keys);
    } else if keys.len() <= BATCH_LIMIT {
        assert(list.skip(1) =~= Seq::<BatchView>::empty());
        assert(all_keys(list.skip(1)) =~= Seq::<Seq<char>>::empty());
        assert(all_keys(list) =~= keys);
    } else {
        let rest = keys.skip(BATCH_LIMIT as int);
        batches_hold_all_keys(rest);
        assert(list.skip(1) =~= in_batches(rest));
        assert(all_keys(list) =~= keys);
        assert forall|i: int| 0 <= i < list.len() implies 0 < (#[trigger] list[i]).keys.len()
            <= BATCH_LIMIT by {
            if i > 0 {
                assert(list[i] == in_batches(rest)[i - 1]);
            }
        }
    }
}

/// The payload of the metadata of a vector. Without metadata it is that of the null document.
pub open spec fn vector_payload(metadata: Option<DocumentView>, now: Instant) -> PayloadView {
    match metadata {
        Some(doc) => document_payload(doc, now),
        None => document_payload(DocumentView::Null, now),
    }
}

/// A vector as a search gives it, with its score.
pub open spec fn scored_hit(vector: S3VectorView, now: Instant) -> VectorSearchResultView {
    VectorSearchResultView {
        id: vector.key,
        score: vector.score,
        payload: vector_payload(vector.metadata, now),
    }
}

/// A vector as a lookup gives it.
pub open spec fn full_hit(vector: S3VectorView, now: Instant) -> VectorSearchResultView {
    VectorSearchResultView {
        id: vector.key,
        score: Score { bits: FULL_SCORE },
        payload: vector_payload(vector.metadata, now),
    }
}

/// The vectors that a filter lets through, in order.
pub open spec fn matching_hits(
    vectors: Seq<S3VectorView>,
    filters: Option<FiltersView>,
    now: Instant,
) -> Seq<VectorSearchResultView> {
    vectors.map_values(|v: S3VectorView| full_hit(v, now)).filter(
        |h: VectorSearchResultView| is_match(h.payload, filters),
    )
}

/// The keys of some hits.
pub open spec fn hit_keys(hits: Seq<VectorSearchResultView>) -> Seq<Seq<char>> {
    hits.map_values(|h: VectorSearchResultView| h.id)
}

/// Reads the payload of a vector.
fn read_payload(metadata: &Option<Document>, now: Timestamp) -> (r: Payload)
    ensures
        r@ == vector_payload(opt_view(*metadata), now@),
{
    match metadata {
        Some(doc) => document_to_payload_at(doc, now),
        None => document_to_payload_at(&Document::Null, now),
    }
}

/// Reads the vectors of a search.
fn read_scored(vectors: &Vec<S3Vector>, now: Timestamp) -> (r: Vec<VectorSearchResult>)
    ensures
        views(r@) == views(vectors@).map_values(|v: S3VectorView| scored_hit(v, now@)),
{
    let mut hits: Vec<VectorSearchResult> = Vec::new();
    let mut i: usize = 0;
    while i < vectors.len()
        invariant
            i <= vectors@.len(),
            hits@.len() == i,
            forall|j: int| 0 <= j < i ==> (#[trigger] hits@[j])@ == scored_hit(vectors@[j]@, now@),
        decreases vectors@.len() - i,
    {
        let v = &vectors[i];
        hits.push(
            VectorSearchResult {
                id: v.key.clone(),
                score: v.score,
                payload: read_payload(&v.metadata, now),
            },
        );
        i += 1;
    }
    proof {
        assert(views(hits@) =~= views(vectors@).map_values(|v: S3VectorView| scored_hit(v, now@)));
    }
    hits
}

/// Reads the vectors that a filter lets through.
fn read_matching(vectors: &Vec<S3Vector>, filters: Option<&Filters>, now: Timestamp) -> (r: Vec<
    VectorSearchResult,
>)
    ensures
        views(r@) == matching_hits(views(vectors@), opt_ref_view(filters), now@),
{
    let ghost f = opt_ref_view(filters);
    let ghost all = views(vectors@).map_values(|v: S3VectorView| full_hit(v, now@));
    let ghost keep = |h: VectorSearchResultView| is_match(h.payload, f);
    let mut hits: Vec<VectorSearchResult> = Vec::new();
    let mut i: usize = 0;
    proof {
        assert(all.take(0) =~= Seq::empty());
        assert(views(hits@) =~= all.take(0).filter(keep));
    }
    while i < vectors.len()
        invariant
            i <= vectors@.len(),
            f == opt_ref_view(filters),
            all == views(vectors@).map_values(|v: S3VectorView| full_hit(v, now@)),
            keep == (|h: VectorSearchResultView| is_match(h.payload, f)),
            views(hits@) == all.take(i as int).filter(keep),
        decreases vectors@.len() - i,
    {
        let ghost before = views(hits@);
        let v = &vectors[i];
        let hit = VectorSearchResult {
            id: v.key.clone(),
            score: Score::full(),
            payload: read_payload(&v.metadata, now),
        };
        proof {
            assert(all.take(i + 1) =~= all.take(i as int).push(all[i as int]));
            Seq::lemma_filter_push(all.take(i as int), all[i as int], keep);
            assert(all[i as int] == full_hit(vectors@[i as int]@, now@));
            assert(hit@ == all[i as int]);
        }
        if matches_filters(&hit.payload, filters) {
            let ghost h = hit@;
            hits.push(hit);
            proof {
                assert(views(hits@) =~= before.push(h));
            }
        }
        i += 1;
    }
    proof {
        assert(all.take(vectors@.len() as int) =~= all);
    }
    hits
}

/// The keys of some hits.
fn keys_of(hits: &Vec<VectorSearchResult>) -> (r: Vec<String>)
    ensures
        views(r@) == hit_keys(views(hits@)),
{
    let mut keys: Vec<String> = Vec::new();
    let mut i: usize = 0;
    while i < hits.len()
        invariant
            i <= hits@.len(),
            keys@.len() == i,
            forall|j: int| 0 <= j < i ==> (#[trigger] keys@[j])@ == hits@[j]@.id,
        decreases hits@.len() - i,
    {
        keys.push(hits[i].id.clone());
        i += 1;
    }
    proof {
        assert(views(keys@) =~= hit_keys(views(hits@)));
    }
    keys
}

/// Text within single quotes.
pub open spec fn quoted(text: Seq<char>) -> Seq<char> {
    "'"@ + text + "'"@
}

/// Puts text within single quotes.
fn quote(text: &String) -> (r: String)
    ensures
        r@ == quoted(text@),
{
    let mut r = concat("'", text.as_str());
    r.append("'");
    r
}

/// What went wrong with a named thing, and how the service tells it.
pub open spec fn complaint(
    what: Seq<char>,
    name: Seq<char>,
    text: Seq<char>,
) -> Seq<char> {
    what + quoted(name) + ": "@ + text
}

/// Says what went wrong with a named thing, and how the service tells it.
fn complain(what: &str, name: &String, text: &String) -> (r: String)
    ensures
        r@ == complaint(what@, name@, text@),
{
    let mut r = concat(what, quote(name).as_str());
    r.append(": ");
    r.append(text.as_str());
    r
}

/// The request for the index: of as many dimensions as the store has, by a metric. The content of a
/// memory cannot be filtered by.
pub open spec fn index_request_by(store: S3VectorsStoreView, metric: Seq<char>) -> S3CommandView {
    S3CommandView::CreateIndex {
        dimension: store.dimensions as i32,
        metric,
        unfiltered_key: "data"@,
    }
}

/// The request for the index, by the metric of the store in lower case.
pub open spec fn index_request(store: S3VectorsStoreView) -> S3CommandView {
    index_request_by(store, lowercase_of(store.distance_metric))
}

/// Why a vector could not be put in.
pub open spec fn insert_error(reply: S3ReplyView) -> VectorStoreErrorView {
    match reply {
        S3ReplyView::Malformed(m) => VectorStoreErrorView::Insert(
            "failed to build PutInputVector: "@ + m,
        ),
        S3ReplyView::Failed(m) => VectorStoreErrorView::Insert("put_vectors failed: "@ + m),
        _ => VectorStoreErrorView::Insert("unexpected reply"@),
    }
}

/// Why the index could not be made.
pub open spec fn index_error(store: S3VectorsStoreView, reply: S3ReplyView) -> VectorStoreErrorView {
    match reply {
        S3ReplyView::Malformed(m) => VectorStoreErrorView::Collection(
            "failed to build metadata config: "@ + m,
        ),
        S3ReplyView::Failed(m) => VectorStoreErrorView::Collection(
            complaint("failed to create index "@, store.index_name, m),
        ),
        _ => VectorStoreErrorView::Collection("unexpected reply"@),
    }
}

/// How the service tells why it failed.
pub open spec fn failure_text(reply: S3ReplyView) -> Seq<char> {
    match reply {
        S3ReplyView::Failed(m) => m,
        S3ReplyView::Malformed(m) => m,
        _ => "unexpected reply"@,
    }
}

/// An operation ends well.
pub open spec fn ends(outcome: S3OutcomeView) -> S3ProgressView {
    S3ProgressView::Done(Ok(outcome))
}

/// An operation ends in an error.
pub open spec fn fails(error: VectorStoreErrorView) -> S3ProgressView {
    S3ProgressView::Done(Err(error))
}

/// The deletion turns to the next batch, or ends.
pub open spec fn purge(left: Seq<BatchView>, total: usize) -> S3ProgressView {
    if left.len() == 0 {
        ends(S3OutcomeView::Count(total))
    } else {
        S3ProgressView::Ask(
            S3CommandView::DeleteVectors { keys: left[0].keys },
            S3RunView::Purging { left: left.skip(1), total },
        )
    }
}

/// A listing has seen some vectors: it turns to the next page, or if there is none ends with those
/// that the filter lets through, at most so many.
pub open spec fn listed(
    filters: Option<FiltersView>,
    limit: usize,
    seen: Seq<S3VectorView>,
    next: Option<Seq<char>>,
    now: Instant,
) -> S3ProgressView {
    match next {
        Some(token) => S3ProgressView::Ask(
            S3CommandView::ListMore { token },
            S3RunView::ListingOn { filters, limit, seen },
        ),
        None => ends(S3OutcomeView::Hits(at_most(matching_hits(seen, filters, now), limit))),
    }
}

/// A deletion has seen some vectors: it turns to the next page, or if there is none begins to
/// delete those that the filter lets through.
pub open spec fn matched(
    chosen: FiltersView,
    seen: Seq<S3VectorView>,
    next: Option<Seq<char>>,
    now: Instant,
) -> S3ProgressView {
    match next {
        Some(token) => S3ProgressView::Ask(
            S3CommandView::ListMore { token },
            S3RunView::MatchingOn { chosen, seen },
        ),
        None => {
            let keys = hit_keys(matching_hits(seen, Some(chosen), now));
            purge(in_batches(keys), keys.len() as usize)
        },
    }
}

/// How an operation goes on with a reply.
pub open spec fn s3_next(
    store: S3VectorsStoreView,
    run: S3RunView,
    reply: S3ReplyView,
    now: Instant,
) -> S3ProgressView {
    match (run, reply) {
        (S3RunView::Inserting, S3ReplyView::Done) => ends(S3OutcomeView::Finished),
        (S3RunView::Inserting, _) => fails(insert_error(reply)),
        (S3RunView::Searching, S3ReplyView::Vectors(vectors)) => ends(
            S3OutcomeView::Hits(vectors.map_values(|v: S3VectorView| scored_hit(v, now))),
        ),
        (S3RunView::Searching, _) => fails(
            VectorStoreErrorView::Search("query_vectors failed: "@ + failure_text(reply)),
        ),
        (S3RunView::Getting, S3ReplyView::Vectors(vectors)) => ends(
            S3OutcomeView::Hit(
                if vectors.len() == 0 {
                    None
                } else {
                    Some(full_hit(vectors[0], now))
                },
            ),
        ),
        (S3RunView::Getting, _) => fails(
            VectorStoreErrorView::Search("get_vectors failed: "@ + failure_text(reply)),
        ),
        (S3RunView::Deleting, S3ReplyView::Done) => ends(S3OutcomeView::Finished),
        (S3RunView::Deleting, _) => fails(
            VectorStoreErrorView::Delete("delete_vectors failed: "@ + failure_text(reply)),
        ),
        (S3RunView::Fetching { id, payload }, S3ReplyView::Vectors(vectors)) => {
            if vectors.len() == 0 {
                fails(VectorStoreErrorView::NotFound(id))
            } else {
                match vectors[0].data {
                    Some(data) => S3ProgressView::Ask(
                        S3CommandView::PutVector {
                            key: id,
                            data,
                            metadata: payload_document(payload),
                        },
                        S3RunView::Updating,
                    ),
                    None => fails(
                        VectorStoreErrorView::Update(
                            "vector "@ + quoted(id) + " has no Float32 data"@,
                        ),
                    ),
                }
            }
        },
        (S3RunView::Fetching { .. }, _) => fails(
            VectorStoreErrorView::Update(
                "get_vectors failed while fetching embedding for update: "@ + failure_text(reply),
            ),
        ),
        (S3RunView::Updating, S3ReplyView::Done) => ends(S3OutcomeView::Finished),
        (S3RunView::Updating, _) => fails(
            VectorStoreErrorView::Update(
                "insert during update failed: "@ + store_error_text(insert_error(reply)),
            ),
        ),
        (S3RunView::Listing { filters, limit }, S3ReplyView::Page { vectors, next }) => listed(
            filters,
            limit,
            vectors,
            next,
            now,
        ),
        (
            S3RunView::ListingOn { filters, limit, seen },
            S3ReplyView::Page { vectors, next },
        ) => listed(filters, limit, seen + vectors, next, now),
        (S3RunView::Listing { .. }, _) | (S3RunView::ListingOn { .. }, _) => fails(
            VectorStoreErrorView::Search("list_vectors failed: "@ + failure_text(reply)),
        ),
        (S3RunView::Dropping, S3ReplyView::Done) => S3ProgressView::Ask(
            index_request(store),
            S3RunView::Remaking,
        ),
        (S3RunView::Dropping, _) => fails(
            VectorStoreErrorView::Delete("delete_index failed: "@ + failure_text(reply)),
        ),
        (S3RunView::Remaking, S3ReplyView::Done) => ends(S3OutcomeView::Count(0)),
        (S3RunView::Remaking, _) => fails(index_error(store, reply)),
        (S3RunView::Matching { chosen }, S3ReplyView::Page { vectors, next }) => matched(
            chosen,
            vectors,
            next,
            now,
        ),
        (S3RunView::MatchingOn { chosen, seen }, S3ReplyView::Page { vectors, next }) => matched(
            chosen,
            seen + vectors,
            next,
            now,
        ),
        (S3RunView::Matching { .. }, _) | (S3RunView::MatchingOn { .. }, _) => fails(
            VectorStoreErrorView::Search("list_vectors failed: "@ + failure_text(reply)),
        ),
        (S3RunView::Purging { left, total }, S3ReplyView::Done) => purge(left, total),
        (S3RunView::Purging { .. }, _) => fails(
            VectorStoreErrorView::Delete("delete_vectors batch failed: "@ + failure_text(reply)),
        ),
        (S3RunView::Checking, S3ReplyView::Done) => ends(S3OutcomeView::Exists(true)),
        (S3RunView::Checking, _) => {
            if tells_absence(failure_text(reply)) {
                ends(S3OutcomeView::Exists(false))
            } else {
                fails(
                    VectorStoreErrorView::Collection(
                        complaint(
                            "failed to check index "@,
                            store.index_name,
                            failure_text(reply),
                        ),
                    ),
                )
            }
        },
        (S3RunView::Creating, S3ReplyView::Done) => ends(S3OutcomeView::Finished),
        (S3RunView::Creating, _) => fails(index_error(store, reply)),
        (S3RunView::OpeningBucket, S3ReplyView::Done) => S3ProgressView::Ask(
            S3CommandView::GetIndex,
            S3RunView::OpeningIndex,
        ),
        (S3RunView::OpeningBucket, _) => {
            if tells_absence(failure_text(reply)) {
                S3ProgressView::Ask(S3CommandView::CreateBucket, S3RunView::MakingBucket)
            } else {
                fails(
                    VectorStoreErrorView::Connection(
                        complaint(
                            "failed to check bucket "@,
                            store.vector_bucket_name,
                            failure_text(reply),
                        ),
                    ),
                )
            }
        },
        (S3RunView::MakingBucket, S3ReplyView::Done) => S3ProgressView::Ask(
            S3CommandView::GetIndex,
            S3RunView::OpeningIndex,
        ),
        (S3RunView::MakingBucket, _) => fails(
            VectorStoreErrorView::Connection(
                complaint(
                    "failed to create bucket "@,
                    store.vector_bucket_name,
                    failure_text(reply),
                ),
            ),
        ),
        (S3RunView::OpeningIndex, S3ReplyView::Done) => ends(S3OutcomeView::Finished),
        (S3RunView::OpeningIndex, _) => {
            if tells_absence(failure_text(reply)) {
                S3ProgressView::Ask(index_request(store), S3RunView::MakingIndex)
            } else {
                fails(
                    VectorStoreErrorView::Collection(
                        complaint(
                            "failed to check index "@,
                            store.index_name,
                            failure_text(reply),
                        ),
                    ),
                )
            }
        },
        (S3RunView::MakingIndex, S3ReplyView::Done) => ends(S3OutcomeView::Finished),
        (S3RunView::MakingIndex, _) => fails(index_error(store, reply)),
    }
}

/// How the service tells why it failed.
fn tell_failure(reply: S3Reply) -> (r: String)
    ensures
        r@ == failure_text(reply@),
{
    match reply {
        S3Reply::Failed(m) => m,
        S3Reply::Malformed(m) => m,
        _ => "unexpected reply".to_owned(),
    }
}

/// Why a vector could not be put in.
fn explain_insert(reply: S3Reply) -> (r: VectorStoreError)
    ensures
        r@ == insert_error(reply@),
{
    match reply {
        S3Reply::Malformed(m) => VectorStoreError::Insert(
            concat("failed to build PutInputVector: ", m.as_str()),
        ),
        S3Reply::Failed(m) => VectorStoreError::Insert(
            concat("put_vectors failed: ", m.as_str()),
        ),
        _ => VectorStoreError::Insert("unexpected reply".to_owned()),
    }
}

/// Ends an operation well.
fn end(outcome: S3Outcome) -> (r: S3Progress)
    ensures
        r@ == ends(outcome@),
{
    S3Progress::Done(Ok(outcome))
}

/// Ends an operation in an error.
fn fail(error: VectorStoreError) -> (r: S3Progress)
    ensures
        r@ == fails(error@),
{
    S3Progress::Done(Err(error))
}

/// Turns to the next batch, or ends.
fn turn_to_batch(left: Vec<Batch>, total: usize) -> (r: S3Progress)
    ensures
        r@ == purge(views(left@), total),
{
    let mut left = left;
    if left.len() == 0 {
        return end(S3Outcome::Count(total));
    }
    let ghost before = views(left@);
    let batch = left.remove(0);
    proof {
        assert(batch@ == before[0]);
        assert(views(left@) =~= before.skip(1));
    }
    S3Progress::Ask(
        S3Command::DeleteVectors { keys: batch.keys },
        S3Run::Purging { left, total },
    )
}

/// Puts the vectors of a page after those that were seen before.
fn see_more(seen: Vec<S3Vector>, vectors: Vec<S3Vector>) -> (r: Vec<S3Vector>)
    ensures
        views(r@) == views(seen@) + views(vectors@),
{
    let ghost all = views(seen@) + views(vectors@);
    let mut seen = seen;
    let mut vectors = vectors;
    seen.append(&mut vectors);
    proof {
        assert(views(seen@) =~= all);
    }
    seen
}

/// Turns to the next page of a listing, or ends.
fn go_on_listing(
    filters: Option<Filters>,
    limit: usize,
    seen: Vec<S3Vector>,
    next: Option<String>,
    now: Timestamp,
) -> (r: S3Progress)
    ensures
        r@ == listed(opt_view(filters), limit, views(seen@), opt_view(next), now@),
{
    match next {
        Some(token) => S3Progress::Ask(
            S3Command::ListMore { token },
            S3Run::ListingOn { filters, limit, seen },
        ),
        None => {
            let mut hits = read_matching(&seen, filters.as_ref(), now);
            let ghost all = views(hits@);
            hits.truncate(limit);
            proof {
                assert(views(hits@) =~= at_most(all, limit));
            }
            end(S3Outcome::Hits(hits))
        },
    }
}

/// Turns to the next page on which vectors to be deleted may be, or begins to delete.
fn go_on_matching(
    chosen: Filters,
    seen: Vec<S3Vector>,
    next: Option<String>,
    now: Timestamp,
) -> (r: S3Progress)
    ensures
        r@ == matched(chosen@, views(seen@), opt_view(next), now@),
{
    match next {
        Some(token) => S3Progress::Ask(
            S3Command::ListMore { token },
            S3Run::MatchingOn { chosen, seen },
        ),
        None => {
            let keys = keys_of(&read_matching(&seen, Some(&chosen), now));
            let total = keys.len();
            turn_to_batch(batches(keys), total)
        },
    }
}

impl S3VectorsStore {
    /// The store for a configuration. If it is not said how likeness is measured, it is by cosine.
    fn from_config(config: &S3VectorsConfig, index_name: &str, dimensions: usize) -> (r: Self)
        ensures
            r@ == store_of(config@, index_name@, dimensions),
    {
        S3VectorsStore {
            vector_bucket_name: config.bucket_name.clone(),
            index_name: index_name.to_owned(),
            dimensions,
            distance_metric: match &config.distance_metric {
                Some(m) => m.clone(),
                None => "cosine".to_owned(),
            },
        }
    }

    /// Opens the store: its bucket and its index are looked for, and made if they are not there.
    pub fn new(config: &S3VectorsConfig, index_name: &str, dimensions: usize) -> (r: (
        Self,
        S3Progress,
    ))
        ensures
            r.0@ == store_of(config@, index_name@, dimensions),
            r.1@ == S3ProgressView::Ask(S3CommandView::GetBucket, S3RunView::OpeningBucket),
    {
        (
            S3VectorsStore::from_config(config, index_name, dimensions),
            S3Progress::Ask(S3Command::GetBucket, S3Run::OpeningBucket),
        )
    }

    /// Puts a memory in, in place of one that is there under the same identifier. A payload that
    /// can be read back as a document is read back from the vector.
    pub fn insert(&self, id: &str, embedding: Vec<u32>, payload: &Payload) -> (r: S3Progress)
        ensures
            r@ == S3ProgressView::Ask(
                S3CommandView::PutVector {
                    key: id@,
                    data: embedding@,
                    metadata: payload_document(payload@),
                },
                S3RunView::Inserting,
            ),
            keeps_to_its_keys(payload@) && in_rfc3339_range(payload@.created_at) ==> forall|
                now: Instant,
            | #[trigger]
                vector_payload(Some(payload_document(payload@)), now) == payload_with_doubles(
                    payload@,
                ),
    {
        let metadata = payload_to_document(payload);
        proof {
            if keeps_to_its_keys(payload@) && in_rfc3339_range(payload@.created_at) {
                assert forall|now: Instant| #[trigger]
                    vector_payload(Some(payload_document(payload@)), now)
                        == payload_with_doubles(payload@) by {
                    assert(document_payload(metadata@, now) == payload_with_doubles(payload@));
                }
            }
        }
        S3Progress::Ask(
            S3Command::PutVector { key: id.to_owned(), data: embedding, metadata },
            S3Run::Inserting,
        )
    }

    /// Finds the memories most like an embedding, among those that a filter lets through as far as
    /// the service can tell.
    pub fn search(&self, embedding: Vec<u32>, limit: usize, filters: Option<&Filters>) -> (r:
        S3Progress)
        ensures
            r@ == S3ProgressView::Ask(
                S3CommandView::QueryVectors {
                    query: embedding@,
                    top_k: limit as i32,
                    filter: match filters {
                        Some(f) => filter_document(f@),
                        None => None,
                    },
                },
                S3RunView::Searching,
            ),
    {
        let filter: Option<Document> = match filters {
            Some(f) => build_filter(f),
            None => None,
        };
        S3Progress::Ask(
            S3Command::QueryVectors {
                query: embedding,
                top_k: #[verifier::truncate]
                (limit as i32),
                filter,
            },
            S3Run::Searching,
        )
    }

    /// Gets a memory.
    pub fn get(&self, id: &str) -> (r: S3Progress)
        ensures
            r@ == S3ProgressView::Ask(
                S3CommandView::GetVector { key: id@, with_data: false, with_metadata: true },
                S3RunView::Getting,
            ),
    {
        S3Progress::Ask(
            S3Command::GetVector { key: id.to_owned(), with_data: false, with_metadata: true },
            S3Run::Getting,
        )
    }

    /// Takes a memory out.
    pub fn delete(&self, id: &str) -> (r: S3Progress)
        ensures
            r@ == S3ProgressView::Ask(
                S3CommandView::DeleteVectors { keys: seq![id@] },
                S3RunView::Deleting,
            ),
    {
        let mut keys: Vec<String> = Vec::new();
        keys.push(id.to_owned());
        proof {
            assert(views(keys@) =~= seq![id@]);
        }
        S3Progress::Ask(S3Command::DeleteVectors { keys }, S3Run::Deleting)
    }

    /// Replaces a memory. Without a new embedding, the one that is there is fetched and kept.
    pub fn update(&self, id: &str, embedding: Option<Vec<u32>>, payload: Payload) -> (r: S3Progress)
        ensures
            r@ == (match opt_view(embedding) {
                Some(data) => S3ProgressView::Ask(
                    S3CommandView::PutVector {
                        key: id@,
                        data,
                        metadata: payload_document(payload@),
                    },
                    S3RunView::Updating,
                ),
                None => S3ProgressView::Ask(
                    S3CommandView::GetVector { key: id@, with_data: true, with_metadata: false },
                    S3RunView::Fetching { id: id@, payload: payload@ },
                ),
            }),
    {
        match embedding {
            Some(data) => S3Progress::Ask(
                S3Command::PutVector {
                    key: id.to_owned(),
                    data,
                    metadata: payload_to_document(&payload),
                },
                S3Run::Updating,
            ),
            None => S3Progress::Ask(
                S3Command::GetVector { key: id.to_owned(), with_data: true, with_metadata: false },
                S3Run::Fetching { id: id.to_owned(), payload },
            ),
        }
    }

    /// Lists memories that a filter lets through, at most so many. The service lists all, page by
    /// page, and the filter is applied here.
    pub fn list(&self, filters: Option<&Filters>, limit: usize) -> (r: S3Progress)
        ensures
            r@ == S3ProgressView::Ask(
                S3CommandView::ListVectors,
                S3RunView::Listing { filters: opt_ref_view(filters), limit },
            ),
    {
        let filters: Option<Filters> = match filters {
            Some(f) => Some(f.duplicate()),
            None => None,
        };
        S3Progress::Ask(S3Command::ListVectors, S3Run::Listing { filters, limit })
    }

    /// Takes all memories out that a filter lets through. Without a filter the index is deleted and
    /// made anew.
    pub fn delete_all(&self, filters: Option<&Filters>) -> (r: S3Progress)
        ensures
            r@ == (match filters {
                Some(f) => S3ProgressView::Ask(
                    S3CommandView::ListVectors,
                    S3RunView::Matching { chosen: f@ },
                ),
                None => S3ProgressView::Ask(S3CommandView::DeleteIndex, S3RunView::Dropping),
            }),
    {
        match filters {
            Some(f) => S3Progress::Ask(
                S3Command::ListVectors,
                S3Run::Matching { chosen: f.duplicate() },
            ),
            None => S3Progress::Ask(S3Command::DeleteIndex, S3Run::Dropping),
        }
    }

    /// Asks whether the index is there.
    pub fn collection_exists(&self) -> (r: S3Progress)
        ensures
            r@ == S3ProgressView::Ask(S3CommandView::GetIndex, S3RunView::Checking),
    {
        S3Progress::Ask(S3Command::GetIndex, S3Run::Checking)
    }

    /// The request for the index.
    fn request_index(&self) -> (r: S3Command)
        ensures
            r@ == index_request(self@),
            is_ascii_text(self@.distance_metric) ==> r@ == index_request_by(
                self@,
                ascii_lowercase(self@.distance_metric),
            ),
    {
        S3Command::CreateIndex {
            dimension: #[verifier::truncate]
            (self.dimensions as i32),
            metric: to_lowercase(self.distance_metric.as_str()),
            unfiltered_key: "data".to_owned(),
        }
    }

    /// Makes the index.
    pub fn create_collection(&self) -> (r: S3Progress)
        ensures
            r@ == S3ProgressView::Ask(index_request(self@), S3RunView::Creating),
            is_ascii_text(self@.distance_metric) ==> r@ == S3ProgressView::Ask(
                index_request_by(self@, ascii_lowercase(self@.distance_metric)),
                S3RunView::Creating,
            ),
    {
        S3Progress::Ask(self.request_index(), S3Run::Creating)
    }

    /// Why the index could not be made.
    fn explain_index(&self, reply: S3Reply) -> (r: VectorStoreError)
        ensures
            r@ == index_error(self@, reply@),
    {
        match reply {
            S3Reply::Malformed(m) => VectorStoreError::Collection(
                concat("failed to build metadata config: ", m.as_str()),
            ),
            S3Reply::Failed(m) => VectorStoreError::Collection(
                complain("failed to create index ", &self.index_name, &m),
            ),
            _ => VectorStoreError::Collection("unexpected reply".to_owned()),
        }
    }

    /// Goes on with a reply. What has no time of its own is of the given one.
    pub fn step_at(&self, run: S3Run, reply: S3Reply, now: Timestamp) -> (r: S3Progress)
        ensures
            r@ == s3_next(self@, run@, reply@, now@),
    {
        match (run, reply) {
            (S3Run::Inserting, S3Reply::Done) => end(S3Outcome::Finished),
            (S3Run::Inserting, reply) => fail(explain_insert(reply)),
            (S3Run::Searching, S3Reply::Vectors(vectors)) => end(
                S3Outcome::Hits(read_scored(&vectors, now)),
            ),
            (S3Run::Searching, reply) => fail(
                VectorStoreError::Search(
                    concat("query_vectors failed: ", tell_failure(reply).as_str()),
                ),
            ),
            (S3Run::Getting, S3Reply::Vectors(vectors)) => {
                if vectors.len() == 0 {
                    return end(S3Outcome::Hit(None));
                }
                let v = &vectors[0];
                let hit = VectorSearchResult {
                    id: v.key.clone(),
                    score: Score::full(),
                    payload: read_payload(&v.metadata, now),
                };
                proof {
                    assert(hit@ == full_hit(views(vectors@)[0], now@));
                }
                end(S3Outcome::Hit(Some(hit)))
            },
            (S3Run::Getting, reply) => fail(
                VectorStoreError::Search(
                    concat("get_vectors failed: ", tell_failure(reply).as_str()),
                ),
            ),
            (S3Run::Deleting, S3Reply::Done) => end(S3Outcome::Finished),
            (S3Run::Deleting, reply) => fail(
                VectorStoreError::Delete(
                    concat("delete_vectors failed: ", tell_failure(reply).as_str()),
                ),
            ),
            (S3Run::Fetching { id, payload }, S3Reply::Vectors(vectors)) => {
                if vectors.len() == 0 {
                    return fail(VectorStoreError::NotFound(id));
                }
                proof {
                    assert(views(vectors@)[0] == vectors@[0]@);
                }
                match copy_data(&vectors[0]) {
                    Some(data) => S3Progress::Ask(
                        S3Command::PutVector {
                            key: id,
                            data,
                            metadata: payload_to_document(&payload),
                        },
                        S3Run::Updating,
                    ),
                    None => {
                        let mut text = concat("vector ", quote(&id).as_str());
                        text.append(" has no Float32 data");
                        fail(VectorStoreError::Update(text))
                    },
                }
            },
            (S3Run::Fetching { .. }, reply) => fail(
                VectorStoreError::Update(
                    concat(
                        "get_vectors failed while fetching embedding for update: ",
                        tell_failure(reply).as_str(),
                    ),
                ),
            ),
            (S3Run::Updating, S3Reply::Done) => end(S3Outcome::Finished),
            (S3Run::Updating, reply) => fail(
                VectorStoreError::Update(
                    concat(
                        "insert during update failed: ",
                        explain_insert(reply).to_text().as_str(),
                    ),
                ),
            ),
            (S3Run::Listing { filters, limit }, S3Reply::Page { vectors, next }) => go_on_listing(
                filters,
                limit,
                vectors,
                next,
                now,
            ),
            (
                S3Run::ListingOn { filters, limit, seen },
                S3Reply::Page { vectors, next },
            ) => go_on_listing(filters, limit, see_more(seen, vectors), next, now),
            (S3Run::Listing { .. }, reply) | (S3Run::ListingOn { .. }, reply) => fail(
                VectorStoreError::Search(
                    concat("list_vectors failed: ", tell_failure(reply).as_str()),
                ),
            ),
            (S3Run::Dropping, S3Reply::Done) => S3Progress::Ask(
                self.request_index(),
                S3Run::Remaking,
            ),
            (S3Run::Dropping, reply) => fail(
                VectorStoreError::Delete(
                    concat("delete_index failed: ", tell_failure(reply).as_str()),
                ),
            ),
            (S3Run::Remaking, S3Reply::Done) => end(S3Outcome::Count(0)),
            (S3Run::Remaking, reply) => fail(self.explain_index(reply)),
            (S3Run::Matching { chosen }, S3Reply::Page { vectors, next }) => go_on_matching(
                chosen,
                vectors,
                next,
                now,
            ),
            (S3Run::MatchingOn { chosen, seen }, S3Reply::Page { vectors, next }) => go_on_matching(
                chosen,
                see_more(seen, vectors),
                next,
                now,
            ),
            (S3Run::Matching { .. }, reply) | (S3Run::MatchingOn { .. }, reply) => fail(
                VectorStoreError::Search(
                    concat("list_vectors failed: ", tell_failure(reply).as_str()),
                ),
            ),
            (S3Run::Purging { left, total }, S3Reply::Done) => turn_to_batch(left, total),
            (S3Run::Purging { .. }, reply) => fail(
                VectorStoreError::Delete(
                    concat("delete_vectors batch failed: ", tell_failure(reply).as_str()),
                ),
            ),
            (S3Run::Checking, S3Reply::Done) => end(S3Outcome::Exists(true)),
            (S3Run::Checking, reply) => {
                let text = tell_failure(reply);
                if is_not_found_error(text.as_str()) {
                    end(S3Outcome::Exists(false))
                } else {
                    fail(
                        VectorStoreError::Collection(
                            complain("failed to check index ", &self.index_name, &text),
                        ),
                    )
                }
            },
            (S3Run::Creating, S3Reply::Done) => end(S3Outcome::Finished),
            (S3Run::Creating, reply) => fail(self.explain_index(reply)),
            (S3Run::OpeningBucket, S3Reply::Done) => S3Progress::Ask(
                S3Command::GetIndex,
                S3Run::OpeningIndex,
            ),
            (S3Run::OpeningBucket, reply) => {
                let text = tell_failure(reply);
                if is_not_found_error(text.as_str()) {
                    S3Progress::Ask(S3Command::CreateBucket, S3Run::MakingBucket)
                } else {
                    fail(
                        VectorStoreError::Connection(
                            complain("failed to check bucket ", &self.vector_bucket_name, &text),
                        ),
                    )
                }
            },
            (S3Run::MakingBucket, S3Reply::Done) => S3Progress::Ask(
                S3Command::GetIndex,
                S3Run::OpeningIndex,
            ),
            (S3Run::MakingBucket, reply) => {
                let text = tell_failure(reply);
                fail(
                    VectorStoreError::Connection(
                        complain("failed to create bucket ", &self.vector_bucket_name, &text),
                    ),
                )
            },
            (S3Run::OpeningIndex, S3Reply::Done) => end(S3Outcome::Finished),
            (S3Run::OpeningIndex, reply) => {
                let text = tell_failure(reply);
                if is_not_found_error(text.as_str()) {
                    S3Progress::Ask(self.request_index(), S3Run::MakingIndex)
                } else {
                    fail(
                        VectorStoreError::Collection(
                            complain("failed to check index ", &self.index_name, &text),
                        ),
                    )
                }
            },
            (S3Run::MakingIndex, S3Reply::Done) => end(S3Outcome::Finished),
            (S3Run::MakingIndex, reply) => fail(self.explain_index(reply)),
        }
    }

    /// Goes on with a reply. What has no time of its own is of the present.
    pub fn step(&self, run: S3Run, reply: S3Reply) -> (r: S3Progress)
        ensures
            exists|now: Instant|
                could_be_now(now) && r@ == #[trigger] s3_next(self@, run@, reply@, now),
    {
        let now = Timestamp::now();
        let r = self.step_at(run, reply, now);
        assert(could_be_now(now@) && r@ == s3_next(self@, run@, reply@, now@));
        r
    }
}

/// The embedding of a vector.
fn copy_data(vector: &S3Vector) -> (r: Option<Vec<u32>>)
    ensures
        opt_view(r) == vector@.data,
{
    match &vector.data {
        Some(data) => Some(copy_numbers(data)),
        None => None,
    }
}

/// The store for a configuration.
pub open spec fn store_of(
    config: S3VectorsConfigView,
    index_name: Seq<char>,
    dimensions: usize,
) -> S3VectorsStoreView {
    S3VectorsStoreView {
        vector_bucket_name: config.bucket_name,
        index_name,
        dimensions,
        distance_metric: match config.distance_metric {
            Some(m) => m,
            None => "cosine"@,
        },
    }
}

impl S3VectorsConfig {
    /// The region of the index: the one that is given, or `us-east-1`.
    pub fn region_or_default(&self) -> (r: String)
        ensures
            r@ == (match self@.region {
                Some(region) => region,
                None => "us-east-1"@,
            }),
    {
        match &self.region {
            Some(region) => region.clone(),
            None => "us-east-1".to_owned(),
        }
    }
}

/// A page that is not the last, and the time at which it came.
pub struct EarlyPage {
    pub vectors: Seq<S3VectorView>,
    pub token: Seq<char>,
    pub at: Instant,
}

/// How far an operation comes with some pages that are not the last.
pub open spec fn after_pages(
    start: S3ProgressView,
    store: S3VectorsStoreView,
    pages: Seq<EarlyPage>,
) -> S3ProgressView
    decreases pages.len(),
{
    if pages.len() == 0 {
        start
    } else {
        let page = pages.last();
        match after_pages(start, store, pages.drop_last()) {
            S3ProgressView::Ask(_, run) => s3_next(
                store,
                run,
                S3ReplyView::Page { vectors: page.vectors, next: Some(page.token) },
                page.at,
            ),
            done => done,
        }
    }
}

/// How far an operation comes with all pages.
pub open spec fn after_all_pages(
    start: S3ProgressView,
    store: S3VectorsStoreView,
    pages: Seq<EarlyPage>,
    last: Seq<S3VectorView>,
    now: Instant,
) -> S3ProgressView {
    match after_pages(start, store, pages) {
        S3ProgressView::Ask(_, run) => s3_next(
            store,
            run,
            S3ReplyView::Page { vectors: last, next: None },
            now,
        ),
        done => done,
    }
}

/// The vectors of some pages, in order.
pub open spec fn page_vectors(pages: Seq<EarlyPage>) -> Seq<S3VectorView>
    decreases pages.len(),
{
    if pages.len() == 0 {
        Seq::empty()
    } else {
        page_vectors(pages.drop_last()) + pages.last().vectors
    }
}

/// A listing goes through every page of the index: each page is asked for by the token that came
/// with the one before, and in the end the listing holds what the filter lets through of the
/// vectors of all pages, in order and at most so many.
pub proof fn listings_hold_every_page(
    store: S3VectorsStoreView,
    filters: Option<FiltersView>,
    limit: usize,
    pages: Seq<EarlyPage>,
    last: Seq<S3VectorView>,
    now: Instant,
)
    ensures
        ({
            let start = S3ProgressView::Ask(
                S3CommandView::ListVectors,
                S3RunView::Listing { filters, limit },
            );
            &&& pages.len() > 0 ==> after_pages(start, store, pages) == S3ProgressView::Ask(
                S3CommandView::ListMore { token: pages.last().token },
                S3RunView::ListingOn { filters, limit, seen: page_vectors(pages) },
            )
            &&& after_all_pages(start, store, pages, last, now) == ends(
                S3OutcomeView::Hits(
                    at_most(matching_hits(page_vectors(pages) + last, filters, now), limit),
                ),
            )
        }),
    decreases pages.len(),
{
    if pages.len() == 0 {
        assert(page_vectors(pages) + last =~= last);
    } else {
        listings_hold_every_page(store, filters, limit, pages.drop_last(), last, now);
        if pages.len() == 1 {
            assert(page_vectors(pages) =~= pages.last().vectors);
        }
    }
}

proof fn deletions_see_every_page(
    store: S3VectorsStoreView,
    chosen: FiltersView,
    pages: Seq<EarlyPage>,
    last: Seq<S3VectorView>,
    now: Instant,
)
    ensures
        ({
            let start = S3ProgressView::Ask(
                S3CommandView::ListVectors,
                S3RunView::Matching { chosen },
            );
            &&& pages.len() > 0 ==> after_pages(start, store, pages) == S3ProgressView::Ask(
                S3CommandView::ListMore { token: pages.last().token },
                S3RunView::MatchingOn { chosen, seen: page_vectors(pages) },
            )
            &&& after_all_pages(start, store, pages, last, now) == matched(
                chosen,
                page_vectors(pages) + last,
                None,
                now,
            )
        }),
    decreases pages.len(),
{
    if pages.len() == 0 {
        assert(page_vectors(pages) + last =~= last);
    } else {
        deletions_see_every_page(store, chosen, pages.drop_last(), last, now);
        if pages.len() == 1 {
            assert(page_vectors(pages) =~= pages.last().vectors);
        }
    }
}

/// The filter lets the payload of a vector through.
pub open spec fn is_chosen(vector: S3VectorView, chosen: FiltersView, now: Instant) -> bool {
    is_match(full_hit(vector, now).payload, Some(chosen))
}

/// One of the vectors that the filter lets through has the key.
pub open spec fn is_key_of_chosen(
    key: Seq<char>,
    vectors: Seq<S3VectorView>,
    chosen: FiltersView,
    now: Instant,
) -> bool {
    exists|i: int|
        0 <= i < vectors.len() && #[trigger] is_chosen(vectors[i], chosen, now) && vectors[i].key
            == key
}

/// The deletion of the vectors that a filter lets through names every one of them, in order and
/// each once, and no other; in the end it tells how many they were.
pub open spec fn names_every_match(
    store: S3VectorsStoreView,
    chosen: FiltersView,
    vectors: Seq<S3VectorView>,
    now: Instant,
) -> bool {
    let keys = hit_keys(matching_hits(vectors, Some(chosen), now));
    &&& all_keys(in_batches(keys)) == keys
    &&& forall|i: int|
        0 <= i < in_batches(keys).len() ==> (#[trigger] after_doing(
            purge(in_batches(keys), keys.len() as usize),
            store,
            now,
            i as nat,
        ) matches S3ProgressView::Ask(command, _) && command == (
        S3CommandView::DeleteVectors { keys: in_batches(keys)[i].keys }))
    &&& after_doing(
        purge(in_batches(keys), keys.len() as usize),
        store,
        now,
        in_batches(keys).len(),
    ) == ends(S3OutcomeView::Count(keys.len() as usize))
    &&& forall|i: int|
        0 <= i < vectors.len() && #[trigger] is_chosen(vectors[i], chosen, now) ==> keys.contains(
            vectors[i].key,
        )
    &&& forall|k: int|
        0 <= k < keys.len() ==> #[trigger] is_key_of_chosen(keys[k], vectors, chosen, now)
}

/// Deleting by a filter names every vector that the filter lets through, on whichever page of the
/// index it is, in order and each once, and no other; in the end it tells how many they were.
pub proof fn filtered_deletions_name_every_match(
    store: S3VectorsStoreView,
    chosen: FiltersView,
    pages: Seq<EarlyPage>,
    last: Seq<S3VectorView>,
    now: Instant,
)
    requires
        page_vectors(pages).len() + last.len() <= usize::MAX,
    ensures
        after_all_pages(
            S3ProgressView::Ask(S3CommandView::ListVectors, S3RunView::Matching { chosen }),
            store,
            pages,
            last,
            now,
        ) == matched(chosen, page_vectors(pages) + last, None, now),
        names_every_match(store, chosen, page_vectors(pages) + last, now),
{
    deletions_see_every_page(store, chosen, pages, last, now);
    deletions_name_every_match(store, chosen, page_vectors(pages) + last, now);
}

proof fn deletions_name_every_match(
    store: S3VectorsStoreView,
    chosen: FiltersView,
    vectors: Seq<S3VectorView>,
    now: Instant,
)
    ensures
        names_every_match(store, chosen, vectors, now),
{
    let all = vectors.map_values(|v: S3VectorView| full_hit(v, now));
    let keep = |h: VectorSearchResultView| is_match(h.payload, Some(chosen));
    let hits = matching_hits(vectors, Some(chosen), now);
    let keys = hit_keys(hits);
    batches_hold_all_keys(keys);
    let left = in_batches(keys);
    let total = keys.len() as usize;
    purges_go_batch_by_batch(left, total, store, now, left.len());
    assert forall|i: int| 0 <= i < left.len() implies (#[trigger] after_doing(
        purge(left, total),
        store,
        now,
        i as nat,
    ) matches S3ProgressView::Ask(command, _) && command == (S3CommandView::DeleteVectors {
        keys: left[i].keys,
    })) by {
        purges_go_batch_by_batch(left, total, store, now, i as nat);
    }
    assert(hits == all.filter(keep));
    assert forall|i: int| 0 <= i < vectors.len() && #[trigger] is_chosen(
        vectors[i],
        chosen,
        now,
    ) implies keys.contains(vectors[i].key) by {
        assert(all[i] == full_hit(vectors[i], now));
        all.lemma_filter_contains(keep, i);
        let k = choose|k: int| 0 <= k < hits.len() && hits[k] == all[i];
        assert(keys[k] == vectors[i].key);
    }
    assert forall|k: int| 0 <= k < keys.len() implies #[trigger] is_key_of_chosen(
        keys[k],
        vectors,
        chosen,
        now,
    ) by {
        filtered_values_are_of_the_list(all, keep, k);
        all.lemma_filter_pred(keep, k);
        let i = choose|i: int| 0 <= i < all.len() && all[i] == hits[k];
        assert(is_chosen(vectors[i], chosen, now));
        assert(vectors[i].key == keys[k]);
    }
}

/// How far an operation comes if the service does the next so many things that it is asked.
pub open spec fn after_doing(
    start: S3ProgressView,
    store: S3VectorsStoreView,
    now: Instant,
    count: nat,
) -> S3ProgressView
    decreases count,
{
    if count == 0 {
        start
    } else {
        match after_doing(start, store, now, (count - 1) as nat) {
            S3ProgressView::Ask(_, run) => s3_next(store, run, S3ReplyView::Done, now),
            done => done,
        }
    }
}

proof fn purges_go_batch_by_batch(
    left: Seq<BatchView>,
    total: usize,
    store: S3VectorsStoreView,
    now: Instant,
    count: nat,
)
    requires
        count <= left.len(),
    ensures
        after_doing(purge(left, total), store, now, count) == purge(
            left.skip(count as int),
            total,
        ),
    decreases count,
{
    if count == 0 {
        assert(left.skip(0) =~= left);
    } else {
        purges_go_batch_by_batch(left, total, store, now, (count - 1) as nat);
        assert(left.skip(count - 1).skip(1) =~= left.skip(count as int));
    }
}

/// An update without a new embedding writes the embedding that is stored.
pub proof fn s3_updates_keep_the_embedding(
    store: S3VectorsStoreView,
    id: Seq<char>,
    payload: PayloadView,
    vectors: Seq<S3VectorView>,
    now: Instant,
)
    requires
        vectors.len() > 0,
        vectors[0].data is Some,
    ensures
        s3_next(store, S3RunView::Fetching { id, payload }, S3ReplyView::Vectors(vectors), now)
            == S3ProgressView::Ask(
            S3CommandView::PutVector {
                key: id,
                data: vectors[0].data->0,
                metadata: payload_document(payload),
            },
            S3RunView::Updating,
        ),
{
}

} // verus!
