//! What every store has to do, as a suite that any store can be tried with.
use vstd::prelude::*;

use crate::clock::{could_be_now, Instant, Timestamp};
use crate::json::{json_members, JsonValue, JsonView};
use crate::memory::manager::at_most;
use crate::memory::scope::{
    equality, scope_conditions, scope_filters, scope_filters_select_the_scope,
};
use crate::models::{
    FilterCondition, FilterLogic, FilterOperator, Filters, FiltersView, Payload, PayloadView,
    VectorSearchResult, VectorSearchResultView,
};
use crate::ranking::{ranking_keeps_the_values, Score};
use crate::text::{concat, text_eq};
use crate::text_map::TextMap;
use crate::vector_stores::filter_eval::is_match;
use crate::vector_stores::memory::{
    best_hits, lists_hold_what_matches, lists_store, matching, plain_hit, scored_hits,
    store_delete_all, store_get, store_insert, store_update, EntryView, InMemoryStore,
};
use crate::views::{opt_view, views};

verus! {

/// What an optional text is.
pub open spec fn opt_str_view(text: Option<&str>) -> Option<Seq<char>> {
    match text {
        Some(t) => Some(t@),
        None => None,
    }
}

/// A small payload, made at a time.
pub open spec fn small_payload(
    data: Seq<char>,
    user_id: Option<Seq<char>>,
    created_at: Instant,
) -> PayloadView {
    PayloadView {
        data,
        hash: "hash-"@ + data,
        created_at,
        user_id,
        agent_id: None,
        run_id: None,
        memory_type: None,
        metadata: Map::empty(),
    }
}

/// A small payload of a user, made now.
pub fn test_payload(data: &str, user_id: Option<&str>) -> (r: Payload)
    ensures
        r@ == small_payload(data@, opt_str_view(user_id), r@.created_at),
        could_be_now(r@.created_at),
{
    let metadata: TextMap<JsonValue> = TextMap::new();
    proof {
        assert(json_members(metadata@) =~= Map::<Seq<char>, JsonView>::empty());
    }
    Payload {
        data: data.to_owned(),
        hash: concat("hash-", data),
        created_at: Timestamp::now(),
        user_id: match user_id {
            Some(u) => Some(u.to_owned()),
            None => None,
        },
        agent_id: None,
        run_id: None,
        memory_type: None,
        metadata,
    }
}

/// The filter for a field that is a text.
pub open spec fn equality_filter(field: Seq<char>, value: Seq<char>) -> FiltersView {
    FiltersView { conditions: seq![equality(field, value)], logic: FilterLogic::And }
}

/// Makes the filter for a field that is a text.
pub fn eq_filter(field: &str, value: &str) -> (r: Filters)
    ensures
        r@ == equality_filter(field@, value@),
{
    let cond = FilterCondition {
        field: field.to_owned(),
        operator: FilterOperator::Eq,
        value: JsonValue::String(value.to_owned()),
    };
    let mut conditions: Vec<FilterCondition> = Vec::new();
    conditions.push(cond);
    proof {
        assert(views(conditions@) =~= seq![equality(field@, value@)]);
    }
    Filters { conditions, logic: FilterLogic::And }
}

/// What the suite asks of a store.
#[derive(Debug)]
pub enum SuiteCommand {
    /// Put a payload of [`test_payload`] in.
    Insert { id: String, embedding: Vec<u32>, data: String, user_id: String },
    /// Get a memory.
    Get { id: String },
    /// List memories.
    List { filters: Option<Filters>, limit: usize },
    /// Replace a memory by a payload of [`test_payload`]. Its embedding stays.
    Update { id: String, data: String, user_id: String },
    /// Find the memories most like an embedding.
    Search { embedding: Vec<u32>, limit: usize },
    /// Take a memory out.
    Delete { id: String },
    /// Take all memories out that a filter lets through.
    DeleteAll { chosen: Filters },
}

/// [`SuiteCommand`], as contracts see it.
#[verifier::ext_equal]
pub enum SuiteCommandView {
    Insert { id: Seq<char>, embedding: Seq<u32>, data: Seq<char>, user_id: Seq<char> },
    Get { id: Seq<char> },
    List { filters: Option<FiltersView>, limit: usize },
    Update { id: Seq<char>, data: Seq<char>, user_id: Seq<char> },
    Search { embedding: Seq<u32>, limit: usize },
    Delete { id: Seq<char> },
    DeleteAll { chosen: FiltersView },
}

impl View for SuiteCommand {
    type V = SuiteCommandView;

    open spec fn view(&self) -> SuiteCommandView {
        match self {
            SuiteCommand::Insert { id, embedding, data, user_id } => SuiteCommandView::Insert {
                id: id@,
                embedding: embedding@,
                data: data@,
                user_id: user_id@,
            },
            SuiteCommand::Get { id } => SuiteCommandView::Get {
                id: id@,
            },
            SuiteCommand::List { filters, limit } => SuiteCommandView::List {
                filters: opt_view(*filters),
                limit: *limit,
            },
            SuiteCommand::Update { id, data, user_id } => SuiteCommandView::Update {
                id: id@,
                data: data@,
                user_id: user_id@,
            },
            SuiteCommand::Search { embedding, limit } => SuiteCommandView::Search {
                embedding: embedding@,
                limit: *limit,
            },
            SuiteCommand::Delete { id } => SuiteCommandView::Delete {
                id: id@,
            },
            SuiteCommand::DeleteAll { chosen } => SuiteCommandView::DeleteAll {
                chosen: chosen@,
            },
        }
    }
}

/// What the store did.
#[derive(Debug)]
pub enum SuiteReply {
    /// What was to be written was.
    Done,
    /// The memory that was asked for, if there is one.
    Fetched(Option<VectorSearchResult>),
    /// The memories that were found.
    Found(Vec<VectorSearchResult>),
    /// It failed.
    Failed,
}

/// [`SuiteReply`], as contracts see it.
#[verifier::ext_equal]
pub enum SuiteReplyView {
    Done,
    Fetched(Option<VectorSearchResultView>),
    Found(Seq<VectorSearchResultView>),
    Failed,
}

impl View for SuiteReply {
    type V = SuiteReplyView;

    open spec fn view(&self) -> SuiteReplyView {
        match self {
            SuiteReply::Done => SuiteReplyView::Done,
            SuiteReply::Fetched(x) => SuiteReplyView::Fetched(opt_view(*x)),
            SuiteReply::Found(x) => SuiteReplyView::Found(views(x@)),
            SuiteReply::Failed => SuiteReplyView::Failed,
        }
    }
}

/// Where the suite is.
#[derive(Clone, Copy, Debug, PartialEq, Eq, Structural)]
pub enum SuiteRun {
    /// The first memory is put in.
    InsertingA,
    /// The second memory is put in.
    InsertingB,
    /// The first memory is read.
    GettingA,
    /// A memory that is not there is read.
    GettingMissing,
    /// All memories are listed.
    ListingAll,
    /// The memories of one user are listed.
    ListingAlice,
    /// The first memory is replaced.
    UpdatingA,
    /// The first memory is read after that.
    GettingUpdated,
    /// Memories are searched.
    Searching,
    /// The second memory is taken out.
    DeletingB,
    /// The second memory is read after that.
    GettingDeleted,
    /// The memories of one user are taken out.
    DeletingAlice,
    /// The first memory is read after that.
    GettingGone,
}

impl View for SuiteRun {
    type V = SuiteRun;

    open spec fn view(&self) -> SuiteRun {
        *self
    }
}

/// How far the suite has come.
#[derive(Debug)]
pub enum SuiteProgress {
    /// It waits for the store to do something.
    Ask(SuiteCommand, SuiteRun),
    /// The store did all that it has to.
    Passed,
    /// The store did not, as the text tells.
    Failed(String),
}

/// [`SuiteProgress`], as contracts see it.
#[verifier::ext_equal]
pub enum SuiteProgressView {
    Ask(SuiteCommandView, SuiteRun),
    Passed,
    Failed(Seq<char>),
}

impl View for SuiteProgress {
    type V = SuiteProgressView;

    open spec fn view(&self) -> SuiteProgressView {
        match self {
            SuiteProgress::Ask(command, run) => SuiteProgressView::Ask(command@, run@),
            SuiteProgress::Passed => SuiteProgressView::Passed,
            SuiteProgress::Failed(text) => SuiteProgressView::Failed(text@),
        }
    }
}

/// The bit pattern of a tenth as a single.
pub const TENTH: u32 = 0x3dcc_cccd;

/// The embedding of all memories of the suite.
pub open spec fn suite_embedding() -> Seq<u32> {
    seq![TENTH, TENTH, TENTH, TENTH]
}

/// The filter for the memories of the first user.
pub open spec fn of_alice() -> FiltersView {
    equality_filter("user_id"@, "user-alice"@)
}

/// What the suite asks for at each place.
pub open spec fn suite_command(run: SuiteRun) -> SuiteCommandView {
    match run {
        SuiteRun::InsertingA => SuiteCommandView::Insert {
            id: "id-a"@,
            embedding: suite_embedding(),
            data: "memory A"@,
            user_id: "user-alice"@,
        },
        SuiteRun::InsertingB => SuiteCommandView::Insert {
            id: "id-b"@,
            embedding: suite_embedding(),
            data: "memory B"@,
            user_id: "user-bob"@,
        },
        SuiteRun::GettingA => SuiteCommandView::Get { id: "id-a"@ },
        SuiteRun::GettingMissing => SuiteCommandView::Get { id: "id-missing"@ },
        SuiteRun::ListingAll => SuiteCommandView::List { filters: None, limit: 100 },
        SuiteRun::ListingAlice => SuiteCommandView::List { filters: Some(of_alice()), limit: 100 },
        SuiteRun::UpdatingA => SuiteCommandView::Update {
            id: "id-a"@,
            data: "memory A updated"@,
            user_id: "user-alice"@,
        },
        SuiteRun::GettingUpdated => SuiteCommandView::Get { id: "id-a"@ },
        SuiteRun::Searching => SuiteCommandView::Search {
            embedding: suite_embedding(),
            limit: 5,
        },
        SuiteRun::DeletingB => SuiteCommandView::Delete { id: "id-b"@ },
        SuiteRun::GettingDeleted => SuiteCommandView::Get { id: "id-b"@ },
        SuiteRun::DeletingAlice => SuiteCommandView::DeleteAll { chosen: of_alice() },
        SuiteRun::GettingGone => SuiteCommandView::Get { id: "id-a"@ },
    }
}

/// The suite turns to a place.
pub open spec fn suite_turns(run: SuiteRun) -> SuiteProgressView {
    SuiteProgressView::Ask(suite_command(run), run)
}

/// The suite begins by putting a memory in.
pub open spec fn suite_begins() -> SuiteProgressView {
    suite_turns(SuiteRun::InsertingA)
}

/// The suite goes on at a place if something is as it should be, and fails with a text if not.
pub open spec fn suite_expects(met: bool, run: SuiteRun, text: Seq<char>) -> SuiteProgressView {
    if met {
        suite_turns(run)
    } else {
        SuiteProgressView::Failed(text)
    }
}

/// All memories are of a user.
pub open spec fn all_of_user(found: Seq<VectorSearchResultView>, user_id: Seq<char>) -> bool {
    forall|i: int| 0 <= i < found.len() ==> (#[trigger] found[i]).payload.user_id == Some(user_id)
}

/// How the suite goes on with what the store did.
pub open spec fn suite_next(run: SuiteRun, reply: SuiteReplyView) -> SuiteProgressView {
    match (run, reply) {
        (SuiteRun::InsertingA, _) => suite_expects(
            reply is Done,
            SuiteRun::InsertingB,
            "conformance: insert id-a should succeed"@,
        ),
        (SuiteRun::InsertingB, _) => suite_expects(
            reply is Done,
            SuiteRun::GettingA,
            "conformance: insert id-b should succeed"@,
        ),
        (SuiteRun::GettingA, SuiteReplyView::Fetched(Some(found))) => suite_expects(
            found.payload.data == "memory A"@,
            SuiteRun::GettingMissing,
            "conformance: get id-a should have correct data"@,
        ),
        (SuiteRun::GettingA, SuiteReplyView::Fetched(None)) => SuiteProgressView::Failed(
            "conformance: get id-a should return Some"@,
        ),
        (SuiteRun::GettingA, _) => SuiteProgressView::Failed(
            "conformance: get id-a should succeed"@,
        ),
        (SuiteRun::GettingMissing, SuiteReplyView::Fetched(found)) => suite_expects(
            found is None,
            SuiteRun::ListingAll,
            "conformance: get missing should return None"@,
        ),
        (SuiteRun::GettingMissing, _) => SuiteProgressView::Failed(
            "conformance: get missing should succeed (not error)"@,
        ),
        (SuiteRun::ListingAll, SuiteReplyView::Found(found)) => suite_expects(
            found.len() >= 2,
            SuiteRun::ListingAlice,
            "conformance: list should return at least 2 items"@,
        ),
        (SuiteRun::ListingAll, _) => SuiteProgressView::Failed(
            "conformance: list with no filter should succeed"@,
        ),
        (SuiteRun::ListingAlice, SuiteReplyView::Found(found)) => suite_expects(
            all_of_user(found, "user-alice"@),
            SuiteRun::UpdatingA,
            "conformance: list with user_id=user-alice should only return alice's memories"@,
        ),
        (SuiteRun::ListingAlice, _) => SuiteProgressView::Failed(
            "conformance: list with user_id filter should succeed"@,
        ),
        (SuiteRun::UpdatingA, _) => suite_expects(
            reply is Done,
            SuiteRun::GettingUpdated,
            "conformance: update id-a should succeed"@,
        ),
        (SuiteRun::GettingUpdated, SuiteReplyView::Fetched(Some(found))) => suite_expects(
            found.payload.data == "memory A updated"@,
            SuiteRun::Searching,
            "conformance: payload.data should reflect update"@,
        ),
        (SuiteRun::GettingUpdated, SuiteReplyView::Fetched(None)) => SuiteProgressView::Failed(
            "conformance: id-a should still exist after update"@,
        ),
        (SuiteRun::GettingUpdated, _) => SuiteProgressView::Failed(
            "conformance: get after update should succeed"@,
        ),
        (SuiteRun::Searching, SuiteReplyView::Found(found)) => suite_expects(
            found.len() > 0,
            SuiteRun::DeletingB,
            "conformance: search should return at least one result"@,
        ),
        (SuiteRun::Searching, _) => SuiteProgressView::Failed(
            "conformance: search should succeed"@,
        ),
        (SuiteRun::DeletingB, _) => suite_expects(
            reply is Done,
            SuiteRun::GettingDeleted,
            "conformance: delete id-b should succeed"@,
        ),
        (SuiteRun::GettingDeleted, SuiteReplyView::Fetched(found)) => suite_expects(
            found is None,
            SuiteRun::DeletingAlice,
            "conformance: id-b should not exist after delete"@,
        ),
        (SuiteRun::GettingDeleted, _) => SuiteProgressView::Failed(
            "conformance: get after delete should succeed"@,
        ),
        (SuiteRun::DeletingAlice, _) => suite_expects(
            reply is Done,
            SuiteRun::GettingGone,
            "conformance: delete_all with filter should succeed"@,
        ),
        (SuiteRun::GettingGone, SuiteReplyView::Fetched(None)) => SuiteProgressView::Passed,
        (SuiteRun::GettingGone, SuiteReplyView::Fetched(Some(_))) => SuiteProgressView::Failed(
            "conformance: id-a should not exist after delete_all(user-alice filter)"@,
        ),
        (SuiteRun::GettingGone, _) => SuiteProgressView::Failed(
            "conformance: get after delete_all should succeed"@,
        ),
    }
}

/// Makes the embedding of all memories of the suite.
fn make_embedding() -> (r: Vec<u32>)
    ensures
        r@ == suite_embedding(),
{
    let r = vec![TENTH, TENTH, TENTH, TENTH];
    proof {
        assert(r@ =~= suite_embedding());
    }
    r
}

/// Turns to a place.
fn turn(run: SuiteRun) -> (r: SuiteProgress)
    ensures
        r@ == suite_turns(run),
{
    let command = match run {
        SuiteRun::InsertingA => SuiteCommand::Insert {
            id: "id-a".to_owned(),
            embedding: make_embedding(),
            data: "memory A".to_owned(),
            user_id: "user-alice".to_owned(),
        },
        SuiteRun::InsertingB => SuiteCommand::Insert {
            id: "id-b".to_owned(),
            embedding: make_embedding(),
            data: "memory B".to_owned(),
            user_id: "user-bob".to_owned(),
        },
        SuiteRun::GettingA => SuiteCommand::Get { id: "id-a".to_owned() },
        SuiteRun::GettingMissing => SuiteCommand::Get { id: "id-missing".to_owned() },
        SuiteRun::ListingAll => SuiteCommand::List { filters: None, limit: 100 },
        SuiteRun::ListingAlice => SuiteCommand::List {
            filters: Some(eq_filter("user_id", "user-alice")),
            limit: 100,
        },
        SuiteRun::UpdatingA => SuiteCommand::Update {
            id: "id-a".to_owned(),
            data: "memory A updated".to_owned(),
            user_id: "user-alice".to_owned(),
        },
        SuiteRun::GettingUpdated => SuiteCommand::Get { id: "id-a".to_owned() },
        SuiteRun::Searching => SuiteCommand::Search { embedding: make_embedding(), limit: 5 },
        SuiteRun::DeletingB => SuiteCommand::Delete { id: "id-b".to_owned() },
        SuiteRun::GettingDeleted => SuiteCommand::Get { id: "id-b".to_owned() },
        SuiteRun::DeletingAlice => SuiteCommand::DeleteAll {
            chosen: eq_filter("user_id", "user-alice"),
        },
        SuiteRun::GettingGone => SuiteCommand::Get { id: "id-a".to_owned() },
    };
    SuiteProgress::Ask(command, run)
}

/// Goes on at a place if something is as it should be, and fails with a text if not.
fn expect(met: bool, run: SuiteRun, text: &str) -> (r: SuiteProgress)
    ensures
        r@ == suite_expects(met, run, text@),
{
    if met {
        turn(run)
    } else {
        SuiteProgress::Failed(text.to_owned())
    }
}

/// Whether what was to be written was.
fn is_done(reply: &SuiteReply) -> (r: bool)
    ensures
        r == (reply@ is Done),
{
    match reply {
        SuiteReply::Done => true,
        _ => false,
    }
}

/// Whether all memories are of a user.
fn check_user(found: &Vec<VectorSearchResult>, user_id: &str) -> (r: bool)
    ensures
        r == all_of_user(views(found@), user_id@),
{
    let ghost all = views(found@);
    let mut i: usize = 0;
    while i < found.len()
        invariant
            i <= found@.len(),
            all == views(found@),
            forall|j: int| 0 <= j < i ==> (#[trigger] all[j]).payload.user_id == Some(user_id@),
        decreases found@.len() - i,
    {
        let of_user = match &found[i].payload.user_id {
            Some(u) => text_eq(u.as_str(), user_id),
            None => false,
        };
        assert(of_user == (all[i as int].payload.user_id == Some(user_id@)));
        if !of_user {
            return false;
        }
        i += 1;
    }
    true
}

/// Begins to try a store whose collection is there.
pub fn suite_start() -> (r: SuiteProgress)
    ensures
        r@ == suite_begins(),
{
    turn(SuiteRun::InsertingA)
}

/// Goes on with what the store did.
pub fn suite_step(run: SuiteRun, reply: SuiteReply) -> (r: SuiteProgress)
    ensures
        r@ == suite_next(run@, reply@),
{
    match (run, reply) {
        (SuiteRun::InsertingA, reply) => expect(
            is_done(&reply),
            SuiteRun::InsertingB,
            "conformance: insert id-a should succeed",
        ),
        (SuiteRun::InsertingB, reply) => expect(
            is_done(&reply),
            SuiteRun::GettingA,
            "conformance: insert id-b should succeed",
        ),
        (SuiteRun::GettingA, SuiteReply::Fetched(Some(found))) => expect(
            text_eq(found.payload.data.as_str(), "memory A"),
            SuiteRun::GettingMissing,
            "conformance: get id-a should have correct data",
        ),
        (SuiteRun::GettingA, SuiteReply::Fetched(None)) => SuiteProgress::Failed(
            "conformance: get id-a should return Some".to_owned(),
        ),
        (SuiteRun::GettingA, _) => SuiteProgress::Failed(
            "conformance: get id-a should succeed".to_owned(),
        ),
        (SuiteRun::GettingMissing, SuiteReply::Fetched(found)) => expect(
            found.is_none(),
            SuiteRun::ListingAll,
            "conformance: get missing should return None",
        ),
        (SuiteRun::GettingMissing, _) => SuiteProgress::Failed(
            "conformance: get missing should succeed (not error)".to_owned(),
        ),
        (SuiteRun::ListingAll, SuiteReply::Found(found)) => expect(
            found.len() >= 2,
            SuiteRun::ListingAlice,
            "conformance: list should return at least 2 items",
        ),
        (SuiteRun::ListingAll, _) => SuiteProgress::Failed(
            "conformance: list with no filter should succeed".to_owned(),
        ),
        (SuiteRun::ListingAlice, SuiteReply::Found(found)) => expect(
            check_user(&found, "user-alice"),
            SuiteRun::UpdatingA,
            "conformance: list with user_id=user-alice should only return alice's memories",
        ),
        (SuiteRun::ListingAlice, _) => SuiteProgress::Failed(
            "conformance: list with user_id filter should succeed".to_owned(),
        ),
        (SuiteRun::UpdatingA, reply) => expect(
            is_done(&reply),
            SuiteRun::GettingUpdated,
            "conformance: update id-a should succeed",
        ),
        (SuiteRun::GettingUpdated, SuiteReply::Fetched(Some(found))) => expect(
            text_eq(found.payload.data.as_str(), "memory A updated"),
            SuiteRun::Searching,
            "conformance: payload.data should reflect update",
        ),
        (SuiteRun::GettingUpdated, SuiteReply::Fetched(None)) => SuiteProgress::Failed(
            "conformance: id-a should still exist after update".to_owned(),
        ),
        (SuiteRun::GettingUpdated, _) => SuiteProgress::Failed(
            "conformance: get after update should succeed".to_owned(),
        ),
        (SuiteRun::Searching, SuiteReply::Found(found)) => expect(
            found.len() > 0,
            SuiteRun::DeletingB,
            "conformance: search should return at least one result",
        ),
        (SuiteRun::Searching, _) => SuiteProgress::Failed(
            "conformance: search should succeed".to_owned(),
        ),
        (SuiteRun::DeletingB, reply) => expect(
            is_done(&reply),
            SuiteRun::GettingDeleted,
            "conformance: delete id-b should succeed",
        ),
        (SuiteRun::GettingDeleted, SuiteReply::Fetched(found)) => expect(
            found.is_none(),
            SuiteRun::DeletingAlice,
            "conformance: id-b should not exist after delete",
        ),
        (SuiteRun::GettingDeleted, _) => SuiteProgress::Failed(
            "conformance: get after delete should succeed".to_owned(),
        ),
        (SuiteRun::DeletingAlice, reply) => expect(
            is_done(&reply),
            SuiteRun::GettingGone,
            "conformance: delete_all with filter should succeed",
        ),
        (SuiteRun::GettingGone, SuiteReply::Fetched(None)) => SuiteProgress::Passed,
        (SuiteRun::GettingGone, SuiteReply::Fetched(Some(_))) => SuiteProgress::Failed(
            "conformance: id-a should not exist after delete_all(user-alice filter)".to_owned(),
        ),
        (SuiteRun::GettingGone, _) => SuiteProgress::Failed(
            "conformance: get after delete_all should succeed".to_owned(),
        ),
    }
}

/// The hits are all memories of a store, each with a score that its embedding may be given.
pub open spec fn rates_store<F: Fn(&Vec<u32>) -> Score>(
    likeness: F,
    store: Map<Seq<char>, EntryView>,
    keys: Seq<Seq<char>>,
    hits: Seq<VectorSearchResultView>,
) -> bool {
    lists_store(keys, store) && scored_hits(hits, matching(keys, store, None), store, likeness)
}

/// What a store in the process does when it is asked.
pub open spec fn answers<F: Fn(&Vec<u32>) -> Score>(
    likeness: F,
    store: Map<Seq<char>, EntryView>,
    command: SuiteCommandView,
    reply: SuiteReplyView,
    later: Map<Seq<char>, EntryView>,
) -> bool {
    match command {
        SuiteCommandView::Insert { id, embedding, data, user_id } => {
            &&& reply is Done
            &&& exists|at: Instant|
                later == store_insert(
                    store,
                    id,
                    embedding,
                    #[trigger] small_payload(data, Some(user_id), at),
                )
        },
        SuiteCommandView::Get { id } => {
            &&& reply == SuiteReplyView::Fetched(store_get(store, id))
            &&& later == store
        },
        SuiteCommandView::List { filters, limit } => {
            &&& later == store
            &&& exists|keys: Seq<Seq<char>>| #[trigger]
                lists_store(keys, store) && reply == SuiteReplyView::Found(
                    at_most(
                        matching(keys, store, filters).map_values(
                            |id: Seq<char>| plain_hit(id, store[id].payload),
                        ),
                        limit,
                    ),
                )
        },
        SuiteCommandView::Update { id, data, user_id } => if store.contains_key(id) {
            &&& reply is Done
            &&& exists|at: Instant|
                later == store_update(
                    store,
                    id,
                    None,
                    #[trigger] small_payload(data, Some(user_id), at),
                )
        } else {
            reply is Failed && later == store
        },
        SuiteCommandView::Search { limit, .. } => {
            &&& later == store
            &&& exists|keys: Seq<Seq<char>>, hits: Seq<VectorSearchResultView>| #[trigger]
                rates_store(likeness, store, keys, hits) && reply == SuiteReplyView::Found(
                    best_hits(hits, limit),
                )
        },
        SuiteCommandView::Delete { id } => {
            &&& reply == (if store.contains_key(id) {
                SuiteReplyView::Done
            } else {
                SuiteReplyView::Failed
            })
            &&& later == store.remove(id)
        },
        SuiteCommandView::DeleteAll { chosen } => {
            reply is Done && later == store_delete_all(store, Some(chosen))
        },
    }
}

/// Has a store in the process do what the suite asks for. In a search the score of a memory is what
/// `likeness` makes of its embedding.
pub fn answer<F: Fn(&Vec<u32>) -> Score>(
    store: &mut InMemoryStore,
    likeness: F,
    command: SuiteCommand,
) -> (r: SuiteReply)
    requires
        forall|e: &Vec<u32>| #[trigger] call_requires(likeness, (e,)),
    ensures
        answers(likeness, old(store)@, command@, r@, final(store)@),
{
    match command {
        SuiteCommand::Insert { id, embedding, data, user_id } => {
            let payload = test_payload(data.as_str(), Some(user_id.as_str()));
            let ghost made = small_payload(data@, Some(user_id@), payload@.created_at);
            assert(payload@ == made);
            match store.insert(id.as_str(), embedding, payload) {
                Ok(_) => SuiteReply::Done,
                Err(_) => SuiteReply::Failed,
            }
        },
        SuiteCommand::Get { id } => match store.get(id.as_str()) {
            Ok(found) => SuiteReply::Fetched(found),
            Err(_) => SuiteReply::Failed,
        },
        SuiteCommand::List { filters, limit } => match store.list(filters.as_ref(), limit) {
            Ok(found) => {
                let ghost has = store@;
                assert(views(found@) == at_most(
                    matching(store.keys(), has, opt_view(filters)).map_values(
                        |id: Seq<char>| plain_hit(id, has[id].payload),
                    ),
                    limit,
                ));
                SuiteReply::Found(found)
            },
            Err(_) => SuiteReply::Failed,
        },
        SuiteCommand::Update { id, data, user_id } => {
            let payload = test_payload(data.as_str(), Some(user_id.as_str()));
            let ghost made = small_payload(data@, Some(user_id@), payload@.created_at);
            assert(payload@ == made);
            match store.update(id.as_str(), None, payload) {
                Ok(_) => SuiteReply::Done,
                Err(_) => SuiteReply::Failed,
            }
        },
        SuiteCommand::Search { embedding, limit } => match store.search(likeness, limit, None) {
            Ok(found) => {
                let ghost ids = matching(store.keys(), store@, None);
                let ghost hits = choose|hits: Seq<VectorSearchResultView>|
                    scored_hits(hits, ids, store@, likeness) && views(found@)
                        == #[trigger] best_hits(hits, limit);
                assert(rates_store(likeness, store@, store.keys(), hits));
                SuiteReply::Found(found)
            },
            Err(_) => SuiteReply::Failed,
        },
        SuiteCommand::Delete { id } => match store.delete(id.as_str()) {
            Ok(_) => SuiteReply::Done,
            Err(_) => SuiteReply::Failed,
        },
        SuiteCommand::DeleteAll { chosen } => match store.delete_all(Some(&chosen)) {
            Ok(_) => SuiteReply::Done,
            Err(_) => SuiteReply::Failed,
        },
    }
}

/// How far the suite comes with what a store did. Once it has ended, nothing changes it.
pub open spec fn suite_after(replies: Seq<SuiteReplyView>) -> SuiteProgressView
    decreases replies.len(),
{
    if replies.len() == 0 {
        suite_begins()
    } else {
        match suite_after(replies.drop_last()) {
            SuiteProgressView::Ask(_, run) => suite_next(run, replies.last()),
            done => done,
        }
    }
}

/// How many things the suite asks for.
pub const SUITE_LENGTH: usize = 13;

/// How many things the suite asked for before it came to a place.
spec fn place(run: SuiteRun) -> int {
    match run {
        SuiteRun::InsertingA => 0,
        SuiteRun::InsertingB => 1,
        SuiteRun::GettingA => 2,
        SuiteRun::GettingMissing => 3,
        SuiteRun::ListingAll => 4,
        SuiteRun::ListingAlice => 5,
        SuiteRun::UpdatingA => 6,
        SuiteRun::GettingUpdated => 7,
        SuiteRun::Searching => 8,
        SuiteRun::DeletingB => 9,
        SuiteRun::GettingDeleted => 10,
        SuiteRun::DeletingAlice => 11,
        SuiteRun::GettingGone => 12,
    }
}

/// The store has the memory of a user.
spec fn has(
    store: Map<Seq<char>, EntryView>,
    id: Seq<char>,
    data: Seq<char>,
    user_id: Seq<char>,
) -> bool {
    store.contains_key(id) && store[id].payload.data == data && store[id].payload.user_id == Some(
        user_id,
    )
}

/// The store has the first memory only.
spec fn has_first(store: Map<Seq<char>, EntryView>, data: Seq<char>) -> bool {
    &&& has(store, "id-a"@, data, "user-alice"@)
    &&& forall|id: Seq<char>| #[trigger] store.contains_key(id) ==> id == "id-a"@
}

/// The store has both memories and no others.
spec fn has_both(store: Map<Seq<char>, EntryView>, data: Seq<char>) -> bool {
    &&& has(store, "id-a"@, data, "user-alice"@)
    &&& has(store, "id-b"@, "memory B"@, "user-bob"@)
    &&& forall|id: Seq<char>| #[trigger]
        store.contains_key(id) ==> id == "id-a"@ || id == "id-b"@
}

/// The store has no memories.
spec fn has_none(store: Map<Seq<char>, EntryView>) -> bool {
    forall|id: Seq<char>| !#[trigger] store.contains_key(id)
}

/// What the store has when the suite is at a place.
spec fn fits(store: Map<Seq<char>, EntryView>, run: SuiteRun) -> bool {
    match run {
        SuiteRun::InsertingA => has_none(store),
        SuiteRun::InsertingB => has_first(store, "memory A"@),
        SuiteRun::GettingA => has_both(store, "memory A"@),
        SuiteRun::GettingMissing => has_both(store, "memory A"@),
        SuiteRun::ListingAll => has_both(store, "memory A"@),
        SuiteRun::ListingAlice => has_both(store, "memory A"@),
        SuiteRun::UpdatingA => has_both(store, "memory A"@),
        SuiteRun::GettingUpdated => has_both(store, "memory A updated"@),
        SuiteRun::Searching => has_both(store, "memory A updated"@),
        SuiteRun::DeletingB => has_both(store, "memory A updated"@),
        SuiteRun::GettingDeleted => has_first(store, "memory A updated"@),
        SuiteRun::DeletingAlice => has_first(store, "memory A updated"@),
        SuiteRun::GettingGone => has_none(store),
    }
}

/// The suite is at a place that a store fits, after so many replies.
spec fn on_track(
    progress: SuiteProgressView,
    store: Map<Seq<char>, EntryView>,
    count: nat,
) -> bool {
    match progress {
        SuiteProgressView::Ask(command, run) => command == suite_command(run) && fits(store, run)
            && place(run) == count,
        SuiteProgressView::Passed => count >= SUITE_LENGTH,
        SuiteProgressView::Failed(_) => false,
    }
}

proof fn suite_names_differ()
    ensures
        "id-a"@ != "id-b"@,
        "id-a"@ != "id-missing"@,
        "id-b"@ != "id-missing"@,
        "user-alice"@ != "user-bob"@,
{
    reveal_strlit("id-a");
    reveal_strlit("id-b");
    reveal_strlit("id-missing");
    reveal_strlit("user-alice");
    reveal_strlit("user-bob");
    assert("id-a"@[3] == 'a');
    assert("id-b"@[3] == 'b');
    assert("id-a"@.len() == 4);
    assert("id-b"@.len() == 4);
    assert("id-missing"@.len() == 10);
    assert("user-alice"@.len() == 10);
    assert("user-bob"@.len() == 8);
}

/// The filter for the first user lets exactly the memories of that user through.
proof fn the_filter_is_for_alice(payload: PayloadView)
    ensures
        is_match(payload, Some(of_alice())) <==> payload.user_id == Some("user-alice"@),
{
    let alice = Some("user-alice"@);
    scope_filters_select_the_scope(payload, alice, None, None, None);
    assert(scope_conditions(alice, None, None, None) =~= of_alice().conditions);
    assert(scope_filters(alice, None, None, None) == Some(of_alice()));
}

/// A list of all memories holds the identifier of each.
proof fn unfiltered_lists_are_whole(
    keys: Seq<Seq<char>>,
    store: Map<Seq<char>, EntryView>,
    id: Seq<char>,
)
    requires
        lists_store(keys, store),
        store.contains_key(id),
    ensures
        matching(keys, store, None).contains(id),
{
    let keep = |k: Seq<char>| is_match(store[k].payload, None);
    let i = choose|i: int| 0 <= i < keys.len() && keys[i] == id;
    assert(keys.contains(id));
    keys.lemma_filter_contains(keep, i);
}

proof fn a_step_stays_on_track<F: Fn(&Vec<u32>) -> Score>(
    likeness: F,
    store: Map<Seq<char>, EntryView>,
    run: SuiteRun,
    reply: SuiteReplyView,
    later: Map<Seq<char>, EntryView>,
)
    requires
        fits(store, run),
        answers(likeness, store, suite_command(run), reply, later),
    ensures
        on_track(suite_next(run, reply), later, (place(run) + 1) as nat),
{
    suite_names_differ();
    match run {
        SuiteRun::ListingAll => {
            let keys = choose|keys: Seq<Seq<char>>| #[trigger]
                lists_store(keys, store) && reply == SuiteReplyView::Found(
                    at_most(
                        matching(keys, store, None).map_values(
                            |id: Seq<char>| plain_hit(id, store[id].payload),
                        ),
                        100,
                    ),
                );
            let ids = matching(keys, store, None);
            unfiltered_lists_are_whole(keys, store, "id-a"@);
            unfiltered_lists_are_whole(keys, store, "id-b"@);
            let a = choose|i: int| 0 <= i < ids.len() && ids[i] == "id-a"@;
            let b = choose|i: int| 0 <= i < ids.len() && ids[i] == "id-b"@;
            assert(a != b);
            assert(ids.len() >= 2);
        },
        SuiteRun::ListingAlice => {
            let keys = choose|keys: Seq<Seq<char>>| #[trigger]
                lists_store(keys, store) && reply == SuiteReplyView::Found(
                    at_most(
                        matching(keys, store, Some(of_alice())).map_values(
                            |id: Seq<char>| plain_hit(id, store[id].payload),
                        ),
                        100,
                    ),
                );
            lists_hold_what_matches(keys, store, Some(of_alice()), 100);
            let found = reply->Found_0;
            assert forall|i: int| 0 <= i < found.len() implies (
            #[trigger] found[i]).payload.user_id == Some("user-alice"@) by {
                the_filter_is_for_alice(found[i].payload);
            }
        },
        SuiteRun::Searching => {
            let limit: usize = 5;
            let (keys, hits) = choose|keys: Seq<Seq<char>>, hits: Seq<VectorSearchResultView>|
                #[trigger]
                rates_store(likeness, store, keys, hits) && reply == SuiteReplyView::Found(
                    best_hits(hits, limit),
                );
            unfiltered_lists_are_whole(keys, store, "id-a"@);
            assert(hits.len() > 0);
            ranking_keeps_the_values(hits, |h: VectorSearchResultView| h.score);
        },
        SuiteRun::DeletingAlice => {
            the_filter_is_for_alice(store["id-a"@].payload);
        },
        _ => {},
    }
}

proof fn stays_on_track<F: Fn(&Vec<u32>) -> Score>(
    likeness: F,
    stores: Seq<Map<Seq<char>, EntryView>>,
    replies: Seq<SuiteReplyView>,
)
    requires
        gives_replies(likeness, stores, replies),
        stores[0] == Map::<Seq<char>, EntryView>::empty(),
    ensures
        on_track(suite_after(replies), stores[replies.len() as int], replies.len()),
    decreases replies.len(),
{
    if replies.len() > 0 {
        let front = replies.drop_last();
        let earlier = stores.drop_last();
        assert forall|k: int| 0 <= k < front.len() implies #[trigger] gives_reply(
            likeness,
            earlier,
            front,
            k,
        ) by {
            assert(gives_reply(likeness, stores, replies, k));
            assert(front.take(k) =~= replies.take(k));
        }
        stays_on_track(likeness, earlier, front);
        assert(gives_reply(likeness, stores, replies, replies.len() - 1));
        assert(replies.take(replies.len() - 1) =~= front);
        if let SuiteProgressView::Ask(command, run) = suite_after(front) {
            a_step_stays_on_track(
                likeness,
                stores[replies.len() - 1],
                run,
                replies.last(),
                stores[replies.len() as int],
            );
        }
    }
}

/// A reply is what a store does when it is asked for what the suite asks for then.
pub open spec fn gives_reply<F: Fn(&Vec<u32>) -> Score>(
    likeness: F,
    stores: Seq<Map<Seq<char>, EntryView>>,
    replies: Seq<SuiteReplyView>,
    k: int,
) -> bool {
    suite_after(replies.take(k)) matches SuiteProgressView::Ask(command, _) ==> answers(
        likeness,
        stores[k],
        command,
        replies[k],
        stores[k + 1],
    )
}

/// The replies are what a store does when it is asked for one thing after the other, and the stores
/// are what it has before, between and after.
pub open spec fn gives_replies<F: Fn(&Vec<u32>) -> Score>(
    likeness: F,
    stores: Seq<Map<Seq<char>, EntryView>>,
    replies: Seq<SuiteReplyView>,
) -> bool {
    &&& stores.len() == replies.len() + 1
    &&& forall|k: int|
        0 <= k < replies.len() ==> #[trigger] gives_reply(likeness, stores, replies, k)
}

/// A store in the process that has no memories passes the suite, whatever likeness is: the suite
/// never fails, and after as many replies as it asks for things it has passed.
pub proof fn stores_in_the_process_pass<F: Fn(&Vec<u32>) -> Score>(
    likeness: F,
    stores: Seq<Map<Seq<char>, EntryView>>,
    replies: Seq<SuiteReplyView>,
)
    requires
        gives_replies(likeness, stores, replies),
        stores[0] == Map::<Seq<char>, EntryView>::empty(),
    ensures
        !(suite_after(replies) is Failed),
        replies.len() >= SUITE_LENGTH ==> suite_after(replies) is Passed,
{
    stays_on_track(likeness, stores, replies);
}

/// What a store has to have done to pass: everything that was to be written was; the first memory
/// was read as it was written, before and after it was replaced; a memory that was never written
/// and those that were taken out were not there; two memories were listed, and of one user only
/// those of that user; and something was found.
pub open spec fn did_all(replies: Seq<SuiteReplyView>) -> bool {
    &&& replies.len() >= 13
    &&& replies[0] is Done
    &&& replies[1] is Done
    &&& replies[2] matches SuiteReplyView::Fetched(Some(found)) && found.payload.data
        == "memory A"@
    &&& replies[3] == SuiteReplyView::Fetched(None)
    &&& replies[4] matches SuiteReplyView::Found(found) && found.len() >= 2
    &&& replies[5] matches SuiteReplyView::Found(found) && forall|i: int|
        0 <= i < found.len() ==> (#[trigger] found[i]).payload.user_id == Some("user-alice"@)
    &&& replies[6] is Done
    &&& replies[7] matches SuiteReplyView::Fetched(Some(found)) && found.payload.data
        == "memory A updated"@
    &&& replies[8] matches SuiteReplyView::Found(found) && found.len() > 0
    &&& replies[9] is Done
    &&& replies[10] == SuiteReplyView::Fetched(None)
    &&& replies[11] is Done
    &&& replies[12] == SuiteReplyView::Fetched(None)
}

/// The suite is where it has come to with the replies so far, all of which were as they should be.
spec fn is_exact(replies: Seq<SuiteReplyView>) -> bool {
    match suite_after(replies) {
        SuiteProgressView::Failed(_) => true,
        SuiteProgressView::Passed => did_all(replies),
        SuiteProgressView::Ask(_, run) => place(run) == replies.len() && forall|k: int|
            0 <= k < replies.len() ==> #[trigger] is_right(k, replies[k]),
    }
}

/// A reply is as it should be at its place.
spec fn is_right(k: int, reply: SuiteReplyView) -> bool {
    if k == 2 {
        reply matches SuiteReplyView::Fetched(Some(found)) && found.payload.data == "memory A"@
    } else if k == 3 || k == 10 || k == 12 {
        reply == SuiteReplyView::Fetched(None)
    } else if k == 4 {
        reply matches SuiteReplyView::Found(found) && found.len() >= 2
    } else if k == 5 {
        reply matches SuiteReplyView::Found(found) && forall|i: int|
            0 <= i < found.len() ==> (#[trigger] found[i]).payload.user_id == Some("user-alice"@)
    } else if k == 7 {
        reply matches SuiteReplyView::Fetched(Some(found)) && found.payload.data
            == "memory A updated"@
    } else if k == 8 {
        reply matches SuiteReplyView::Found(found) && found.len() > 0
    } else {
        reply is Done
    }
}

proof fn the_suite_is_exact(replies: Seq<SuiteReplyView>)
    ensures
        is_exact(replies),
    decreases replies.len(),
{
    if replies.len() > 0 {
        let front = replies.drop_last();
        the_suite_is_exact(front);
        assert forall|k: int| 0 <= k < front.len() && is_right(k, front[k]) implies #[trigger]
            is_right(k, replies[k]) by {
            assert(front[k] == replies[k]);
        }
        if let SuiteProgressView::Ask(_, run) = suite_after(front) {
            let last = front.len() as int;
            assert(replies[last] == replies.last());
            if !(suite_next(run, replies.last()) is Failed) {
                assert(is_right(last, replies[last]));
                assert forall|k: int| 0 <= k < replies.len() implies #[trigger] is_right(
                    k,
                    replies[k],
                ) by {
                    if k < last {
                        assert(is_right(k, front[k]));
                    }
                }
                if run == SuiteRun::GettingGone {
                    assert(is_right(0, replies[0]) && is_right(1, replies[1]) && is_right(
                        2,
                        replies[2],
                    ) && is_right(3, replies[3]) && is_right(4, replies[4]) && is_right(
                        5,
                        replies[5],
                    ) && is_right(6, replies[6]) && is_right(7, replies[7]) && is_right(
                        8,
                        replies[8],
                    ) && is_right(9, replies[9]) && is_right(10, replies[10]) && is_right(
                        11,
                        replies[11],
                    ));
                }
            }
        } else {
            if did_all(front) {
                assert(replies[0] == front[0] && replies[1] == front[1] && replies[2] == front[2]
                    && replies[3] == front[3] && replies[4] == front[4] && replies[5] == front[5]
                    && replies[6] == front[6] && replies[7] == front[7] && replies[8] == front[8]
                    && replies[9] == front[9] && replies[10] == front[10] && replies[11]
                    == front[11] && replies[12] == front[12]);
            }
        }
    }
}

/// A store passes the suite only if it did all that it has to.
pub proof fn only_what_did_all_passes(replies: Seq<SuiteReplyView>)
    requires
        suite_after(replies) is Passed,
    ensures
        did_all(replies),
{
    the_suite_is_exact(replies);
}

/// The suite asks for what it wrote: it reads, replaces and takes out what it put in, by the same
/// identifiers; it reads one more that it never put in; and it lists and takes out by the user of
/// the first memory.
pub proof fn the_suite_asks_for_what_it_wrote()
    ensures
        suite_command(SuiteRun::InsertingA) matches SuiteCommandView::Insert {
            id: a,
            user_id: alice,
            ..
        } && (suite_command(SuiteRun::InsertingB) matches SuiteCommandView::Insert {
            id: b,
            user_id: bob,
            ..
        } && {
            &&& a != b
            &&& alice != bob
            &&& suite_command(SuiteRun::GettingA) == (SuiteCommandView::Get { id: a })
            &&& suite_command(SuiteRun::GettingMissing) matches SuiteCommandView::Get { id } && id
                != a && id != b
            &&& suite_command(SuiteRun::ListingAll) matches SuiteCommandView::List {
                filters: None,
                ..
            }
            &&& suite_command(SuiteRun::ListingAlice) matches SuiteCommandView::List {
                filters: Some(f),
                ..
            } && f == equality_filter("user_id"@, alice)
            &&& suite_command(SuiteRun::UpdatingA) matches SuiteCommandView::Update {
                id,
                user_id,
                ..
            } && id == a && user_id == alice
            &&& suite_command(SuiteRun::GettingUpdated) == (SuiteCommandView::Get { id: a })
            &&& suite_command(SuiteRun::DeletingB) == (SuiteCommandView::Delete { id: b })
            &&& suite_command(SuiteRun::GettingDeleted) == (SuiteCommandView::Get { id: b })
            &&& suite_command(SuiteRun::DeletingAlice) matches SuiteCommandView::DeleteAll {
                chosen,
            } && chosen == equality_filter("user_id"@, alice)
            &&& suite_command(SuiteRun::GettingGone) == (SuiteCommandView::Get { id: a })
        }),
{
    suite_names_differ();
}

} // verus!
