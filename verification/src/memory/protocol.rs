//! What the operations on memories ask of the services around them, and what they are told.
//!
//! An operation never calls a service. It hands out a command and goes on when it gets the reply.
use vstd::prelude::*;

use crate::clock::{could_be_now, Instant, Timestamp};
use crate::errors::{MemoryError, MemoryErrorView};
use crate::ids::{is_random_uuid, new_uuid};
use crate::models::{
    EventType, Filters, FiltersView, HistoryEntry, HistoryEntryView, Message, MessageView, Payload,
    PayloadView, ScoredMemory, ScoredMemoryView, VectorSearchResult, VectorSearchResultView,
};
use crate::views::{copy_numbers, opt_view, views, Duplicate};

verus! {

/// What stands for a text: its embedding, a list of the bit patterns of singles, and a fingerprint.
#[derive(Debug)]
pub struct Encoding {
    pub embedding: Vec<u32>,
    pub hash: String,
}

/// [`Encoding`], as contracts see it.
#[verifier::ext_equal]
pub struct EncodingView {
    pub embedding: Seq<u32>,
    pub hash: Seq<char>,
}

impl View for Encoding {
    type V = EncodingView;

    open spec fn view(&self) -> EncodingView {
        EncodingView {
            embedding: self.embedding@,
            hash: self.hash@,
        }
    }
}

impl Duplicate for Encoding {
    fn duplicate(&self) -> (r: Self) {
        Encoding {
            embedding: copy_numbers(&self.embedding),
            hash: self.hash.clone(),
        }
    }
}

/// What the language model wants done about a fact.
#[derive(Debug)]
pub struct MemoryAction {
    pub event: String,
    pub text: Option<String>,
    /// The index by which a memory was named to the model.
    pub id: Option<String>,
}

/// [`MemoryAction`], as contracts see it.
#[verifier::ext_equal]
pub struct MemoryActionView {
    pub event: Seq<char>,
    pub text: Option<Seq<char>>,
    pub id: Option<Seq<char>>,
}

impl View for MemoryAction {
    type V = MemoryActionView;

    open spec fn view(&self) -> MemoryActionView {
        MemoryActionView {
            event: self.event@,
            text: opt_view(self.text),
            id: opt_view(self.id),
        }
    }
}

/// A change of a memory, to be kept in the history.
#[derive(Debug)]
pub struct Change {
    pub memory_id: u128,
    pub previous_content: Option<String>,
    pub new_content: String,
    pub event: EventType,
    pub timestamp: Timestamp,
    pub user_id: Option<String>,
    pub agent_id: Option<String>,
    pub request_id: Option<String>,
}

/// [`Change`], as contracts see it.
#[verifier::ext_equal]
pub struct ChangeView {
    pub memory_id: u128,
    pub previous_content: Option<Seq<char>>,
    pub new_content: Seq<char>,
    pub event: EventType,
    pub timestamp: Instant,
    pub user_id: Option<Seq<char>>,
    pub agent_id: Option<Seq<char>>,
    pub request_id: Option<Seq<char>>,
}

impl View for Change {
    type V = ChangeView;

    open spec fn view(&self) -> ChangeView {
        ChangeView {
            memory_id: self.memory_id,
            previous_content: opt_view(self.previous_content),
            new_content: self.new_content@,
            event: self.event,
            timestamp: self.timestamp@,
            user_id: opt_view(self.user_id),
            agent_id: opt_view(self.agent_id),
            request_id: opt_view(self.request_id),
        }
    }
}

/// What an operation asks for.
#[derive(Debug)]
pub enum Command {
    /// Ask the language model for facts.
    AskFacts { messages: Vec<Message> },
    /// Ask the language model what to do about facts.
    AskActions { messages: Vec<Message> },
    /// Find what stands for a text.
    Encode { text: String },
    /// Store a memory.
    Insert { id: String, embedding: Vec<u32>, payload: Payload },
    /// Find the stored memories most like an embedding.
    Query { embedding: Vec<u32>, limit: usize, filters: Option<Filters> },
    /// Get a stored memory.
    Fetch { id: String },
    /// Replace a stored memory. Without an embedding, the one that is stored stays.
    Replace { id: String, new_embedding: Option<Vec<u32>>, payload: Payload },
    /// Take a stored memory out.
    Remove { id: String },
    /// List stored memories.
    List { filters: Option<Filters>, limit: usize },
    /// Take all stored memories out that a filter lets through.
    RemoveAll { filters: Option<Filters> },
    /// Score memories anew.
    Rerank { query: String, memories: Vec<ScoredMemory> },
    /// Keep a change in the history.
    Record { change: Change },
    /// Get the changes of a memory, the latest first.
    ReadHistory { memory_id: u128 },
    /// Forget all changes.
    ClearHistory,
}

/// [`Command`], as contracts see it.
#[verifier::ext_equal]
pub enum CommandView {
    AskFacts { messages: Seq<MessageView> },
    AskActions { messages: Seq<MessageView> },
    Encode { text: Seq<char> },
    Insert { id: Seq<char>, embedding: Seq<u32>, payload: PayloadView },
    Query { embedding: Seq<u32>, limit: usize, filters: Option<FiltersView> },
    Fetch { id: Seq<char> },
    Replace { id: Seq<char>, new_embedding: Option<Seq<u32>>, payload: PayloadView },
    Remove { id: Seq<char> },
    List { filters: Option<FiltersView>, limit: usize },
    RemoveAll { filters: Option<FiltersView> },
    Rerank { query: Seq<char>, memories: Seq<ScoredMemoryView> },
    Record { change: ChangeView },
    ReadHistory { memory_id: u128 },
    ClearHistory,
}

impl View for Command {
    type V = CommandView;

    open spec fn view(&self) -> CommandView {
        match self {
            Command::AskFacts { messages } => CommandView::AskFacts {
                messages: views(messages@),
            },
            Command::AskActions { messages } => CommandView::AskActions {
                messages: views(messages@),
            },
            Command::Encode { text } => CommandView::Encode {
                text: text@,
            },
            Command::Insert { id, embedding, payload } => CommandView::Insert {
                id: id@,
                embedding: embedding@,
                payload: payload@,
            },
            Command::Query { embedding, limit, filters } => CommandView::Query {
                embedding: embedding@,
                limit: *limit,
                filters: opt_view(*filters),
            },
            Command::Fetch { id } => CommandView::Fetch {
                id: id@,
            },
            Command::Replace { id, new_embedding, payload } => CommandView::Replace {
                id: id@,
                new_embedding: opt_view(*new_embedding),
                payload: payload@,
            },
            Command::Remove { id } => CommandView::Remove {
                id: id@,
            },
            Command::List { filters, limit } => CommandView::List {
                filters: opt_view(*filters),
                limit: *limit,
            },
            Command::RemoveAll { filters } => CommandView::RemoveAll {
                filters: opt_view(*filters),
            },
            Command::Rerank { query, memories } => CommandView::Rerank {
                query: query@,
                memories: views(memories@),
            },
            Command::Record { change } => CommandView::Record {
                change: change@,
            },
            Command::ReadHistory { memory_id } => CommandView::ReadHistory {
                memory_id: *memory_id,
            },
            Command::ClearHistory => CommandView::ClearHistory,
        }
    }
}

/// What came of a command.
#[derive(Debug)]
pub enum Reply {
    Facts(Vec<String>),
    Actions(Vec<MemoryAction>),
    Encoded(Encoding),
    /// What was to be written was.
    Done,
    Found(Vec<VectorSearchResult>),
    Fetched(Option<VectorSearchResult>),
    Reranked(Vec<ScoredMemory>),
    Entries(Vec<HistoryEntry>),
    /// The service failed.
    Failed(MemoryError),
}

/// [`Reply`], as contracts see it.
#[verifier::ext_equal]
pub enum ReplyView {
    Facts(Seq<Seq<char>>),
    Actions(Seq<MemoryActionView>),
    Encoded(EncodingView),
    Done,
    Found(Seq<VectorSearchResultView>),
    Fetched(Option<VectorSearchResultView>),
    Reranked(Seq<ScoredMemoryView>),
    Entries(Seq<HistoryEntryView>),
    Failed(MemoryErrorView),
}

impl View for Reply {
    type V = ReplyView;

    open spec fn view(&self) -> ReplyView {
        match self {
            Reply::Facts(x) => ReplyView::Facts(views(x@)),
            Reply::Actions(x) => ReplyView::Actions(views(x@)),
            Reply::Encoded(x) => ReplyView::Encoded(x@),
            Reply::Done => ReplyView::Done,
            Reply::Found(x) => ReplyView::Found(views(x@)),
            Reply::Fetched(x) => ReplyView::Fetched(opt_view(*x)),
            Reply::Reranked(x) => ReplyView::Reranked(views(x@)),
            Reply::Entries(x) => ReplyView::Entries(views(x@)),
            Reply::Failed(x) => ReplyView::Failed(x@),
        }
    }
}

/// What is new at each step of an operation: an identifier that is not in use yet, and the time.
#[derive(Clone, Copy, Debug)]
pub struct Fresh {
    pub id: u128,
    pub now: Timestamp,
}

/// [`Fresh`], as contracts see it.
#[verifier::ext_equal]
pub struct FreshView {
    pub id: u128,
    pub now: Instant,
}

impl View for Fresh {
    type V = FreshView;

    open spec fn view(&self) -> FreshView {
        FreshView { id: self.id, now: self.now@ }
    }
}

/// The identifier is that of a random UUID, the time one that the clock can show.
pub open spec fn is_drawn(fresh: FreshView) -> bool {
    is_random_uuid(fresh.id) && could_be_now(fresh.now)
}

impl Fresh {
    /// Draws an identifier and reads the clock.
    pub fn draw() -> (r: Fresh)
        ensures
            is_drawn(r@),
    {
        Fresh { id: new_uuid(), now: Timestamp::now() }
    }
}

/// How far an operation has come.
#[derive(Debug)]
pub enum Progress<R, T> {
    /// It waits for the reply to a command.
    Ask(Command, R),
    /// It has ended.
    Done(Result<T, MemoryError>),
}

/// [`Progress`], as contracts see it.
#[verifier::ext_equal]
pub enum ProgressView<R, T> {
    Ask(CommandView, R),
    Done(Result<T, MemoryErrorView>),
}

impl<R: View, T: View> View for Progress<R, T> {
    type V = ProgressView<R::V, T::V>;

    open spec fn view(&self) -> ProgressView<R::V, T::V> {
        match self {
            Progress::Ask(command, run) => ProgressView::Ask(command@, run@),
            Progress::Done(Ok(value)) => ProgressView::Done(Ok(value@)),
            Progress::Done(Err(error)) => ProgressView::Done(Err(error@)),
        }
    }
}

/// The end of an operation in an error.
pub open spec fn failed<R, T>(error: MemoryErrorView) -> ProgressView<R, T> {
    ProgressView::Done(Err(error))
}

/// The end of an operation on a reply that is not one to its command: the error that the reply
/// reports, if it reports one.
pub open spec fn broken_off<R, T>(reply: ReplyView) -> ProgressView<R, T> {
    match reply {
        ReplyView::Failed(error) => failed(error),
        _ => failed(MemoryErrorView::UnexpectedReply),
    }
}

/// Ends an operation on a reply that is not one to its command.
pub(crate) fn break_off<R: View, T: View>(reply: Reply) -> (r: Progress<R, T>)
    ensures
        r@ == broken_off::<R::V, T::V>(reply@),
{
    match reply {
        Reply::Failed(error) => Progress::Done(Err(error)),
        _ => Progress::Done(Err(MemoryError::UnexpectedReply)),
    }
}

/// An operation that waits for the reply to a command.
pub trait Run: View + Sized {
    /// What the operation gives in the end.
    type Output: View;

    /// How the operation goes on with a reply.
    spec fn next(state: Self::V, reply: ReplyView, fresh: FreshView) -> ProgressView<
        Self::V,
        <Self::Output as View>::V,
    >;

    /// Goes on with a reply, an identifier and the time.
    fn step_at(self, reply: Reply, fresh: Fresh) -> (r: Progress<Self, Self::Output>)
        ensures
            r@ == Self::next(self@, reply@, fresh@),
    ;

    /// Goes on with a reply, with an identifier that is drawn and the time that it is.
    fn step(self, reply: Reply) -> (r: Progress<Self, Self::Output>)
        ensures
            exists|fresh: FreshView|
                is_drawn(fresh) && r@ == #[trigger] Self::next(self@, reply@, fresh),
    {
        let fresh = Fresh::draw();
        let r = self.step_at(reply, fresh);
        assert(is_drawn(fresh@) && r@ == Self::next(self@, reply@, fresh@));
        r
    }
}

} // verus!
