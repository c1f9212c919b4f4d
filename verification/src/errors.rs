//! What can go wrong.
use vstd::prelude::*;

use crate::text::{concat, is_infix, middles_are_infixes};
use crate::views::Duplicate;

verus! {

/// Why a store did not do what it was asked.
#[derive(Debug)]
pub enum VectorStoreError {
    /// The store could not be reached.
    Connection(String),
    /// The collection could not be made or looked up.
    Collection(String),
    /// A memory could not be put in.
    Insert(String),
    /// Memories could not be looked up.
    Search(String),
    /// A memory could not be replaced.
    Update(String),
    /// A memory could not be taken out.
    Delete(String),
    /// No memory has the identifier.
    NotFound(String),
}

/// [`VectorStoreError`], as contracts see it.
#[verifier::ext_equal]
pub enum VectorStoreErrorView {
    Connection(Seq<char>),
    Collection(Seq<char>),
    Insert(Seq<char>),
    Search(Seq<char>),
    Update(Seq<char>),
    Delete(Seq<char>),
    NotFound(Seq<char>),
}

impl View for VectorStoreError {
    type V = VectorStoreErrorView;

    open spec fn view(&self) -> VectorStoreErrorView {
        match self {
            VectorStoreError::Connection(x) => VectorStoreErrorView::Connection(x@),
            VectorStoreError::Collection(x) => VectorStoreErrorView::Collection(x@),
            VectorStoreError::Insert(x) => VectorStoreErrorView::Insert(x@),
            VectorStoreError::Search(x) => VectorStoreErrorView::Search(x@),
            VectorStoreError::Update(x) => VectorStoreErrorView::Update(x@),
            VectorStoreError::Delete(x) => VectorStoreErrorView::Delete(x@),
            VectorStoreError::NotFound(x) => VectorStoreErrorView::NotFound(x@),
        }
    }
}

impl Duplicate for VectorStoreError {
    fn duplicate(&self) -> (r: Self) {
        match self {
            VectorStoreError::Connection(x) => VectorStoreError::Connection(x.clone()),
            VectorStoreError::Collection(x) => VectorStoreError::Collection(x.clone()),
            VectorStoreError::Insert(x) => VectorStoreError::Insert(x.clone()),
            VectorStoreError::Search(x) => VectorStoreError::Search(x.clone()),
            VectorStoreError::Update(x) => VectorStoreError::Update(x.clone()),
            VectorStoreError::Delete(x) => VectorStoreError::Delete(x.clone()),
            VectorStoreError::NotFound(x) => VectorStoreError::NotFound(x.clone()),
        }
    }
}

/// Why a language model gave no answer.
#[derive(Debug)]
pub enum LLMError {
    /// There is no model.
    NotConfigured,
    /// The model failed, or its answer could not be read.
    Failed(String),
}

/// [`LLMError`], as contracts see it.
#[verifier::ext_equal]
pub enum LLMErrorView {
    NotConfigured,
    Failed(Seq<char>),
}

impl View for LLMError {
    type V = LLMErrorView;

    open spec fn view(&self) -> LLMErrorView {
        match self {
            LLMError::NotConfigured => LLMErrorView::NotConfigured,
            LLMError::Failed(x) => LLMErrorView::Failed(x@),
        }
    }
}

impl Duplicate for LLMError {
    fn duplicate(&self) -> (r: Self) {
        match self {
            LLMError::NotConfigured => LLMError::NotConfigured,
            LLMError::Failed(x) => LLMError::Failed(x.clone()),
        }
    }
}

/// Why an operation on memories failed.
#[derive(Debug)]
pub enum MemoryError {
    /// A service replied to something that it was not asked.
    UnexpectedReply,
    /// The request makes no sense.
    InvalidInput(String),
    /// No memory has the identifier.
    NotFound(String),
    /// The memory is not of the caller.
    Unauthorized { memory_id: String, reason: String },
    /// The store failed.
    VectorStore(VectorStoreError),
    /// The embedder failed.
    Embedding(String),
    /// The language model failed.
    Llm(LLMError),
    /// The reranker failed.
    Reranker(String),
    /// The history failed.
    History(String),
}

/// [`MemoryError`], as contracts see it.
#[verifier::ext_equal]
pub enum MemoryErrorView {
    UnexpectedReply,
    InvalidInput(Seq<char>),
    NotFound(Seq<char>),
    Unauthorized { memory_id: Seq<char>, reason: Seq<char> },
    VectorStore(VectorStoreErrorView),
    Embedding(Seq<char>),
    Llm(LLMErrorView),
    Reranker(Seq<char>),
    History(Seq<char>),
}

impl View for MemoryError {
    type V = MemoryErrorView;

    open spec fn view(&self) -> MemoryErrorView {
        match self {
            MemoryError::UnexpectedReply => MemoryErrorView::UnexpectedReply,
            MemoryError::InvalidInput(x) => MemoryErrorView::InvalidInput(x@),
            MemoryError::NotFound(x) => MemoryErrorView::NotFound(x@),
            MemoryError::Unauthorized { memory_id, reason } => MemoryErrorView::Unauthorized {
                memory_id: memory_id@,
                reason: reason@,
            },
            MemoryError::VectorStore(x) => MemoryErrorView::VectorStore(x@),
            MemoryError::Embedding(x) => MemoryErrorView::Embedding(x@),
            MemoryError::Llm(x) => MemoryErrorView::Llm(x@),
            MemoryError::Reranker(x) => MemoryErrorView::Reranker(x@),
            MemoryError::History(x) => MemoryErrorView::History(x@),
        }
    }
}

impl Duplicate for MemoryError {
    fn duplicate(&self) -> (r: Self) {
        match self {
            MemoryError::UnexpectedReply => MemoryError::UnexpectedReply,
            MemoryError::InvalidInput(x) => MemoryError::InvalidInput(x.clone()),
            MemoryError::NotFound(x) => MemoryError::NotFound(x.clone()),
            MemoryError::Unauthorized { memory_id, reason } => MemoryError::Unauthorized {
                memory_id: memory_id.clone(),
                reason: reason.clone(),
            },
            MemoryError::VectorStore(x) => MemoryError::VectorStore(x.duplicate()),
            MemoryError::Embedding(x) => MemoryError::Embedding(x.clone()),
            MemoryError::Llm(x) => MemoryError::Llm(x.duplicate()),
            MemoryError::Reranker(x) => MemoryError::Reranker(x.clone()),
            MemoryError::History(x) => MemoryError::History(x.clone()),
        }
    }
}

/// How an error of a store is told.
pub open spec fn store_error_text(e: VectorStoreErrorView) -> Seq<char> {
    match e {
        VectorStoreErrorView::Connection(m) => "Connection error: "@ + m,
        VectorStoreErrorView::Collection(m) => "Collection error: "@ + m,
        VectorStoreErrorView::Insert(m) => "Insert error: "@ + m,
        VectorStoreErrorView::Search(m) => "Search error: "@ + m,
        VectorStoreErrorView::Update(m) => "Update error: "@ + m,
        VectorStoreErrorView::Delete(m) => "Delete error: "@ + m,
        VectorStoreErrorView::NotFound(m) => "Not found: "@ + m,
    }
}

/// How an error of a language model is told.
pub open spec fn llm_error_text(e: LLMErrorView) -> Seq<char> {
    match e {
        LLMErrorView::NotConfigured => "LLM not configured"@,
        LLMErrorView::Failed(m) => "LLM error: "@ + m,
    }
}

/// How an error is told.
pub open spec fn memory_error_text(e: MemoryErrorView) -> Seq<char> {
    match e {
        MemoryErrorView::UnexpectedReply => "Unexpected reply"@,
        MemoryErrorView::InvalidInput(m) => "Invalid input: "@ + m,
        MemoryErrorView::NotFound(id) => "Memory not found: "@ + id,
        MemoryErrorView::Unauthorized { memory_id, reason } => "Unauthorized access to memory "@
            + memory_id + ": "@ + reason,
        MemoryErrorView::VectorStore(e) => "Vector store error: "@ + store_error_text(e),
        MemoryErrorView::Embedding(m) => "Embedding error: "@ + m,
        MemoryErrorView::Llm(e) => llm_error_text(e),
        MemoryErrorView::Reranker(m) => "Reranker error: "@ + m,
        MemoryErrorView::History(m) => "History error: "@ + m,
    }
}

impl VectorStoreError {
    /// How the error is told.
    pub fn to_text(&self) -> (r: String)
        ensures
            r@ == store_error_text(self@),
    {
        match self {
            VectorStoreError::Connection(m) => concat("Connection error: ", m.as_str()),
            VectorStoreError::Collection(m) => concat("Collection error: ", m.as_str()),
            VectorStoreError::Insert(m) => concat("Insert error: ", m.as_str()),
            VectorStoreError::Search(m) => concat("Search error: ", m.as_str()),
            VectorStoreError::Update(m) => concat("Update error: ", m.as_str()),
            VectorStoreError::Delete(m) => concat("Delete error: ", m.as_str()),
            VectorStoreError::NotFound(m) => concat("Not found: ", m.as_str()),
        }
    }
}

impl LLMError {
    /// How the error is told.
    pub fn to_text(&self) -> (r: String)
        ensures
            r@ == llm_error_text(self@),
    {
        match self {
            LLMError::NotConfigured => "LLM not configured".to_owned(),
            LLMError::Failed(m) => concat("LLM error: ", m.as_str()),
        }
    }
}

impl MemoryError {
    /// How the error is told.
    pub fn to_text(&self) -> (r: String)
        ensures
            r@ == memory_error_text(self@),
    {
        match self {
            MemoryError::UnexpectedReply => "Unexpected reply".to_owned(),
            MemoryError::InvalidInput(m) => concat("Invalid input: ", m.as_str()),
            MemoryError::NotFound(id) => concat("Memory not found: ", id.as_str()),
            MemoryError::Unauthorized { memory_id, reason } => {
                let mut r = concat("Unauthorized access to memory ", memory_id.as_str());
                r.append(": ");
                r.append(reason.as_str());
                r
            },
            MemoryError::VectorStore(e) => concat("Vector store error: ", e.to_text().as_str()),
            MemoryError::Embedding(m) => concat("Embedding error: ", m.as_str()),
            MemoryError::Llm(e) => e.to_text(),
            MemoryError::Reranker(m) => concat("Reranker error: ", m.as_str()),
            MemoryError::History(m) => concat("History error: ", m.as_str()),
        }
    }
}

/// How an error is told says what went wrong, in the words in which it came.
pub proof fn errors_say_what_went_wrong(text: Seq<char>, id: Seq<char>)
    ensures
        is_infix(text, store_error_text(VectorStoreErrorView::Connection(text))),
        is_infix(text, store_error_text(VectorStoreErrorView::Collection(text))),
        is_infix(text, store_error_text(VectorStoreErrorView::Insert(text))),
        is_infix(text, store_error_text(VectorStoreErrorView::Search(text))),
        is_infix(text, store_error_text(VectorStoreErrorView::Update(text))),
        is_infix(text, store_error_text(VectorStoreErrorView::Delete(text))),
        is_infix(text, store_error_text(VectorStoreErrorView::NotFound(text))),
        is_infix(text, memory_error_text(MemoryErrorView::InvalidInput(text))),
        is_infix(text, memory_error_text(MemoryErrorView::NotFound(text))),
        is_infix(text, memory_error_text(MemoryErrorView::Embedding(text))),
        is_infix(text, memory_error_text(MemoryErrorView::Llm(LLMErrorView::Failed(text)))),
        is_infix(text, memory_error_text(MemoryErrorView::Reranker(text))),
        is_infix(text, memory_error_text(MemoryErrorView::History(text))),
        is_infix(
            text,
            memory_error_text(MemoryErrorView::Unauthorized { memory_id: id, reason: text }),
        ),
        is_infix(
            id,
            memory_error_text(MemoryErrorView::Unauthorized { memory_id: id, reason: text }),
        ),
{
    let none = Seq::<char>::empty();
    assert forall|head: Seq<char>| is_infix(text, #[trigger] (head + text)) by {
        middles_are_infixes(head, text, none);
        assert(head + text + none =~= head + text);
    }
    let head = "Unauthorized access to memory "@;
    middles_are_infixes(head, id, ": "@ + text);
    assert(head + id + (": "@ + text) =~= head + id + ": "@ + text);
}

/// An error of a store is told as such by the library.
pub proof fn errors_of_the_store_are_told(e: VectorStoreErrorView)
    ensures
        is_infix(store_error_text(e), memory_error_text(MemoryErrorView::VectorStore(e))),
{
    let (head, none) = ("Vector store error: "@, Seq::<char>::empty());
    middles_are_infixes(head, store_error_text(e), none);
    assert(head + store_error_text(e) + none =~= head + store_error_text(e));
}

} // verus!
