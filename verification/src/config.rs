//! How the library is set up.
use vstd::prelude::*;

use crate::memory::manager::Memory;
use crate::vector_stores::s3_vectors::{S3VectorsConfig, S3VectorsConfigView};
use crate::views::{copy_opt, opt_view};

verus! {

/// What encodes texts.
#[derive(Clone, Copy, Debug, PartialEq, Eq, Structural)]
pub enum EmbedderConfig {
    /// A stand-in that needs no service.
    Mock,
    /// The default embedding model of OpenAI.
    OpenAI,
}

/// What answers questions.
#[derive(Clone, Copy, Debug, PartialEq, Eq, Structural)]
pub enum LLMConfig {
    /// The default language model of OpenAI.
    OpenAI,
}

/// What scores memories anew.
#[derive(Clone, Copy, Debug, PartialEq, Eq, Structural)]
pub enum RerankerConfig {
    /// A reranker that the caller brings.
    Custom,
}

/// Where memories are stored.
#[derive(Debug)]
pub enum VectorStoreConfig {
    /// In the process.
    InMemory,
    /// In an S3 Vectors index.
    S3Vectors(S3VectorsConfig),
}

/// [`VectorStoreConfig`], as contracts see it.
#[verifier::ext_equal]
pub enum VectorStoreConfigView {
    InMemory,
    S3Vectors(S3VectorsConfigView),
}

impl View for VectorStoreConfig {
    type V = VectorStoreConfigView;

    open spec fn view(&self) -> VectorStoreConfigView {
        match self {
            VectorStoreConfig::InMemory => VectorStoreConfigView::InMemory,
            VectorStoreConfig::S3Vectors(x) => VectorStoreConfigView::S3Vectors(x@),
        }
    }
}

/// Where changes are kept.
#[derive(Debug)]
pub enum HistoryStoreConfig {
    /// Nowhere.
    Disabled,
    /// In a file.
    SQLite { path: String },
    /// In an Aurora DSQL cluster.
    Dsql { endpoint: String, region: Option<String> },
}

/// [`HistoryStoreConfig`], as contracts see it.
#[verifier::ext_equal]
pub enum HistoryStoreConfigView {
    Disabled,
    SQLite { path: Seq<char> },
    Dsql { endpoint: Seq<char>, region: Option<Seq<char>> },
}

impl View for HistoryStoreConfig {
    type V = HistoryStoreConfigView;

    open spec fn view(&self) -> HistoryStoreConfigView {
        match self {
            HistoryStoreConfig::Disabled => HistoryStoreConfigView::Disabled,
            HistoryStoreConfig::SQLite { path } => HistoryStoreConfigView::SQLite {
                path: path@,
            },
            HistoryStoreConfig::Dsql { endpoint, region } => HistoryStoreConfigView::Dsql {
                endpoint: endpoint@,
                region: opt_view(*region),
            },
        }
    }
}

/// How the library is set up.
#[derive(Debug)]
pub struct MemoryConfig {
    pub embedder: EmbedderConfig,
    pub vector_store: VectorStoreConfig,
    pub llm: Option<LLMConfig>,
    pub history_store: HistoryStoreConfig,
    pub reranker: Option<RerankerConfig>,
    pub version: String,
    pub collection_name: String,
}

/// [`MemoryConfig`], as contracts see it.
#[verifier::ext_equal]
pub struct MemoryConfigView {
    pub embedder: EmbedderConfig,
    pub vector_store: VectorStoreConfigView,
    pub llm: Option<LLMConfig>,
    pub history_store: HistoryStoreConfigView,
    pub reranker: Option<RerankerConfig>,
    pub version: Seq<char>,
    pub collection_name: Seq<char>,
}

impl View for MemoryConfig {
    type V = MemoryConfigView;

    open spec fn view(&self) -> MemoryConfigView {
        MemoryConfigView {
            embedder: self.embedder,
            vector_store: self.vector_store@,
            llm: self.llm,
            history_store: self.history_store@,
            reranker: self.reranker,
            version: self.version@,
            collection_name: self.collection_name@,
        }
    }
}

/// The name of a collection that was given none.
pub open spec fn default_collection() -> Seq<char> {
    "mem0"@
}

impl Default for MemoryConfig {
    fn default() -> (r: Self)
        ensures
            r@ == (MemoryConfigView {
                embedder: EmbedderConfig::Mock,
                vector_store: VectorStoreConfigView::InMemory,
                llm: None,
                history_store: HistoryStoreConfigView::Disabled,
                reranker: None,
                version: "1.1"@,
                collection_name: default_collection(),
            }),
    {
        MemoryConfig {
            embedder: EmbedderConfig::Mock,
            vector_store: VectorStoreConfig::InMemory,
            llm: None,
            history_store: HistoryStoreConfig::Disabled,
            reranker: None,
            version: "1.1".to_owned(),
            collection_name: "mem0".to_owned(),
        }
    }
}

impl Memory {
    /// The services that there are under a configuration.
    pub fn new(config: &MemoryConfig) -> (r: Memory)
        ensures
            r.has_llm == config@.llm is Some,
            r.has_history == !(config@.history_store is Disabled),
            r.has_reranker == config@.reranker is Some,
    {
        Memory {
            has_llm: config.llm.is_some(),
            has_history: match &config.history_store {
                HistoryStoreConfig::Disabled => false,
                _ => true,
            },
            has_reranker: config.reranker.is_some(),
        }
    }
}

/// What the environment says about a deployment.
#[derive(Debug)]
pub struct Environment {
    pub openai_api_key: Option<String>,
    pub s3_vectors_bucket: Option<String>,
    pub aws_region: Option<String>,
    pub aws_default_region: Option<String>,
    pub mem0_collection_name: Option<String>,
}

/// [`Environment`], as contracts see it.
#[verifier::ext_equal]
pub struct EnvironmentView {
    pub openai_api_key: Option<Seq<char>>,
    pub s3_vectors_bucket: Option<Seq<char>>,
    pub aws_region: Option<Seq<char>>,
    pub aws_default_region: Option<Seq<char>>,
    pub mem0_collection_name: Option<Seq<char>>,
}

impl View for Environment {
    type V = EnvironmentView;

    open spec fn view(&self) -> EnvironmentView {
        EnvironmentView {
            openai_api_key: opt_view(self.openai_api_key),
            s3_vectors_bucket: opt_view(self.s3_vectors_bucket),
            aws_region: opt_view(self.aws_region),
            aws_default_region: opt_view(self.aws_default_region),
            mem0_collection_name: opt_view(self.mem0_collection_name),
        }
    }
}

/// The first of two texts that is there.
pub open spec fn first_given(a: Option<Seq<char>>, b: Option<Seq<char>>) -> Option<Seq<char>> {
    match a {
        Some(_) => a,
        None => b,
    }
}

/// The name of the collection.
pub open spec fn collection_of(env: EnvironmentView) -> Seq<char> {
    match env.mem0_collection_name {
        Some(name) => name,
        None => default_collection(),
    }
}

/// The set-up of a deployment: the models of OpenAI and an S3 Vectors index, without a history. The
/// key of OpenAI and the bucket have to be there.
pub open spec fn deployment(env: EnvironmentView) -> Result<MemoryConfigView, Seq<char>> {
    match (env.openai_api_key, env.s3_vectors_bucket) {
        (None, _) => Err("OPENAI_API_KEY secret not configured"@),
        (_, None) => Err(
            "S3_VECTORS_BUCKET env var is required. Set it in deploy/lib/stack.ts environment."@,
        ),
        (Some(_), Some(bucket)) => Ok(
            MemoryConfigView {
                embedder: EmbedderConfig::OpenAI,
                vector_store: VectorStoreConfigView::S3Vectors(
                    S3VectorsConfigView {
                        bucket_name: bucket,
                        region: first_given(env.aws_region, env.aws_default_region),
                        index_name: collection_of(env),
                        dimensions: 1536,
                        distance_metric: Some("cosine"@),
                    },
                ),
                llm: Some(LLMConfig::OpenAI),
                history_store: HistoryStoreConfigView::Disabled,
                reranker: None,
                version: "1.1"@,
                collection_name: collection_of(env),
            },
        ),
    }
}

/// Makes the set-up of a deployment out of its environment.
pub fn build_memory_config(env: &Environment) -> (r: Result<MemoryConfig, String>)
    ensures
        match r {
            Ok(config) => deployment(env@) == Ok::<MemoryConfigView, Seq<char>>(config@),
            Err(text) => deployment(env@) == Err::<MemoryConfigView, Seq<char>>(text@),
        },
{
    if env.openai_api_key.is_none() {
        return Err("OPENAI_API_KEY secret not configured".to_owned());
    }
    let bucket = match &env.s3_vectors_bucket {
        Some(b) => b.clone(),
        None => {
            return Err(
                "S3_VECTORS_BUCKET env var is required. Set it in deploy/lib/stack.ts environment.".to_owned(),
            );
        },
    };
    let region: Option<String> = if env.aws_region.is_some() {
        copy_opt(&env.aws_region)
    } else {
        copy_opt(&env.aws_default_region)
    };
    let collection = match &env.mem0_collection_name {
        Some(name) => name.clone(),
        None => "mem0".to_owned(),
    };
    let index = S3VectorsConfig {
        bucket_name: bucket,
        region,
        index_name: collection.clone(),
        dimensions: 1536,
        distance_metric: Some("cosine".to_owned()),
    };
    Ok(
        MemoryConfig {
            embedder: EmbedderConfig::OpenAI,
            vector_store: VectorStoreConfig::S3Vectors(index),
            llm: Some(LLMConfig::OpenAI),
            history_store: HistoryStoreConfig::Disabled,
            reranker: None,
            version: "1.1".to_owned(),
            collection_name: collection,
        },
    )
}

/// A deployment can be set up exactly if there is a key of OpenAI and a bucket. Its memories are in
/// that bucket, in an index of the name of the collection, which is `mem0` if it is not said, and
/// in the region that is given, the first one if there are two. Both models are there, no history
/// is kept, and nothing is scored anew.
pub proof fn deployments_are_as_their_environment_says(env: EnvironmentView)
    ensures
        deployment(env) is Ok <==> env.openai_api_key is Some && env.s3_vectors_bucket is Some,
        deployment(env) matches Ok(config) ==> {
            &&& config.embedder == EmbedderConfig::OpenAI
            &&& config.llm is Some
            &&& config.history_store is Disabled
            &&& config.reranker is None
            &&& env.mem0_collection_name matches Some(name) ==> config.collection_name == name
            &&& env.mem0_collection_name is None ==> config.collection_name == "mem0"@
            &&& config.vector_store matches VectorStoreConfigView::S3Vectors(index) && {
                &&& Some(index.bucket_name) == env.s3_vectors_bucket
                &&& index.index_name == config.collection_name
                &&& index.dimensions == 1536
                &&& index.distance_metric == Some("cosine"@)
                &&& env.aws_region is Some ==> index.region == env.aws_region
                &&& env.aws_region is None ==> index.region == env.aws_default_region
            }
        },
{
}

} // verus!
