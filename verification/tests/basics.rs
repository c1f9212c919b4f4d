use mem0_core::clock::{Timestamp, FIRST_SECOND, LAST_SECOND};
use mem0_core::config::{
    build_memory_config, Environment, HistoryStoreConfig, LLMConfig, MemoryConfig,
    RerankerConfig, VectorStoreConfig,
};
use mem0_core::errors::{LLMError, MemoryError, VectorStoreError};
use mem0_core::history::{
    fill_entry, fill_row, new_row, read_row, read_row_at, row_at, HistoryRow,
};
use mem0_core::ids::uuid_or_default;
use mem0_core::json::JsonValue;
use mem0_core::memory::manager::Memory;
use mem0_core::memory::protocol::{Change, Fresh};
use mem0_core::models::{
    EventType, FilterCondition, FilterLogic, FilterOperator, Filters, MemoryRecord, MemoryType,
    Payload, VectorSearchResult,
};
use mem0_core::number::{
    double_is_finite, double_of_i64, double_of_u64, double_related, JsonNumber, NumericRelation,
};
use mem0_core::proxy::{
    forward_url, is_health_check, request_headers, response_headers, route, Header, Route,
};
use mem0_core::ranking::{rank, Score};
use mem0_core::text::decimal_text;
use mem0_core::text_map::TextMap;
use mem0_core::vector_stores::document::{
    read_payload_made, write_payload, Document,
};
use mem0_core::vector_stores::filter_eval::{evaluate_condition, matches_filters};
use mem0_core::views::Duplicate;

fn time(s: &str) -> Timestamp {
    Timestamp::parse_rfc3339(s).unwrap()
}

fn text(s: &str) -> JsonValue {
    JsonValue::String(s.to_string())
}

fn payload() -> Payload {
    Payload {
        data: "Hello World".to_string(),
        hash: "h1".to_string(),
        created_at: time("2024-01-01T00:00:00Z"),
        user_id: Some("alice".to_string()),
        agent_id: None,
        run_id: Some("run-1".to_string()),
        memory_type: Some(MemoryType::Episodic),
        metadata: TextMap::new(),
    }
}

fn matches_one(p: &Payload, field: &str, operator: FilterOperator, value: JsonValue) -> bool {
    let f = Filters {
        conditions: vec![FilterCondition { field: field.to_string(), operator, value }],
        logic: FilterLogic::And,
    };
    matches_filters(p, Some(&f))
}

#[test]
fn decimals_are_written_out() {
    assert_eq!(decimal_text(0), "0");
    assert_eq!(decimal_text(9), "9");
    assert_eq!(decimal_text(10), "10");
    assert_eq!(decimal_text(1203), "1203");
    assert_eq!(decimal_text(usize::MAX), usize::MAX.to_string());
}

#[test]
fn text_maps_hold_each_key_once() {
    let mut m: TextMap<u32> = TextMap::new();
    m.insert("a".to_string(), 1);
    m.insert("b".to_string(), 2);
    m.insert("a".to_string(), 3);
    assert_eq!(m.len(), 2);
    assert_eq!(m.get("a"), Some(&3));
    assert_eq!(m.entry(0).0, "a");
    assert_eq!(m.get("c"), None);
    assert_eq!(m.remove("a"), Some(3));
    assert_eq!(m.remove("a"), None);
    assert!(!m.contains_key("a"));
    assert!(m.contains_key("b"));
}

#[test]
fn integers_become_the_nearest_doubles() {
    for n in [0u64, 1, 2, 3, 10, 1 << 52, (1 << 53) - 1, 1 << 53, (1 << 53) + 1, (1 << 53) + 2,
        (1 << 54) + 3, (1 << 60) + 129, u64::MAX - 1, u64::MAX]
    {
        assert_eq!(double_of_u64(n), (n as f64).to_bits(), "{n}");
    }
    for n in [0i64, 1, -1, -2, -3, i64::MAX, i64::MIN, i64::MIN + 1, -(1 << 53) - 1] {
        assert_eq!(double_of_i64(n), (n as f64).to_bits(), "{n}");
    }
}

#[test]
fn doubles_compare_by_their_patterns() {
    let values = [f64::NEG_INFINITY, -2.5, -0.0, 0.0, 1e-300, 1.0, 2.0, f64::INFINITY, f64::NAN];
    for a in values {
        for b in values {
            let (x, y) = (a.to_bits(), b.to_bits());
            assert_eq!(double_related(x, NumericRelation::Greater, y), a > b);
            assert_eq!(double_related(x, NumericRelation::GreaterOrEqual, y), a >= b);
            assert_eq!(double_related(x, NumericRelation::Less, y), a < b);
            assert_eq!(double_related(x, NumericRelation::LessOrEqual, y), a <= b);
        }
        assert_eq!(double_is_finite(a.to_bits()), a.is_finite());
    }
}

#[test]
fn json_values_compare_by_content() {
    let one = JsonValue::Number(JsonNumber::PosInt(1));
    let one_point = JsonValue::Number(JsonNumber::Float(1.0f64.to_bits()));
    assert!(one.same(&one.duplicate()));
    assert!(!one.same(&one_point));
    assert!(!text("a").same(&text("b")));
    let mut x: TextMap<JsonValue> = TextMap::new();
    x.insert("p".to_string(), text("1"));
    x.insert("q".to_string(), JsonValue::Null);
    let mut y: TextMap<JsonValue> = TextMap::new();
    y.insert("q".to_string(), JsonValue::Null);
    y.insert("p".to_string(), text("1"));
    let (x, y) = (JsonValue::Object(x), JsonValue::Object(y));
    assert!(x.same(&y));
    assert!(!x.same(&JsonValue::Null));
    assert!(!JsonValue::Array(vec![text("a")]).same(&JsonValue::Array(vec![])));
}

#[test]
fn times_are_written_and_read() {
    let t = time("2024-02-29T23:59:58.25+01:00");
    assert_eq!(t.to_rfc3339(), "2024-02-29T22:59:58.250+00:00");
    assert_eq!(time(&t.to_rfc3339()), t);
    assert_eq!(t.to_minute_text(), "2024-02-29 22:59 UTC");
    assert!(Timestamp::parse_rfc3339("yesterday").is_none());
    let week = time("2024-03-30T22:59:58.25Z");
    assert_eq!(week.thirty_days_before(), Some(t));
    assert!(week.is_not_before(&t));
    assert!(t.is_not_before(&t));
    assert!(!t.is_not_before(&week));
    assert!(Timestamp::now().is_not_before(&time("2024-01-01T00:00:00Z")));
}

#[test]
fn times_have_bounds() {
    assert!(Timestamp::from_parts(FIRST_SECOND, 0).is_some());
    assert!(Timestamp::from_parts(LAST_SECOND, 0).is_some());
    assert!(Timestamp::from_parts(FIRST_SECOND - 1, 0).is_none());
    assert!(Timestamp::from_parts(LAST_SECOND + 1, 0).is_none());
    assert!(Timestamp::from_parts(59, 1_999_999_999).is_some());
    assert!(Timestamp::from_parts(-1, 1_000_000_000).is_some());
    assert!(Timestamp::from_parts(58, 1_000_000_000).is_none());
    assert!(Timestamp::from_parts(59, 2_000_000_000).is_none());
    assert!(Timestamp::from_parts(FIRST_SECOND, 0).unwrap().thirty_days_before().is_none());
    for (secs, nanos) in [(FIRST_SECOND, 0), (LAST_SECOND, 0), (59, 1_500_000_000)] {
        let t = Timestamp::from_parts(secs, nanos).unwrap();
        assert_eq!(t.secs(), secs);
        assert_eq!(t.nanos(), nanos);
        assert!(!t.to_rfc3339().is_empty());
    }
    let leap = Timestamp::from_parts(59, 1_500_000_000).unwrap();
    assert_eq!(time(&leap.to_rfc3339()), leap);
    assert_eq!(
        leap.thirty_days_before(),
        Timestamp::from_parts(60 - 30 * 86400, 500_000_000)
    );
}

#[test]
fn uuids_are_read_in_all_forms() {
    let id = 0x67e55044_10b1_426f_9247_bb680e5fe0c8u128;
    assert_eq!(uuid_or_default("67e55044-10b1-426f-9247-bb680e5fe0c8"), id);
    assert_eq!(uuid_or_default("67E55044-10B1-426F-9247-BB680E5FE0C8"), id);
    assert_eq!(uuid_or_default("67e5504410b1426f9247bb680e5fe0c8"), id);
    assert_eq!(uuid_or_default("{67e55044-10b1-426f-9247-bb680e5fe0c8}"), id);
    assert_eq!(uuid_or_default("urn:uuid:67e55044-10b1-426f-9247-bb680e5fe0c8"), id);
    assert_eq!(uuid_or_default("URN:uuid:67e55044-10b1-426f-9247-bb680e5fe0c8"), id);
    for wrong in ["", "id-a", "67e55044-10b1-426f-9247-bb680e5fe0c", "67e5504410b1-426f-9247-bb680e5fe0c8",
        "{67e5504410b1426f9247bb680e5fe0c8}", "g7e55044-10b1-426f-9247-bb680e5fe0c8"]
    {
        assert_eq!(uuid_or_default(wrong), 0, "{wrong}");
    }
}

#[test]
fn drawn_identifiers_are_random_uuids() {
    let (a, b) = (Fresh::draw(), Fresh::draw());
    assert_ne!(a.id, b.id);
    assert_eq!((a.id >> 76) & 15, 4);
    assert_eq!((a.id >> 62) & 3, 2);
}

#[test]
fn records_are_stored_and_read_back() {
    let record = MemoryRecord {
        id: 7,
        content: "c".to_string(),
        metadata: TextMap::new(),
        user_id: Some("u".to_string()),
        agent_id: None,
        run_id: Some("r".to_string()),
        memory_type: Some(MemoryType::Semantic),
        hash: "h".to_string(),
        created_at: time("2024-01-01T00:00:00Z"),
    };
    assert_eq!(record.key(), "00000000-0000-0000-0000-000000000007");
    let found = VectorSearchResult {
        id: record.key(),
        score: Score { bits: 0.5f32.to_bits() },
        payload: record.to_payload(),
    };
    let scored = found.to_scored_memory();
    assert_eq!(scored.record.id, 7);
    assert_eq!(scored.record.content, "c");
    assert_eq!(scored.record.run_id.as_deref(), Some("r"));
    assert_eq!(scored.record.memory_type, Some(MemoryType::Semantic));
    assert_eq!(scored.record.created_at, record.created_at);
    assert_eq!(scored.score.bits, 0.5f32.to_bits());
}

#[test]
fn kinds_and_events_have_names() {
    for (t, name) in [
        (MemoryType::Semantic, "semantic_memory"),
        (MemoryType::Episodic, "episodic_memory"),
        (MemoryType::Procedural, "procedural_memory"),
    ] {
        assert_eq!(t.to_text(), name);
        assert_eq!(MemoryType::from_text(name), Some(t));
    }
    assert_eq!(MemoryType::from_text("Semantic"), None);
    for (e, name) in [
        (EventType::Add, "ADD"),
        (EventType::Update, "UPDATE"),
        (EventType::Delete, "DELETE"),
        (EventType::Noop, "NOOP"),
    ] {
        assert_eq!(e.to_text(), name);
        assert_eq!(EventType::from_text(name), e);
    }
    assert_eq!(EventType::from_text("add"), EventType::Noop);
}

#[test]
fn scores_compare_as_singles() {
    let values = [f32::NEG_INFINITY, -1.0, -0.0, 0.0, 0.25, 1.0, f32::INFINITY, f32::NAN];
    for a in values {
        for b in values {
            let (x, y) = (Score { bits: a.to_bits() }, Score { bits: b.to_bits() });
            assert_eq!(x.reaches(&y), a >= b);
            assert_eq!(x.is_below(&y), a < b);
        }
    }
    assert_eq!(f32::from_bits(Score::full().bits), 1.0);
    assert_eq!(f32::from_bits(Score::zero().bits), 0.0);
}

#[test]
fn ranking_is_descending_and_stable() {
    let hit = |id: &str, s: f32| VectorSearchResult {
        id: id.to_string(),
        score: Score { bits: s.to_bits() },
        payload: payload(),
    };
    let list = vec![hit("a", 0.5), hit("b", 0.9), hit("c", 0.5), hit("d", -1.0), hit("e", 0.9)];
    let ids: Vec<String> = rank(list).into_iter().map(|h| h.id).collect();
    assert_eq!(ids, vec!["b", "e", "a", "c", "d"]);
    let none: Vec<VectorSearchResult> = rank(vec![]);
    assert!(none.is_empty());
}

#[test]
fn filters_see_all_fields() {
    let mut p = payload();
    p.metadata.insert("n".to_string(), JsonValue::Number(JsonNumber::PosInt(5)));
    assert!(matches_one(&p, "user_id", FilterOperator::Eq, text("alice")));
    assert!(matches_one(&p, "run_id", FilterOperator::Eq, text("run-1")));
    assert!(matches_one(&p, "memory_type", FilterOperator::Eq, text("episodic_memory")));
    assert!(matches_one(&p, "hash", FilterOperator::Eq, text("h1")));
    assert!(matches_one(&p, "data", FilterOperator::Eq, text("Hello World")));
    assert!(!matches_one(&p, "agent_id", FilterOperator::Eq, text("x")));
    assert!(matches_one(&p, "agent_id", FilterOperator::Ne, text("x")));
    assert!(!matches_one(&p, "user_id", FilterOperator::Ne, text("alice")));
    assert!(!matches_one(&p, "created_at", FilterOperator::Eq, text("2024-01-01T00:00:00Z")));
    let ten = || JsonValue::Number(JsonNumber::Float(10.0f64.to_bits()));
    let five = || JsonValue::Number(JsonNumber::PosInt(5));
    assert!(matches_one(&p, "n", FilterOperator::Lt, ten()));
    assert!(matches_one(&p, "n", FilterOperator::Lte, five()));
    assert!(matches_one(&p, "n", FilterOperator::Gte, five()));
    assert!(!matches_one(&p, "n", FilterOperator::Gt, five()));
    assert!(!matches_one(&p, "data", FilterOperator::Gt, five()));
    assert!(!matches_one(&p, "missing", FilterOperator::Lt, ten()));
}

#[test]
fn filters_look_into_lists_and_texts() {
    let p = payload();
    let list = || JsonValue::Array(vec![text("bob"), text("alice")]);
    assert!(matches_one(&p, "user_id", FilterOperator::In, list()));
    assert!(!matches_one(&p, "user_id", FilterOperator::Nin, list()));
    assert!(!matches_one(&p, "agent_id", FilterOperator::In, list()));
    assert!(matches_one(&p, "agent_id", FilterOperator::Nin, list()));
    assert!(!matches_one(&p, "user_id", FilterOperator::In, text("alice")));
    assert!(matches_one(&p, "user_id", FilterOperator::Nin, text("alice")));
    assert!(matches_one(&p, "data", FilterOperator::Contains, text("World")));
    assert!(!matches_one(&p, "data", FilterOperator::Contains, text("world")));
    assert!(matches_one(&p, "data", FilterOperator::IContains, text("wORLD")));
    assert!(!matches_one(&p, "data", FilterOperator::IContains, text("moon")));
    assert!(!matches_one(&p, "data", FilterOperator::Contains, JsonValue::Null));
}

#[test]
fn conditions_disregard_case_only_if_asked() {
    let value = Some(text("Dark MODE"));
    assert!(evaluate_condition(&value, FilterOperator::IContains, &text("dark mode")));
    assert!(!evaluate_condition(&value, FilterOperator::Contains, &text("dark mode")));
    assert!(evaluate_condition(&Some(text("ÄPFEL")), FilterOperator::IContains, &text("äpfel")));
    assert!(!evaluate_condition(&None, FilterOperator::IContains, &text("")));
}

#[test]
fn filters_combine_their_conditions() {
    let p = payload();
    let f = |logic: FilterLogic, second: &str| Filters {
        conditions: vec![
            FilterCondition {
                field: "user_id".to_string(),
                operator: FilterOperator::Eq,
                value: text("alice"),
            },
            FilterCondition {
                field: "hash".to_string(),
                operator: FilterOperator::Eq,
                value: text(second),
            },
        ],
        logic,
    };
    assert!(matches_filters(&p, Some(&f(FilterLogic::And, "h1"))));
    assert!(!matches_filters(&p, Some(&f(FilterLogic::And, "h2"))));
    assert!(matches_filters(&p, Some(&f(FilterLogic::Or, "h2"))));
    let none = Filters { conditions: vec![], logic: FilterLogic::Or };
    assert!(matches_filters(&p, Some(&none)));
}

fn change() -> Change {
    Change {
        memory_id: 5,
        previous_content: Some("old".to_string()),
        new_content: "new".to_string(),
        event: EventType::Update,
        timestamp: time("2024-05-06T07:08:09Z"),
        user_id: Some("u".to_string()),
        agent_id: None,
        request_id: Some("r".to_string()),
    }
}

#[test]
fn rows_tell_of_their_changes() {
    let row = row_at(&change(), 9);
    assert_eq!(row.id, "00000000-0000-0000-0000-000000000009");
    assert_eq!(row.memory_id, "00000000-0000-0000-0000-000000000005");
    assert_eq!(row.event, "UPDATE");
    assert_eq!(row.timestamp, "2024-05-06T07:08:09+00:00");
    assert_eq!(row.user_id.as_deref(), Some("u"));
    assert_eq!(row.request_id.as_deref(), Some("r"));
    let entry = read_row(&row);
    assert_eq!(entry.id, 9);
    assert_eq!(entry.memory_id, 5);
    assert_eq!(entry.previous_content.as_deref(), Some("old"));
    assert_eq!(entry.new_content, "new");
    assert_eq!(entry.event, EventType::Update);
    assert_eq!(entry.timestamp, time("2024-05-06T07:08:09Z"));
    assert_ne!(new_row(&change()).id, new_row(&change()).id);
}

#[test]
fn rows_and_payloads_carry_their_time() {
    let row = fill_row(&change(), 9, "some time".to_string());
    assert_eq!(row.timestamp, "some time");
    assert_eq!(row.event, "UPDATE");
    let (then, now) = (time("2020-01-01T00:00:00Z"), time("2024-01-01T00:00:00Z"));
    assert_eq!(fill_entry(&row, Some(then), now).timestamp, then);
    assert_eq!(fill_entry(&row, None, now).timestamp, now);
    let doc = write_payload(&payload(), "then".to_string());
    let Document::Object(members) = &doc else {
        panic!("expected an object");
    };
    assert!(matches!(members.get("created_at"), Some(Document::String(t)) if t == "then"));
    let read = read_payload_made(&doc, then);
    assert_eq!(read.created_at, then);
    assert_eq!(read.data, "Hello World");
    assert!(read.metadata.get("created_at").is_none());
}

#[test]
fn rows_that_make_no_sense_are_read_anyway() {
    let row = HistoryRow {
        id: "x".to_string(),
        memory_id: "y".to_string(),
        previous_content: None,
        new_content: "c".to_string(),
        event: "RENAME".to_string(),
        timestamp: "then".to_string(),
        user_id: None,
        agent_id: None,
        request_id: None,
    };
    let now = time("2024-01-01T00:00:00Z");
    let entry = read_row_at(&row, now);
    assert_eq!(entry.id, 0);
    assert_eq!(entry.memory_id, 0);
    assert_eq!(entry.event, EventType::Noop);
    assert_eq!(entry.timestamp, now);
}

#[test]
fn errors_tell_what_went_wrong() {
    let s = |x: &str| x.to_string();
    assert_eq!(MemoryError::InvalidInput(s("m")).to_text(), "Invalid input: m");
    assert_eq!(MemoryError::NotFound(s("m")).to_text(), "Memory not found: m");
    assert_eq!(
        MemoryError::Unauthorized { memory_id: s("i"), reason: s("r") }.to_text(),
        "Unauthorized access to memory i: r"
    );
    assert_eq!(
        MemoryError::VectorStore(VectorStoreError::Search(s("m"))).to_text(),
        "Vector store error: Search error: m"
    );
    assert_eq!(MemoryError::Llm(LLMError::NotConfigured).to_text(), "LLM not configured");
    assert_eq!(MemoryError::Llm(LLMError::Failed(s("m"))).to_text(), "LLM error: m");
    assert_eq!(MemoryError::Embedding(s("m")).to_text(), "Embedding error: m");
    assert_eq!(MemoryError::Reranker(s("m")).to_text(), "Reranker error: m");
    assert_eq!(MemoryError::History(s("m")).to_text(), "History error: m");
    assert_eq!(MemoryError::UnexpectedReply.to_text(), "Unexpected reply");
    assert_eq!(VectorStoreError::Connection(s("m")).to_text(), "Connection error: m");
    assert_eq!(VectorStoreError::Collection(s("m")).to_text(), "Collection error: m");
    assert_eq!(VectorStoreError::Insert(s("m")).to_text(), "Insert error: m");
    assert_eq!(VectorStoreError::Update(s("m")).to_text(), "Update error: m");
    assert_eq!(VectorStoreError::Delete(s("m")).to_text(), "Delete error: m");
    assert_eq!(VectorStoreError::NotFound(s("m")).to_text(), "Not found: m");
}

fn environment() -> Environment {
    Environment {
        openai_api_key: Some("key".to_string()),
        s3_vectors_bucket: Some("bucket".to_string()),
        aws_region: None,
        aws_default_region: Some("eu-west-1".to_string()),
        mem0_collection_name: None,
    }
}

#[test]
fn deployments_are_set_up_from_the_environment() {
    let config = build_memory_config(&environment()).unwrap();
    assert_eq!(config.collection_name, "mem0");
    assert_eq!(config.version, "1.1");
    assert_eq!(config.llm, Some(LLMConfig::OpenAI));
    let VectorStoreConfig::S3Vectors(index) = &config.vector_store else {
        panic!("expected an index");
    };
    assert_eq!(index.bucket_name, "bucket");
    assert_eq!(index.region.as_deref(), Some("eu-west-1"));
    assert_eq!(index.index_name, "mem0");
    assert_eq!(index.dimensions, 1536);
    assert_eq!(index.distance_metric.as_deref(), Some("cosine"));
    let memory = Memory::new(&config);
    assert!(memory.has_llm && !memory.has_history && !memory.has_reranker);

    let mut env = environment();
    env.aws_region = Some("us-east-2".to_string());
    env.mem0_collection_name = Some("mine".to_string());
    let config = build_memory_config(&env).unwrap();
    let VectorStoreConfig::S3Vectors(index) = &config.vector_store else {
        panic!("expected an index");
    };
    assert_eq!(index.region.as_deref(), Some("us-east-2"));
    assert_eq!(config.collection_name, "mine");
}

#[test]
fn deployments_need_a_key_and_a_bucket() {
    let mut env = environment();
    env.s3_vectors_bucket = None;
    assert!(build_memory_config(&env).unwrap_err().starts_with("S3_VECTORS_BUCKET env var is required."));
    env.openai_api_key = None;
    assert_eq!(build_memory_config(&env).unwrap_err(), "OPENAI_API_KEY secret not configured");
}

#[test]
fn services_follow_the_configuration() {
    let mut config = MemoryConfig::default();
    let memory = Memory::new(&config);
    assert!(!memory.has_llm && !memory.has_history && !memory.has_reranker);
    config.history_store = HistoryStoreConfig::SQLite { path: "history.db".to_string() };
    config.reranker = Some(RerankerConfig::Custom);
    let memory = Memory::new(&config);
    assert!(!memory.has_llm && memory.has_history && memory.has_reranker);
}

#[test]
fn proxies_pass_headers_on() {
    let header = |n: &str| Header { name: n.to_string(), value: "v".to_string() };
    let names = |hs: Vec<Header>| hs.into_iter().map(|h| h.name).collect::<Vec<String>>();
    let incoming = vec![header("Host"), header("accept"), header("HOST"), header("hosts")];
    assert_eq!(names(request_headers(&incoming)), vec!["accept", "hosts"]);
    let outgoing = vec![
        header("Content-Type"),
        header("Content-Length"),
        header("TRANSFER-ENCODING"),
        header("x"),
    ];
    assert_eq!(names(response_headers(&outgoing)), vec!["Content-Type", "x"]);
}

#[test]
fn proxies_keep_the_path() {
    assert!(is_health_check("GET"));
    assert!(!is_health_check("get"));
    assert!(!is_health_check("POST"));
    assert_eq!(forward_url("http://h:1", &Some("/a?b=c".to_string())), "http://h:1/a?b=c");
    assert_eq!(forward_url("http://h:1", &None), "http://h:1/");
}

#[test]
fn proxies_answer_health_checks() {
    let Route::Health { status, content_type, body } = route("GET") else {
        panic!("expected an answer");
    };
    assert_eq!(status, 200);
    assert_eq!(content_type, "application/json");
    assert_eq!(body.len(), 3);
    assert!(matches!(body.get("ok"), Some(JsonValue::Bool(true))));
    assert!(matches!(body.get("server"), Some(JsonValue::String(s)) if s == "mem0-memory"));
    assert!(matches!(
        body.get("message"),
        Some(JsonValue::String(s))
            if s == "mem0 Memory MCP Server. POST JSON-RPC to '/' for MCP requests."
    ));
    for method in ["POST", "get", "HEAD", "OPTIONS", ""] {
        assert!(matches!(route(method), Route::Forward));
    }
}
