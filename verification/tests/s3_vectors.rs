use mem0_core::clock::Timestamp;
use mem0_core::errors::VectorStoreError;
use mem0_core::json::JsonValue;
use mem0_core::models::{
    FilterCondition, FilterLogic, FilterOperator, Filters, MemoryType, Payload,
};
use mem0_core::number::JsonNumber;
use mem0_core::ranking::Score;
use mem0_core::text_map::TextMap;
use mem0_core::vector_stores::conformance::{
    eq_filter, suite_start, suite_step, test_payload, SuiteCommand, SuiteProgress, SuiteReply,
};
use mem0_core::vector_stores::document::{
    document_to_json_value, document_to_payload, document_to_payload_at, json_value_to_document,
    payload_to_document, Document,
};
use mem0_core::vector_stores::filter_eval::matches_filters as matches_payload_filters;
use mem0_core::vector_stores::s3_vectors::{
    batches, build_filter, condition_to_document, is_not_found_error, S3Command, S3Outcome,
    S3Progress, S3Reply, S3Run, S3Vector, S3VectorsConfig, S3VectorsStore, BATCH_LIMIT,
};

fn text(s: &str) -> JsonValue {
    JsonValue::String(s.to_string())
}

fn number(n: u64) -> JsonValue {
    JsonValue::Number(JsonNumber::PosInt(n))
}

fn float(x: f64) -> JsonValue {
    JsonValue::Number(JsonNumber::Float(x.to_bits()))
}

fn as_f64(v: &JsonValue) -> Option<f64> {
    match v {
        JsonValue::Number(n) => Some(f64::from_bits(n.as_double())),
        _ => None,
    }
}

fn cond(field: &str, operator: FilterOperator, value: JsonValue) -> FilterCondition {
    FilterCondition { field: field.to_string(), operator, value }
}

fn time(s: &str) -> Timestamp {
    Timestamp::parse_rfc3339(s).unwrap()
}

fn make_payload(data: &str, user_id: Option<&str>) -> Payload {
    Payload {
        data: data.to_string(),
        hash: "abc123".to_string(),
        created_at: Timestamp::now(),
        user_id: user_id.map(|s| s.to_string()),
        agent_id: None,
        run_id: None,
        memory_type: None,
        metadata: TextMap::new(),
    }
}

fn create_test_payload(
    data: &str,
    user_id: Option<&str>,
    agent_id: Option<&str>,
    run_id: Option<&str>,
) -> Payload {
    Payload {
        data: data.to_string(),
        hash: "abc123hash".to_string(),
        created_at: Timestamp::now(),
        user_id: user_id.map(String::from),
        agent_id: agent_id.map(String::from),
        run_id: run_id.map(String::from),
        memory_type: None,
        metadata: TextMap::new(),
    }
}

fn is_text(doc: Option<&Document>, wanted: &str) -> bool {
    matches!(doc, Some(Document::String(s)) if s == wanted)
}

#[test]
fn test_payload_to_document_contains_required_fields() {
    let payload = make_payload("hello world", Some("user-1"));
    let doc = payload_to_document(&payload);

    let Document::Object(ref map) = doc else {
        panic!("expected Document::Object");
    };

    assert!(is_text(map.get("data"), "hello world"));
    assert!(is_text(map.get("hash"), "abc123"));
    assert!(is_text(map.get("user_id"), "user-1"));
    assert!(map.contains_key("created_at"));
}

#[test]
fn test_payload_to_document_omits_absent_optional_fields() {
    let payload = make_payload("data", None);
    let doc = payload_to_document(&payload);
    let Document::Object(ref map) = doc else {
        panic!("expected Document::Object");
    };
    assert!(!map.contains_key("user_id"));
    assert!(!map.contains_key("agent_id"));
    assert!(!map.contains_key("run_id"));
}

#[test]
fn test_payload_to_document_memory_type_filterable() {
    let payload = Payload {
        data: "data".to_string(),
        hash: "h".to_string(),
        created_at: Timestamp::now(),
        user_id: None,
        agent_id: None,
        run_id: None,
        memory_type: Some(MemoryType::Semantic),
        metadata: TextMap::new(),
    };
    let doc = payload_to_document(&payload);
    let Document::Object(ref map) = doc else {
        panic!("expected Document::Object");
    };
    assert!(
        is_text(map.get("memory_type"), "semantic_memory"),
        "memory_type should be filterable at top level with Python-compatible string value"
    );
}

#[test]
fn test_document_to_payload_round_trip() {
    let original = Payload {
        data: "round trip data".to_string(),
        hash: "deadbeef".to_string(),
        created_at: time("2024-01-01T00:00:00Z"),
        user_id: Some("u1".to_string()),
        agent_id: Some("a1".to_string()),
        run_id: Some("r1".to_string()),
        memory_type: None,
        metadata: TextMap::new(),
    };

    let doc = payload_to_document(&original);
    let restored = document_to_payload(&doc);

    assert_eq!(restored.data, original.data);
    assert_eq!(restored.hash, original.hash);
    assert_eq!(restored.user_id, original.user_id);
    assert_eq!(restored.agent_id, original.agent_id);
    assert_eq!(restored.run_id, original.run_id);
}

#[test]
fn test_json_value_round_trip() {
    let mut object: TextMap<JsonValue> = TextMap::new();
    object.insert("key".to_string(), text("value"));
    let values = vec![
        JsonValue::Null,
        JsonValue::Bool(true),
        JsonValue::Bool(false),
        float(42.5),
        text("hello"),
        JsonValue::Array(vec![text("a"), text("b"), text("c")]),
        JsonValue::Object(object),
    ];

    for v in values {
        let doc = json_value_to_document(&v);
        let restored = document_to_json_value(&doc);
        match &v {
            JsonValue::Number(_) => {
                assert_eq!(as_f64(&v), as_f64(&restored));
            }
            _ => assert!(v.same(&restored)),
        }
    }
}

#[test]
fn test_build_filter_empty_returns_none() {
    let filters = Filters { conditions: vec![], logic: FilterLogic::And };
    assert!(build_filter(&filters).is_none());
}

#[test]
fn test_build_filter_eq_single_condition() {
    let filters = Filters {
        conditions: vec![cond("user_id", FilterOperator::Eq, text("user-123"))],
        logic: FilterLogic::And,
    };

    let doc = build_filter(&filters).expect("should produce a filter document");
    let Document::Object(ref outer) = doc else {
        panic!("expected outer Document::Object, got {:?}", doc);
    };
    let Some(Document::Object(ref inner)) = outer.get("user_id") else {
        panic!("expected inner Document::Object for field 'user_id'");
    };
    assert!(
        is_text(inner.get("$eq"), "user-123"),
        "expected $eq operator with value 'user-123'"
    );
}

#[test]
fn test_build_filter_multiple_conditions_wrapped_in_and() {
    let filters = Filters {
        conditions: vec![
            cond("user_id", FilterOperator::Eq, text("u1")),
            cond("agent_id", FilterOperator::Eq, text("a1")),
        ],
        logic: FilterLogic::And,
    };

    let doc = build_filter(&filters).expect("should produce a filter document");
    let Document::Object(ref map) = doc else {
        panic!("expected Document::Object for $and wrapper");
    };
    let Some(Document::Array(ref conditions)) = map.get("$and") else {
        panic!("expected $and array");
    };
    assert_eq!(conditions.len(), 2);
}

#[test]
fn test_build_filter_or_logic() {
    let filters = Filters {
        conditions: vec![
            cond("user_id", FilterOperator::Eq, text("u1")),
            cond("user_id", FilterOperator::Eq, text("u2")),
        ],
        logic: FilterLogic::Or,
    };

    let doc = build_filter(&filters).expect("should produce a filter document");
    let Document::Object(ref map) = doc else {
        panic!("expected Document::Object");
    };
    assert!(map.contains_key("$or"), "expected $or key");
}

#[test]
fn test_build_filter_contains_skipped() {
    let filters = Filters {
        conditions: vec![cond("data", FilterOperator::Contains, text("substring"))],
        logic: FilterLogic::And,
    };
    assert!(
        build_filter(&filters).is_none(),
        "Contains operator should be skipped (no S3 Vectors equivalent)"
    );
}

#[test]
fn test_matches_payload_filters_no_filters() {
    let payload = make_payload("data", Some("u1"));
    assert!(matches_payload_filters(&payload, None));
}

#[test]
fn test_matches_payload_filters_eq_match() {
    let payload = make_payload("data", Some("u1"));
    let filters = Filters {
        conditions: vec![cond("user_id", FilterOperator::Eq, text("u1"))],
        logic: FilterLogic::And,
    };
    assert!(matches_payload_filters(&payload, Some(&filters)));
}

#[test]
fn test_matches_payload_filters_eq_no_match() {
    let payload = make_payload("data", Some("u1"));
    let filters = Filters {
        conditions: vec![cond("user_id", FilterOperator::Eq, text("u2"))],
        logic: FilterLogic::And,
    };
    assert!(!matches_payload_filters(&payload, Some(&filters)));
}

#[test]
fn test_matches_payload_filters_metadata_field() {
    let mut payload = make_payload("data", None);
    payload.memory_type = Some(MemoryType::Semantic);
    let filters = Filters {
        conditions: vec![cond("memory_type", FilterOperator::Eq, text("semantic_memory"))],
        logic: FilterLogic::And,
    };
    assert!(matches_payload_filters(&payload, Some(&filters)));
}

#[test]
fn test_batch_limit_constant() {
    assert_eq!(BATCH_LIMIT, 500);
}

#[test]
fn test_build_filter_single_eq_condition() {
    let filters = Filters {
        conditions: vec![cond("user_id", FilterOperator::Eq, text("alice"))],
        logic: FilterLogic::And,
    };
    let doc = build_filter(&filters).expect("should produce a filter document");
    let Document::Object(ref outer) = doc else {
        panic!("expected Document::Object");
    };
    let Some(Document::Object(ref inner)) = outer.get("user_id") else {
        panic!("expected inner Document::Object for field 'user_id'");
    };
    assert!(is_text(inner.get("$eq"), "alice"), "expected $eq operator with value 'alice'");
}

#[test]
fn test_build_filter_all_scoping_fields() {
    let filters = Filters {
        conditions: vec![
            cond("user_id", FilterOperator::Eq, text("u1")),
            cond("agent_id", FilterOperator::Eq, text("a1")),
            cond("run_id", FilterOperator::Eq, text("r1")),
            cond("memory_type", FilterOperator::Eq, text("long_term")),
        ],
        logic: FilterLogic::And,
    };
    let doc = build_filter(&filters).expect("should produce a filter document");
    let Document::Object(ref map) = doc else {
        panic!("expected Document::Object for $and wrapper");
    };
    let Some(Document::Array(ref conditions)) = map.get("$and") else {
        panic!("expected $and array");
    };
    assert_eq!(conditions.len(), 4, "all 4 scoping fields should appear");

    let field_names: Vec<String> = conditions
        .iter()
        .filter_map(|c| {
            if let Document::Object(m) = c {
                if m.len() > 0 { Some(m.entry(0).0.clone()) } else { None }
            } else {
                None
            }
        })
        .collect();
    assert!(field_names.contains(&"user_id".to_string()));
    assert!(field_names.contains(&"agent_id".to_string()));
    assert!(field_names.contains(&"run_id".to_string()));
    assert!(field_names.contains(&"memory_type".to_string()));
}

#[test]
fn test_build_filter_empty_conditions() {
    let filters = Filters { conditions: vec![], logic: FilterLogic::And };
    assert!(build_filter(&filters).is_none(), "empty conditions should produce None");
}

#[test]
fn test_condition_contains_returns_none() {
    let c = cond("data", FilterOperator::Contains, text("substring"));
    assert!(
        condition_to_document(&c).is_none(),
        "Contains operator has no S3 Vectors equivalent — should return None"
    );
}

#[test]
fn test_build_filter_ne_gt_lt_operators() {
    let ne_doc = condition_to_document(&cond("score", FilterOperator::Ne, number(0)))
        .expect("Ne should produce a doc");
    let Document::Object(ref outer) = ne_doc else {
        panic!("expected outer object for Ne");
    };
    let Some(Document::Object(ref inner)) = outer.get("score") else {
        panic!("expected inner object for 'score'");
    };
    assert!(inner.contains_key("$ne"), "expected $ne key");

    let gt_doc = condition_to_document(&cond("score", FilterOperator::Gt, number(5)))
        .expect("Gt should produce a doc");
    let Document::Object(ref o) = gt_doc else {
        panic!("expected outer object for Gt");
    };
    let Some(Document::Object(ref i)) = o.get("score") else {
        panic!("expected inner object for Gt");
    };
    assert!(i.contains_key("$gt"), "expected $gt key");

    let lt_doc = condition_to_document(&cond("score", FilterOperator::Lt, number(10)))
        .expect("Lt should produce a doc");
    let Document::Object(ref o2) = lt_doc else {
        panic!("expected outer object for Lt");
    };
    let Some(Document::Object(ref i2)) = o2.get("score") else {
        panic!("expected inner object for Lt");
    };
    assert!(i2.contains_key("$lt"), "expected $lt key");
}

#[test]
fn test_payload_to_document_includes_filterable_fields() {
    let payload = create_test_payload("hello", Some("alice"), Some("bot"), None);
    let doc = payload_to_document(&payload);
    let Document::Object(ref map) = doc else {
        panic!("expected Document::Object");
    };
    assert!(map.contains_key("user_id"), "user_id missing");
    assert!(map.contains_key("agent_id"), "agent_id missing");
    assert!(map.contains_key("hash"), "hash missing");
    assert!(map.contains_key("created_at"), "created_at missing");
    assert!(map.contains_key("data"), "data missing");
}

#[test]
fn test_payload_to_document_omits_none_optional_fields() {
    let payload = create_test_payload("data", None, None, None);
    let doc = payload_to_document(&payload);
    let Document::Object(ref map) = doc else {
        panic!("expected Document::Object");
    };
    assert!(!map.contains_key("user_id"), "user_id should be absent");
    assert!(!map.contains_key("agent_id"), "agent_id should be absent");
    assert!(!map.contains_key("run_id"), "run_id should be absent");
}

#[test]
fn test_payload_to_document_includes_extra_metadata() {
    let mut payload = create_test_payload("data", None, None, None);
    payload.metadata.insert("category".to_string(), text("work"));
    let doc = payload_to_document(&payload);
    let Document::Object(ref map) = doc else {
        panic!("expected Document::Object");
    };
    assert!(
        is_text(map.get("category"), "work"),
        "extra metadata key 'category' should appear in Document"
    );
}

#[test]
fn test_payload_document_roundtrip() {
    let original = Payload {
        data: "roundtrip content".to_string(),
        hash: "cafebabe".to_string(),
        created_at: time("2025-06-01T12:00:00Z"),
        user_id: Some("user42".to_string()),
        agent_id: Some("agent7".to_string()),
        run_id: Some("run99".to_string()),
        memory_type: None,
        metadata: TextMap::new(),
    };
    let doc = payload_to_document(&original);
    let restored = document_to_payload(&doc);
    assert_eq!(restored.data, original.data);
    assert_eq!(restored.hash, original.hash);
    assert_eq!(restored.user_id, original.user_id);
    assert_eq!(restored.agent_id, original.agent_id);
    assert_eq!(restored.run_id, original.run_id);
    assert_eq!(restored.created_at.to_rfc3339(), original.created_at.to_rfc3339());
}

#[test]
fn test_matches_payload_filters_user_id_eq_match() {
    let payload = create_test_payload("data", Some("alice"), None, None);
    let filters = Filters {
        conditions: vec![cond("user_id", FilterOperator::Eq, text("alice"))],
        logic: FilterLogic::And,
    };
    assert!(
        matches_payload_filters(&payload, Some(&filters)),
        "user_id alice should match filter alice"
    );
}

#[test]
fn test_matches_payload_filters_user_id_eq_no_match() {
    let payload = create_test_payload("data", Some("alice"), None, None);
    let filters = Filters {
        conditions: vec![cond("user_id", FilterOperator::Eq, text("bob"))],
        logic: FilterLogic::And,
    };
    assert!(
        !matches_payload_filters(&payload, Some(&filters)),
        "user_id alice should NOT match filter bob"
    );
}

#[test]
fn test_matches_payload_filters_none_filters_matches_all() {
    let payload = create_test_payload("any data", Some("any_user"), None, None);
    assert!(
        matches_payload_filters(&payload, None),
        "None filters should match any payload"
    );
}

#[test]
fn test_matches_payload_filters_and_logic() {
    let payload = create_test_payload("data", Some("alice"), Some("bot"), None);

    let filters_match = Filters {
        conditions: vec![
            cond("user_id", FilterOperator::Eq, text("alice")),
            cond("agent_id", FilterOperator::Eq, text("bot")),
        ],
        logic: FilterLogic::And,
    };
    assert!(
        matches_payload_filters(&payload, Some(&filters_match)),
        "both conditions match → should return true"
    );

    let filters_no_match = Filters {
        conditions: vec![
            cond("user_id", FilterOperator::Eq, text("alice")),
            cond("agent_id", FilterOperator::Eq, text("other")),
        ],
        logic: FilterLogic::And,
    };
    assert!(
        !matches_payload_filters(&payload, Some(&filters_no_match)),
        "one condition does not match → should return false for AND logic"
    );
}

#[test]
fn test_matches_payload_filters_extra_metadata_field() {
    let mut payload = create_test_payload("data", None, None, None);
    payload.metadata.insert("priority".to_string(), text("high"));
    let filters = Filters {
        conditions: vec![cond("priority", FilterOperator::Eq, text("high"))],
        logic: FilterLogic::And,
    };
    assert!(
        matches_payload_filters(&payload, Some(&filters)),
        "metadata field 'priority' = 'high' should match filter"
    );
}

// The store, with the service played by hand.

fn config() -> S3VectorsConfig {
    S3VectorsConfig {
        bucket_name: "test-bucket".to_string(),
        region: None,
        index_name: "test-index".to_string(),
        dimensions: 3,
        distance_metric: Some("Cosine".to_string()),
    }
}

fn store() -> S3VectorsStore {
    S3VectorsStore::new(&config(), "test-index", 3).0
}

fn vector(key: &str, score: f32, metadata: Option<Document>) -> S3Vector {
    S3Vector { key: key.to_string(), score: Score { bits: score.to_bits() }, data: None, metadata }
}

fn done(progress: S3Progress) -> S3Outcome {
    match progress {
        S3Progress::Done(Ok(outcome)) => outcome,
        other => panic!("expected a good end, got {:?}", other),
    }
}

fn error(progress: S3Progress) -> VectorStoreError {
    match progress {
        S3Progress::Done(Err(e)) => e,
        other => panic!("expected an error, got {:?}", other),
    }
}

fn asked(progress: S3Progress) -> (S3Command, S3Run) {
    match progress {
        S3Progress::Ask(command, run) => (command, run),
        other => panic!("expected a command, got {:?}", other),
    }
}

#[test]
fn test_insert_calls_put_vectors() {
    let store = store();
    let payload = create_test_payload("hello", Some("alice"), None, None);
    let embedding = vec![0.1_f32.to_bits(), 0.2_f32.to_bits(), 0.3_f32.to_bits()];
    let (command, run) = asked(store.insert("id1", embedding.clone(), &payload));
    let S3Command::PutVector { key, data, metadata } = command else {
        panic!("expected PutVector");
    };
    assert_eq!(key, "id1");
    assert_eq!(data, embedding);
    assert_eq!(document_to_payload(&metadata).data, "hello");
    assert!(matches!(done(store.step(run, S3Reply::Done)), S3Outcome::Finished));
}

#[test]
fn test_search_returns_scored_results() {
    let store = store();
    let meta = payload_to_document(&create_test_payload("hello world", Some("alice"), None, None));
    let (command, run) = asked(store.search(vec![1, 2, 3], 5, None));
    assert!(matches!(command, S3Command::QueryVectors { top_k: 5, filter: None, .. }));
    let reply = S3Reply::Vectors(vec![vector("id1", 1.0 - 0.1, Some(meta))]);
    let S3Outcome::Hits(results) = done(store.step(run, reply)) else {
        panic!("expected hits");
    };
    assert_eq!(results.len(), 1, "should return exactly 1 result");
    assert_eq!(results[0].id, "id1");
    let score = f32::from_bits(results[0].score.bits);
    assert!((score - 0.9_f32).abs() < 1e-5, "score should be ~0.9, got {score}");
    assert_eq!(results[0].payload.data, "hello world");
}

#[test]
fn test_get_returns_some_when_found() {
    let store = store();
    let meta = payload_to_document(&create_test_payload("stored content", Some("u1"), None, None));
    let (command, run) = asked(store.get("id1"));
    assert!(matches!(
        command,
        S3Command::GetVector { with_data: false, with_metadata: true, .. }
    ));
    let reply = S3Reply::Vectors(vec![vector("id1", 0.0, Some(meta))]);
    let S3Outcome::Hit(Some(vsr)) = done(store.step(run, reply)) else {
        panic!("should return Some when vector is found");
    };
    assert_eq!(vsr.id, "id1");
    assert_eq!(vsr.payload.data, "stored content");
    assert_eq!(f32::from_bits(vsr.score.bits), 1.0);
}

#[test]
fn test_get_returns_none_when_not_found() {
    let store = store();
    let (_, run) = asked(store.get("missing"));
    let outcome = done(store.step(run, S3Reply::Vectors(vec![])));
    assert!(matches!(outcome, S3Outcome::Hit(None)), "should return None when not found");
}

#[test]
fn test_delete_calls_delete_vectors() {
    let store = store();
    let (command, run) = asked(store.delete("id1"));
    let S3Command::DeleteVectors { keys } = command else {
        panic!("expected DeleteVectors");
    };
    assert_eq!(keys, vec!["id1".to_string()]);
    assert!(matches!(done(store.step(run, S3Reply::Done)), S3Outcome::Finished));
}

#[test]
fn test_collection_exists_returns_true() {
    let store = store();
    let (command, run) = asked(store.collection_exists());
    assert!(matches!(command, S3Command::GetIndex));
    let outcome = done(store.step(run, S3Reply::Done));
    assert!(matches!(outcome, S3Outcome::Exists(true)), "should return true when index exists");
}

#[test]
fn test_create_collection_calls_create_index() {
    let store = store();
    let (command, run) = asked(store.create_collection());
    let S3Command::CreateIndex { dimension, metric, unfiltered_key } = command else {
        panic!("expected CreateIndex");
    };
    assert_eq!(dimension, 3);
    assert_eq!(metric, "cosine");
    assert_eq!(unfiltered_key, "data");
    assert!(matches!(done(store.step(run, S3Reply::Done)), S3Outcome::Finished));
}

#[test]
fn test_search_with_filter_passes_filter_document() {
    let store = store();
    let filters = Filters {
        conditions: vec![cond("user_id", FilterOperator::Eq, text("alice"))],
        logic: FilterLogic::And,
    };
    let (command, run) = asked(store.search(vec![1, 2, 3], 5, Some(&filters)));
    let S3Command::QueryVectors { filter: Some(Document::Object(outer)), .. } = command else {
        panic!("expected a filter");
    };
    let Some(Document::Object(inner)) = outer.get("user_id") else {
        panic!("expected the field");
    };
    assert!(is_text(inner.get("$eq"), "alice"));
    let meta = payload_to_document(&create_test_payload("filtered result", Some("alice"), None, None));
    let reply = S3Reply::Vectors(vec![vector("id2", 1.0 - 0.2, Some(meta))]);
    let S3Outcome::Hits(results) = done(store.step(run, reply)) else {
        panic!("expected hits");
    };
    assert_eq!(results.len(), 1);
    assert_eq!(results[0].id, "id2");
}

/// Which operation of the service a command is.
fn operation(command: &S3Command) -> &'static str {
    match command {
        S3Command::PutVector { .. } => "put_vectors",
        S3Command::GetVector { .. } => "get_vectors",
        S3Command::QueryVectors { .. } => "query_vectors",
        S3Command::ListVectors => "list_vectors",
        S3Command::DeleteVectors { .. } => "delete_vectors",
        other => panic!("unexpected {:?}", other),
    }
}

#[test]
fn s3_vectors_test_conformance_suite() {
    let (store, _) = S3VectorsStore::new(&config(), "test-index", 4);
    let alice = || payload_to_document(&create_test_payload("memory A", Some("user-alice"), None, None));
    let bob = || payload_to_document(&create_test_payload("memory B", Some("user-bob"), None, None));
    let alice_updated =
        || payload_to_document(&create_test_payload("memory A updated", Some("user-alice"), None, None));
    let found = |doc: Document| S3Reply::Vectors(vec![vector("id-a", 1.0, Some(doc))]);
    let both = || S3Reply::Page {
        vectors: vec![vector("id-a", 1.0, Some(alice())), vector("id-b", 1.0, Some(bob()))],
        next: None,
    };
    let mut with_data = vector("id-a", 1.0, None);
    with_data.data = Some(vec![0.1_f32.to_bits(); 4]);

    let script = vec![
        // insert id-a and id-b
        ("put_vectors", S3Reply::Done),
        ("put_vectors", S3Reply::Done),
        // get id-a and id-missing
        ("get_vectors", found(alice())),
        ("get_vectors", S3Reply::Vectors(vec![])),
        // list all, and list alice's (the store filters)
        ("list_vectors", both()),
        ("list_vectors", both()),
        // update id-a: fetch the embedding, write the payload
        ("get_vectors", S3Reply::Vectors(vec![with_data])),
        ("put_vectors", S3Reply::Done),
        // get id-a after the update
        ("get_vectors", found(alice_updated())),
        // search
        ("query_vectors", S3Reply::Vectors(vec![vector("id-a", 1.0 - 0.1, Some(alice_updated()))])),
        // delete id-b, and get it after that
        ("delete_vectors", S3Reply::Done),
        ("get_vectors", S3Reply::Vectors(vec![])),
        // delete all of alice's: list those that match, delete them
        (
            "list_vectors",
            S3Reply::Page { vectors: vec![vector("id-a", 1.0, Some(alice()))], next: None },
        ),
        ("delete_vectors", S3Reply::Done),
        // get id-a after that
        ("get_vectors", S3Reply::Vectors(vec![])),
    ];
    assert_eq!(script.len(), 15);
    let mut script = script.into_iter();

    let mut progress = suite_start();
    loop {
        let (command, run) = match progress {
            SuiteProgress::Ask(command, run) => (command, run),
            SuiteProgress::Passed => break,
            SuiteProgress::Failed(text) => panic!("{}", text),
        };
        let mut work = match command {
            SuiteCommand::Insert { id, embedding, data, user_id } => {
                store.insert(&id, embedding, &test_payload(&data, Some(&user_id)))
            }
            SuiteCommand::Get { id } => store.get(&id),
            SuiteCommand::List { filters, limit } => store.list(filters.as_ref(), limit),
            SuiteCommand::Update { id, data, user_id } => {
                store.update(&id, None, test_payload(&data, Some(&user_id)))
            }
            SuiteCommand::Search { embedding, limit } => store.search(embedding, limit, None),
            SuiteCommand::Delete { id } => store.delete(&id),
            SuiteCommand::DeleteAll { chosen } => store.delete_all(Some(&chosen)),
        };
        let result = loop {
            match work {
                S3Progress::Ask(command, run) => {
                    let (wanted, reply) = script.next().expect("a reply should be left");
                    assert_eq!(operation(&command), wanted);
                    work = store.step(run, reply);
                }
                S3Progress::Done(result) => break result,
            }
        };
        let reply = match result {
            Ok(S3Outcome::Finished) | Ok(S3Outcome::Count(_)) => SuiteReply::Done,
            Ok(S3Outcome::Hit(found)) => SuiteReply::Fetched(found),
            Ok(S3Outcome::Hits(found)) => SuiteReply::Found(found),
            Ok(S3Outcome::Exists(_)) => panic!("nothing asks for this"),
            Err(e) => panic!("unexpected {:?}", e),
        };
        progress = suite_step(run, reply);
    }
    assert!(script.next().is_none());
}

#[test]
fn the_calls_of_the_suite_one_by_one() {
    let store = store();
    let embedding = vec![0.1_f32.to_bits(); 4];
    let alice = || payload_to_document(&create_test_payload("memory A", Some("user-alice"), None, None));
    let bob = || payload_to_document(&create_test_payload("memory B", Some("user-bob"), None, None));
    let alice_updated =
        || payload_to_document(&create_test_payload("memory A updated", Some("user-alice"), None, None));

    // insert
    for (id, data, user) in [("id-a", "memory A", "user-alice"), ("id-b", "memory B", "user-bob")] {
        let (_, run) = asked(store.insert(id, embedding.clone(), &test_payload(data, Some(user))));
        assert!(matches!(done(store.step(run, S3Reply::Done)), S3Outcome::Finished));
    }

    // get: found and not found
    let (_, run) = asked(store.get("id-a"));
    let S3Outcome::Hit(Some(found)) =
        done(store.step(run, S3Reply::Vectors(vec![vector("id-a", 0.0, Some(alice()))])))
    else {
        panic!("get id-a should return Some");
    };
    assert_eq!(found.payload.data, "memory A");
    let (_, run) = asked(store.get("id-missing"));
    assert!(matches!(done(store.step(run, S3Reply::Vectors(vec![]))), S3Outcome::Hit(None)));

    // list
    let both = || S3Reply::Page {
        vectors: vec![vector("id-a", 0.0, Some(alice())), vector("id-b", 0.0, Some(bob()))],
        next: None,
    };
    let (_, run) = asked(store.list(None, 100));
    let S3Outcome::Hits(all) = done(store.step(run, both())) else {
        panic!("expected hits");
    };
    assert!(all.len() >= 2);
    let filter = eq_filter("user_id", "user-alice");
    let (_, run) = asked(store.list(Some(&filter), 100));
    let S3Outcome::Hits(filtered) = done(store.step(run, both())) else {
        panic!("expected hits");
    };
    assert_eq!(filtered.len(), 1);
    assert!(filtered.iter().all(|r| r.payload.user_id.as_deref() == Some("user-alice")));

    // update without an embedding keeps the one that is stored
    let (command, run) =
        asked(store.update("id-a", None, test_payload("memory A updated", Some("user-alice"))));
    assert!(matches!(
        command,
        S3Command::GetVector { with_data: true, with_metadata: false, .. }
    ));
    let mut stored = vector("id-a", 0.0, None);
    stored.data = Some(embedding.clone());
    let (command, run) = asked(store.step(run, S3Reply::Vectors(vec![stored])));
    let S3Command::PutVector { key, data, metadata } = command else {
        panic!("expected PutVector");
    };
    assert_eq!(key, "id-a");
    assert_eq!(data, embedding);
    assert_eq!(document_to_payload(&metadata).data, "memory A updated");
    assert!(matches!(done(store.step(run, S3Reply::Done)), S3Outcome::Finished));
    let (_, run) = asked(store.get("id-a"));
    let S3Outcome::Hit(Some(after_update)) =
        done(store.step(run, S3Reply::Vectors(vec![vector("id-a", 0.0, Some(alice_updated()))])))
    else {
        panic!("id-a should still exist");
    };
    assert_eq!(after_update.payload.data, "memory A updated");

    // search
    let (_, run) = asked(store.search(embedding.clone(), 5, None));
    let reply = S3Reply::Vectors(vec![vector("id-a", 0.9, Some(alice_updated()))]);
    let S3Outcome::Hits(results) = done(store.step(run, reply)) else {
        panic!("expected hits");
    };
    assert!(!results.is_empty());

    // delete
    let (_, run) = asked(store.delete("id-b"));
    assert!(matches!(done(store.step(run, S3Reply::Done)), S3Outcome::Finished));
    let (_, run) = asked(store.get("id-b"));
    assert!(matches!(done(store.step(run, S3Reply::Vectors(vec![]))), S3Outcome::Hit(None)));

    // delete_all with a filter
    let (command, run) = asked(store.delete_all(Some(&filter)));
    assert!(matches!(command, S3Command::ListVectors));
    let page = S3Reply::Page { vectors: vec![vector("id-a", 0.0, Some(alice()))], next: None };
    let (command, run) = asked(store.step(run, page));
    let S3Command::DeleteVectors { keys } = command else {
        panic!("expected DeleteVectors");
    };
    assert_eq!(keys, vec!["id-a".to_string()]);
    assert!(matches!(done(store.step(run, S3Reply::Done)), S3Outcome::Count(1)));
    let (_, run) = asked(store.get("id-a"));
    assert!(matches!(done(store.step(run, S3Reply::Vectors(vec![]))), S3Outcome::Hit(None)));
}

/// A page of vectors of users, with a token where there is more.
fn page(users: &[(&str, &str)], next: Option<&str>) -> S3Reply {
    S3Reply::Page {
        vectors: users
            .iter()
            .map(|(key, user)| {
                let doc = payload_to_document(&make_payload("x", Some(user)));
                vector(key, 0.0, Some(doc))
            })
            .collect(),
        next: next.map(String::from),
    }
}

/// The token of a command that asks for another page.
fn token(command: S3Command) -> String {
    match command {
        S3Command::ListMore { token } => token,
        other => panic!("unexpected {:?}", other),
    }
}

#[test]
fn listing_goes_through_all_pages() {
    let store = store();
    let (command, run) = asked(store.list(None, 100));
    assert!(matches!(command, S3Command::ListVectors));
    let (command, run) = asked(store.step(run, page(&[("a", "u"), ("b", "v")], Some("t1"))));
    assert_eq!(token(command), "t1");
    let (command, run) = asked(store.step(run, page(&[], Some("t2"))));
    assert_eq!(token(command), "t2");
    let S3Outcome::Hits(all) = done(store.step(run, page(&[("c", "u")], None))) else {
        panic!("expected hits");
    };
    let ids: Vec<&str> = all.iter().map(|h| h.id.as_str()).collect();
    assert_eq!(ids, vec!["a", "b", "c"]);
}

#[test]
fn limits_and_filters_hold_over_all_pages() {
    let store = store();
    let filter = eq_filter("user_id", "u");
    let (_, run) = asked(store.list(Some(&filter), 2));
    let (_, run) = asked(store.step(run, page(&[("a", "v"), ("b", "u")], Some("t1"))));
    let S3Outcome::Hits(some) =
        done(store.step(run, page(&[("c", "v"), ("d", "u"), ("e", "u")], None)))
    else {
        panic!("expected hits");
    };
    let ids: Vec<&str> = some.iter().map(|h| h.id.as_str()).collect();
    assert_eq!(ids, vec!["b", "d"]);
}

#[test]
fn deleting_goes_through_all_pages() {
    let store = store();
    let (command, run) = asked(store.delete_all(Some(&eq_filter("user_id", "u"))));
    assert!(matches!(command, S3Command::ListVectors));
    let (command, run) = asked(store.step(run, page(&[("a", "u"), ("b", "v")], Some("t1"))));
    assert_eq!(token(command), "t1");
    let (command, run) = asked(store.step(run, page(&[("c", "u"), ("d", "v")], None)));
    let S3Command::DeleteVectors { keys } = command else {
        panic!("expected DeleteVectors");
    };
    assert_eq!(keys, vec!["a".to_string(), "c".to_string()]);
    assert!(matches!(done(store.step(run, S3Reply::Done)), S3Outcome::Count(2)));
}

#[test]
fn a_later_page_may_fail() {
    let store = store();
    let fail = || S3Reply::Failed("boom".to_string());
    let (_, run) = asked(store.list(None, 100));
    let (_, run) = asked(store.step(run, page(&[("a", "u")], Some("t1"))));
    assert!(matches!(
        error(store.step(run, fail())),
        VectorStoreError::Search(m) if m == "list_vectors failed: boom"
    ));
    let filter = eq_filter("user_id", "u");
    let (_, run) = asked(store.delete_all(Some(&filter)));
    let (_, run) = asked(store.step(run, page(&[("a", "u")], Some("t1"))));
    assert!(matches!(
        error(store.step(run, fail())),
        VectorStoreError::Search(m) if m == "list_vectors failed: boom"
    ));
}

#[test]
fn opening_makes_what_is_missing() {
    let (store, progress) = S3VectorsStore::new(&config(), "test-index", 3);
    assert_eq!(store.vector_bucket_name, "test-bucket");
    let (command, run) = asked(progress);
    assert!(matches!(command, S3Command::GetBucket));
    let missing = || S3Reply::Failed("service error: NotFoundException".to_string());
    let (command, run) = asked(store.step(run, missing()));
    assert!(matches!(command, S3Command::CreateBucket));
    let (command, run) = asked(store.step(run, S3Reply::Done));
    assert!(matches!(command, S3Command::GetIndex));
    let (command, run) = asked(store.step(run, missing()));
    assert!(matches!(command, S3Command::CreateIndex { dimension: 3, .. }));
    assert!(matches!(done(store.step(run, S3Reply::Done)), S3Outcome::Finished));
}

#[test]
fn opening_leaves_what_is_there() {
    let (store, progress) = S3VectorsStore::new(&config(), "test-index", 3);
    let (_, run) = asked(progress);
    let (command, run) = asked(store.step(run, S3Reply::Done));
    assert!(matches!(command, S3Command::GetIndex));
    assert!(matches!(done(store.step(run, S3Reply::Done)), S3Outcome::Finished));
}

#[test]
fn opening_fails_when_the_service_does() {
    let (store, progress) = S3VectorsStore::new(&config(), "test-index", 3);
    let (_, run) = asked(progress);
    let e = error(store.step(run, S3Reply::Failed("access denied".to_string())));
    assert!(matches!(
        e,
        VectorStoreError::Connection(m) if m == "failed to check bucket 'test-bucket': access denied"
    ));
    let e = error(store.step(S3Run::MakingBucket, S3Reply::Failed("quota".to_string())));
    assert!(matches!(
        e,
        VectorStoreError::Connection(m) if m == "failed to create bucket 'test-bucket': quota"
    ));
    let e = error(store.step(S3Run::Checking, S3Reply::Failed("access denied".to_string())));
    assert!(matches!(
        e,
        VectorStoreError::Collection(m) if m == "failed to check index 'test-index': access denied"
    ));
    let e = error(store.step(S3Run::Creating, S3Reply::Failed("quota".to_string())));
    assert!(matches!(
        e,
        VectorStoreError::Collection(m) if m == "failed to create index 'test-index': quota"
    ));
    let e = error(store.step(S3Run::Creating, S3Reply::Malformed("no key".to_string())));
    assert!(matches!(
        e,
        VectorStoreError::Collection(m) if m == "failed to build metadata config: no key"
    ));
}

#[test]
fn a_missing_index_does_not_exist() {
    let store = store();
    let reply = S3Reply::Failed("index not found".to_string());
    assert!(matches!(done(store.step(S3Run::Checking, reply)), S3Outcome::Exists(false)));
}

#[test]
fn failures_are_told_by_operation() {
    let store = store();
    let fail = || S3Reply::Failed("boom".to_string());
    assert!(matches!(
        error(store.step(S3Run::Inserting, fail())),
        VectorStoreError::Insert(m) if m == "put_vectors failed: boom"
    ));
    assert!(matches!(
        error(store.step(S3Run::Inserting, S3Reply::Malformed("no key".to_string()))),
        VectorStoreError::Insert(m) if m == "failed to build PutInputVector: no key"
    ));
    assert!(matches!(
        error(store.step(S3Run::Searching, fail())),
        VectorStoreError::Search(m) if m == "query_vectors failed: boom"
    ));
    assert!(matches!(
        error(store.step(S3Run::Getting, fail())),
        VectorStoreError::Search(m) if m == "get_vectors failed: boom"
    ));
    assert!(matches!(
        error(store.step(S3Run::Deleting, fail())),
        VectorStoreError::Delete(m) if m == "delete_vectors failed: boom"
    ));
    assert!(matches!(
        error(store.step(S3Run::Dropping, fail())),
        VectorStoreError::Delete(m) if m == "delete_index failed: boom"
    ));
    assert!(matches!(
        error(store.step(S3Run::Listing { filters: None, limit: 1 }, fail())),
        VectorStoreError::Search(m) if m == "list_vectors failed: boom"
    ));
    assert!(matches!(
        error(store.step(S3Run::Purging { left: vec![], total: 1 }, fail())),
        VectorStoreError::Delete(m) if m == "delete_vectors batch failed: boom"
    ));
    assert!(matches!(
        error(store.step(S3Run::Updating, fail())),
        VectorStoreError::Update(m)
            if m == "insert during update failed: Insert error: put_vectors failed: boom"
    ));
}

#[test]
fn updating_what_is_not_there_fails() {
    let store = store();
    let (_, run) = asked(store.update("gone", None, make_payload("x", None)));
    assert!(matches!(
        error(store.step(run, S3Reply::Vectors(vec![]))),
        VectorStoreError::NotFound(id) if id == "gone"
    ));
    let (_, run) = asked(store.update("odd", None, make_payload("x", None)));
    assert!(matches!(
        error(store.step(run, S3Reply::Vectors(vec![vector("odd", 0.0, None)]))),
        VectorStoreError::Update(m) if m == "vector 'odd' has no Float32 data"
    ));
}

#[test]
fn deleting_all_remakes_the_index() {
    let store = store();
    let (command, run) = asked(store.delete_all(None));
    assert!(matches!(command, S3Command::DeleteIndex));
    let (command, run) = asked(store.step(run, S3Reply::Done));
    assert!(matches!(command, S3Command::CreateIndex { .. }));
    assert!(matches!(done(store.step(run, S3Reply::Done)), S3Outcome::Count(0)));
}

#[test]
fn deleting_many_goes_batch_by_batch() {
    let store = store();
    let vectors: Vec<S3Vector> = (0..1201)
        .map(|i| {
            let doc = payload_to_document(&make_payload("x", Some("u")));
            vector(&format!("k{i}"), 0.0, Some(doc))
        })
        .collect();
    let (_, run) = asked(store.delete_all(Some(&eq_filter("user_id", "u"))));
    let mut progress = store.step(run, S3Reply::Page { vectors, next: None });
    let mut sizes = Vec::new();
    let mut keys = Vec::new();
    loop {
        match progress {
            S3Progress::Ask(S3Command::DeleteVectors { keys: batch }, run) => {
                sizes.push(batch.len());
                keys.extend(batch);
                progress = store.step(run, S3Reply::Done);
            }
            S3Progress::Done(Ok(S3Outcome::Count(n))) => {
                assert_eq!(n, 1201);
                break;
            }
            other => panic!("unexpected {:?}", other),
        }
    }
    assert_eq!(sizes, vec![500, 500, 201]);
    assert_eq!(keys.len(), 1201);
    assert_eq!(keys[0], "k0");
    assert_eq!(keys[1200], "k1200");
}

#[test]
fn batches_split_at_the_limit() {
    let keys = |n: usize| (0..n).map(|i| i.to_string()).collect::<Vec<String>>();
    let sizes = |n: usize| batches(keys(n)).iter().map(|b| b.keys.len()).collect::<Vec<usize>>();
    assert_eq!(sizes(0), Vec::<usize>::new());
    assert_eq!(sizes(1), vec![1]);
    assert_eq!(sizes(500), vec![500]);
    assert_eq!(sizes(501), vec![500, 1]);
    assert_eq!(sizes(1000), vec![500, 500]);
}

#[test]
fn absence_is_told_in_three_ways() {
    assert!(is_not_found_error("NotFoundException: no such bucket"));
    assert!(is_not_found_error("bucket not found"));
    assert!(is_not_found_error("404 Not Found"));
    assert!(!is_not_found_error("access denied"));
    assert!(!is_not_found_error("NOT FOUND"));
}

#[test]
fn all_operators_have_their_keys() {
    let key = |op: FilterOperator| {
        let doc = condition_to_document(&cond("f", op, number(1)))?;
        let Document::Object(outer) = doc else { return None };
        let Some(Document::Object(inner)) = outer.get("f") else { return None };
        Some(inner.entry(0).0.clone())
    };
    assert_eq!(key(FilterOperator::Eq).as_deref(), Some("$eq"));
    assert_eq!(key(FilterOperator::Ne).as_deref(), Some("$ne"));
    assert_eq!(key(FilterOperator::Gt).as_deref(), Some("$gt"));
    assert_eq!(key(FilterOperator::Gte).as_deref(), Some("$gte"));
    assert_eq!(key(FilterOperator::Lt).as_deref(), Some("$lt"));
    assert_eq!(key(FilterOperator::Lte).as_deref(), Some("$lte"));
    assert_eq!(key(FilterOperator::In).as_deref(), Some("$in"));
    assert_eq!(key(FilterOperator::Nin).as_deref(), Some("$nin"));
    assert_eq!(key(FilterOperator::Contains), None);
    assert_eq!(key(FilterOperator::IContains), None);
}

#[test]
fn a_filter_keeps_what_can_be_written() {
    let filters = Filters {
        conditions: vec![
            cond("data", FilterOperator::IContains, text("x")),
            cond("user_id", FilterOperator::Eq, text("u")),
        ],
        logic: FilterLogic::Or,
    };
    let Some(Document::Object(map)) = build_filter(&filters) else {
        panic!("expected an object");
    };
    assert!(map.contains_key("user_id"));
    assert!(!map.contains_key("$or"));
}

#[test]
fn documents_hold_numbers_as_doubles() {
    assert!(matches!(
        json_value_to_document(&number(3)),
        Document::Number(JsonNumber::Float(bits)) if bits == 3.0_f64.to_bits()
    ));
    assert!(matches!(
        json_value_to_document(&JsonValue::Number(JsonNumber::NegInt(-7))),
        Document::Number(JsonNumber::Float(bits)) if bits == (-7.0_f64).to_bits()
    ));
    assert!(matches!(
        document_to_json_value(&Document::Number(JsonNumber::Float(f64::NAN.to_bits()))),
        JsonValue::Null
    ));
    assert!(matches!(
        document_to_json_value(&Document::Number(JsonNumber::PosInt(2))),
        JsonValue::Number(JsonNumber::Float(bits)) if bits == 2.0_f64.to_bits()
    ));
}

#[test]
fn metadata_takes_the_place_of_a_field() {
    let mut payload = make_payload("x", Some("u"));
    payload.metadata.insert("user_id".to_string(), text("other"));
    let read = document_to_payload(&payload_to_document(&payload));
    assert_eq!(read.user_id.as_deref(), Some("other"));
    assert_eq!(read.metadata.len(), 0);
}

#[test]
fn payloads_keep_their_metadata() {
    let mut payload = make_payload("x", None);
    payload.memory_type = Some(MemoryType::Procedural);
    payload.metadata.insert("n".to_string(), number(4));
    payload.metadata.insert("list".to_string(), JsonValue::Array(vec![text("a"), JsonValue::Null]));
    let read = document_to_payload(&payload_to_document(&payload));
    assert_eq!(read.memory_type, Some(MemoryType::Procedural));
    assert_eq!(read.metadata.len(), 2);
    assert!(read.metadata.get("n").unwrap().same(&float(4.0)));
    assert!(read.metadata.get("list").unwrap().same(payload.metadata.get("list").unwrap()));
}

#[test]
fn what_makes_no_sense_is_read_as_missing() {
    let now = time("2025-06-01T12:00:00Z");
    let read = document_to_payload_at(&Document::Null, now);
    assert_eq!(read.data, "");
    assert_eq!(read.created_at, now);
    let mut members: TextMap<Document> = TextMap::new();
    members.insert("data".to_string(), Document::Bool(true));
    members.insert("created_at".to_string(), Document::String("yesterday".to_string()));
    members.insert("memory_type".to_string(), Document::String("long_term".to_string()));
    let read = document_to_payload_at(&Document::Object(members), now);
    assert_eq!(read.data, "");
    assert_eq!(read.created_at, now);
    assert_eq!(read.memory_type, None);
}

#[test]
fn the_region_has_a_default() {
    let mut c = config();
    assert_eq!(c.region_or_default(), "us-east-1");
    c.region = Some("eu-central-1".to_string());
    assert_eq!(c.region_or_default(), "eu-central-1");
    c.distance_metric = None;
    assert_eq!(S3VectorsStore::new(&c, "i", 1).0.distance_metric, "cosine");
}
