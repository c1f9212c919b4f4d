use mem0_core::clock::Timestamp;
use mem0_core::errors::VectorStoreError;
use mem0_core::json::JsonValue;
use mem0_core::models::{
    FilterCondition, FilterLogic, FilterOperator, Filters, MemoryType, Payload, VectorSearchResult,
};
use mem0_core::ranking::Score;
use mem0_core::text_map::TextMap;
use mem0_core::vector_stores::conformance::{
    answer, eq_filter, suite_start, suite_step, test_payload, SuiteCommand, SuiteProgress,
    SuiteReply, SuiteRun, SUITE_LENGTH,
};
use mem0_core::vector_stores::memory::InMemoryStore;

fn cosine(a: &[f32], b: &[u32]) -> Score {
    if a.len() != b.len() || a.is_empty() {
        return Score { bits: 0 };
    }
    let (mut dot, mut na, mut nb) = (0.0f32, 0.0f32, 0.0f32);
    for (x, y) in a.iter().zip(b.iter().map(|bits| f32::from_bits(*bits))) {
        dot += x * y;
        na += x * x;
        nb += y * y;
    }
    if na == 0.0 || nb == 0.0 {
        return Score { bits: 0 };
    }
    Score { bits: (dot / (na.sqrt() * nb.sqrt())).to_bits() }
}

fn bits(v: &[f32]) -> Vec<u32> {
    v.iter().map(|x| x.to_bits()).collect()
}

fn create_test_payload(data: &str) -> Payload {
    Payload {
        data: data.to_string(),
        hash: "test_hash".to_string(),
        created_at: Timestamp::now(),
        user_id: None,
        agent_id: None,
        run_id: None,
        memory_type: None,
        metadata: TextMap::new(),
    }
}

#[test]
fn memory_test_conformance_suite() {
    let mut store = InMemoryStore::new();
    store.create_collection().expect("create_collection should succeed");
    let mut progress = suite_start();
    let mut asked: usize = 0;
    loop {
        match progress {
            SuiteProgress::Ask(command, run) => {
                asked += 1;
                let reply = answer(&mut store, |e| cosine(&[0.1; 4], e), command);
                progress = suite_step(run, reply);
            }
            SuiteProgress::Passed => break,
            SuiteProgress::Failed(text) => panic!("{}", text),
        }
    }
    assert_eq!(asked, SUITE_LENGTH);
    assert!(store.list(None, 100).unwrap().is_empty());
}

#[test]
fn stores_answer_the_calls_of_the_suite() {
    let mut store = InMemoryStore::new();
    store.create_collection().expect("create_collection should succeed");
    assert!(store.collection_exists().unwrap());
    let embedding = vec![0.1_f32; 4];

    store
        .insert("id-a", bits(&embedding), test_payload("memory A", Some("user-alice")))
        .expect("conformance: insert id-a should succeed");
    store
        .insert("id-b", bits(&embedding), test_payload("memory B", Some("user-bob")))
        .expect("conformance: insert id-b should succeed");

    let result = store.get("id-a").expect("conformance: get id-a should succeed");
    assert!(result.is_some(), "conformance: get id-a should return Some");
    assert_eq!(result.unwrap().payload.data, "memory A");

    let missing = store.get("id-missing").expect("conformance: get missing should succeed");
    assert!(missing.is_none(), "conformance: get missing should return None");

    let all = store.list(None, 100).expect("conformance: list with no filter should succeed");
    assert!(all.len() >= 2, "conformance: list should return at least 2 items");

    let filter = eq_filter("user_id", "user-alice");
    let filtered = store.list(Some(&filter), 100).expect("conformance: list should succeed");
    assert!(filtered.iter().all(|r| r.payload.user_id.as_deref() == Some("user-alice")));
    assert_eq!(filtered.len(), 1);

    store
        .update("id-a", None, test_payload("memory A updated", Some("user-alice")))
        .expect("conformance: update id-a should succeed");
    let after_update = store.get("id-a").unwrap().expect("id-a should still exist after update");
    assert_eq!(after_update.payload.data, "memory A updated");

    let results = store.search(|e| cosine(&embedding, e), 5, None).unwrap();
    assert!(!results.is_empty(), "conformance: search should return at least one result");

    store.delete("id-b").expect("conformance: delete id-b should succeed");
    assert!(store.get("id-b").unwrap().is_none());

    let alice_filter = eq_filter("user_id", "user-alice");
    let deleted = store.delete_all(Some(&alice_filter)).unwrap();
    assert_eq!(deleted, 1);
    assert!(store.get("id-a").unwrap().is_none());
}

#[test]
fn the_suite_asks_for_one_thing_after_the_other() {
    let SuiteProgress::Ask(command, run) = suite_start() else {
        panic!("expected a command");
    };
    let SuiteCommand::Insert { id, embedding, data, user_id } = command else {
        panic!("expected an insertion");
    };
    assert_eq!((id.as_str(), data.as_str(), user_id.as_str()), ("id-a", "memory A", "user-alice"));
    assert_eq!(embedding, bits(&[0.1; 4]));
    let SuiteProgress::Ask(command, run) = suite_step(run, SuiteReply::Done) else {
        panic!("expected a command");
    };
    assert!(matches!(
        &command,
        SuiteCommand::Insert { id, data, user_id, .. }
            if id == "id-b" && data == "memory B" && user_id == "user-bob"
    ));
    assert_eq!(run, SuiteRun::InsertingB);
    let SuiteProgress::Ask(command, run) = suite_step(run, SuiteReply::Done) else {
        panic!("expected a command");
    };
    assert!(matches!(&command, SuiteCommand::Get { id } if id == "id-a"));
    assert_eq!(run, SuiteRun::GettingA);
    let listed = suite_step(SuiteRun::ListingAll, SuiteReply::Found(vec![hit("a"), hit("b")]));
    assert!(matches!(
        &listed,
        SuiteProgress::Ask(SuiteCommand::List { filters: Some(f), limit: 100 }, SuiteRun::ListingAlice)
            if f.conditions.len() == 1 && f.conditions[0].field == "user_id"
    ));
    let read = suite_step(SuiteRun::GettingUpdated, SuiteReply::Fetched(Some(hit("memory A updated"))));
    assert!(matches!(
        &read,
        SuiteProgress::Ask(SuiteCommand::Search { limit: 5, .. }, SuiteRun::Searching)
    ));
}

/// A memory of a user of the suite.
fn hit(data: &str) -> VectorSearchResult {
    VectorSearchResult {
        id: "id-a".to_string(),
        score: Score::full(),
        payload: test_payload(data, Some("user-alice")),
    }
}

fn failure(run: SuiteRun, reply: SuiteReply) -> String {
    match suite_step(run, reply) {
        SuiteProgress::Failed(text) => text,
        other => panic!("unexpected {:?}", other),
    }
}

#[test]
fn the_suite_tells_what_failed() {
    for (run, text) in [
        (SuiteRun::InsertingA, "conformance: insert id-a should succeed"),
        (SuiteRun::InsertingB, "conformance: insert id-b should succeed"),
        (SuiteRun::GettingA, "conformance: get id-a should succeed"),
        (SuiteRun::GettingMissing, "conformance: get missing should succeed (not error)"),
        (SuiteRun::ListingAll, "conformance: list with no filter should succeed"),
        (SuiteRun::ListingAlice, "conformance: list with user_id filter should succeed"),
        (SuiteRun::UpdatingA, "conformance: update id-a should succeed"),
        (SuiteRun::GettingUpdated, "conformance: get after update should succeed"),
        (SuiteRun::Searching, "conformance: search should succeed"),
        (SuiteRun::DeletingB, "conformance: delete id-b should succeed"),
        (SuiteRun::GettingDeleted, "conformance: get after delete should succeed"),
        (SuiteRun::DeletingAlice, "conformance: delete_all with filter should succeed"),
        (SuiteRun::GettingGone, "conformance: get after delete_all should succeed"),
    ] {
        assert_eq!(failure(run, SuiteReply::Failed), text);
    }
}

#[test]
fn the_suite_tells_what_is_wrong() {
    let fetched = |data: &str| SuiteReply::Fetched(Some(hit(data)));
    assert_eq!(
        failure(SuiteRun::GettingA, SuiteReply::Fetched(None)),
        "conformance: get id-a should return Some"
    );
    assert_eq!(
        failure(SuiteRun::GettingA, fetched("memory B")),
        "conformance: get id-a should have correct data"
    );
    assert_eq!(
        failure(SuiteRun::GettingMissing, fetched("memory A")),
        "conformance: get missing should return None"
    );
    assert_eq!(
        failure(SuiteRun::ListingAll, SuiteReply::Found(vec![hit("memory A")])),
        "conformance: list should return at least 2 items"
    );
    let mut other = hit("memory B");
    other.payload.user_id = Some("user-bob".to_string());
    assert_eq!(
        failure(SuiteRun::ListingAlice, SuiteReply::Found(vec![hit("memory A"), other])),
        "conformance: list with user_id=user-alice should only return alice's memories"
    );
    assert_eq!(
        failure(SuiteRun::GettingUpdated, SuiteReply::Fetched(None)),
        "conformance: id-a should still exist after update"
    );
    assert_eq!(
        failure(SuiteRun::GettingUpdated, fetched("memory A")),
        "conformance: payload.data should reflect update"
    );
    assert_eq!(
        failure(SuiteRun::Searching, SuiteReply::Found(vec![])),
        "conformance: search should return at least one result"
    );
    assert_eq!(
        failure(SuiteRun::GettingDeleted, fetched("memory B")),
        "conformance: id-b should not exist after delete"
    );
    assert_eq!(
        failure(SuiteRun::GettingGone, fetched("memory A updated")),
        "conformance: id-a should not exist after delete_all(user-alice filter)"
    );
}

#[test]
fn test_insert_and_get() {
    let mut store = InMemoryStore::new();
    let payload = create_test_payload("test content");
    let embedding = bits(&[0.1, 0.2, 0.3]);

    store.insert("test-id", embedding, payload).unwrap();

    let result = store.get("test-id").unwrap();
    assert!(result.is_some());
    assert_eq!(result.unwrap().payload.data, "test content");
}

#[test]
fn memory_test_search() {
    let mut store = InMemoryStore::new();

    store.insert("id1", bits(&[1.0, 0.0, 0.0]), create_test_payload("doc1")).unwrap();
    store.insert("id2", bits(&[0.0, 1.0, 0.0]), create_test_payload("doc2")).unwrap();

    let results = store.search(|e| cosine(&[1.0, 0.0, 0.0], e), 10, None).unwrap();
    assert_eq!(results.len(), 2);
    assert_eq!(results[0].id, "id1"); // Most similar
}

#[test]
fn test_delete() {
    let mut store = InMemoryStore::new();
    store.insert("id1", bits(&[1.0]), create_test_payload("doc1")).unwrap();

    store.delete("id1").unwrap();
    assert!(store.get("id1").unwrap().is_none());
}

#[test]
fn test_memory_type_filter() {
    let mut store = InMemoryStore::new();

    let mut p1 = create_test_payload("semantic fact");
    p1.user_id = Some("user-1".to_string());
    p1.memory_type = Some(MemoryType::Semantic);
    store.insert("id-s1", bits(&[1.0, 0.0, 0.0]), p1).unwrap();

    let mut p2 = create_test_payload("episode event");
    p2.user_id = Some("user-1".to_string());
    p2.run_id = Some("run-abc".to_string());
    p2.memory_type = Some(MemoryType::Episodic);
    store.insert("id-e1", bits(&[0.0, 1.0, 0.0]), p2).unwrap();

    let mut p3 = create_test_payload("untyped memory");
    p3.user_id = Some("user-1".to_string());
    store.insert("id-u1", bits(&[0.0, 0.0, 1.0]), p3).unwrap();

    let semantic_filter = eq_filter("memory_type", "semantic_memory");
    let results = store.list(Some(&semantic_filter), 100).unwrap();
    assert_eq!(results.len(), 1, "only semantic memories");
    assert_eq!(results[0].id, "id-s1");

    let episodic_filter = eq_filter("memory_type", "episodic_memory");
    let results = store.list(Some(&episodic_filter), 100).unwrap();
    assert_eq!(results.len(), 1, "only episodic memories");
    assert_eq!(results[0].id, "id-e1");

    let combined = Filters {
        conditions: vec![
            FilterCondition {
                field: "user_id".to_string(),
                operator: FilterOperator::Eq,
                value: JsonValue::String("user-1".to_string()),
            },
            FilterCondition {
                field: "memory_type".to_string(),
                operator: FilterOperator::Eq,
                value: JsonValue::String("episodic_memory".to_string()),
            },
        ],
        logic: FilterLogic::And,
    };
    let results = store.list(Some(&combined), 100).unwrap();
    assert_eq!(results.len(), 1, "user-1 episodic only");
    assert_eq!(results[0].id, "id-e1");

    let results = store
        .search(|e| cosine(&[1.0, 0.0, 0.0], e), 10, Some(&semantic_filter))
        .unwrap();
    assert_eq!(results.len(), 1);
    assert_eq!(results[0].id, "id-s1");
}

#[test]
fn missing_memories_are_not_found() {
    let mut store = InMemoryStore::new();
    assert!(matches!(store.delete("gone"), Err(VectorStoreError::NotFound(id)) if id == "gone"));
    let r = store.update("gone", None, create_test_payload("x"));
    assert!(matches!(r, Err(VectorStoreError::NotFound(id)) if id == "gone"));
    assert!(store.get("gone").unwrap().is_none());
}

#[test]
fn inserting_replaces_and_leaves_others_alone() {
    let mut store = InMemoryStore::default();
    store.insert("a", bits(&[1.0]), create_test_payload("one")).unwrap();
    store.insert("b", bits(&[1.0]), create_test_payload("two")).unwrap();
    store.insert("a", bits(&[2.0]), create_test_payload("three")).unwrap();
    assert_eq!(store.get("a").unwrap().unwrap().payload.data, "three");
    assert_eq!(store.get("b").unwrap().unwrap().payload.data, "two");
    assert_eq!(store.list(None, 10).unwrap().len(), 2);
}

#[test]
fn updates_keep_the_embedding_unless_one_is_given() {
    let mut store = InMemoryStore::new();
    store.insert("a", bits(&[1.0, 0.0]), create_test_payload("one")).unwrap();
    store.update("a", None, create_test_payload("two")).unwrap();
    let found = store.search(|e| cosine(&[1.0, 0.0], e), 1, None).unwrap();
    assert_eq!(f32::from_bits(found[0].score.bits), 1.0);
    store.update("a", Some(bits(&[0.0, 1.0])), create_test_payload("three")).unwrap();
    let found = store.search(|e| cosine(&[1.0, 0.0], e), 1, None).unwrap();
    assert_eq!(f32::from_bits(found[0].score.bits), 0.0);
    assert_eq!(found[0].payload.data, "three");
}

#[test]
fn lists_and_searches_stop_at_the_limit() {
    let mut store = InMemoryStore::new();
    for i in 0..5 {
        store.insert(&format!("k{i}"), bits(&[i as f32]), create_test_payload("x")).unwrap();
    }
    assert_eq!(store.list(None, 3).unwrap().len(), 3);
    assert_eq!(store.list(None, 0).unwrap().len(), 0);
    let found = store.search(|e| Score { bits: e[0] }, 2, None).unwrap();
    assert_eq!(found.len(), 2);
    assert_eq!(found[0].id, "k4");
    assert_eq!(found[1].id, "k3");
    assert_eq!(f32::from_bits(store.get("k1").unwrap().unwrap().score.bits), 1.0);
}

#[test]
fn deleting_all_spares_what_does_not_match() {
    let mut store = InMemoryStore::new();
    store.insert("a", vec![], test_payload("1", Some("alice"))).unwrap();
    store.insert("b", vec![], test_payload("2", Some("bob"))).unwrap();
    store.insert("c", vec![], test_payload("3", Some("alice"))).unwrap();
    assert_eq!(store.delete_all(Some(&eq_filter("user_id", "alice"))).unwrap(), 2);
    assert!(store.get("a").unwrap().is_none());
    assert!(store.get("b").unwrap().is_some());
    assert_eq!(store.delete_all(None).unwrap(), 1);
    assert_eq!(store.list(None, 10).unwrap().len(), 0);
}

#[test]
fn test_payloads_are_small() {
    let p = test_payload("memory A", Some("user-alice"));
    assert_eq!(p.data, "memory A");
    assert_eq!(p.hash, "hash-memory A");
    assert_eq!(p.user_id.as_deref(), Some("user-alice"));
    assert_eq!(p.metadata.len(), 0);
}
