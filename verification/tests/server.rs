use mem0_core::clock::Timestamp;
use mem0_core::errors::MemoryError;
use mem0_core::errors::VectorStoreError;
use mem0_core::json::JsonValue;
use mem0_core::memory::manager::{Listing, Memory};
use mem0_core::memory::protocol::{Command, Encoding, Progress, Reply, Run};
use mem0_core::models::{AddOptions, FilterLogic, MemoryRecord, MemoryType, Message};
use mem0_core::ranking::Score;
use mem0_core::server::{
    answer_add, answer_change, answer_dream, answer_list, answer_reset, answer_search,
    extract_caller_context, fill_list_answer, format_dream_memories, format_dream_point,
    make_dream_prompt_at, map_memory_error,
    parse_memory_type, parse_scope, resolve_scope, AddMemoryInput, AuthContext, CallerContext,
    DeleteAllMemoriesInput, DeleteMemoryInput, DreamInput, GetAllMemoriesInput, MemoryServer,
    ResolvedIds, Scope, SearchMemoriesInput, SearchMemoryResult, ToolError, UpdateMemoryInput,
    DREAM_CONSOLIDATION_PROMPT,
};
use mem0_core::text_map::TextMap;
use mem0_core::vector_stores::memory::InMemoryStore;

fn embed(text: &str) -> Vec<u32> {
    let mut v = vec![0.0f32; 27];
    for c in text.to_lowercase().chars() {
        let i = if c.is_ascii_lowercase() { c as usize - 'a' as usize } else { 26 };
        v[i] += 1.0;
    }
    v.iter().map(|x| x.to_bits()).collect()
}

fn cosine(a: &[u32], b: &[u32]) -> Score {
    let f = |v: &[u32]| v.iter().map(|x| f32::from_bits(*x)).collect::<Vec<f32>>();
    let (a, b) = (f(a), f(b));
    let dot: f32 = a.iter().zip(&b).map(|(x, y)| x * y).sum();
    let norm = |v: &[f32]| v.iter().map(|x| x * x).sum::<f32>().sqrt();
    let n = norm(&a) * norm(&b);
    Score { bits: if n == 0.0 { 0 } else { (dot / n).to_bits() } }
}

fn written<T>(r: Result<T, VectorStoreError>) -> Reply {
    match r {
        Ok(_) => Reply::Done,
        Err(e) => Reply::Failed(MemoryError::VectorStore(e)),
    }
}

fn drive<R: Run>(
    store: &mut InMemoryStore,
    start: Progress<R, R::Output>,
) -> Result<R::Output, MemoryError> {
    let mut progress = start;
    loop {
        let (command, run) = match progress {
            Progress::Ask(command, run) => (command, run),
            Progress::Done(result) => return result,
        };
        let reply = match command {
            Command::Encode { text } => {
                Reply::Encoded(Encoding { embedding: embed(&text), hash: text })
            }
            Command::Insert { id, embedding, payload } => written(store.insert(&id, embedding, payload)),
            Command::Query { embedding, limit, filters } => {
                Reply::Found(store.search(|e| cosine(&embedding, e), limit, filters.as_ref()).unwrap())
            }
            Command::Fetch { id } => Reply::Fetched(store.get(&id).unwrap()),
            Command::Replace { id, new_embedding, payload } => {
                written(store.update(&id, new_embedding, payload))
            }
            Command::Remove { id } => written(store.delete(&id)),
            Command::List { filters, limit } => Reply::Found(store.list(filters.as_ref(), limit).unwrap()),
            Command::RemoveAll { filters } => written(store.delete_all(filters.as_ref())),
            other => panic!("unexpected {:?}", other),
        };
        progress = run.step(reply);
    }
}

fn server() -> (MemoryServer, InMemoryStore) {
    let memory = Memory { has_llm: false, has_history: false, has_reranker: false };
    (MemoryServer { memory }, InMemoryStore::new())
}

fn seed_memory(server: &MemoryServer, store: &mut InMemoryStore, content: &str, user_id: &str) -> String {
    let options = AddOptions { user_id: s(user_id), infer: false, ..Default::default() };
    let result = drive(store, server.memory.add(vec![Message::user(content)], options)).unwrap();
    assert!(!result.results.is_empty());
    uuid::Uuid::from_u128(result.results[0].id).to_string()
}

fn s(x: &str) -> Option<String> {
    Some(x.to_string())
}

fn search(
    server: &MemoryServer,
    store: &mut InMemoryStore,
    query: &str,
    user_id: &str,
) -> Vec<SearchMemoryResult> {
    let args = SearchMemoriesInput {
        query: query.to_string(),
        scope: None,
        user_id: s(user_id),
        agent_id: None,
        request_id: None,
        memory_type: None,
        limit: Some(10),
    };
    let progress = server.search_memories(args, &None).unwrap();
    answer_search(drive(store, progress)).unwrap()
}

fn update_args(memory_id: &str, content: &str, user_id: Option<String>) -> UpdateMemoryInput {
    UpdateMemoryInput {
        memory_id: memory_id.to_string(),
        content: content.to_string(),
        scope: None,
        user_id,
        agent_id: None,
        request_id: None,
    }
}

fn delete_args(memory_id: &str, user_id: Option<String>) -> DeleteMemoryInput {
    DeleteMemoryInput {
        memory_id: memory_id.to_string(),
        scope: None,
        user_id,
        agent_id: None,
        request_id: None,
    }
}

fn add_args(messages: &str, user_id: Option<String>) -> AddMemoryInput {
    AddMemoryInput {
        messages: messages.to_string(),
        scope: None,
        user_id,
        agent_id: None,
        request_id: None,
        memory_type: None,
    }
}

#[test]
fn test_search_memories_finds_seeded_content() {
    let (server, mut store) = server();
    seed_memory(&server, &mut store, "I love Rust programming", "test-user");

    let results = search(&server, &mut store, "Rust programming", "test-user");
    assert!(!results.is_empty(), "Expected at least one search result");
    let first = &results[0];
    assert!(first.content.contains("Rust"));
    assert!(f32::from_bits(first.score.bits) >= 0.0, "Expected score >= 0.0");
    assert!(!first.id.is_empty(), "Expected non-empty ID");
    assert_eq!(first.user_id.as_deref(), Some("test-user"));
}

#[test]
fn test_update_memory_changes_content() {
    let (server, mut store) = server();
    let id = seed_memory(&server, &mut store, "Original content", "update-user");

    let args = update_args(&id, "Updated content", s("update-user"));
    let progress = server.update_memory(&args, &None).unwrap();
    let op_result = answer_change(args.memory_id, drive(&mut store, progress).err()).unwrap();
    assert!(op_result.success, "Expected success=true");
    assert_eq!(op_result.id, id, "Expected ID to match original");

    let found = search(&server, &mut store, "Updated content", "update-user");
    assert!(found.iter().any(|r| r.content.contains("Updated")));
}

#[test]
fn test_delete_memory_removes_record() {
    let (server, mut store) = server();
    let id = seed_memory(&server, &mut store, "Content to delete", "delete-user");

    let args = delete_args(&id, s("delete-user"));
    let progress = server.delete_memory(&args, &None).unwrap();
    let op_result = answer_change(args.memory_id, drive(&mut store, progress).err()).unwrap();
    assert!(op_result.success, "Expected success=true");
    assert_eq!(op_result.id, id, "Expected ID to match original");

    let after_delete = search(&server, &mut store, "Content to delete", "delete-user");
    assert!(!after_delete.iter().any(|r| r.id == id));
}

#[test]
fn test_add_memory_tool_succeeds_without_llm() {
    let (server, mut store) = server();
    let progress = server
        .add_memory(add_args("I enjoy hiking on weekends", s("add-user")), &None)
        .expect("add_memory should succeed with default config");
    let results = answer_add(drive(&mut store, progress)).unwrap();

    assert!(!results.is_empty(), "Expected at least one AddMemoryResult");
    assert!(!results[0].id.is_empty(), "Expected non-empty memory ID");
    assert!(!results[0].content.is_empty(), "Expected non-empty memory content");
    assert!(!results[0].event.is_empty(), "Expected non-empty event string");
    assert_eq!(results[0].content, "I enjoy hiking on weekends");
    assert_eq!(results[0].event, "ADD");
}

#[test]
fn test_add_memory_requires_scope_id() {
    let (server, _) = server();
    let result = server.add_memory(add_args("test message", None), &None);
    assert!(result.is_err(), "Expected error when no scope ID is provided");
    assert!(matches!(
        result,
        Err(ToolError::InvalidParams(m))
            if m == "At least one of user_id, agent_id, request_id, or scope is required"
    ));
}

#[test]
fn test_search_memories_with_no_results() {
    let (server, mut store) = server();
    let results = search(&server, &mut store, "something that does not exist", "empty-user");
    assert!(results.is_empty(), "Expected empty results on empty store");
}

#[test]
fn test_update_nonexistent_memory_returns_error() {
    let (server, mut store) = server();
    let fake_id = "00000000-0000-0000-0000-000000000001";
    let args = update_args(fake_id, "should not matter", None);
    let progress = server.update_memory(&args, &None).unwrap();
    let result = answer_change(args.memory_id, drive(&mut store, progress).err());
    assert!(result.is_err(), "Expected error when updating nonexistent memory");
    assert!(matches!(result, Err(ToolError::NotFound(id)) if id == fake_id));
}

#[test]
fn test_delete_nonexistent_memory_returns_error() {
    let (server, mut store) = server();
    let fake_id = "00000000-0000-0000-0000-000000000002";
    let args = delete_args(fake_id, None);
    let progress = server.delete_memory(&args, &None).unwrap();
    let result = answer_change(args.memory_id, drive(&mut store, progress).err());
    assert!(result.is_err(), "Expected error when deleting nonexistent memory");
    assert!(matches!(result, Err(ToolError::NotFound(id)) if id == fake_id));
}

#[test]
fn test_full_crud_flow() {
    let (server, mut store) = server();

    let id = seed_memory(&server, &mut store, "Favorite color is blue", "crud-user");

    let search1 = search(&server, &mut store, "favorite color", "crud-user");
    assert!(!search1.is_empty(), "Expected to find memory after seed");
    assert!(search1.iter().any(|r| r.id == id));

    let args = update_args(&id, "Favorite color is green", s("crud-user"));
    let progress = server.update_memory(&args, &None).unwrap();
    let update_result = answer_change(args.memory_id, drive(&mut store, progress).err()).unwrap();
    assert!(update_result.success, "Update should succeed");

    let search2 = search(&server, &mut store, "favorite color green", "crud-user");
    assert!(search2.iter().any(|r| r.content.contains("green")));

    let args = delete_args(&id, s("crud-user"));
    let progress = server.delete_memory(&args, &None).unwrap();
    let delete_result = answer_change(args.memory_id, drive(&mut store, progress).err()).unwrap();
    assert!(delete_result.success, "Delete should succeed");

    let search3 = search(&server, &mut store, "favorite color green", "crud-user");
    assert!(!search3.iter().any(|r| r.id == id));
}

fn auth(subject: &str, agent: Option<JsonValue>) -> Option<AuthContext> {
    let mut claims: TextMap<JsonValue> = TextMap::new();
    if let Some(a) = agent {
        claims.insert("agent_id".to_string(), a);
    }
    Some(AuthContext { subject: subject.to_string(), claims })
}

fn text(x: &str) -> JsonValue {
    JsonValue::String(x.to_string())
}

#[test]
fn callers_are_known_by_their_identity() {
    let c = extract_caller_context(&None);
    assert!(c.user_id.is_none() && c.agent_id.is_none());
    let c = extract_caller_context(&auth("alice", Some(text("bot"))));
    assert_eq!(c.user_id.as_deref(), Some("alice"));
    assert_eq!(c.agent_id.as_deref(), Some("bot"));
    let c = extract_caller_context(&auth("alice", Some(JsonValue::Bool(true))));
    assert_eq!(c.agent_id, None);
    let c = extract_caller_context(&auth("alice", None));
    assert_eq!(c.agent_id, None);
}

fn named(u: Option<&str>, a: Option<&str>, r: Option<&str>) -> ResolvedIds {
    ResolvedIds {
        user_id: u.map(String::from),
        agent_id: a.map(String::from),
        request_id: r.map(String::from),
    }
}

#[test]
fn scopes_take_one_tier_from_the_caller() {
    let caller = CallerContext { user_id: s("alice"), agent_id: s("bot") };
    let nobody = CallerContext { user_id: None, agent_id: None };
    let ids = resolve_scope(Some(Scope::User), &caller, named(Some("x"), Some("y"), Some("z"))).unwrap();
    assert_eq!(
        (ids.user_id.as_deref(), ids.agent_id.as_deref(), ids.request_id.as_deref()),
        (Some("alice"), Some("y"), Some("z"))
    );
    let ids = resolve_scope(Some(Scope::Agent), &caller, named(Some("x"), None, None)).unwrap();
    assert_eq!(
        (ids.user_id.as_deref(), ids.agent_id.as_deref(), ids.request_id.as_deref()),
        (Some("x"), Some("bot"), None)
    );
    let ids = resolve_scope(Some(Scope::Request), &nobody, named(None, None, Some("z"))).unwrap();
    assert_eq!(ids.request_id.as_deref(), Some("z"));
    let ids = resolve_scope(None, &caller, named(None, None, None)).unwrap();
    assert!(ids.user_id.is_none() && ids.agent_id.is_none() && ids.request_id.is_none());
    let text_of = |scope, named| match resolve_scope(Some(scope), &nobody, named) {
        Err(ToolError::InvalidParams(m)) => m,
        other => panic!("unexpected {:?}", other),
    };
    assert_eq!(
        text_of(Scope::User, named(Some("x"), None, None)),
        "scope='user' requires X-Pmcp-User-Id header (not present)"
    );
    assert_eq!(
        text_of(Scope::Agent, named(None, Some("x"), None)),
        "scope='agent' requires X-Pmcp-Agent-Id header (not present)"
    );
    assert_eq!(
        text_of(Scope::Request, named(Some("x"), None, None)),
        "scope='request' requires request_id to be provided in args"
    );
}

#[test]
fn names_of_kinds_and_scopes_are_read() {
    assert!(matches!(parse_memory_type(&None), Ok(None)));
    assert!(matches!(parse_memory_type(&s("episodic_memory")), Ok(Some(MemoryType::Episodic))));
    assert!(matches!(
        parse_memory_type(&s("long_term")),
        Err(ToolError::InvalidParams(m)) if m == "Invalid memory_type 'long_term': expected \
            semantic_memory, episodic_memory, or procedural_memory"
    ));
    assert!(matches!(parse_scope("user"), Ok(Scope::User)));
    assert!(matches!(parse_scope("agent"), Ok(Scope::Agent)));
    assert!(matches!(parse_scope("request"), Ok(Scope::Request)));
    assert!(matches!(
        parse_scope("team"),
        Err(ToolError::InvalidParams(m))
            if m == "Invalid scope 'team': expected 'user', 'agent', or 'request'"
    ));
}

#[test]
fn errors_are_told_to_agents() {
    assert!(matches!(
        map_memory_error(MemoryError::NotFound("i".to_string())),
        ToolError::NotFound(id) if id == "i"
    ));
    assert!(matches!(
        map_memory_error(MemoryError::InvalidInput("m".to_string())),
        ToolError::InvalidParams(m) if m == "m"
    ));
    assert!(matches!(
        map_memory_error(MemoryError::Unauthorized {
            memory_id: "i".to_string(),
            reason: "r".to_string()
        }),
        ToolError::InvalidParams(m) if m == "ownership validation failed for memory i: r"
    ));
    assert!(matches!(
        map_memory_error(MemoryError::Embedding("m".to_string())),
        ToolError::Internal(m) if m == "Embedding error: m"
    ));
}

#[test]
fn tools_refuse_memories_of_others() {
    let (server, mut store) = server();
    let id = seed_memory(&server, &mut store, "secret", "alice");
    let mut args = update_args(&id, "changed", None);
    args.scope = Some(Scope::User);
    let progress = server.update_memory(&args, &auth("bob", None)).unwrap();
    let result = answer_change(args.memory_id.clone(), drive(&mut store, progress).err());
    assert!(matches!(
        result,
        Err(ToolError::InvalidParams(m))
            if m == format!("ownership validation failed for memory {id}: user_id does not match")
    ));
    let progress = server.update_memory(&args, &auth("alice", None)).unwrap();
    assert!(answer_change(args.memory_id, drive(&mut store, progress).err()).is_ok());
    assert_eq!(store.get(&id).unwrap().unwrap().payload.data, "changed");
}

fn list_args(limit: Option<usize>) -> GetAllMemoriesInput {
    GetAllMemoriesInput {
        scope: Some(Scope::User),
        user_id: None,
        agent_id: None,
        request_id: None,
        memory_type: s("semantic_memory"),
        limit,
    }
}

#[test]
fn lists_are_capped() {
    let (server, _) = server();
    let limit_of = |limit| {
        match server.get_all_memories(list_args(limit), &auth("alice", None)).unwrap() {
            Progress::Ask(Command::List { limit, filters }, _) => {
                let f = filters.unwrap();
                assert_eq!(f.conditions.len(), 2);
                assert_eq!(f.logic, FilterLogic::And);
                limit
            }
            _ => panic!("expected List"),
        }
    };
    assert_eq!(limit_of(None), 100);
    assert_eq!(limit_of(Some(7)), 7);
    assert_eq!(limit_of(Some(1000)), 1000);
    assert_eq!(limit_of(Some(5000)), 1000);
}

#[test]
fn lists_show_what_is_stored() {
    let (server, mut store) = server();
    let id = seed_memory(&server, &mut store, "x", "alice");
    let mut args = list_args(None);
    args.memory_type = None;
    let progress = server.get_all_memories(args, &auth("alice", None)).unwrap();
    let answers = answer_list(drive(&mut store, progress)).unwrap();
    assert_eq!(answers.len(), 1);
    assert_eq!(answers[0].id, id);
    assert_eq!(answers[0].content, "x");
    assert_eq!(answers[0].user_id.as_deref(), Some("alice"));
    assert_eq!(answers[0].request_id, None);
    assert!(Timestamp::parse_rfc3339(&answers[0].created_at).is_some());
}

fn reset_args(confirm: bool, request_id: Option<String>) -> DeleteAllMemoriesInput {
    DeleteAllMemoriesInput {
        scope: request_id.as_ref().map(|_| Scope::Request),
        user_id: None,
        agent_id: None,
        request_id,
        confirm,
    }
}

#[test]
fn mass_deletion_is_confirmed() {
    let (server, mut store) = server();
    seed_memory(&server, &mut store, "x", "alice");
    assert!(matches!(
        server.delete_all_memories(reset_args(false, None), &None),
        Err(ToolError::InvalidParams(m)) if m == "confirm=true required to delete memories"
    ));
    // A session without memories is cleaned up without touching others.
    let progress = server.delete_all_memories(reset_args(true, s("r1")), &None).unwrap();
    let answer = answer_reset(drive(&mut store, progress)).unwrap();
    assert!(answer.success);
    assert_eq!(answer.id, "all");
    assert_eq!(store.list(None, 10).unwrap().len(), 1);
    let progress = server.delete_all_memories(reset_args(true, None), &None).unwrap();
    assert!(answer_reset(drive(&mut store, progress)).is_ok());
    assert!(store.list(None, 10).unwrap().is_empty());
}

fn record(id: u128, content: &str, created_at: &str) -> MemoryRecord {
    MemoryRecord {
        id,
        content: content.to_string(),
        metadata: TextMap::new(),
        user_id: None,
        agent_id: None,
        run_id: None,
        memory_type: None,
        hash: String::new(),
        created_at: Timestamp::parse_rfc3339(created_at).unwrap(),
    }
}

#[test]
fn dreams_list_memories_by_number() {
    let records = vec![
        record(1, "first", "2024-01-02T03:04:05Z"),
        record(2, "second", "2024-02-03T04:05:06Z"),
    ];
    assert_eq!(
        format_dream_memories(&records),
        "## Memories to Review (2 total)\n\n\
         1. [ID: 00000000-0000-0000-0000-000000000001] (created: 2024-01-02 03:04 UTC)\n   first\n\n\
         2. [ID: 00000000-0000-0000-0000-000000000002] (created: 2024-02-03 04:05 UTC)\n   second\n\n"
    );
}

#[test]
fn answers_carry_their_time() {
    let first = record(1, "first", "2024-01-02T03:04:05Z");
    assert_eq!(
        format_dream_point(7, &first, "then"),
        "7. [ID: 00000000-0000-0000-0000-000000000001] (created: then)\n   first\n\n"
    );
    let answer = fill_list_answer(&first, "then".to_string());
    assert_eq!(answer.created_at, "then");
    assert_eq!(answer.content, "first");
}

#[test]
fn tools_see_only_the_tier() {
    let (server, mut store) = server();
    seed_memory(&server, &mut store, "of alice", "alice");
    seed_memory(&server, &mut store, "of bob", "bob");
    let mut args = list_args(None);
    args.memory_type = None;
    // The identity counts, whatever else is named.
    args.user_id = s("bob");
    let progress = server.get_all_memories(args, &auth("alice", None)).unwrap();
    let answers = answer_list(drive(&mut store, progress)).unwrap();
    let contents: Vec<&str> = answers.iter().map(|a| a.content.as_str()).collect();
    assert_eq!(contents, vec!["of alice"]);
}

#[test]
fn dreams_look_thirty_days_back() {
    let now = Timestamp::parse_rfc3339("2024-03-31T00:00:00Z").unwrap();
    let prompt = make_dream_prompt_at(
        vec![
            record(1, "at the edge", "2024-03-01T00:00:00Z"),
            record(2, "too old", "2024-02-29T23:59:59.999Z"),
            record(3, "new", "2024-03-30T00:00:00Z"),
        ],
        now,
    );
    assert_eq!(prompt.messages.len(), 2);
    assert_eq!(prompt.messages[0], DREAM_CONSOLIDATION_PROMPT);
    assert!(prompt.messages[1].starts_with("## Memories to Review (2 total)"));
    assert!(prompt.messages[1].contains("at the edge"));
    assert!(prompt.messages[1].contains("new"));
    assert!(!prompt.messages[1].contains("too old"));
    assert_eq!(prompt.description, "Dream: 2 memories loaded for consolidation");
}

#[test]
fn dreams_of_nothing_say_so() {
    let answer = answer_dream(Ok(Listing { records: vec![record(1, "old", "2001-01-01T00:00:00Z")] }))
        .unwrap();
    assert_eq!(
        answer.messages,
        vec!["No recent memories found for consolidation. Nothing to do.".to_string()]
    );
    assert_eq!(answer.description, "Dream: no memories to consolidate");
    assert!(answer_dream(Err(MemoryError::NotFound("x".to_string()))).is_err());
}

#[test]
fn dreams_default_to_the_agent() {
    let (server, _) = server();
    let args = |scope: Option<&str>, user_id: Option<String>| DreamInput {
        scope: scope.map(String::from),
        agent_id: None,
        user_id,
        request_id: None,
    };
    let fields = |args: DreamInput, auth: &Option<AuthContext>| match server.dream(args, auth) {
        Ok(Progress::Ask(Command::List { filters, limit }, _)) => {
            assert_eq!(limit, 200);
            filters.unwrap().conditions.into_iter().map(|c| c.field).collect::<Vec<String>>()
        }
        Err(ToolError::InvalidParams(m)) => vec![m],
        _ => panic!("unexpected"),
    };
    let bot = auth("alice", Some(text("bot")));
    assert_eq!(fields(args(None, None), &bot), vec!["agent_id"]);
    assert_eq!(fields(args(Some("user"), None), &bot), vec!["user_id"]);
    assert_eq!(fields(args(None, s("carol")), &None), vec!["user_id"]);
    assert_eq!(
        fields(args(None, None), &None),
        vec!["scope='agent' requires X-Pmcp-Agent-Id header (not present)"]
    );
    assert_eq!(
        fields(args(Some("team"), None), &bot),
        vec!["Invalid scope 'team': expected 'user', 'agent', or 'request'"]
    );
}
