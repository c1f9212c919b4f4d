use mem0_core::clock::Timestamp;
use mem0_core::config::MemoryConfig;
use mem0_core::errors::{LLMError, MemoryError, VectorStoreError};
use mem0_core::history::{new_row, read_row, HistoryRow};
use mem0_core::json::JsonValue;
use mem0_core::memory::add::{plan_action, plan_event, KnownMemory, Task};
use mem0_core::memory::manager::{ask_history, Memory};
use mem0_core::memory::prompts::{AGENT_FACT_EXTRACTION_PROMPT, FACT_EXTRACTION_PROMPT};
use mem0_core::memory::protocol::{
    Command, Encoding, Fresh, MemoryAction, Progress, Reply, Run,
};
use mem0_core::memory::scope::build_scope_filters;
use mem0_core::models::{
    AddOptions, DeleteOptions, EventType, FilterCondition, FilterLogic, FilterOperator, Filters,
    GetAllOptions, HistoryEntry, MemoryType, Message, ResetOptions, SearchOptions, UpdateOptions,
};
use mem0_core::ranking::Score;
use mem0_core::text_map::TextMap;
use mem0_core::vector_stores::memory::InMemoryStore;

/// Services that keep everything in the process, and note what they are asked.
struct World {
    store: InMemoryStore,
    rows: Vec<HistoryRow>,
    facts: Vec<String>,
    actions: Vec<(String, Option<String>, Option<String>)>,
    encoded: Vec<String>,
    questions: Vec<Vec<Message>>,
    log: Vec<String>,
    broken: Option<&'static str>,
}

fn world() -> World {
    World {
        store: InMemoryStore::new(),
        rows: vec![],
        facts: vec![],
        actions: vec![],
        encoded: vec![],
        questions: vec![],
        log: vec![],
        broken: None,
    }
}

fn embed(text: &str) -> Vec<f32> {
    let mut v = vec![0.0f32; 27];
    for c in text.to_lowercase().chars() {
        let i = if c.is_ascii_lowercase() { c as usize - 'a' as usize } else { 26 };
        v[i] += 1.0;
    }
    v
}

fn cosine(a: &[f32], b: &[u32]) -> Score {
    let b: Vec<f32> = b.iter().map(|x| f32::from_bits(*x)).collect();
    let dot: f32 = a.iter().zip(&b).map(|(x, y)| x * y).sum();
    let norm = |v: &[f32]| v.iter().map(|x| x * x).sum::<f32>().sqrt();
    let (na, nb) = (norm(a), norm(&b));
    if na == 0.0 || nb == 0.0 {
        return Score { bits: 0 };
    }
    Score { bits: (dot / (na * nb)).to_bits() }
}

fn name(command: &Command) -> &'static str {
    match command {
        Command::AskFacts { .. } => "AskFacts",
        Command::AskActions { .. } => "AskActions",
        Command::Encode { .. } => "Encode",
        Command::Insert { .. } => "Insert",
        Command::Query { .. } => "Query",
        Command::Fetch { .. } => "Fetch",
        Command::Replace { .. } => "Replace",
        Command::Remove { .. } => "Remove",
        Command::List { .. } => "List",
        Command::RemoveAll { .. } => "RemoveAll",
        Command::Rerank { .. } => "Rerank",
        Command::Record { .. } => "Record",
        Command::ReadHistory { .. } => "ReadHistory",
        Command::ClearHistory => "ClearHistory",
    }
}

fn written<T>(r: Result<T, VectorStoreError>) -> Reply {
    match r {
        Ok(_) => Reply::Done,
        Err(e) => Reply::Failed(MemoryError::VectorStore(e)),
    }
}

fn perform(w: &mut World, command: Command) -> Reply {
    w.log.push(name(&command).to_string());
    if w.broken == Some(name(&command)) {
        return Reply::Failed(MemoryError::VectorStore(VectorStoreError::Connection(
            "down".to_string(),
        )));
    }
    match command {
        Command::AskFacts { messages } => {
            w.questions.push(messages);
            Reply::Facts(w.facts.clone())
        }
        Command::AskActions { messages } => {
            w.questions.push(messages);
            Reply::Actions(
                w.actions
                    .iter()
                    .map(|(event, text, id)| MemoryAction {
                        event: event.clone(),
                        text: text.clone(),
                        id: id.clone(),
                    })
                    .collect(),
            )
        }
        Command::Encode { text } => {
            w.encoded.push(text.clone());
            Reply::Encoded(Encoding {
                embedding: embed(&text).iter().map(|x| x.to_bits()).collect(),
                hash: format!("#{text}"),
            })
        }
        Command::Insert { id, embedding, payload } => written(w.store.insert(&id, embedding, payload)),
        Command::Query { embedding, limit, filters } => {
            let query: Vec<f32> = embedding.iter().map(|x| f32::from_bits(*x)).collect();
            Reply::Found(w.store.search(|e| cosine(&query, e), limit, filters.as_ref()).unwrap())
        }
        Command::Fetch { id } => Reply::Fetched(w.store.get(&id).unwrap()),
        Command::Replace { id, new_embedding, payload } => {
            written(w.store.update(&id, new_embedding, payload))
        }
        Command::Remove { id } => written(w.store.delete(&id)),
        Command::List { filters, limit } => Reply::Found(w.store.list(filters.as_ref(), limit).unwrap()),
        Command::RemoveAll { filters } => written(w.store.delete_all(filters.as_ref())),
        Command::Rerank { memories, .. } => {
            let mut memories = memories;
            for m in memories.iter_mut() {
                m.score = Score { bits: (m.record.content.len() as f32).to_bits() };
            }
            Reply::Reranked(memories)
        }
        Command::Record { change } => {
            w.rows.push(new_row(&change));
            Reply::Done
        }
        Command::ReadHistory { memory_id } => {
            let mut entries: Vec<HistoryEntry> =
                w.rows.iter().map(read_row).filter(|e| e.memory_id == memory_id).collect();
            entries.reverse();
            Reply::Entries(entries)
        }
        Command::ClearHistory => {
            w.rows.clear();
            Reply::Done
        }
    }
}

fn drive<R: Run>(w: &mut World, start: Progress<R, R::Output>) -> Result<R::Output, MemoryError> {
    let mut progress = start;
    loop {
        match progress {
            Progress::Ask(command, run) => {
                let reply = perform(w, command);
                progress = run.step(reply);
            }
            Progress::Done(result) => return result,
        }
    }
}

fn plain() -> Memory {
    Memory { has_llm: false, has_history: false, has_reranker: false }
}

fn full() -> Memory {
    Memory { has_llm: true, has_history: true, has_reranker: true }
}

fn user(text: &str) -> Vec<Message> {
    vec![Message::user(text)]
}

fn s(x: &str) -> Option<String> {
    Some(x.to_string())
}

fn add(w: &mut World, memory: Memory, text: &str, options: AddOptions) -> Vec<(u128, EventType)> {
    drive(w, memory.add(user(text), options))
        .unwrap()
        .results
        .into_iter()
        .map(|e| (e.id, e.event))
        .collect()
}

fn id_text(id: u128) -> String {
    uuid::Uuid::from_u128(id).to_string()
}

fn who(user_id: &str) -> UpdateOptions {
    UpdateOptions { user_id: s(user_id), agent_id: None, run_id: None }
}

#[test]
fn test_memory_creation() {
    let memory = Memory::new(&MemoryConfig::default());
    assert_eq!(memory, plain());
}

#[test]
fn test_add_raw() {
    let mut w = world();
    let result = drive(
        &mut w,
        plain().add(
            user("Test memory content"),
            AddOptions { user_id: s("test_user"), infer: false, ..Default::default() },
        ),
    );
    assert!(result.is_ok());
    assert_eq!(result.unwrap().results.len(), 1);
}

#[test]
fn manager_test_search() {
    let mut w = world();
    add(
        &mut w,
        plain(),
        "I love programming in Rust",
        AddOptions { user_id: s("test_user"), infer: false, ..Default::default() },
    );
    let results = drive(
        &mut w,
        plain().search(
            "Rust programming",
            SearchOptions { user_id: s("test_user"), ..Default::default() },
        ),
    )
    .unwrap();
    assert!(!results.results.is_empty());
}

#[test]
fn raw_additions_skip_the_system() {
    let mut w = world();
    let messages = vec![
        Message::system("be kind"),
        Message::user("one"),
        Message::assistant("two"),
        Message::user("one"),
    ];
    let result = drive(&mut w, full().add(messages, AddOptions::for_user("u").raw())).unwrap();
    let told: Vec<String> = result.results.iter().map(|e| e.memory.clone()).collect();
    assert_eq!(told, vec!["one", "two", "one"]);
    assert!(result.results.iter().all(|e| e.event == EventType::Add && e.previous_memory.is_none()));
    assert_eq!(w.encoded, vec!["one", "two", "one"]);
    assert_eq!(w.rows.len(), 3);
    assert_eq!(w.rows[1].event, "ADD");
    assert_eq!(w.rows[1].new_content, "two");
    assert_eq!(w.rows[1].previous_content, None);
}

#[test]
fn additions_carry_what_they_are_given() {
    let mut w = world();
    let mut metadata: TextMap<JsonValue> = TextMap::new();
    metadata.insert("k".to_string(), JsonValue::Bool(true));
    let options = AddOptions {
        user_id: s("u"),
        agent_id: s("a"),
        run_id: s("r"),
        metadata: Some(metadata),
        memory_type: Some(MemoryType::Procedural),
        infer: true,
    };
    let events = add(&mut w, plain(), "text", options);
    let record = drive(&mut w, plain().get(&id_text(events[0].0))).unwrap().record.unwrap();
    assert_eq!(record.id, events[0].0);
    assert_eq!(record.content, "text");
    assert_eq!(record.hash, "#text");
    assert_eq!(record.user_id, s("u"));
    assert_eq!(record.agent_id, s("a"));
    assert_eq!(record.run_id, s("r"));
    assert_eq!(record.memory_type, Some(MemoryType::Procedural));
    assert!(matches!(record.metadata.get("k"), Some(JsonValue::Bool(true))));
}

#[test]
fn additions_without_a_scope_ask_nothing() {
    let mut w = world();
    let r = drive(&mut w, full().add(user("x"), AddOptions::default()));
    assert!(matches!(
        r,
        Err(MemoryError::InvalidInput(m)) if m == "At least one of user_id, agent_id, or run_id is required"
    ));
    assert!(w.log.is_empty());
}

#[test]
fn additions_end_on_the_first_failure() {
    for step in ["Encode", "Insert"] {
        let mut w = world();
        w.broken = Some(step);
        let r = drive(&mut w, plain().add(user("x"), AddOptions::for_user("u")));
        assert!(matches!(r, Err(MemoryError::VectorStore(VectorStoreError::Connection(_)))));
    }
    let mut w = world();
    w.broken = Some("Record");
    let r = drive(&mut w, full().add(user("x"), AddOptions::for_user("u").raw()));
    assert_eq!(r.unwrap().results.len(), 1);
}

#[test]
fn unexpected_replies_end_an_operation() {
    let Progress::Ask(_, run) = plain().get("x") else { panic!("expected a command") };
    assert!(matches!(
        run.step(Reply::Done),
        Progress::Done(Err(MemoryError::UnexpectedReply))
    ));
}

#[test]
fn inference_needs_a_model() {
    let r = plain().add_with_inference(&user("x"), AddOptions::for_user("u"));
    assert!(matches!(r, Progress::Done(Err(MemoryError::Llm(LLMError::NotConfigured)))));
}

#[test]
fn inference_without_facts_does_nothing() {
    let mut w = world();
    let r = drive(&mut w, full().add(user("hi"), AddOptions::for_user("u"))).unwrap();
    assert!(r.results.is_empty());
    assert_eq!(w.log, vec!["AskFacts"]);
}

#[test]
fn inference_asks_about_the_right_speaker() {
    let mut w = world();
    let talk = || vec![Message::user("hi"), Message::assistant("I am Alex")];
    let mut options = AddOptions::for_user("u");
    drive(&mut w, full().add(talk(), options)).unwrap();
    assert_eq!(w.questions[0][0].content, FACT_EXTRACTION_PROMPT);
    assert_eq!(
        w.questions[0][1].content,
        "Extract facts from the following conversation:\n\nUser: hi\nAssistant: I am Alex"
    );
    options = AddOptions::for_user("u");
    options.agent_id = s("bot");
    drive(&mut w, full().add(talk(), options)).unwrap();
    assert_eq!(w.questions[1][0].content, AGENT_FACT_EXTRACTION_PROMPT);
}

#[test]
fn inference_carries_actions_out() {
    let mut w = world();
    let raw = || AddOptions::for_user("u").raw();
    let kept = add(&mut w, plain(), "likes tea", raw())[0].0;
    let gone = add(&mut w, plain(), "likes milk", raw())[0].0;
    w.log.clear();
    w.encoded.clear();
    w.facts = vec!["likes tea".to_string(), "likes milk".to_string(), "likes tea".to_string()];
    let index = |w: &mut World, id: u128| {
        // The names are the places in the order in which the memories were found.
        let found = w.store.search(|e| cosine(&embed("likes tea"), e), 5, None).unwrap();
        found.iter().position(|f| f.id == id_text(id)).unwrap().to_string()
    };
    let (kept_name, gone_name) = (index(&mut w, kept), index(&mut w, gone));
    w.actions = vec![
        ("add".to_string(), s("likes tea"), None),
        ("Update".to_string(), s("loves tea"), Some(kept_name.clone())),
        ("DELETE".to_string(), None, Some(gone_name)),
        ("UPDATE".to_string(), s("x"), s("7")),
        ("DELETE".to_string(), None, s("00")),
        ("ADD".to_string(), None, None),
        ("RENAME".to_string(), s("x"), Some(kept_name)),
    ];
    let r = drive(&mut w, full().add(user("talk"), AddOptions::for_user("u"))).unwrap();
    let events: Vec<EventType> = r.results.iter().map(|e| e.event).collect();
    assert_eq!(events, vec![EventType::Add, EventType::Update, EventType::Delete]);
    assert_eq!(r.results[0].memory, "likes tea");
    assert_eq!(r.results[1].id, kept);
    assert_eq!(r.results[1].memory, "loves tea");
    assert_eq!(r.results[1].previous_memory.as_deref(), Some("likes tea"));
    assert_eq!(r.results[2].id, gone);
    assert_eq!(r.results[2].memory, "");
    // Facts and new memories are encoded once, updates on their own.
    assert_eq!(w.encoded, vec!["likes tea", "likes milk", "loves tea"]);
    let record = drive(&mut w, plain().get(&id_text(kept))).unwrap().record.unwrap();
    assert_eq!(record.content, "loves tea");
    assert_eq!(record.hash, "#loves tea");
    assert!(drive(&mut w, plain().get(&id_text(gone))).unwrap().record.is_none());
    let told: Vec<&str> = w.rows.iter().map(|row| row.event.as_str()).collect();
    assert_eq!(told, vec!["ADD", "UPDATE", "DELETE"]);
    assert_eq!(w.rows[2].new_content, "DELETED");
    assert_eq!(w.rows[2].previous_content.as_deref(), Some("likes milk"));
}

#[test]
fn actions_are_read_in_any_case() {
    let known = vec![KnownMemory { id: "real".to_string(), content: "old".to_string() }];
    let action = |event: &str, text: Option<&str>, id: Option<&str>| MemoryAction {
        event: event.to_string(),
        text: text.map(String::from),
        id: id.map(String::from),
    };
    let plain = AddOptions::for_user("u");
    assert!(matches!(
        plan_action(&action("Add", Some("new"), None), &known, &plain),
        Some(Task::Add { text }) if text == "new"
    ));
    assert!(matches!(
        plan_action(&action("update", Some("new"), Some("0")), &known, &plain),
        Some(Task::Update { id, content, previous })
            if id == "real" && content == "new" && previous == "old"
    ));
    assert!(matches!(
        plan_action(&action("dElEtE", None, Some("0")), &known, &plain),
        Some(Task::Delete { id }) if id == "real"
    ));
    assert!(plan_action(&action("delete", None, Some("1")), &known, &plain).is_none());
    assert!(plan_action(&action("noop", None, Some("0")), &known, &plain).is_none());
    let mut session = AddOptions::for_user("u");
    session.run_id = s("r");
    assert!(matches!(
        plan_action(&action("noop", None, Some("0")), &known, &session),
        Some(Task::Touch { id }) if id == "real"
    ));
    let odd = action("whatever", Some("new"), None);
    assert!(plan_event("ADD", &odd, &known, &plain).is_some());
    assert!(plan_event("add", &odd, &known, &plain).is_none());
}

#[test]
fn histories_are_asked_for_by_identifier() {
    assert!(matches!(
        ask_history(Ok(7)),
        Progress::Ask(Command::ReadHistory { memory_id: 7 }, _)
    ));
    assert!(matches!(
        ask_history(Err("no".to_string())),
        Progress::Done(Err(MemoryError::InvalidInput(m))) if m == "no"
    ));
}

#[test]
fn inference_names_each_memory_once() {
    let mut w = world();
    let raw = || AddOptions::for_user("u").raw();
    add(&mut w, plain(), "aa", raw());
    add(&mut w, plain(), "ab", raw());
    w.facts = vec!["a".to_string(), "b".to_string()];
    drive(&mut w, full().add(user("talk"), AddOptions::for_user("u"))).unwrap();
    let question = &w.questions[1][1].content;
    assert_eq!(
        question,
        "Existing memories:\n[0] aa\n[1] ab\n\nNew facts to process:\n- a\n- b\n"
    );
}

#[test]
fn meeting_a_memory_again_notes_the_session() {
    let mut w = world();
    let id = add(&mut w, plain(), "likes tea", AddOptions::for_user("u").raw())[0].0;
    w.facts = vec!["likes tea".to_string()];
    w.actions = vec![("NOOP".to_string(), None, s("0"))];
    // Without an agent or a session there is nothing to note.
    w.log.clear();
    let r = drive(&mut w, full().add(user("t"), AddOptions::for_user("u"))).unwrap();
    assert!(r.results.is_empty());
    assert!(!w.log.contains(&"Fetch".to_string()));
    let mut record = drive(&mut w, plain().get(&id_text(id))).unwrap().record.unwrap();
    assert_eq!(record.agent_id, None);
    // An agent that has no memories of its own yet finds none to meet again.
    let mut options = AddOptions::for_user("u");
    options.agent_id = s("bot");
    drive(&mut w, full().add(user("t"), options)).unwrap();
    record = drive(&mut w, plain().get(&id_text(id))).unwrap().record.unwrap();
    assert_eq!(record.agent_id, None);
    assert!(w.rows.is_empty());
}

#[test]
fn meeting_a_memory_again_replaces_only_the_session() {
    // The store answers with a memory of another session.
    let mut options = AddOptions::for_user("u");
    options.run_id = s("new");
    let mut w = world();
    let old = AddOptions { user_id: s("u"), run_id: s("old"), infer: false, ..Default::default() };
    let id = id_text(add(&mut w, plain(), "likes tea", old)[0].0);
    let found = || vec![];
    let mut progress = full().add(user("t"), options);
    let mut replaced = None;
    loop {
        let (command, run) = match progress {
            Progress::Ask(command, run) => (command, run),
            Progress::Done(r) => {
                assert!(r.unwrap().results.is_empty());
                break;
            }
        };
        let reply = match command {
            Command::AskFacts { .. } => Reply::Facts(vec!["likes tea".to_string()]),
            Command::AskActions { .. } => Reply::Actions(vec![MemoryAction {
                event: "NOOP".to_string(),
                text: None,
                id: s("0"),
            }]),
            Command::Encode { .. } => {
                Reply::Encoded(Encoding { embedding: vec![], hash: "h".to_string() })
            }
            Command::Query { limit, .. } => {
                assert_eq!(limit, 5);
                let mut all = found();
                all.extend(w.store.get(&id).unwrap());
                Reply::Found(all)
            }
            Command::Fetch { id } => Reply::Fetched(w.store.get(&id).unwrap()),
            Command::Replace { id, new_embedding, payload } => {
                assert!(new_embedding.is_none());
                replaced = Some((id, payload));
                Reply::Done
            }
            other => panic!("unexpected {:?}", other),
        };
        progress = run.step(reply);
    }
    let (key, payload) = replaced.expect("the session should be noted");
    assert_eq!(key, id);
    assert_eq!(payload.run_id, s("new"));
    assert_eq!(payload.user_id, s("u"));
    assert_eq!(payload.data, "likes tea");
}

#[test]
fn inference_passes_failed_changes_over() {
    let mut w = world();
    let id = add(&mut w, plain(), "likes tea", AddOptions::for_user("u").raw())[0].0;
    w.facts = vec!["likes tea".to_string()];
    w.actions = vec![
        ("UPDATE".to_string(), s("loves tea"), s("0")),
        ("DELETE".to_string(), None, s("0")),
        ("ADD".to_string(), s("likes tea"), None),
    ];
    w.broken = Some("Fetch");
    let r = drive(&mut w, full().add(user("t"), AddOptions::for_user("u"))).unwrap();
    assert_eq!(r.results.len(), 1);
    assert_eq!(r.results[0].event, EventType::Add);
    assert!(w.store.get(&id_text(id)).unwrap().is_some());
    w.broken = Some("AskActions");
    let r = drive(&mut w, full().add(user("t"), AddOptions::for_user("u")));
    assert!(matches!(r, Err(MemoryError::VectorStore(_))));
}

#[test]
fn inferred_additions_tell_of_each_task_in_order() {
    let mut w = world();
    let tea = add(&mut w, plain(), "likes tea", AddOptions::for_user("u").raw())[0].0;
    let cats = add(&mut w, plain(), "has cats", AddOptions::for_user("u").raw())[0].0;
    w.facts = vec!["likes tea".to_string(), "has cats".to_string()];
    // The first memory to be named is the one most like the first fact.
    w.actions = vec![
        ("UPDATE".to_string(), s("loves tea"), s("0")),
        ("ADD".to_string(), s("plays chess"), None),
        ("NOOP".to_string(), None, s("1")),
        ("DELETE".to_string(), None, s("1")),
        // By now there is nothing left to change.
        ("UPDATE".to_string(), s("has dogs"), s("1")),
        ("DELETE".to_string(), None, s("1")),
        ("ADD".to_string(), s("likes tea"), None),
    ];
    let r = drive(&mut w, full().add(user("t"), AddOptions::for_user("u"))).unwrap();
    let told: Vec<(EventType, &str, Option<&str>)> = r
        .results
        .iter()
        .map(|e| (e.event, e.memory.as_str(), e.previous_memory.as_deref()))
        .collect();
    assert_eq!(
        told,
        vec![
            (EventType::Update, "loves tea", Some("likes tea")),
            (EventType::Add, "plays chess", None),
            (EventType::Delete, "", None),
            (EventType::Add, "likes tea", None),
        ]
    );
    assert_eq!(r.results[0].id, tea);
    assert_eq!(r.results[2].id, cats);
    for i in [1, 3] {
        let stored = w.store.get(&id_text(r.results[i].id)).unwrap().expect("it should be stored");
        assert_eq!(stored.payload.data, r.results[i].memory);
    }
}

#[test]
fn steps_can_be_given_identifier_and_time() {
    let now = Timestamp::parse_rfc3339("2024-01-01T00:00:00Z").unwrap();
    let fresh = Fresh { id: 42, now };
    let progress = full().add_at(user("x"), AddOptions::for_user("u").raw(), fresh);
    let Progress::Ask(Command::Encode { text }, run) = progress else { panic!("expected Encode") };
    assert_eq!(text, "x");
    let later = Fresh { id: 43, now: Timestamp::parse_rfc3339("2025-01-01T00:00:00Z").unwrap() };
    let reply = Reply::Encoded(Encoding { embedding: vec![7], hash: "h".to_string() });
    let Progress::Ask(Command::Insert { id, embedding, payload }, run) = run.step_at(reply, later)
    else {
        panic!("expected Insert")
    };
    assert_eq!(id, "00000000-0000-0000-0000-00000000002a");
    assert_eq!(embedding, vec![7]);
    assert_eq!(payload.created_at, now);
    let Progress::Ask(Command::Record { change }, _) = run.step_at(Reply::Done, later) else {
        panic!("expected Record")
    };
    assert_eq!(change.memory_id, 42);
    assert_eq!(change.timestamp, now);
}

#[test]
fn searches_ask_for_more_than_they_give() {
    let limit_of = |options: SearchOptions| {
        let Progress::Ask(_, run) = full().search("q", options) else { panic!("expected a command") };
        let reply = Reply::Encoded(Encoding { embedding: vec![1], hash: String::new() });
        match run.step(reply) {
            Progress::Ask(Command::Query { limit, .. }, _) => limit,
            other => panic!("unexpected {:?}", other),
        }
    };
    assert_eq!(limit_of(SearchOptions::default()), 20);
    assert_eq!(limit_of(SearchOptions { limit: Some(3), ..Default::default() }), 6);
    assert_eq!(limit_of(SearchOptions { limit: Some(3), rerank: true, ..Default::default() }), 30);
}

#[test]
fn searches_keep_to_threshold_limit_and_order() {
    let mut w = world();
    for text in ["abc", "abd", "xyz", "abcx"] {
        add(&mut w, plain(), text, AddOptions::for_user("u").raw());
    }
    add(&mut w, plain(), "abc", AddOptions::for_user("other").raw());
    let half = Score { bits: 0.5f32.to_bits() };
    let options = || SearchOptions { user_id: s("u"), threshold: Some(half), ..Default::default() };
    let contents = |w: &mut World, o: SearchOptions| -> Vec<String> {
        drive(w, full().search("abc", o))
            .unwrap()
            .results
            .into_iter()
            .map(|m| m.record.content)
            .collect()
    };
    assert_eq!(contents(&mut w, options()), vec!["abc", "abcx", "abd"]);
    let mut two = options();
    two.limit = Some(2);
    assert_eq!(contents(&mut w, two), vec!["abc", "abcx"]);
    let mut anew = options();
    anew.rerank = true;
    assert_eq!(contents(&mut w, anew), vec!["abcx", "abc", "abd"]);
    let mut narrowed = options();
    narrowed.filters = Some(Filters {
        conditions: vec![FilterCondition {
            field: "data".to_string(),
            operator: FilterOperator::Contains,
            value: JsonValue::String("d".to_string()),
        }],
        logic: FilterLogic::Or,
    });
    assert_eq!(contents(&mut w, narrowed), vec!["abd"]);
}

#[test]
fn rerank_without_a_reranker_is_passed_over() {
    let mut w = world();
    add(&mut w, plain(), "abc", AddOptions::for_user("u").raw());
    let options = SearchOptions { user_id: s("u"), rerank: true, ..Default::default() };
    drive(&mut w, plain().search("abc", options)).unwrap();
    assert!(!w.log.contains(&"Rerank".to_string()));
}

#[test]
fn lists_keep_to_their_scope() {
    let mut w = world();
    for (u, a) in [("u", "a"), ("u", "b"), ("v", "a")] {
        let mut o = AddOptions::for_user(u).raw();
        o.agent_id = s(a);
        add(&mut w, plain(), "x", o);
    }
    let count = |w: &mut World, user_id: Option<String>, agent_id: Option<String>, limit| {
        let o = GetAllOptions { user_id, agent_id, run_id: None, memory_type: None, limit };
        drive(w, plain().get_all(o)).unwrap().records.len()
    };
    assert_eq!(count(&mut w, None, None, None), 3);
    assert_eq!(count(&mut w, s("u"), None, None), 2);
    assert_eq!(count(&mut w, s("u"), s("a"), None), 1);
    assert_eq!(count(&mut w, None, s("a"), Some(1)), 1);
    assert_eq!(count(&mut w, s("w"), None, None), 0);
}

#[test]
fn updates_are_for_owners() {
    let mut w = world();
    let id = id_text(add(&mut w, full(), "old", AddOptions::for_user("alice").raw())[0].0);
    let r = drive(&mut w, full().update(&id, "new", who("bob")));
    assert!(matches!(
        r,
        Err(MemoryError::Unauthorized { memory_id, reason })
            if memory_id == id && reason == "user_id does not match"
    ));
    assert_eq!(w.store.get(&id).unwrap().unwrap().payload.data, "old");
    let record = drive(&mut w, full().update(&id, "new", who("alice"))).unwrap();
    assert_eq!(record.content, "new");
    assert_eq!(w.store.get(&id).unwrap().unwrap().payload.data, "new");
    assert_eq!(w.store.get(&id).unwrap().unwrap().payload.hash, "#new");
    let r = drive(&mut w, full().update("nope", "new", who("alice")));
    assert!(matches!(r, Err(MemoryError::NotFound(m)) if m == "nope"));
}

#[test]
fn ownership_looks_at_every_tier() {
    let mut w = world();
    let mut o = AddOptions::for_user("alice").raw();
    o.agent_id = s("bot");
    o.run_id = s("r1");
    let id = id_text(add(&mut w, plain(), "x", o)[0].0);
    let reason = |w: &mut World, u: &str, a: Option<&str>, r: Option<&str>| {
        let options = DeleteOptions {
            user_id: s(u),
            agent_id: a.map(String::from),
            run_id: r.map(String::from),
        };
        match drive(w, plain().delete(&id, options)) {
            Err(MemoryError::Unauthorized { reason, .. }) => reason,
            Ok(_) => "deleted".to_string(),
            Err(e) => e.to_text(),
        }
    };
    assert_eq!(reason(&mut w, "alice", None, None), "agent_id does not match");
    assert_eq!(reason(&mut w, "alice", Some("bot"), None), "request_id does not match");
    assert_eq!(reason(&mut w, "alice", Some("bot"), Some("r1")), "deleted");
    assert_eq!(reason(&mut w, "alice", Some("bot"), Some("r1")), format!("Memory not found: {id}"));
}

#[test]
fn histories_tell_the_latest_first() {
    let mut w = world();
    let id = id_text(add(&mut w, full(), "old", AddOptions::for_user("alice").raw())[0].0);
    drive(&mut w, full().update(&id, "new", who("alice"))).unwrap();
    let entries = drive(&mut w, full().history(&id)).unwrap().entries;
    assert_eq!(entries.len(), 2);
    assert_eq!(entries[0].event, EventType::Update);
    assert_eq!(entries[0].previous_content.as_deref(), Some("old"));
    assert_eq!(entries[0].new_content, "new");
    assert_eq!(entries[1].event, EventType::Add);
    assert!(drive(&mut w, plain().history("anything")).unwrap().entries.is_empty());
    let expected = uuid::Uuid::parse_str("anything").unwrap_err().to_string();
    assert!(matches!(
        drive(&mut w, full().history("anything")),
        Err(MemoryError::InvalidInput(m)) if m == expected
    ));
}

#[test]
fn resets_keep_to_their_scope() {
    let mut w = world();
    let in_session = |r: &str| {
        let mut o = AddOptions::for_user("u").raw();
        o.run_id = s(r);
        o
    };
    add(&mut w, full(), "1", in_session("r1"));
    add(&mut w, full(), "2", in_session("r2"));
    let session = ResetOptions { user_id: None, agent_id: None, run_id: s("r1") };
    drive(&mut w, full().reset(session)).unwrap();
    let left = w.store.list(None, 10).unwrap();
    assert_eq!(left.len(), 1);
    assert_eq!(left[0].payload.data, "2");
    assert_eq!(w.rows.len(), 2);
    let all = ResetOptions { user_id: None, agent_id: None, run_id: None };
    drive(&mut w, full().reset(all)).unwrap();
    assert!(w.store.list(None, 10).unwrap().is_empty());
    assert!(w.rows.is_empty());
}

#[test]
fn scopes_become_filters() {
    assert!(build_scope_filters(&None, &None, &None, None).is_none());
    let f = build_scope_filters(&s("u"), &None, &s("r"), Some(MemoryType::Semantic)).unwrap();
    let fields: Vec<&str> = f.conditions.iter().map(|c| c.field.as_str()).collect();
    assert_eq!(fields, vec!["user_id", "run_id", "memory_type"]);
    assert_eq!(f.logic, FilterLogic::And);
    assert!(f.conditions[2].value.same(&JsonValue::String("semantic_memory".to_string())));
}
