use mem0_core::memory::prompts::{
    format_conversation, format_fact_extraction_input, format_memory_update_input,
    should_use_agent_extraction, AGENT_FACT_EXTRACTION_PROMPT, FACT_EXTRACTION_PROMPT,
    MEMORY_UPDATE_PROMPT,
};
use mem0_core::models::Message;

#[test]
fn test_format_fact_extraction() {
    let input = format_fact_extraction_input("Hello, I like pizza");
    assert!(input.contains("pizza"));
}

#[test]
fn test_format_memory_update() {
    let existing = vec![("0".to_string(), "User likes coffee".to_string())];
    let new_facts = vec!["User also likes tea".to_string()];

    let output = format_memory_update_input(&existing, &new_facts);
    assert!(output.contains("[0] User likes coffee"));
    assert!(output.contains("User also likes tea"));
}

#[test]
fn fact_question_is_exact() {
    assert_eq!(
        format_fact_extraction_input("User: hi"),
        "Extract facts from the following conversation:\n\nUser: hi"
    );
}

#[test]
fn update_question_lists_memories_and_facts() {
    let existing = vec![
        ("0".to_string(), "a".to_string()),
        ("1".to_string(), "b".to_string()),
    ];
    let facts = vec!["x".to_string(), "y".to_string()];
    assert_eq!(
        format_memory_update_input(&existing, &facts),
        "Existing memories:\n[0] a\n[1] b\n\nNew facts to process:\n- x\n- y\n"
    );
}

#[test]
fn update_question_without_memories_says_none() {
    let facts = vec!["x".to_string()];
    assert_eq!(
        format_memory_update_input(&[], &facts),
        "Existing memories:\nNone\n\nNew facts to process:\n- x\n"
    );
}

#[test]
fn conversation_has_a_line_for_each_message() {
    let messages = vec![
        Message::system("be kind"),
        Message::user("hi"),
        Message::assistant("hello"),
    ];
    assert_eq!(format_conversation(&messages), "System: be kind\nUser: hi\nAssistant: hello");
    assert_eq!(format_conversation(&[]), "");
}

#[test]
fn agent_extraction_takes_an_agent_and_its_words() {
    let with = vec![Message::user("hi"), Message::assistant("hello")];
    let without = vec![Message::user("hi")];
    assert!(should_use_agent_extraction(&with, Some("bot")));
    assert!(!should_use_agent_extraction(&with, None));
    assert!(!should_use_agent_extraction(&without, Some("bot")));
    assert!(!should_use_agent_extraction(&[], Some("bot")));
}

#[test]
fn prompts_ask_for_what_is_read_back() {
    assert!(FACT_EXTRACTION_PROMPT.starts_with("You are a Personal Information Organizer"));
    assert!(FACT_EXTRACTION_PROMPT.contains("\"facts\""));
    assert!(AGENT_FACT_EXTRACTION_PROMPT.starts_with("You are an Assistant Information Organizer"));
    assert!(MEMORY_UPDATE_PROMPT.contains("\"event\": \"ADD\" | \"UPDATE\" | \"DELETE\" | \"NOOP\""));
}
