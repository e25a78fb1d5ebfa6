use arch_llm::jobs::{
    apply_title_result, build_memory_prompt, build_title_prompt, clean_title, is_first_exchange,
    memory_update_from_response,
};
use arch_llm::state::{ChatHistory, Message};

fn entry(id: &str, title: &str) -> ChatHistory {
    ChatHistory {
        id: id.to_string(),
        title: title.to_string(),
        messages: vec![Message::user("q".to_string()), Message::assistant("a".to_string())],
    }
}

#[test]
fn titles_are_trimmed_unquoted_and_unpointed() {
    assert_eq!(clean_title("  \"A Nice Title.\"  \n"), "A Nice Title");
    assert_eq!(clean_title("Plain"), "Plain");
    assert_eq!(clean_title("\"\"Quoted\"\""), "Quoted");
    assert_eq!(clean_title("Dotted.."), "Dotted.");
    assert_eq!(clean_title("   "), "");
    assert_eq!(clean_title("\"\""), "");
}

#[test]
fn title_result_overwrites_the_entry() {
    let mut history = vec![entry("id-1", "Hi"), entry("id-2", "Other")];
    let changed = apply_title_result(&mut history, &"id-1".to_string(), "\"Tea Talk.\"");
    assert!(changed);
    assert_eq!(history[0].title, "Tea Talk");
    assert_eq!(history[1].title, "Other");
}

#[test]
fn empty_title_result_keeps_the_provisional_title() {
    let mut history = vec![entry("id-1", "Hi")];
    let changed = apply_title_result(&mut history, &"id-1".to_string(), "  \"\" ");
    assert!(!changed);
    assert_eq!(history[0].title, "Hi");
}

#[test]
fn title_result_for_a_deleted_entry_changes_nothing() {
    let mut history = vec![entry("id-1", "Hi")];
    let changed = apply_title_result(&mut history, &"gone".to_string(), "New Title");
    assert!(!changed);
    assert_eq!(history[0].title, "Hi");
}

#[test]
fn title_prompt_wraps_the_first_message() {
    assert_eq!(
        build_title_prompt("Hi"),
        "Generate a very short, creative 2-4 word title for a chat that starts with: \"Hi\". Output ONLY the title, no quotes or punctuation."
    );
}

#[test]
fn memory_prompt_wraps_the_existing_blob() {
    assert_eq!(
        build_memory_prompt("- likes tea"),
        "You are a memory module. Based on the recent conversation above and the existing knowledge about the user, update the Long-term Memory. Existing Knowledge:\n- likes tea\n\nRequirements:\n1. Output a concise, bulleted list of facts, preferences, and important context about the user.\n2. Include new info from this chat.\n3. Keep it brief and relevant for future assistance.\n4. Output ONLY the list, no headers or conversational text."
    );
}

#[test]
fn memory_responses_are_trimmed_or_dropped() {
    assert_eq!(
        memory_update_from_response(" - likes tea\n- works in Berlin \n"),
        Some("- likes tea\n- works in Berlin".to_string())
    );
    assert_eq!(memory_update_from_response("   \n  "), None);
    assert_eq!(memory_update_from_response(""), None);
}

#[test]
fn first_exchange_is_at_most_three_messages() {
    let three = vec![
        Message::system("s".to_string()),
        Message::user("u".to_string()),
        Message::assistant("a".to_string()),
    ];
    assert!(is_first_exchange(&three));
    let mut four = three.clone();
    four.push(Message::user("again".to_string()));
    assert!(!is_first_exchange(&four));
}
