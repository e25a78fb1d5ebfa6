use arch_llm::state::{Agent, Settings};
use arch_llm::store::{DocStore, MemoryStore};

#[test]
fn memory_blobs_are_stored_per_profile() {
    let mut store = MemoryStore::new();
    assert_eq!(store.read(&"id-1".to_string()), None);

    store.write("id-1".to_string(), "- likes tea".to_string());
    store.write("id-2".to_string(), "- plays chess".to_string());
    assert_eq!(store.read(&"id-1".to_string()), Some("- likes tea".to_string()));
    assert_eq!(store.read(&"id-2".to_string()), Some("- plays chess".to_string()));
}

#[test]
fn memory_writes_replace_wholesale() {
    let mut store = MemoryStore::new();
    store.write("id-7".to_string(), "- likes tea".to_string());
    store.write(
        "id-7".to_string(),
        "- likes tea\n- works in Berlin".to_string(),
    );
    assert_eq!(
        store.read(&"id-7".to_string()),
        Some("- likes tea\n- works in Berlin".to_string())
    );
}

#[test]
fn repeated_saves_load_the_same_value() {
    let mut store = MemoryStore::new();
    store.write("id-1".to_string(), "- fact".to_string());
    let first = store.read(&"id-1".to_string());
    store.write("id-1".to_string(), "- fact".to_string());
    let second = store.read(&"id-1".to_string());
    assert_eq!(first, Some("- fact".to_string()));
    assert_eq!(first, second);
}

#[test]
fn cleared_memory_reads_as_missing() {
    let mut store = MemoryStore::new();
    store.write("id-1".to_string(), "- fact".to_string());
    store.clear(&"id-1".to_string());
    assert_eq!(store.read(&"id-1".to_string()), None);
    store.clear(&"never-stored".to_string());
    assert_eq!(store.read(&"never-stored".to_string()), None);
}

fn sample_settings() -> Settings {
    Settings {
        ollama_endpoint: "http://example.org:11434".to_string(),
        agents: vec![Agent {
            name: "A".to_string(),
            model: "m".to_string(),
            system_prompt: "s".to_string(),
            description: "d".to_string(),
        }],
        profiles: vec![],
        active_profile: None,
    }
}

fn assert_settings_equal(a: &Settings, b: &Settings) {
    assert_eq!(a.ollama_endpoint, b.ollama_endpoint);
    assert_eq!(a.agents.len(), b.agents.len());
    for (x, y) in a.agents.iter().zip(b.agents.iter()) {
        assert_eq!(x.name, y.name);
        assert_eq!(x.model, y.model);
        assert_eq!(x.system_prompt, y.system_prompt);
        assert_eq!(x.description, y.description);
    }
    assert_eq!(a.profiles.len(), b.profiles.len());
    assert_eq!(a.active_profile, b.active_profile);
}

#[test]
fn saving_settings_twice_loads_an_equal_value_both_times() {
    let mut store: DocStore<Settings> = DocStore::new();
    assert!(store.load().is_none());

    store.save(sample_settings());
    let first = store.load().expect("a saved document loads").clone();
    assert_settings_equal(&first, &sample_settings());

    store.save(sample_settings());
    let second = store.load().expect("a saved document loads").clone();
    assert_settings_equal(&second, &sample_settings());
    assert_settings_equal(&first, &second);
}

#[test]
fn history_documents_overwrite_wholesale() {
    let mut store: DocStore<Vec<String>> = DocStore::new();
    store.save(vec!["one".to_string()]);
    store.save(vec!["one".to_string(), "two".to_string()]);
    assert_eq!(
        store.load(),
        Some(&vec!["one".to_string(), "two".to_string()])
    );
}
