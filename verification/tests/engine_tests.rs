use arch_llm::engine::{Action, AppState, EngineEvent, Phase};
use arch_llm::render::markdown_to_pango;
use arch_llm::state::{Agent, ChatEvent, Profile, Role, Settings};

fn one_agent_settings(system_prompt: &str) -> Settings {
    Settings {
        ollama_endpoint: "http://localhost:11434".to_string(),
        agents: vec![Agent {
            name: "Helper".to_string(),
            model: "llama3".to_string(),
            system_prompt: system_prompt.to_string(),
            description: "test agent".to_string(),
        }],
        profiles: vec![],
        active_profile: None,
    }
}

fn profile(id: &str, name: &str) -> Profile {
    Profile {
        id: id.to_string(),
        name: name.to_string(),
        first_name: String::new(),
        last_name: String::new(),
        email: String::new(),
        phone: String::new(),
        location: String::new(),
        bio: String::new(),
        image_path: None,
    }
}

#[test]
fn empty_send_is_rejected_without_events() {
    let mut s = AppState::new(one_agent_settings("You are helpful."));
    let acts = s.step(EngineEvent::SendRequested("".to_string(), None));
    assert!(acts.is_empty());
    assert_eq!(s.phase, Phase::Idle);
    assert!(s.messages.is_empty());

    let acts = s.step(EngineEvent::SendRequested("   \n ".to_string(), None));
    assert!(acts.is_empty());
    assert_eq!(s.phase, Phase::Idle);
    assert!(s.messages.is_empty());
}

#[test]
fn send_without_any_agent_reports_an_error() {
    let mut s = AppState::new(Settings {
        ollama_endpoint: "http://localhost:11434".to_string(),
        agents: vec![],
        profiles: vec![],
        active_profile: None,
    });
    let acts = s.step(EngineEvent::SendRequested("Hi".to_string(), None));
    assert_eq!(acts.len(), 1);
    match &acts[0] {
        Action::Emit(ChatEvent::Error(msg)) => assert_eq!(msg, "No agent is configured"),
        _ => panic!("expected an error event"),
    }
    assert_eq!(s.phase, Phase::Idle);
}

#[test]
fn full_first_exchange_scenario() {
    let mut s = AppState::new(one_agent_settings("You are helpful."));

    let acts = s.step(EngineEvent::SendRequested("Hi".to_string(), None));
    assert_eq!(s.phase, Phase::Sending);
    assert_eq!(s.messages.len(), 2);
    assert!(s.messages[0].role == Role::System);
    assert_eq!(s.messages[0].content, "You are helpful.");
    assert!(s.messages[1].role == Role::User);
    assert_eq!(s.messages[1].content, "Hi");
    assert_eq!(acts.len(), 1);
    match &acts[0] {
        Action::OpenStream(model) => assert_eq!(model, "llama3"),
        _ => panic!("expected the stream to be opened"),
    }

    let acts = s.step(EngineEvent::StreamOpened);
    assert!(acts.is_empty());
    assert_eq!(s.phase, Phase::Streaming);

    let acts = s.step(EngineEvent::ChunkReceived("Hel".to_string()));
    assert_eq!(acts.len(), 1);
    match &acts[0] {
        Action::Emit(ChatEvent::Chunk(c)) => assert_eq!(c, "Hel"),
        _ => panic!("expected a chunk event"),
    }
    let _ = s.step(EngineEvent::ChunkReceived("lo!".to_string()));
    assert_eq!(s.acc, "Hello!");
    assert_eq!(markdown_to_pango(&s.acc), "Hello!");

    let acts = s.step(EngineEvent::StreamEnded("id-1".to_string()));
    assert_eq!(s.phase, Phase::Completing);
    assert_eq!(s.messages.len(), 3);
    assert!(s.messages[2].role == Role::Assistant);
    assert_eq!(s.messages[2].content, "Hello!");
    assert_eq!(s.history.len(), 1);
    assert_eq!(s.history[0].id, "id-1");
    assert_eq!(s.history[0].title, "Hi");
    assert_eq!(s.history[0].messages.len(), 3);

    assert!(matches!(&acts[0], Action::Emit(ChatEvent::Done(t)) if t == "Hello!"));
    assert!(matches!(&acts[1], Action::PersistHistory));
    assert!(acts.iter().any(|a| matches!(
        a,
        Action::SpawnTitleJob(id, model, text)
            if id == "id-1" && model == "llama3" && text == "Hi"
    )));
    assert!(!acts.iter().any(|a| matches!(a, Action::SpawnMemoryJob(_, _))));

    let acts = s.step(EngineEvent::PersistDone(true));
    assert!(acts.is_empty());
    assert_eq!(s.phase, Phase::Idle);
}

#[test]
fn long_titles_truncate_to_twenty_characters() {
    let mut s = AppState::new(one_agent_settings("p"));
    let text = "abcdefghijklmnopqrstuvwxyz";
    let _ = s.step(EngineEvent::SendRequested(text.to_string(), None));
    let _ = s.step(EngineEvent::StreamOpened);
    let _ = s.step(EngineEvent::StreamEnded("id-t".to_string()));
    assert_eq!(s.history[0].title, "abcdefghijklmnopqrst");
}

#[test]
fn title_job_fires_only_on_first_exchange() {
    let mut s = AppState::new(one_agent_settings("p"));
    let _ = s.step(EngineEvent::SendRequested("one".to_string(), None));
    let _ = s.step(EngineEvent::StreamOpened);
    let _ = s.step(EngineEvent::ChunkReceived("r1".to_string()));
    let acts = s.step(EngineEvent::StreamEnded("id-1".to_string()));
    assert_eq!(s.messages.len(), 3);
    assert!(acts.iter().any(|a| matches!(a, Action::SpawnTitleJob(_, _, _))));
    let _ = s.step(EngineEvent::PersistDone(true));

    let _ = s.step(EngineEvent::SendRequested("two".to_string(), None));
    let _ = s.step(EngineEvent::StreamOpened);
    let _ = s.step(EngineEvent::ChunkReceived("r2".to_string()));
    let acts = s.step(EngineEvent::StreamEnded("id-2".to_string()));
    assert_eq!(s.messages.len(), 5);
    assert!(!acts.iter().any(|a| matches!(a, Action::SpawnTitleJob(_, _, _))));
}

#[test]
fn cancellation_discards_the_turn() {
    let mut s = AppState::new(one_agent_settings("p"));
    let _ = s.step(EngineEvent::SendRequested("question".to_string(), None));
    let _ = s.step(EngineEvent::StreamOpened);
    let _ = s.step(EngineEvent::ChunkReceived("Par".to_string()));

    let acts = s.step(EngineEvent::CancelRequested);
    assert_eq!(acts.len(), 1);
    assert!(matches!(&acts[0], Action::AbortRequest));
    assert_eq!(s.phase, Phase::Idle);
    assert_eq!(s.messages.len(), 2);
    assert!(s.messages[0].role == Role::System);
    assert!(s.messages[1].role == Role::User);
    assert!(s.history.is_empty());

    // A chunk still in flight after the cancellation is discarded.
    let acts = s.step(EngineEvent::ChunkReceived("late".to_string()));
    assert!(acts.is_empty());
    assert_eq!(s.acc, "Par");
}

#[test]
fn cancel_while_idle_is_a_noop() {
    let mut s = AppState::new(one_agent_settings("p"));
    let acts = s.step(EngineEvent::CancelRequested);
    assert!(acts.is_empty());
    assert_eq!(s.phase, Phase::Idle);
}

#[test]
fn sends_are_rejected_while_a_request_is_in_flight() {
    let mut s = AppState::new(one_agent_settings("p"));
    let _ = s.step(EngineEvent::SendRequested("first".to_string(), None));
    assert_eq!(s.phase, Phase::Sending);
    let acts = s.step(EngineEvent::SendRequested("second".to_string(), None));
    assert!(acts.is_empty());
    assert_eq!(s.messages.len(), 2);
}

#[test]
fn failed_stream_open_reports_and_keeps_user_message() {
    let mut s = AppState::new(one_agent_settings("p"));
    let _ = s.step(EngineEvent::SendRequested("Hi".to_string(), None));
    let acts = s.step(EngineEvent::StreamOpenFailed("connection refused".to_string()));
    assert_eq!(acts.len(), 1);
    match &acts[0] {
        Action::Emit(ChatEvent::Error(e)) => assert_eq!(e, "connection refused"),
        _ => panic!("expected an error event"),
    }
    assert_eq!(s.phase, Phase::Idle);
    assert_eq!(s.messages.len(), 2);
    assert!(s.history.is_empty());
}

#[test]
fn active_profile_schedules_memory_job_and_shapes_prompt() {
    let mut settings = one_agent_settings("You are helpful.");
    let mut p = profile("id-7", "Me");
    p.first_name = "Ada".to_string();
    p.location = "Berlin".to_string();
    settings.profiles = vec![p];
    settings.active_profile = Some("Me".to_string());

    let mut s = AppState::new(settings);
    let _ = s.step(EngineEvent::SendRequested(
        "Hi".to_string(),
        Some("- likes tea".to_string()),
    ));
    assert_eq!(
        s.messages[0].content,
        "You are helpful.\n\n---\nUser Profile:\nName: Ada \nLocation: Berlin\n\nLong-term Memory of User:\n- likes tea"
    );

    let _ = s.step(EngineEvent::StreamOpened);
    let _ = s.step(EngineEvent::ChunkReceived("Sure.".to_string()));
    let acts = s.step(EngineEvent::StreamEnded("id-9".to_string()));
    assert!(acts.iter().any(|a| matches!(
        a,
        Action::SpawnMemoryJob(id, model) if id == "id-7" && model == "llama3"
    )));
}

#[test]
fn blank_memory_blob_is_left_out_of_the_prompt() {
    let mut settings = one_agent_settings("Base.");
    settings.profiles = vec![profile("id-1", "Me")];
    settings.active_profile = Some("Me".to_string());
    let mut s = AppState::new(settings);
    let _ = s.step(EngineEvent::SendRequested("Hi".to_string(), Some("  \n".to_string())));
    assert_eq!(s.messages[0].content, "Base.\n\n---\nUser Profile:\n");
}

#[test]
fn select_agent_resets_conversation_when_idle() {
    let mut s = AppState::new(one_agent_settings("p"));
    let _ = s.step(EngineEvent::SendRequested("Hi".to_string(), None));
    assert!(!s.select_agent(0));
    let _ = s.step(EngineEvent::CancelRequested);
    assert!(s.select_agent(0));
    assert!(s.messages.is_empty());
}

#[test]
fn history_can_be_loaded_renamed_and_deleted() {
    let mut s = AppState::new(one_agent_settings("p"));
    let _ = s.step(EngineEvent::SendRequested("Hi".to_string(), None));
    let _ = s.step(EngineEvent::StreamOpened);
    let _ = s.step(EngineEvent::ChunkReceived("Hello!".to_string()));
    let _ = s.step(EngineEvent::StreamEnded("id-1".to_string()));
    let _ = s.step(EngineEvent::PersistDone(true));

    assert!(s.start_new_conversation());
    assert!(s.messages.is_empty());

    assert!(s.load_history_entry(&"id-1".to_string()));
    assert_eq!(s.messages.len(), 3);
    assert!(!s.load_history_entry(&"missing".to_string()));

    assert!(s.rename_history_entry(&"id-1".to_string(), "Renamed".to_string()));
    assert_eq!(s.history[0].title, "Renamed");
    assert!(!s.rename_history_entry(&"id-1".to_string(), "".to_string()));
    assert_eq!(s.history[0].title, "Renamed");

    s.delete_history_entry(&"id-1".to_string());
    assert!(s.history.is_empty());
}

#[test]
fn deleting_the_active_profile_clears_the_reference() {
    let mut settings = one_agent_settings("p");
    settings.profiles = vec![profile("id-a", "A"), profile("id-b", "B")];
    settings.active_profile = Some("A".to_string());
    let mut s = AppState::new(settings);

    assert!(s.delete_profile(1));
    assert_eq!(s.settings.active_profile, Some("A".to_string()));
    assert!(s.delete_profile(0));
    assert_eq!(s.settings.active_profile, None);
    assert!(!s.delete_profile(0));
}

#[test]
fn profile_updates_keep_the_id() {
    let mut settings = one_agent_settings("p");
    settings.profiles = vec![profile("id-a", "A")];
    let mut s = AppState::new(settings);
    let mut edited = profile("SHOULD-NOT-APPLY", "New Name");
    edited.bio = "writer".to_string();
    assert!(s.update_profile(0, edited));
    assert_eq!(s.settings.profiles[0].id, "id-a");
    assert_eq!(s.settings.profiles[0].name, "New Name");
    assert_eq!(s.settings.profiles[0].bio, "writer");

    assert!(s.activate_profile(0));
    assert_eq!(s.settings.active_profile, Some("New Name".to_string()));
}

#[test]
fn profiles_can_be_selected_by_name_or_cleared() {
    let mut settings = one_agent_settings("p");
    settings.profiles = vec![profile("id-a", "A")];
    let mut s = AppState::new(settings);
    s.select_profile(Some("A".to_string()));
    assert_eq!(s.settings.active_profile, Some("A".to_string()));
    assert_eq!(s.find_active_profile().map(|p| p.id), Some("id-a".to_string()));
    s.select_profile(None);
    assert_eq!(s.settings.active_profile, None);
    assert!(s.find_active_profile().is_none());
}

#[test]
fn agents_can_be_added_updated_and_deleted() {
    let mut s = AppState::new(one_agent_settings("p"));
    s.add_agent(Agent {
        name: "Second".to_string(),
        model: "m2".to_string(),
        system_prompt: "sp".to_string(),
        description: "d".to_string(),
    });
    assert_eq!(s.settings.agents.len(), 2);

    assert!(s.update_agent(1, Agent {
        name: "Second".to_string(),
        model: "m3".to_string(),
        system_prompt: "sp".to_string(),
        description: "d".to_string(),
    }));
    assert_eq!(s.settings.agents[1].model, "m3");

    s.delete_agent(&"Second".to_string());
    assert_eq!(s.settings.agents.len(), 1);
    assert_eq!(s.settings.agents[0].name, "Helper");
}

#[test]
fn default_settings_hold_one_standard_agent() {
    let d = Settings::default();
    assert_eq!(d.ollama_endpoint, "http://localhost:11434");
    assert_eq!(d.agents.len(), 1);
    assert_eq!(d.agents[0].name, "Default Assistant");
    assert_eq!(d.agents[0].model, "llama3");
    assert_eq!(d.agents[0].system_prompt, "You are a helpful assistant.");
    assert!(d.profiles.is_empty());
    assert!(d.active_profile.is_none());
}

#[test]
fn duplicate_history_ids_rename_first_delete_all() {
    let mut s = AppState::new(one_agent_settings("p"));
    s.history.push(arch_llm::state::ChatHistory {
        id: "dup".to_string(),
        title: "first".to_string(),
        messages: vec![],
    });
    s.history.push(arch_llm::state::ChatHistory {
        id: "dup".to_string(),
        title: "second".to_string(),
        messages: vec![],
    });
    assert!(s.rename_history_entry(&"dup".to_string(), "renamed".to_string()));
    assert_eq!(s.history[0].title, "renamed");
    assert_eq!(s.history[1].title, "second");
    s.delete_history_entry(&"dup".to_string());
    assert!(s.history.is_empty());
}
