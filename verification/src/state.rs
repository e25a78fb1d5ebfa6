//! The data model of the chat client: agents, user profiles, settings,
//! conversation messages, saved history entries, and the events handed to
//! the display layer.
use vstd::prelude::*;

verus! {

broadcast use vstd::seq::Seq::lemma_push_map_commute;

/// Who spoke a message.
#[derive(Clone, Copy, PartialEq, Eq, Structural)]
pub enum Role {
    System,
    User,
    Assistant,
}

/// One chat message. Immutable once created; an ordered sequence of them
/// forms the conversation.
pub struct Message {
    pub role: Role,
    pub content: String,
}

/// The mathematical value of a `Message`.
pub ghost struct MessageV {
    pub role: Role,
    pub content: Seq<char>,
}

impl View for Message {
    type V = MessageV;

    open spec fn view(&self) -> MessageV {
        MessageV { role: self.role, content: self.content@ }
    }
}

impl Clone for Message {
    fn clone(&self) -> (r: Self)
        ensures
            r@ == self@,
    {
        Message { role: self.role, content: self.content.clone() }
    }
}

impl Message {
    pub fn system(content: String) -> (r: Message)
        ensures
            r@ == (MessageV { role: Role::System, content: content@ }),
    {
        Message { role: Role::System, content }
    }

    pub fn user(content: String) -> (r: Message)
        ensures
            r@ == (MessageV { role: Role::User, content: content@ }),
    {
        Message { role: Role::User, content }
    }

    pub fn assistant(content: String) -> (r: Message)
        ensures
            r@ == (MessageV { role: Role::Assistant, content: content@ }),
    {
        Message { role: Role::Assistant, content }
    }
}

/// The values of a message list.
pub open spec fn messages_view(v: Seq<Message>) -> Seq<MessageV> {
    v.map_values(|m: Message| m@)
}

/// The values of an agent list.
pub open spec fn agents_view(v: Seq<Agent>) -> Seq<AgentV> {
    v.map_values(|a: Agent| a@)
}

/// The values of a profile list.
pub open spec fn profiles_view(v: Seq<Profile>) -> Seq<ProfileV> {
    v.map_values(|p: Profile| p@)
}

/// A persona the model answers as.
pub struct Agent {
    pub name: String,
    pub model: String,
    pub system_prompt: String,
    pub description: String,
}

/// The mathematical value of an `Agent`.
pub ghost struct AgentV {
    pub name: Seq<char>,
    pub model: Seq<char>,
    pub system_prompt: Seq<char>,
    pub description: Seq<char>,
}

impl View for Agent {
    type V = AgentV;

    open spec fn view(&self) -> AgentV {
        AgentV {
            name: self.name@,
            model: self.model@,
            system_prompt: self.system_prompt@,
            description: self.description@,
        }
    }
}

impl Clone for Agent {
    fn clone(&self) -> (r: Self)
        ensures
            r@ == self@,
    {
        Agent {
            name: self.name.clone(),
            model: self.model.clone(),
            system_prompt: self.system_prompt.clone(),
            description: self.description.clone(),
        }
    }
}

/// A user profile. Its `id` is assigned once at creation and never changes;
/// per-profile memory is keyed by it.
pub struct Profile {
    pub id: String,
    pub name: String,
    pub first_name: String,
    pub last_name: String,
    pub email: String,
    pub phone: String,
    pub location: String,
    pub bio: String,
    pub image_path: Option<String>,
}

/// The mathematical value of a `Profile`.
pub ghost struct ProfileV {
    pub id: Seq<char>,
    pub name: Seq<char>,
    pub first_name: Seq<char>,
    pub last_name: Seq<char>,
    pub email: Seq<char>,
    pub phone: Seq<char>,
    pub location: Seq<char>,
    pub bio: Seq<char>,
    pub image_path: Option<Seq<char>>,
}

impl View for Profile {
    type V = ProfileV;

    open spec fn view(&self) -> ProfileV {
        ProfileV {
            id: self.id@,
            name: self.name@,
            first_name: self.first_name@,
            last_name: self.last_name@,
            email: self.email@,
            phone: self.phone@,
            location: self.location@,
            bio: self.bio@,
            image_path: match self.image_path {
                Some(ref p) => Some(p@),
                None => None,
            },
        }
    }
}

impl Clone for Profile {
    fn clone(&self) -> (r: Self)
        ensures
            r@ == self@,
    {
        Profile {
            id: self.id.clone(),
            name: self.name.clone(),
            first_name: self.first_name.clone(),
            last_name: self.last_name.clone(),
            email: self.email.clone(),
            phone: self.phone.clone(),
            location: self.location.clone(),
            bio: self.bio.clone(),
            image_path: match &self.image_path {
                Some(p) => Some(p.clone()),
                None => None,
            },
        }
    }
}

/// The persisted application settings.
pub struct Settings {
    pub ollama_endpoint: String,
    pub agents: Vec<Agent>,
    pub profiles: Vec<Profile>,
    pub active_profile: Option<String>,
}

/// The mathematical value of `Settings`.
pub ghost struct SettingsV {
    pub ollama_endpoint: Seq<char>,
    pub agents: Seq<AgentV>,
    pub profiles: Seq<ProfileV>,
    pub active_profile: Option<Seq<char>>,
}

impl View for Settings {
    type V = SettingsV;

    open spec fn view(&self) -> SettingsV {
        SettingsV {
            ollama_endpoint: self.ollama_endpoint@,
            agents: agents_view(self.agents@),
            profiles: profiles_view(self.profiles@),
            active_profile: match self.active_profile {
                Some(ref n) => Some(n@),
                None => None,
            },
        }
    }
}

impl Clone for Settings {
    fn clone(&self) -> (r: Self)
        ensures
            r@ == self@,
    {
        let mut agents: Vec<Agent> = Vec::new();
        let mut i: usize = 0;
        while i < self.agents.len()
            invariant
                0 <= i <= self.agents@.len(),
                agents_view(agents@) == agents_view(self.agents@.take(i as int)),
            decreases self.agents@.len() - i,
        {
            agents.push(self.agents[i].clone());
            proof {
                assert(self.agents@.take(i + 1 as int) =~= self.agents@.take(i as int).push(
                    self.agents@[i as int],
                ));
            }
            i = i + 1;
        }
        let mut profiles: Vec<Profile> = Vec::new();
        let mut j: usize = 0;
        while j < self.profiles.len()
            invariant
                0 <= j <= self.profiles@.len(),
                profiles_view(profiles@) == profiles_view(self.profiles@.take(j as int)),
            decreases self.profiles@.len() - j,
        {
            profiles.push(self.profiles[j].clone());
            proof {
                assert(self.profiles@.take(j + 1 as int) =~= self.profiles@.take(j as int).push(
                    self.profiles@[j as int],
                ));
            }
            j = j + 1;
        }
        proof {
            assert(self.agents@.take(self.agents@.len() as int) =~= self.agents@);
            assert(self.profiles@.take(self.profiles@.len() as int) =~= self.profiles@);
        }
        Settings {
            ollama_endpoint: self.ollama_endpoint.clone(),
            agents,
            profiles,
            active_profile: match &self.active_profile {
                Some(n) => Some(n.clone()),
                None => None,
            },
        }
    }
}

impl Default for Settings {
    /// The settings a fresh installation starts from: the local default
    /// endpoint and one standard assistant agent, no profiles, none active.
    fn default() -> (r: Settings)
        ensures
            r@.ollama_endpoint == "http://localhost:11434"@,
            r@.agents.len() == 1,
            r@.agents[0].name == "Default Assistant"@,
            r@.agents[0].model == "llama3"@,
            r@.agents[0].system_prompt == "You are a helpful assistant."@,
            r@.agents[0].description == "Standard personal assistant"@,
            r@.profiles.len() == 0,
            r@.active_profile is None,
    {
        let mut agents: Vec<Agent> = Vec::new();
        agents.push(
            Agent {
                name: "Default Assistant".to_owned(),
                model: "llama3".to_owned(),
                system_prompt: "You are a helpful assistant.".to_owned(),
                description: "Standard personal assistant".to_owned(),
            },
        );
        Settings {
            ollama_endpoint: "http://localhost:11434".to_owned(),
            agents,
            profiles: Vec::new(),
            active_profile: None,
        }
    }
}

/// One saved conversation: a stable id, a title (rewritten later by the
/// title job), and the full message snapshot.
pub struct ChatHistory {
    pub id: String,
    pub title: String,
    pub messages: Vec<Message>,
}

/// The mathematical value of a `ChatHistory` entry.
pub ghost struct ChatHistoryV {
    pub id: Seq<char>,
    pub title: Seq<char>,
    pub messages: Seq<MessageV>,
}

impl View for ChatHistory {
    type V = ChatHistoryV;

    open spec fn view(&self) -> ChatHistoryV {
        ChatHistoryV { id: self.id@, title: self.title@, messages: messages_view(self.messages@) }
    }
}

impl Clone for ChatHistory {
    fn clone(&self) -> (r: Self)
        ensures
            r@ == self@,
    {
        let mut messages: Vec<Message> = Vec::new();
        let mut i: usize = 0;
        while i < self.messages.len()
            invariant
                0 <= i <= self.messages@.len(),
                messages_view(messages@) == messages_view(self.messages@.take(i as int)),
            decreases self.messages@.len() - i,
        {
            messages.push(self.messages[i].clone());
            proof {
                assert(self.messages@.take(i + 1 as int) =~= self.messages@.take(i as int).push(
                    self.messages@[i as int],
                ));
            }
            i = i + 1;
        }
        proof {
            assert(self.messages@.take(self.messages@.len() as int) =~= self.messages@);
        }
        ChatHistory { id: self.id.clone(), title: self.title.clone(), messages }
    }
}

/// The values of a history list.
pub open spec fn history_view(v: Seq<ChatHistory>) -> Seq<ChatHistoryV> {
    v.map_values(|h: ChatHistory| h@)
}

/// An event handed to the display layer through the turn's ordered channel.
pub enum ChatEvent {
    Chunk(String),
    Done(String),
    Error(String),
    RefreshHistory,
}

/// The mathematical value of a `ChatEvent`.
pub ghost enum ChatEventV {
    Chunk(Seq<char>),
    Done(Seq<char>),
    Error(Seq<char>),
    RefreshHistory,
}

impl View for ChatEvent {
    type V = ChatEventV;

    open spec fn view(&self) -> ChatEventV {
        match self {
            ChatEvent::Chunk(s) => ChatEventV::Chunk(s@),
            ChatEvent::Done(s) => ChatEventV::Done(s@),
            ChatEvent::Error(s) => ChatEventV::Error(s@),
            ChatEvent::RefreshHistory => ChatEventV::RefreshHistory,
        }
    }
}

/// Duplicates a message list.
pub fn clone_messages(v: &Vec<Message>) -> (r: Vec<Message>)
    ensures
        messages_view(r@) == messages_view(v@),
{
    let mut r: Vec<Message> = Vec::new();
    let mut i: usize = 0;
    while i < v.len()
        invariant
            0 <= i <= v@.len(),
            messages_view(r@) == messages_view(v@.take(i as int)),
        decreases v@.len() - i,
    {
        r.push(v[i].clone());
        proof {
            assert(v@.take(i + 1 as int) =~= v@.take(i as int).push(v@[i as int]));
        }
        i = i + 1;
    }
    proof {
        assert(v@.take(v@.len() as int) =~= v@);
    }
    r
}

} // verus!
