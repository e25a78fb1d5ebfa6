//! The streaming chat orchestrator: a state machine over the session state.
//!
//! One request may be in flight at a time. `step` takes the session from
//! phase to phase: a send composes the outgoing conversation (synthesizing
//! the system message on the first turn), chunks accumulate in order while
//! streaming, the end of a stream appends the assistant reply, snapshots the
//! conversation into a new history entry and schedules the background jobs,
//! and a cancellation returns to `Idle` without appending a reply or writing
//! an entry. `step` performs no I/O itself: every outward effect is handed
//! back as an [`Action`] for the caller to carry out.
use vstd::prelude::*;

use crate::state::{
    agents_view, history_view, messages_view, profiles_view, Agent, AgentV, ChatEvent, ChatEventV,
    ChatHistory, ChatHistoryV, Message, MessageV, Profile, ProfileV, Role, Settings, SettingsV,
    clone_messages,
};
use crate::text::{is_blank, str_to_chars, take_at_most, take_prefix, chars_to_string, trim_spec};

verus! {

broadcast use vstd::seq::Seq::lemma_push_map_commute;

/// Where the session stands in the request lifecycle.
#[derive(Clone, Copy, PartialEq, Eq, Structural, Debug)]
pub enum Phase {
    /// No request in flight; sends are accepted.
    Idle,
    /// A request is composed; the stream is not open yet.
    Sending,
    /// Chunks are arriving.
    Streaming,
    /// The stream is closed; the history write is in flight.
    Completing,
}

/// The in-memory session: settings, the conversation, the saved history,
/// and the streaming bookkeeping of the current turn.
pub struct AppState {
    pub settings: Settings,
    pub current_agent_idx: usize,
    pub messages: Vec<Message>,
    pub history: Vec<ChatHistory>,
    pub phase: Phase,
    pub acc: String,
    pub pending_user: String,
}

/// The mathematical value of the session.
pub ghost struct AppStateV {
    pub settings: SettingsV,
    pub current_agent_idx: int,
    pub messages: Seq<MessageV>,
    pub history: Seq<ChatHistoryV>,
    pub phase: Phase,
    pub acc: Seq<char>,
    pub pending_user: Seq<char>,
}

impl View for AppState {
    type V = AppStateV;

    open spec fn view(&self) -> AppStateV {
        AppStateV {
            settings: self.settings@,
            current_agent_idx: self.current_agent_idx as int,
            messages: messages_view(self.messages@),
            history: history_view(self.history@),
            phase: self.phase,
            acc: self.acc@,
            pending_user: self.pending_user@,
        }
    }
}

/// What can happen to the session: an inbound call or the outcome of
/// outside work.
pub enum EngineEvent {
    /// The user asked to send this text; the second field carries the active
    /// profile's current memory blob, read at this moment, if there is one.
    SendRequested(String, Option<String>),
    /// The stream opened.
    StreamOpened,
    /// The stream could not be opened; the field carries the cause.
    StreamOpenFailed(String),
    /// One chunk arrived.
    ChunkReceived(String),
    /// The stream ended; the field carries a fresh id for the new history
    /// entry.
    StreamEnded(String),
    /// The user asked to cancel the in-flight request.
    CancelRequested,
    /// The history write finished; `false` means it failed (the caller
    /// reports the failure; the session returns to `Idle` either way).
    PersistDone(bool),
}

/// The mathematical value of an `EngineEvent`.
pub ghost enum EngineEventV {
    SendRequested(Seq<char>, Option<Seq<char>>),
    StreamOpened,
    StreamOpenFailed(Seq<char>),
    ChunkReceived(Seq<char>),
    StreamEnded(Seq<char>),
    CancelRequested,
    PersistDone(bool),
}

impl View for EngineEvent {
    type V = EngineEventV;

    open spec fn view(&self) -> EngineEventV {
        match self {
            EngineEvent::SendRequested(t, m) => EngineEventV::SendRequested(
                t@,
                match m {
                    Some(b) => Some(b@),
                    None => None,
                },
            ),
            EngineEvent::StreamOpened => EngineEventV::StreamOpened,
            EngineEvent::StreamOpenFailed(e) => EngineEventV::StreamOpenFailed(e@),
            EngineEvent::ChunkReceived(c) => EngineEventV::ChunkReceived(c@),
            EngineEvent::StreamEnded(id) => EngineEventV::StreamEnded(id@),
            EngineEvent::CancelRequested => EngineEventV::CancelRequested,
            EngineEvent::PersistDone(ok) => EngineEventV::PersistDone(*ok),
        }
    }
}

/// An outward effect the caller must carry out after a step.
pub enum Action {
    /// Open the model stream for the current conversation; the field is the
    /// model id.
    OpenStream(String),
    /// Abort the in-flight request task.
    AbortRequest,
    /// Hand an event to the display layer.
    Emit(ChatEvent),
    /// Write the history store.
    PersistHistory,
    /// Start the title job: entry id, model id, the user's text.
    SpawnTitleJob(String, String, String),
    /// Start the memory job: profile id, model id.
    SpawnMemoryJob(String, String),
}

/// The mathematical value of an `Action`.
pub ghost enum ActionV {
    OpenStream(Seq<char>),
    AbortRequest,
    Emit(ChatEventV),
    PersistHistory,
    SpawnTitleJob(Seq<char>, Seq<char>, Seq<char>),
    SpawnMemoryJob(Seq<char>, Seq<char>),
}

impl View for Action {
    type V = ActionV;

    open spec fn view(&self) -> ActionV {
        match self {
            Action::OpenStream(m) => ActionV::OpenStream(m@),
            Action::AbortRequest => ActionV::AbortRequest,
            Action::Emit(e) => ActionV::Emit(e@),
            Action::PersistHistory => ActionV::PersistHistory,
            Action::SpawnTitleJob(id, model, text) => ActionV::SpawnTitleJob(id@, model@, text@),
            Action::SpawnMemoryJob(id, model) => ActionV::SpawnMemoryJob(id@, model@),
        }
    }
}

/// The values of an action list.
pub open spec fn actions_view(v: Seq<Action>) -> Seq<ActionV> {
    v.map_values(|a: Action| a@)
}

/// The first profile of the given name, as the settings list orders them.
pub open spec fn find_profile(profiles: Seq<ProfileV>, name: Seq<char>) -> Option<ProfileV>
    decreases profiles.len(),
{
    if profiles.len() == 0 {
        None
    } else if profiles[0].name == name {
        Some(profiles[0])
    } else {
        find_profile(profiles.drop_first(), name)
    }
}

/// The profile the active reference points to, if any.
pub open spec fn active_profile_of(s: SettingsV) -> Option<ProfileV> {
    match s.active_profile {
        Some(name) => find_profile(s.profiles, name),
        None => None,
    }
}

/// The agent a request goes to: the selected one, or the first when the
/// selection dangles, or none when no agent exists.
pub open spec fn agent_for(s: SettingsV, idx: int) -> Option<AgentV> {
    if 0 <= idx < s.agents.len() {
        Some(s.agents[idx])
    } else if s.agents.len() > 0 {
        Some(s.agents[0])
    } else {
        None
    }
}

/// The profile block appended to the system prompt when a profile is active.
pub open spec fn profile_section(p: ProfileV) -> Seq<char> {
    "\n\n---\nUser Profile:\n"@ + (if p.first_name.len() > 0 || p.last_name.len() > 0 {
        "Name: "@ + p.first_name + " "@ + p.last_name + "\n"@
    } else {
        Seq::empty()
    }) + (if p.location.len() > 0 {
        "Location: "@ + p.location + "\n"@
    } else {
        Seq::empty()
    }) + (if p.bio.len() > 0 {
        "Bio: "@ + p.bio + "\n"@
    } else {
        Seq::empty()
    })
}

/// The memory block appended after the profile block, when the stored blob
/// exists and is not all blanks.
pub open spec fn memory_section(memory: Option<Seq<char>>) -> Seq<char> {
    match memory {
        Some(m) => if trim_spec(m).len() > 0 {
            "\nLong-term Memory of User:\n"@ + m
        } else {
            Seq::empty()
        },
        None => Seq::empty(),
    }
}

/// The system message synthesized once per session: the agent's prompt, the
/// active profile's card if any, and its persisted memory if any.
pub open spec fn system_prompt_spec(
    agent: AgentV,
    profile: Option<ProfileV>,
    memory: Option<Seq<char>>,
) -> Seq<char> {
    match profile {
        Some(p) => agent.system_prompt + profile_section(p) + memory_section(memory),
        None => agent.system_prompt,
    }
}

/// The error reported when a send finds no agent at all.
pub open spec fn no_agent_error() -> Seq<char> {
    "No agent is configured"@
}

/// A conversation holds the system message only at its head.
pub open spec fn wf_messages(ms: Seq<MessageV>) -> bool {
    forall|i: int| 1 <= i < ms.len() ==> (#[trigger] ms[i].role) != Role::System
}

/// Session well-formedness: the conversation and every saved snapshot keep
/// the system message at the head only.
pub open spec fn wf_state(s: AppStateV) -> bool {
    &&& wf_messages(s.messages)
    &&& forall|j: int| 0 <= j < s.history.len() ==> wf_messages(#[trigger] s.history[j].messages)
}

/// `SendRequested`: rejected while a request is in flight or when the text
/// trims to nothing; otherwise the system message is synthesized if the
/// conversation is empty, the user message is appended, and the stream is
/// asked to open.
pub open spec fn spec_send(s: AppStateV, text: Seq<char>, memory: Option<Seq<char>>) -> (
    AppStateV,
    Seq<ActionV>,
) {
    if s.phase != Phase::Idle {
        (s, Seq::empty())
    } else if trim_spec(text).len() == 0 {
        (s, Seq::empty())
    } else {
        match agent_for(s.settings, s.current_agent_idx) {
            None => (s, seq![ActionV::Emit(ChatEventV::Error(no_agent_error()))]),
            Some(agent) => {
                let base = if s.messages.len() == 0 {
                    seq![
                        MessageV {
                            role: Role::System,
                            content: system_prompt_spec(
                                agent,
                                active_profile_of(s.settings),
                                memory,
                            ),
                        },
                    ]
                } else {
                    s.messages
                };
                (
                    AppStateV {
                        messages: base.push(MessageV { role: Role::User, content: text }),
                        phase: Phase::Sending,
                        acc: Seq::empty(),
                        pending_user: text,
                        ..s
                    },
                    seq![ActionV::OpenStream(agent.model)],
                )
            },
        }
    }
}

/// `StreamEnded`: the accumulated reply becomes the assistant message, the
/// conversation is snapshotted into a new entry titled with the first
/// characters of the user's text, the write is requested, and the background
/// jobs are scheduled — the title job exactly on the first exchange, the
/// memory job exactly when a profile is active.
pub open spec fn spec_stream_ended(s: AppStateV, id: Seq<char>) -> (AppStateV, Seq<ActionV>) {
    if s.phase != Phase::Streaming {
        (s, Seq::empty())
    } else {
        let msgs = s.messages.push(MessageV { role: Role::Assistant, content: s.acc });
        let entry = ChatHistoryV { id: id, title: take_at_most(s.pending_user, 20), messages: msgs };
        let s2 = AppStateV {
            messages: msgs,
            history: s.history.push(entry),
            phase: Phase::Completing,
            ..s
        };
        let base = seq![ActionV::Emit(ChatEventV::Done(s.acc)), ActionV::PersistHistory];
        match agent_for(s.settings, s.current_agent_idx) {
            None => (s2, base),
            Some(agent) => {
                let with_title = if msgs.len() <= 3 {
                    base.push(ActionV::SpawnTitleJob(id, agent.model, s.pending_user))
                } else {
                    base
                };
                match active_profile_of(s.settings) {
                    Some(p) => (s2, with_title.push(ActionV::SpawnMemoryJob(p.id, agent.model))),
                    None => (s2, with_title),
                }
            },
        }
    }
}

/// What one event does to the session, and which effects it asks for.
pub open spec fn step_spec(s: AppStateV, e: EngineEventV) -> (AppStateV, Seq<ActionV>) {
    match e {
        EngineEventV::SendRequested(text, memory) => spec_send(s, text, memory),
        EngineEventV::StreamOpened => if s.phase == Phase::Sending {
            (AppStateV { phase: Phase::Streaming, ..s }, Seq::empty())
        } else {
            (s, Seq::empty())
        },
        EngineEventV::StreamOpenFailed(err) => if s.phase == Phase::Sending {
            (
                AppStateV { phase: Phase::Idle, ..s },
                seq![ActionV::Emit(ChatEventV::Error(err))],
            )
        } else {
            (s, Seq::empty())
        },
        EngineEventV::ChunkReceived(c) => if s.phase == Phase::Streaming {
            (AppStateV { acc: s.acc + c, ..s }, seq![ActionV::Emit(ChatEventV::Chunk(c))])
        } else {
            (s, Seq::empty())
        },
        EngineEventV::StreamEnded(id) => spec_stream_ended(s, id),
        EngineEventV::CancelRequested => if s.phase == Phase::Idle {
            (s, Seq::empty())
        } else {
            (AppStateV { phase: Phase::Idle, ..s }, seq![ActionV::AbortRequest])
        },
        EngineEventV::PersistDone(_ok) => if s.phase == Phase::Completing {
            (AppStateV { phase: Phase::Idle, ..s }, Seq::empty())
        } else {
            (s, Seq::empty())
        },
    }
}

proof fn lemma_find_profile_skip(profiles: Seq<ProfileV>, name: Seq<char>, i: int)
    requires
        0 <= i <= profiles.len(),
        forall|j: int| 0 <= j < i ==> (#[trigger] profiles[j].name) != name,
    ensures
        find_profile(profiles, name) == find_profile(profiles.skip(i), name),
    decreases i,
{
    if i > 0 {
        lemma_find_profile_skip(profiles.drop_first(), name, i - 1);
        assert(profiles.drop_first().skip(i - 1) =~= profiles.skip(i));
    } else {
        assert(profiles.skip(0) =~= profiles);
    }
}

impl AppState {
    /// A fresh session over the given settings: empty conversation and
    /// history, nothing in flight.
    pub fn new(settings: Settings) -> (r: AppState)
        ensures
            r@.settings == settings@,
            r@.current_agent_idx == 0,
            r@.messages == Seq::<MessageV>::empty(),
            r@.history == Seq::<ChatHistoryV>::empty(),
            r@.phase == Phase::Idle,
            r@.acc == Seq::<char>::empty(),
            r@.pending_user == Seq::<char>::empty(),
            wf_state(r@),
    {
        let r = AppState {
            settings,
            current_agent_idx: 0,
            messages: Vec::new(),
            history: Vec::new(),
            phase: Phase::Idle,
            acc: String::new(),
            pending_user: String::new(),
        };
        proof {
            assert(messages_view(r.messages@) =~= Seq::<MessageV>::empty());
            assert(history_view(r.history@) =~= Seq::<ChatHistoryV>::empty());
        }
        r
    }

    /// The active profile, as `active_profile_of` names it.
    pub fn find_active_profile(&self) -> (r: Option<Profile>)
        ensures
            match r {
                Some(p) => active_profile_of(self.settings@) == Some(p@),
                None => active_profile_of(self.settings@) is None,
            },
    {
        let name = match &self.settings.active_profile {
            Some(n) => n,
            None => {
                return None;
            },
        };
        let ghost pv = profiles_view(self.settings.profiles@);
        let mut i: usize = 0;
        while i < self.settings.profiles.len()
            invariant
                0 <= i <= self.settings.profiles@.len(),
                pv == profiles_view(self.settings.profiles@),
                pv.len() == self.settings.profiles@.len(),
                self.settings.active_profile == Some(*name),
                forall|j: int| 0 <= j < i ==> (#[trigger] pv[j].name) != name@,
            decreases self.settings.profiles@.len() - i,
        {
            if self.settings.profiles[i].name == *name {
                proof {
                    lemma_find_profile_skip(pv, name@, i as int);
                    assert(pv.skip(i as int)[0] == pv[i as int]);
                }
                return Some(self.settings.profiles[i].clone());
            }
            i = i + 1;
        }
        proof {
            lemma_find_profile_skip(pv, name@, pv.len() as int);
            assert(pv.skip(pv.len() as int) =~= Seq::<ProfileV>::empty());
        }
        None
    }

    /// The agent a request would go to, as `agent_for` names it.
    pub fn current_agent(&self) -> (r: Option<Agent>)
        ensures
            match r {
                Some(a) => agent_for(self.settings@, self.current_agent_idx as int) == Some(a@),
                None => agent_for(self.settings@, self.current_agent_idx as int) is None,
            },
    {
        if self.current_agent_idx < self.settings.agents.len() {
            Some(self.settings.agents[self.current_agent_idx].clone())
        } else if self.settings.agents.len() > 0 {
            Some(self.settings.agents[0].clone())
        } else {
            None
        }
    }

    /// Takes the session through one event and returns the effects the
    /// caller must carry out, as `step_spec` lays them down.
    pub fn step(&mut self, event: EngineEvent) -> (acts: Vec<Action>)
        ensures
            final(self)@ == step_spec(old(self)@, event@).0,
            actions_view(acts@) == step_spec(old(self)@, event@).1,
    {
        let ghost s0 = self@;
        let ghost ev = event@;
        let mut acts: Vec<Action> = Vec::new();
        proof {
            assert(actions_view(acts@) =~= Seq::<ActionV>::empty());
        }
        match event {
            EngineEvent::SendRequested(text, memory) => {
                if !matches!(self.phase, Phase::Idle) {
                    return acts;
                }
                if is_blank(text.as_str()) {
                    return acts;
                }
                let agent = match self.current_agent() {
                    Some(a) => a,
                    None => {
                        acts.push(Action::Emit(ChatEvent::Error(
                            "No agent is configured".to_owned(),
                        )));
                        proof {
                            assert(actions_view(acts@) =~= seq![
                                ActionV::Emit(ChatEventV::Error(no_agent_error())),
                            ]);
                        }
                        return acts;
                    },
                };
                if self.messages.len() == 0 {
                    let profile = self.find_active_profile();
                    let prompt = compose_system_prompt(&agent, &profile, &memory);
                    self.messages.push(Message::system(prompt));
                    proof {
                        assert(messages_view(self.messages@) =~= seq![
                            MessageV {
                                role: Role::System,
                                content: system_prompt_spec(
                                    agent@,
                                    active_profile_of(s0.settings),
                                    ev->SendRequested_1,
                                ),
                            },
                        ]);
                    }
                }
                self.pending_user = text.clone();
                self.messages.push(Message::user(text));
                self.acc = String::new();
                self.phase = Phase::Sending;
                acts.push(Action::OpenStream(agent.model));
                proof {
                    assert(actions_view(acts@) =~= seq![ActionV::OpenStream(agent@.model)]);
                    assert(self@ == spec_send(s0, ev->SendRequested_0, ev->SendRequested_1).0);
                }
            },
            EngineEvent::StreamOpened => {
                if matches!(self.phase, Phase::Sending) {
                    self.phase = Phase::Streaming;
                }
            },
            EngineEvent::StreamOpenFailed(err) => {
                if matches!(self.phase, Phase::Sending) {
                    self.phase = Phase::Idle;
                    acts.push(Action::Emit(ChatEvent::Error(err)));
                    proof {
                        assert(actions_view(acts@) =~= seq![
                            ActionV::Emit(ChatEventV::Error(ev->StreamOpenFailed_0)),
                        ]);
                    }
                }
            },
            EngineEvent::ChunkReceived(c) => {
                if matches!(self.phase, Phase::Streaming) {
                    self.acc.append(c.as_str());
                    acts.push(Action::Emit(ChatEvent::Chunk(c)));
                    proof {
                        assert(actions_view(acts@) =~= seq![
                            ActionV::Emit(ChatEventV::Chunk(ev->ChunkReceived_0)),
                        ]);
                    }
                }
            },
            EngineEvent::StreamEnded(id) => {
                if !matches!(self.phase, Phase::Streaming) {
                    return acts;
                }
                self.messages.push(Message::assistant(self.acc.clone()));
                let title_chars = take_prefix(&str_to_chars(self.pending_user.as_str()), 20);
                let entry = ChatHistory {
                    id: id.clone(),
                    title: chars_to_string(&title_chars),
                    messages: clone_messages(&self.messages),
                };
                proof {
                    assert(entry@ == (ChatHistoryV {
                        id: ev->StreamEnded_0,
                        title: take_at_most(s0.pending_user, 20),
                        messages: s0.messages.push(
                            MessageV { role: Role::Assistant, content: s0.acc },
                        ),
                    }));
                }
                self.history.push(entry);
                self.phase = Phase::Completing;
                acts.push(Action::Emit(ChatEvent::Done(self.acc.clone())));
                acts.push(Action::PersistHistory);
                proof {
                    assert(actions_view(acts@) =~= seq![
                        ActionV::Emit(ChatEventV::Done(s0.acc)),
                        ActionV::PersistHistory,
                    ]);
                }
                let agent = match self.current_agent() {
                    Some(a) => a,
                    None => {
                        return acts;
                    },
                };
                if self.messages.len() <= 3 {
                    acts.push(
                        Action::SpawnTitleJob(id, agent.model.clone(), self.pending_user.clone()),
                    );
                }
                if let Some(p) = self.find_active_profile() {
                    acts.push(Action::SpawnMemoryJob(p.id, agent.model));
                }
                proof {
                    assert(actions_view(acts@) =~= spec_stream_ended(s0, ev->StreamEnded_0).1);
                }
            },
            EngineEvent::CancelRequested => {
                if !matches!(self.phase, Phase::Idle) {
                    self.phase = Phase::Idle;
                    acts.push(Action::AbortRequest);
                    proof {
                        assert(actions_view(acts@) =~= seq![ActionV::AbortRequest]);
                    }
                }
            },
            EngineEvent::PersistDone(_ok) => {
                if matches!(self.phase, Phase::Completing) {
                    self.phase = Phase::Idle;
                }
            },
        }
        acts
    }
}

/// The history without any entry of the given id.
pub open spec fn without_entry(hs: Seq<ChatHistoryV>, id: Seq<char>) -> Seq<ChatHistoryV>
    decreases hs.len(),
{
    if hs.len() == 0 {
        Seq::empty()
    } else {
        let rest = without_entry(hs.drop_last(), id);
        if hs.last().id == id {
            rest
        } else {
            rest.push(hs.last())
        }
    }
}

/// The agent list without any agent of the given name.
pub open spec fn without_agent(agents: Seq<AgentV>, name: Seq<char>) -> Seq<AgentV>
    decreases agents.len(),
{
    if agents.len() == 0 {
        Seq::empty()
    } else {
        let rest = without_agent(agents.drop_last(), name);
        if agents.last().name == name {
            rest
        } else {
            rest.push(agents.last())
        }
    }
}

impl AppState {
    /// Selects the agent by index and starts the conversation over, as the
    /// agent dropdown does. Accepted only while idle.
    pub fn select_agent(&mut self, idx: usize) -> (r: bool)
        ensures
            r == (old(self)@.phase == Phase::Idle),
            r ==> final(self)@ == (AppStateV {
                current_agent_idx: idx as int,
                messages: Seq::empty(),
                ..old(self)@
            }),
            !r ==> final(self)@ == old(self)@,
    {
        if !matches!(self.phase, Phase::Idle) {
            return false;
        }
        self.current_agent_idx = idx;
        self.messages = Vec::new();
        proof {
            assert(messages_view(self.messages@) =~= Seq::<MessageV>::empty());
        }
        true
    }

    /// Clears the conversation for a new chat. Accepted only while idle.
    pub fn start_new_conversation(&mut self) -> (r: bool)
        ensures
            r == (old(self)@.phase == Phase::Idle),
            r ==> final(self)@ == (AppStateV { messages: Seq::empty(), ..old(self)@ }),
            !r ==> final(self)@ == old(self)@,
    {
        if !matches!(self.phase, Phase::Idle) {
            return false;
        }
        self.messages = Vec::new();
        proof {
            assert(messages_view(self.messages@) =~= Seq::<MessageV>::empty());
        }
        true
    }

    /// Replaces the conversation wholesale with a saved entry's snapshot.
    /// Accepted only while idle; the entry itself stays as it is.
    pub fn load_history_entry(&mut self, id: &String) -> (r: bool)
        ensures
            r == (old(self)@.phase == Phase::Idle && crate::jobs::find_entry(
                old(self)@.history,
                id@,
            ) is Some),
            r ==> final(self)@ == (AppStateV {
                messages: old(self)@.history[crate::jobs::find_entry(old(self)@.history, id@)->0]
                    .messages,
                ..old(self)@
            }),
            !r ==> final(self)@ == old(self)@,
    {
        if !matches!(self.phase, Phase::Idle) {
            return false;
        }
        let ghost hs = history_view(self.history@);
        let mut j: usize = 0;
        while j < self.history.len()
            invariant
                0 <= j <= self.history@.len(),
                self == old(self),
                self.phase == Phase::Idle,
                hs == history_view(self.history@),
                hs.len() == self.history@.len(),
                forall|k: int| 0 <= k < j ==> (#[trigger] hs[k].id) != id@,
            decreases self.history@.len() - j,
        {
            if self.history[j].id == *id {
                proof {
                    crate::jobs::lemma_find_entry_at(hs, id@, j as int);
                }
                self.messages = clone_messages(&self.history[j].messages);
                return true;
            }
            j = j + 1;
        }
        proof {
            crate::jobs::lemma_find_entry_none(hs, id@);
        }
        false
    }

    /// Renames a saved entry, refusing an empty title, as the history
    /// context menu does.
    pub fn rename_history_entry(&mut self, id: &String, title: String) -> (changed: bool)
        ensures
            final(self)@ == (AppStateV {
                history: crate::jobs::retitled(old(self)@.history, id@, title@),
                ..old(self)@
            }),
            changed == (title@.len() > 0 && crate::jobs::find_entry(
                old(self)@.history,
                id@,
            ) is Some),
    {
        crate::jobs::rename_entry(&mut self.history, id, title)
    }

    /// Deletes every saved entry of the given id.
    pub fn delete_history_entry(&mut self, id: &String)
        ensures
            final(self)@ == (AppStateV {
                history: without_entry(old(self)@.history, id@),
                ..old(self)@
            }),
    {
        let ghost hs = history_view(self.history@);
        let mut kept: Vec<ChatHistory> = Vec::new();
        let mut j: usize = 0;
        proof {
            assert(history_view(kept@) =~= Seq::<ChatHistoryV>::empty());
            assert(hs.take(0) =~= Seq::<ChatHistoryV>::empty());
        }
        while j < self.history.len()
            invariant
                0 <= j <= self.history@.len(),
                self == old(self),
                hs == history_view(self.history@),
                hs.len() == self.history@.len(),
                history_view(kept@) == without_entry(hs.take(j as int), id@),
            decreases self.history@.len() - j,
        {
            proof {
                assert(hs.take(j + 1 as int).drop_last() =~= hs.take(j as int));
                assert(hs.take(j + 1 as int).last() == hs[j as int]);
            }
            if !(self.history[j].id == *id) {
                kept.push(self.history[j].clone());
            }
            j = j + 1;
        }
        proof {
            assert(hs.take(hs.len() as int) =~= hs);
        }
        self.history = kept;
    }

    /// Clears the whole saved history.
    pub fn clear_history(&mut self)
        ensures
            final(self)@ == (AppStateV { history: Seq::empty(), ..old(self)@ }),
    {
        self.history = Vec::new();
        proof {
            assert(history_view(self.history@) =~= Seq::<ChatHistoryV>::empty());
        }
    }

    /// Stores a newly typed endpoint address.
    pub fn set_endpoint(&mut self, endpoint: String)
        ensures
            final(self)@ == (AppStateV {
                settings: SettingsV { ollama_endpoint: endpoint@, ..old(self)@.settings },
                ..old(self)@
            }),
    {
        self.settings.ollama_endpoint = endpoint;
    }

    /// Appends a new agent.
    pub fn add_agent(&mut self, agent: Agent)
        ensures
            final(self)@ == (AppStateV {
                settings: SettingsV {
                    agents: old(self)@.settings.agents.push(agent@),
                    ..old(self)@.settings
                },
                ..old(self)@
            }),
    {
        self.settings.agents.push(agent);
    }

    /// Overwrites the agent at the given index, as the agent editor's save
    /// does.
    pub fn update_agent(&mut self, idx: usize, agent: Agent) -> (r: bool)
        ensures
            r == (idx < old(self)@.settings.agents.len()),
            r ==> final(self)@ == (AppStateV {
                settings: SettingsV {
                    agents: old(self)@.settings.agents.update(idx as int, agent@),
                    ..old(self)@.settings
                },
                ..old(self)@
            }),
            !r ==> final(self)@ == old(self)@,
    {
        if idx >= self.settings.agents.len() {
            return false;
        }
        let ghost before = self.settings.agents@;
        let ghost av = agent@;
        let _old_agent = self.settings.agents.remove(idx);
        self.settings.agents.insert(idx, agent);
        proof {
            assert(self.settings.agents@ =~= before.update(
                idx as int,
                self.settings.agents@[idx as int],
            ));
            assert(agents_view(self.settings.agents@) =~= agents_view(before).update(
                idx as int,
                av,
            ));
        }
        true
    }

    /// Deletes every agent of the given name, as the agent editor's delete
    /// does. The selection index is left alone: a dangling selection falls
    /// back to the first agent.
    pub fn delete_agent(&mut self, name: &String)
        ensures
            final(self)@ == (AppStateV {
                settings: SettingsV {
                    agents: without_agent(old(self)@.settings.agents, name@),
                    ..old(self)@.settings
                },
                ..old(self)@
            }),
    {
        let ghost av = agents_view(self.settings.agents@);
        let mut kept: Vec<Agent> = Vec::new();
        let mut j: usize = 0;
        proof {
            assert(agents_view(kept@) =~= Seq::<AgentV>::empty());
            assert(av.take(0) =~= Seq::<AgentV>::empty());
        }
        while j < self.settings.agents.len()
            invariant
                0 <= j <= self.settings.agents@.len(),
                self == old(self),
                av == agents_view(self.settings.agents@),
                av.len() == self.settings.agents@.len(),
                agents_view(kept@) == without_agent(av.take(j as int), name@),
            decreases self.settings.agents@.len() - j,
        {
            proof {
                assert(av.take(j + 1 as int).drop_last() =~= av.take(j as int));
                assert(av.take(j + 1 as int).last() == av[j as int]);
            }
            if !(self.settings.agents[j].name == *name) {
                kept.push(self.settings.agents[j].clone());
            }
            j = j + 1;
        }
        proof {
            assert(av.take(av.len() as int) =~= av);
        }
        self.settings.agents = kept;
    }

    /// Appends a new profile. Its id is assigned here, once; nothing renames
    /// it later.
    pub fn add_profile(&mut self, profile: Profile)
        ensures
            final(self)@ == (AppStateV {
                settings: SettingsV {
                    profiles: old(self)@.settings.profiles.push(profile@),
                    ..old(self)@.settings
                },
                ..old(self)@
            }),
    {
        self.settings.profiles.push(profile);
    }

    /// Overwrites the profile at the given index with the edited fields,
    /// keeping its immutable id.
    pub fn update_profile(&mut self, idx: usize, profile: Profile) -> (r: bool)
        ensures
            r == (idx < old(self)@.settings.profiles.len()),
            r ==> final(self)@ == (AppStateV {
                settings: SettingsV {
                    profiles: old(self)@.settings.profiles.update(
                        idx as int,
                        ProfileV {
                            id: old(self)@.settings.profiles[idx as int].id,
                            ..profile@
                        },
                    ),
                    ..old(self)@.settings
                },
                ..old(self)@
            }),
            !r ==> final(self)@ == old(self)@,
    {
        if idx >= self.settings.profiles.len() {
            return false;
        }
        let ghost before = self.settings.profiles@;
        let old_profile = self.settings.profiles.remove(idx);
        let new_profile = Profile {
            id: old_profile.id,
            name: profile.name,
            first_name: profile.first_name,
            last_name: profile.last_name,
            email: profile.email,
            phone: profile.phone,
            location: profile.location,
            bio: profile.bio,
            image_path: profile.image_path,
        };
        let ghost nv = new_profile@;
        self.settings.profiles.insert(idx, new_profile);
        proof {
            assert(self.settings.profiles@ =~= before.update(
                idx as int,
                self.settings.profiles@[idx as int],
            ));
            assert(profiles_view(self.settings.profiles@) =~= profiles_view(before).update(
                idx as int,
                nv,
            ));
        }
        true
    }

    /// Deletes the profile at the given index; when it was the active one,
    /// the active reference is cleared.
    pub fn delete_profile(&mut self, idx: usize) -> (r: bool)
        ensures
            r == (idx < old(self)@.settings.profiles.len()),
            r ==> final(self)@ == (AppStateV {
                settings: SettingsV {
                    profiles: old(self)@.settings.profiles.remove(idx as int),
                    active_profile: if old(self)@.settings.active_profile == Some(
                        old(self)@.settings.profiles[idx as int].name,
                    ) {
                        None
                    } else {
                        old(self)@.settings.active_profile
                    },
                    ..old(self)@.settings
                },
                ..old(self)@
            }),
            !r ==> final(self)@ == old(self)@,
    {
        if idx >= self.settings.profiles.len() {
            return false;
        }
        let ghost before = self.settings.profiles@;
        let removed = self.settings.profiles.remove(idx);
        proof {
            assert(profiles_view(self.settings.profiles@) =~= profiles_view(before).remove(
                idx as int,
            ));
        }
        let was_active = match &self.settings.active_profile {
            Some(n) => *n == removed.name,
            None => false,
        };
        if was_active {
            self.settings.active_profile = None;
        }
        true
    }

    /// Selects the active profile by name, or clears the selection.
    pub fn select_profile(&mut self, name: Option<String>)
        ensures
            final(self)@ == (AppStateV {
                settings: SettingsV {
                    active_profile: match name {
                        Some(n) => Some(n@),
                        None => None,
                    },
                    ..old(self)@.settings
                },
                ..old(self)@
            }),
    {
        self.settings.active_profile = name;
    }

    /// Makes the profile at the given index the active one, by name.
    pub fn activate_profile(&mut self, idx: usize) -> (r: bool)
        ensures
            r == (idx < old(self)@.settings.profiles.len()),
            r ==> final(self)@ == (AppStateV {
                settings: SettingsV {
                    active_profile: Some(old(self)@.settings.profiles[idx as int].name),
                    ..old(self)@.settings
                },
                ..old(self)@
            }),
            !r ==> final(self)@ == old(self)@,
    {
        if idx >= self.settings.profiles.len() {
            return false;
        }
        self.settings.active_profile = Some(self.settings.profiles[idx].name.clone());
        true
    }
}

/// Composes the system message per `system_prompt_spec`: the agent's prompt,
/// then the profile card and the memory block when a profile is given.
pub fn compose_system_prompt(
    agent: &Agent,
    profile: &Option<Profile>,
    memory: &Option<String>,
) -> (r: String)
    ensures
        r@ == system_prompt_spec(
            agent@,
            match profile {
                Some(p) => Some(p@),
                None => None,
            },
            match memory {
                Some(m) => Some(m@),
                None => None,
            },
        ),
{
    let mut out: Vec<char> = Vec::new();
    crate::text::push_str_chars(&mut out, agent.system_prompt.as_str());
    let p = match profile {
        Some(p) => p,
        None => {
            proof {
                assert(out@ =~= agent@.system_prompt);
            }
            return chars_to_string(&out);
        },
    };
    crate::text::push_str_chars(&mut out, "\n\n---\nUser Profile:\n");
    if !p.first_name.as_str().is_empty() || !p.last_name.as_str().is_empty() {
        crate::text::push_str_chars(&mut out, "Name: ");
        crate::text::push_str_chars(&mut out, p.first_name.as_str());
        crate::text::push_str_chars(&mut out, " ");
        crate::text::push_str_chars(&mut out, p.last_name.as_str());
        crate::text::push_str_chars(&mut out, "\n");
    }
    if !p.location.as_str().is_empty() {
        crate::text::push_str_chars(&mut out, "Location: ");
        crate::text::push_str_chars(&mut out, p.location.as_str());
        crate::text::push_str_chars(&mut out, "\n");
    }
    if !p.bio.as_str().is_empty() {
        crate::text::push_str_chars(&mut out, "Bio: ");
        crate::text::push_str_chars(&mut out, p.bio.as_str());
        crate::text::push_str_chars(&mut out, "\n");
    }
    proof {
        assert(out@ =~= agent@.system_prompt + profile_section(p@));
    }
    match memory {
        Some(m) => {
            if !is_blank(m.as_str()) {
                crate::text::push_str_chars(&mut out, "\nLong-term Memory of User:\n");
                crate::text::push_str_chars(&mut out, m.as_str());
            }
        },
        None => {},
    }
    proof {
        assert(out@ =~= agent@.system_prompt + profile_section(p@) + memory_section(
            match memory {
                Some(m) => Some(m@),
                None => None,
            },
        ));
    }
    chars_to_string(&out)
}

/// From `Idle`, a send whose text trims to nothing leaves the session
/// unchanged and emits nothing — in particular, no chunk event.
pub proof fn lemma_send_blank_is_noop(s: AppStateV, text: Seq<char>, memory: Option<Seq<char>>)
    requires
        s.phase == Phase::Idle,
        trim_spec(text).len() == 0,
    ensures
        step_spec(s, EngineEventV::SendRequested(text, memory)).0 == s,
        step_spec(s, EngineEventV::SendRequested(text, memory)).1 == Seq::<ActionV>::empty(),
{
}

/// A send while a request is in flight is rejected: the session and the
/// conversation stay as they are and nothing is emitted.
pub proof fn lemma_send_rejected_when_busy(s: AppStateV, text: Seq<char>, memory: Option<Seq<char>>)
    requires
        s.phase != Phase::Idle,
    ensures
        step_spec(s, EngineEventV::SendRequested(text, memory)).0 == s,
        step_spec(s, EngineEventV::SendRequested(text, memory)).1 == Seq::<ActionV>::empty(),
{
}

/// Cancellation while streaming always returns the session to `Idle`,
/// appends no assistant message, writes no history entry, and only asks for
/// the in-flight request to be aborted. The turn's partial text stays in the
/// accumulator for display but is nowhere persisted.
pub proof fn lemma_cancel_streaming(s: AppStateV)
    requires
        s.phase == Phase::Streaming,
    ensures
        step_spec(s, EngineEventV::CancelRequested).0.phase == Phase::Idle,
        step_spec(s, EngineEventV::CancelRequested).0.messages == s.messages,
        step_spec(s, EngineEventV::CancelRequested).0.history == s.history,
        step_spec(s, EngineEventV::CancelRequested).1 == seq![ActionV::AbortRequest],
{
}

/// After a cancellation, a chunk that was still in flight is discarded: it
/// changes nothing and reaches no display.
pub proof fn lemma_chunk_after_cancel_discarded(s: AppStateV, c: Seq<char>)
    requires
        s.phase != Phase::Streaming,
    ensures
        step_spec(s, EngineEventV::ChunkReceived(c)).0 == s,
        step_spec(s, EngineEventV::ChunkReceived(c)).1 == Seq::<ActionV>::empty(),
{
}

/// While streaming, chunks accumulate in arrival order: each one is appended
/// to the accumulator and emitted, nothing is reordered or dropped.
pub proof fn lemma_chunk_appends_in_order(s: AppStateV, c: Seq<char>)
    requires
        s.phase == Phase::Streaming,
    ensures
        step_spec(s, EngineEventV::ChunkReceived(c)).0 == (AppStateV { acc: s.acc + c, ..s }),
        step_spec(s, EngineEventV::ChunkReceived(c)).1 == seq![
            ActionV::Emit(ChatEventV::Chunk(c)),
        ],
{
}

/// On stream end, the title job is scheduled exactly when the conversation
/// after the assistant reply was appended holds at most three messages — the
/// first exchange — provided any agent exists to serve the job.
pub proof fn lemma_title_job_iff_first_exchange(s: AppStateV, id: Seq<char>)
    requires
        s.phase == Phase::Streaming,
        s.settings.agents.len() > 0,
    ensures
        ({
            let (s2, acts) = step_spec(s, EngineEventV::StreamEnded(id));
            (exists|k: int| 0 <= k < acts.len() && (#[trigger] acts[k]) is SpawnTitleJob) <==> (
            s2.messages.len() <= 3)
        }),
{
    let (s2, acts) = step_spec(s, EngineEventV::StreamEnded(id));
    let agent = agent_for(s.settings, s.current_agent_idx)->0;
    if s2.messages.len() <= 3 {
        assert(acts[2] is SpawnTitleJob);
        assert(0 <= 2 < acts.len() && acts[2] is SpawnTitleJob);
    } else {
        assert forall|k: int| 0 <= k < acts.len() implies !((#[trigger] acts[k]) is SpawnTitleJob) by {
            let base = seq![ActionV::Emit(ChatEventV::Done(s.acc)), ActionV::PersistHistory];
            match active_profile_of(s.settings) {
                Some(p) => {
                    assert(acts == base.push(ActionV::SpawnMemoryJob(p.id, agent.model)));
                },
                None => {
                    assert(acts == base);
                },
            }
        }
    }
}

/// On stream end, the memory job is scheduled exactly when a profile is
/// active, again provided any agent exists.
pub proof fn lemma_memory_job_iff_profile_active(s: AppStateV, id: Seq<char>)
    requires
        s.phase == Phase::Streaming,
        s.settings.agents.len() > 0,
    ensures
        ({
            let acts = step_spec(s, EngineEventV::StreamEnded(id)).1;
            (exists|k: int| 0 <= k < acts.len() && (#[trigger] acts[k]) is SpawnMemoryJob) <==> (
            active_profile_of(s.settings) is Some)
        }),
{
    let acts = step_spec(s, EngineEventV::StreamEnded(id)).1;
    if active_profile_of(s.settings) is Some {
        assert(acts.last() is SpawnMemoryJob);
        assert(0 <= acts.len() - 1 < acts.len() && acts[acts.len() - 1] is SpawnMemoryJob);
    } else {
        assert forall|k: int| 0 <= k < acts.len() implies !((#[trigger] acts[k]) is SpawnMemoryJob)
            by {
            let base = seq![ActionV::Emit(ChatEventV::Done(s.acc)), ActionV::PersistHistory];
            let agent = agent_for(s.settings, s.current_agent_idx)->0;
            if s.messages.len() + 1 <= 3 {
                assert(acts == base.push(ActionV::SpawnTitleJob(id, agent.model, s.pending_user)));
            } else {
                assert(acts == base);
            }
        }
    }
}

/// A sequence of chunks, joined in arrival order.
pub open spec fn concat_all(chunks: Seq<Seq<char>>) -> Seq<char>
    decreases chunks.len(),
{
    if chunks.len() == 0 {
        Seq::empty()
    } else {
        concat_all(chunks.drop_last()) + chunks.last()
    }
}

/// The session after a whole run of chunk events, one step each.
pub open spec fn steps_chunks(s: AppStateV, chunks: Seq<Seq<char>>) -> AppStateV
    decreases chunks.len(),
{
    if chunks.len() == 0 {
        s
    } else {
        step_spec(steps_chunks(s, chunks.drop_last()), EngineEventV::ChunkReceived(chunks.last())).0
    }
}

/// However many chunks a stream delivers, stepping through them one by one
/// accumulates exactly their concatenation in arrival order — nothing is
/// reordered or dropped — while the conversation, the history and the phase
/// stand still.
pub proof fn lemma_chunks_accumulate_in_order(s: AppStateV, chunks: Seq<Seq<char>>)
    requires
        s.phase == Phase::Streaming,
    ensures
        steps_chunks(s, chunks) == (AppStateV { acc: s.acc + concat_all(chunks), ..s }),
    decreases chunks.len(),
{
    if chunks.len() == 0 {
        assert(s.acc + concat_all(chunks) =~= s.acc);
    } else {
        lemma_chunks_accumulate_in_order(s, chunks.drop_last());
        assert((s.acc + concat_all(chunks.drop_last())) + chunks.last() =~= s.acc + (concat_all(
            chunks.drop_last(),
        ) + chunks.last()));
    }
}

/// Every step keeps the session well-formed: the system message stays at the
/// head of the conversation and is never duplicated, in the conversation and
/// in every saved snapshot alike.
pub proof fn lemma_step_preserves_wf(s: AppStateV, e: EngineEventV)
    requires
        wf_state(s),
    ensures
        wf_state(step_spec(s, e).0),
{
    let s2 = step_spec(s, e).0;
    match e {
        EngineEventV::SendRequested(text, memory) => {
            if s.phase == Phase::Idle && trim_spec(text).len() != 0 && agent_for(
                s.settings,
                s.current_agent_idx,
            ) is Some {
                assert(wf_messages(s2.messages));
            }
        },
        EngineEventV::StreamEnded(id) => {
            if s.phase == Phase::Streaming {
                let msgs = s.messages.push(MessageV { role: Role::Assistant, content: s.acc });
                assert(wf_messages(msgs));
                assert forall|j: int| 0 <= j < s2.history.len() implies wf_messages(
                    #[trigger] s2.history[j].messages,
                ) by {
                    if j < s.history.len() {
                        assert(wf_messages(s.history[j].messages));
                    }
                }
            }
        },
        _ => {},
    }
}

} // verus!
