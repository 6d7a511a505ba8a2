//! The chat's part in the panel: what is reported of agents goes to the registry, and the panel
//! follows.

use vstd::prelude::*;
use vstd::string::*;

use crate::actions::Action;
use crate::agent::{status_updated, takes_any_text};
use crate::clock::Instant;
use crate::panel::SubagentStatusCell;
use crate::protocol::{
    AgentMetadata, CollabAgentTool, CollabAgentToolCall, CollabAgentToolCallStatus, Addressee,
    ThreadItem,
};
use crate::registry::{restated, spawned, RegistryView, SubagentPanelRegistry};
use crate::status::{status_of, CollabAgentState, PanelAgentStatus, StatusView};
use crate::styled::MotionMode;
use crate::text::opt_text;
use crate::text_map::TextMap;
use crate::thread_id::ThreadId;

verus! {

/// A provider of models.
#[derive(Debug)]
pub struct ModelProvider {
    pub id: String,
    pub name: String,
}

/// What the chat reads of its surroundings.
#[derive(Debug)]
pub struct ChatContext {
    pub cwd: String,
    pub session_configured: bool,
    pub thread_id: Option<ThreadId>,
    pub model_provider_id: String,
    pub model_providers: Vec<ModelProvider>,
    pub animations: bool,
    pub progress_effects: bool,
    pub agent_turn_running: bool,
    pub answer_streaming: bool,
}

/// The chat.
#[derive(Debug)]
pub struct ChatWidget<P> {
    pub context: ChatContext,
    pub pending_collab_spawn_requests: TextMap<P>,
    pub subagent_panel_registry: SubagentPanelRegistry,
    pub subagent_panel: Option<SubagentStatusCell>,
}

/// Whether `after` is `before` with the panel rebuilt as `panel`.
pub open spec fn rebuilt(
    before: RegistryView,
    panel: Option<SubagentStatusCell>,
    after: RegistryView,
) -> bool {
    &&& panel is Some <==> before.visible().len() > 0
    &&& after == RegistryView { mounted: panel is Some, ..before }
    &&& panel matches Some(cell) ==> {
        &&& before.pictured(cell.state)
        &&& cell.motion_mode == match before.motion_mode {
            Some(mode) => mode,
            None => MotionMode::Reduced,
        }
        &&& cell.updates_mounted == before.mounted
    }
}

/// What is reported of `thread` in the states that a call brought.
pub open spec fn reported(
    states: Map<Seq<char>, CollabAgentState>,
    thread: Seq<char>,
    otherwise: StatusView,
) -> StatusView {
    if states.contains_key(thread) {
        status_of(states[thread])
    } else {
        otherwise
    }
}

/// What was last reported of `thread` by those of the receivers that name a thread and of which a
/// state came.
pub open spec fn last_report(
    receivers: Seq<Addressee>,
    states: Map<Seq<char>, CollabAgentState>,
    thread: Seq<char>,
) -> Option<CollabAgentState>
    decreases receivers.len(),
{
    if receivers.len() == 0 {
        None
    } else {
        let receiver = receivers.last();
        if receiver.thread_id is Some && receiver.thread_id->0@ == thread && states.contains_key(
            receiver.text@,
        ) {
            Some(states[receiver.text@])
        } else {
            last_report(receivers.drop_last(), states, thread)
        }
    }
}

/// Whether `after` is `before` with each tracked agent given the status that was last reported of
/// it, if any was.
pub open spec fn waited<T: Fn(&str, usize) -> String>(
    truncate_text: T,
    before: RegistryView,
    receivers: Seq<Addressee>,
    states: Map<Seq<char>, CollabAgentState>,
    now: Instant,
    after: RegistryView,
) -> bool {
    &&& after == RegistryView { agents: after.agents, ..before }
    &&& after.agents.dom() == before.agents.dom()
    &&& forall|t: Seq<char>| #[trigger]
        before.agents.contains_key(t) ==> match last_report(receivers, states, t) {
            Some(state) => status_updated(
                truncate_text,
                before.agents[t],
                status_of(state),
                now,
                after.agents[t],
            ),
            None => after.agents[t] == before.agents[t],
        }
}

/// Whether a call changes what is tracked: it has come to an end, and is a wait or is addressed to a
/// thread, and is no mere listing.
pub open spec fn concerns_panel(call: CollabAgentToolCall) -> bool {
    &&& call.status != CollabAgentToolCallStatus::InProgress
    &&& match call.tool {
        CollabAgentTool::ListAgents => false,
        CollabAgentTool::Wait => true,
        _ => call.addressee() is Some,
    }
}

/// Whether `after` is `before` with a finished call recorded.
pub open spec fn recorded<T: Fn(&str, usize) -> String>(
    truncate_text: T,
    before: RegistryView,
    call: CollabAgentToolCall,
    metadata: AgentMetadata,
    now: Instant,
    after: RegistryView,
) -> bool {
    let states = call.agents_states@;
    let thread = call.addressee()->0;
    match call.tool {
        CollabAgentTool::SpawnAgent => spawned(
            truncate_text,
            before,
            thread,
            opt_text(metadata.agent_nickname),
            opt_text(metadata.agent_role),
            match call.prompt {
                Some(prompt) => prompt@,
                None => Seq::empty(),
            },
            reported(states, thread, StatusView::PendingInit),
            now,
            after,
        ),
        CollabAgentTool::SendInput
        | CollabAgentTool::ResumeAgent
        | CollabAgentTool::SendMessage
        | CollabAgentTool::FollowupTask => restated(
            truncate_text,
            before,
            thread,
            reported(states, thread, StatusView::Errored("Agent interaction failed"@)),
            now,
            after,
        ),
        CollabAgentTool::Wait => waited(
            truncate_text,
            before,
            call.receivers@,
            states,
            now,
            after,
        ),
        CollabAgentTool::CloseAgent => after == before.closed(thread),
        CollabAgentTool::InterruptAgent => restated(
            truncate_text,
            before,
            thread,
            StatusView::Interrupted,
            now,
            after,
        ),
        CollabAgentTool::ListAgents => after == before,
    }
}

/// Whether recording a call leads from `before` to `after` and `panel`. A call that does not concern
/// the panel changes nothing.
pub open spec fn call_recorded<T: Fn(&str, usize) -> String>(
    truncate_text: T,
    before: RegistryView,
    panel_before: Option<SubagentStatusCell>,
    call: CollabAgentToolCall,
    metadata: AgentMetadata,
    now: Instant,
    after: RegistryView,
    panel: Option<SubagentStatusCell>,
) -> bool {
    let mid = RegistryView { mounted: before.mounted, ..after };
    if concerns_panel(call) {
        &&& recorded(truncate_text, before, call, metadata, now, mid)
        &&& rebuilt(mid, panel, after)
    } else {
        &&& after == before
        &&& panel == panel_before
    }
}

fn status_or(
    states: &TextMap<CollabAgentState>,
    thread_id: &ThreadId,
    otherwise: PanelAgentStatus,
) -> (status: PanelAgentStatus)
    ensures
        status@ == reported(states@, thread_id@, otherwise@),
{
    match states.get(thread_id.as_str()) {
        Some(state) => PanelAgentStatus::from_collab_state(state),
        None => otherwise,
    }
}

impl<P> ChatWidget<P> {
    /// Whether `self` is `before` but for the agents and the panel.
    pub open spec fn same_but_panel(self, before: ChatWidget<P>) -> bool {
        &&& self.context == before.context
        &&& self.pending_collab_spawn_requests == before.pending_collab_spawn_requests
    }

    /// Rebuilds the panel of what is tracked.
    pub fn refresh_subagent_panel(&mut self) -> (actions: Vec<Action<P>>)
        requires
            old(self).subagent_panel_registry@.wf(),
        ensures
            actions@ == seq![Action::<P>::RequestRedraw],
            rebuilt(
                old(self).subagent_panel_registry@,
                final(self).subagent_panel,
                final(self).subagent_panel_registry@,
            ),
            final(self).subagent_panel_registry@.wf(),
            final(self).same_but_panel(*old(self)),
    {
        self.subagent_panel = self.subagent_panel_registry.rebuild_panel();
        vec![Action::RequestRedraw]
    }

    fn record_wait<T: Fn(&str, usize) -> String>(
        &mut self,
        call: &CollabAgentToolCall,
        now: Instant,
        truncate_text: &T,
    )
        requires
            old(self).subagent_panel_registry@.wf(),
            takes_any_text(*truncate_text),
        ensures
            waited(
                *truncate_text,
                old(self).subagent_panel_registry@,
                call.receivers@,
                call.agents_states@,
                now,
                final(self).subagent_panel_registry@,
            ),
            final(self).subagent_panel_registry@.wf(),
            final(self).subagent_panel == old(self).subagent_panel,
            final(self).same_but_panel(*old(self)),
    {
        let ghost before = self.subagent_panel_registry@;
        let ghost states = call.agents_states@;
        let mut i: usize = 0;
        while i < call.receivers.len()
            invariant
                i <= call.receivers@.len(),
                takes_any_text(*truncate_text),
                states == call.agents_states@,
                before == old(self).subagent_panel_registry@,
                waited(
                    *truncate_text,
                    before,
                    call.receivers@.take(i as int),
                    states,
                    now,
                    self.subagent_panel_registry@,
                ),
                self.subagent_panel_registry@.wf(),
                self.subagent_panel == old(self).subagent_panel,
                self.same_but_panel(*old(self)),
            decreases call.receivers@.len() - i,
        {
            let ghost mid = self.subagent_panel_registry@;
            let receiver = &call.receivers[i];
            proof {
                assert(call.receivers@.take(i + 1).drop_last() =~= call.receivers@.take(i as int));
                assert(call.receivers@.take(i + 1).last() == *receiver);
            }
            if let Some(thread_id) = &receiver.thread_id {
                if let Some(state) = call.agents_states.get(receiver.text.as_str()) {
                    let status = PanelAgentStatus::from_collab_state(state);
                    self.subagent_panel_registry.update_status(
                        thread_id,
                        status,
                        now,
                        truncate_text,
                    );
                }
            }
            proof {
                let after = self.subagent_panel_registry@;
                assert(after.agents.dom() =~= before.agents.dom());
            }
            i += 1;
        }
        assert(call.receivers@.take(i as int) =~= call.receivers@);
    }

    /// Records a call by which agents are handled. What a call in progress brings cannot be relied
    /// on yet.
    pub fn update_subagent_panel_from_tool_call<T: Fn(&str, usize) -> String>(
        &mut self,
        item: &ThreadItem<P>,
        receiver_metadata: AgentMetadata,
        now: Instant,
        truncate_text: &T,
    ) -> (actions: Vec<Action<P>>)
        requires
            old(self).subagent_panel_registry@.wf(),
            takes_any_text(*truncate_text),
        ensures
            match *item {
                ThreadItem::CollabAgentToolCall(call) => {
                    &&& call_recorded(
                        *truncate_text,
                        old(self).subagent_panel_registry@,
                        old(self).subagent_panel,
                        call,
                        receiver_metadata,
                        now,
                        final(self).subagent_panel_registry@,
                        final(self).subagent_panel,
                    )
                    &&& actions@ == if concerns_panel(call) {
                        seq![Action::<P>::RequestRedraw]
                    } else {
                        Seq::empty()
                    }
                },
                _ => {
                    &&& *final(self) == *old(self)
                    &&& actions@ == Seq::<Action<P>>::empty()
                },
            },
            final(self).subagent_panel_registry@.wf(),
            final(self).same_but_panel(*old(self)),
    {
        let call = match item {
            ThreadItem::CollabAgentToolCall(call) => call,
            _ => return Vec::new(),
        };
        if matches!(call.status, CollabAgentToolCallStatus::InProgress) {
            return Vec::new();
        }
        match call.tool {
            CollabAgentTool::ListAgents => Vec::new(),
            CollabAgentTool::Wait => {
                self.record_wait(call, now, truncate_text);
                self.refresh_subagent_panel()
            },
            CollabAgentTool::SpawnAgent => match call.first_receiver() {
                Some(thread_id) => {
                    let status = status_or(
                        &call.agents_states,
                        thread_id,
                        PanelAgentStatus::PendingInit,
                    );
                    let prompt = match &call.prompt {
                        Some(prompt) => prompt.clone(),
                        None => String::new(),
                    };
                    self.subagent_panel_registry.on_spawn(
                        thread_id,
                        receiver_metadata.agent_nickname,
                        receiver_metadata.agent_role,
                        prompt.as_str(),
                        status,
                        now,
                        truncate_text,
                    );
                    self.refresh_subagent_panel()
                },
                None => Vec::new(),
            },
            CollabAgentTool::SendInput
            | CollabAgentTool::ResumeAgent
            | CollabAgentTool::SendMessage
            | CollabAgentTool::FollowupTask => match call.first_receiver() {
                Some(thread_id) => {
                    let failed = PanelAgentStatus::Errored("Agent interaction failed".to_owned());
                    let status = status_or(&call.agents_states, thread_id, failed);
                    self.subagent_panel_registry.update_status(
                        thread_id,
                        status,
                        now,
                        truncate_text,
                    );
                    self.refresh_subagent_panel()
                },
                None => Vec::new(),
            },
            CollabAgentTool::CloseAgent => match call.first_receiver() {
                Some(thread_id) => {
                    self.subagent_panel_registry.close(thread_id);
                    self.refresh_subagent_panel()
                },
                None => Vec::new(),
            },
            CollabAgentTool::InterruptAgent => match call.first_receiver() {
                Some(thread_id) => {
                    self.subagent_panel_registry.update_status(
                        thread_id,
                        PanelAgentStatus::Interrupted,
                        now,
                        truncate_text,
                    );
                    self.refresh_subagent_panel()
                },
                None => Vec::new(),
            },
        }
    }
}

} // verus!
