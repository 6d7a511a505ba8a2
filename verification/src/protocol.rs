//! What the host reports of a thread, as far as the chat reads it.
//!
//! `P` stands for whatever the host hands over and gets back unread.

use vstd::prelude::*;

use crate::status::CollabAgentState;
use crate::text_map::TextMap;
use crate::thread_id::ThreadId;

verus! {

/// The tools by which agents are handled.
#[derive(Clone, Copy, Debug, PartialEq, Eq, Structural)]
pub enum CollabAgentTool {
    SpawnAgent,
    SendInput,
    ResumeAgent,
    SendMessage,
    FollowupTask,
    Wait,
    CloseAgent,
    InterruptAgent,
    ListAgents,
}

/// How far a call of such a tool has come.
#[derive(Clone, Copy, Debug, PartialEq, Eq, Structural)]
pub enum CollabAgentToolCallStatus {
    InProgress,
    Completed,
    Failed,
}

/// What an agent reports of its own accord.
#[derive(Clone, Copy, Debug, PartialEq, Eq, Structural)]
pub enum SubAgentActivityKind {
    Started,
    Interacted,
    Interrupted,
    Completed,
}

/// How a patch fared.
#[derive(Clone, Copy, Debug, PartialEq, Eq, Structural)]
pub enum PatchApplyStatus {
    InProgress,
    Completed,
    Failed,
    Declined,
}

/// An agent that a call is addressed to: the text that names it, and the thread that the host reads
/// in that text, if it names one.
#[derive(Debug)]
pub struct Addressee {
    pub text: String,
    pub thread_id: Option<ThreadId>,
}

/// A call of a tool by which agents are handled.
#[derive(Debug)]
pub struct CollabAgentToolCall {
    pub id: String,
    pub tool: CollabAgentTool,
    pub status: CollabAgentToolCallStatus,
    pub receivers: Vec<Addressee>,
    pub prompt: Option<String>,
    pub agents_states: TextMap<CollabAgentState>,
}

/// An activity of an agent, and the thread that the host reads in the text that names it.
#[derive(Debug)]
pub struct SubAgentActivity {
    pub kind: SubAgentActivityKind,
    pub thread_id: Option<ThreadId>,
    pub agent_path: String,
}

/// A call of an outside tool, and whether the host takes it for the use of a computer.
#[derive(Debug)]
pub struct McpInvocation<P> {
    pub server: String,
    pub tool: String,
    pub arguments: Option<P>,
    pub computer_activity: bool,
}

/// An item of a thread.
#[derive(Debug)]
pub enum ThreadItem<P> {
    CommandExecution(P),
    FileChange { status: PatchApplyStatus, rest: P },
    McpToolCall {
        id: String,
        server: String,
        tool: String,
        arguments: P,
        computer_activity: bool,
        rest: P,
    },
    DynamicToolCall(P),
    CollabAgentToolCall(CollabAgentToolCall),
    SubAgentActivity(SubAgentActivity),
    Other(P),
}

/// What the host makes of a finished call of an outside tool.
#[derive(Debug)]
pub struct McpHistory<P> {
    pub id: String,
    pub invocation: McpInvocation<P>,
    pub duration: P,
    pub result: P,
}

/// What the host knows of an agent.
#[derive(Debug)]
pub struct AgentMetadata {
    pub agent_nickname: Option<String>,
    pub agent_role: Option<String>,
}

impl CollabAgentToolCall {
    /// The thread of the first receiver, if it has one that names a thread.
    pub open spec fn addressee(self) -> Option<Seq<char>> {
        if self.receivers@.len() > 0 {
            match self.receivers@[0].thread_id {
                Some(thread) => Some(thread@),
                None => None,
            }
        } else {
            None
        }
    }

    /// The thread of the first receiver, if it has one that names a thread.
    pub fn first_receiver(&self) -> (thread: Option<&ThreadId>)
        ensures
            match thread {
                Some(thread) => self.addressee() == Some(thread@) && self.receivers@.len() > 0
                    && self.receivers@[0].thread_id == Some(*thread),
                None => self.addressee() is None,
            },
    {
        if self.receivers.len() > 0 {
            self.receivers[0].thread_id.as_ref()
        } else {
            None
        }
    }
}

} // verus!
