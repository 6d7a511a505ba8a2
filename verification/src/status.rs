//! The status of an agent, as the host reports it and as the panel shows it.

use vstd::prelude::*;
use vstd::string::*;

use crate::text::opt_text;

verus! {

/// What the host reports of an agent.
#[derive(Clone, Copy, Debug, PartialEq, Eq, Structural)]
pub enum CollabAgentStatus {
    PendingInit,
    Running,
    Interrupted,
    Completed,
    Errored,
    Shutdown,
    NotFound,
}

/// What the host reports of an agent, with the message that came along.
#[derive(Debug, PartialEq, Eq)]
pub struct CollabAgentState {
    pub status: CollabAgentStatus,
    pub message: Option<String>,
}

/// The status of an agent in the panel.
#[derive(Debug, PartialEq, Eq)]
pub enum PanelAgentStatus {
    PendingInit,
    Running,
    Interrupted,
    Completed(Option<String>),
    Errored(String),
    Shutdown,
    NotFound,
}

/// The view of a `PanelAgentStatus`.
pub enum StatusView {
    PendingInit,
    Running,
    Interrupted,
    Completed(Option<Seq<char>>),
    Errored(Seq<char>),
    Shutdown,
    NotFound,
}

impl StatusView {
    /// Whether the agent is starting or at work.
    pub open spec fn is_running(self) -> bool {
        self is PendingInit || self is Running
    }
}

impl View for PanelAgentStatus {
    type V = StatusView;

    open spec fn view(&self) -> StatusView {
        match *self {
            PanelAgentStatus::PendingInit => StatusView::PendingInit,
            PanelAgentStatus::Running => StatusView::Running,
            PanelAgentStatus::Interrupted => StatusView::Interrupted,
            PanelAgentStatus::Completed(message) => StatusView::Completed(opt_text(message)),
            PanelAgentStatus::Errored(message) => StatusView::Errored(message@),
            PanelAgentStatus::Shutdown => StatusView::Shutdown,
            PanelAgentStatus::NotFound => StatusView::NotFound,
        }
    }
}

/// The panel status that a reported state stands for. An error without a message gets a stock one.
pub open spec fn status_of(state: CollabAgentState) -> StatusView {
    match state.status {
        CollabAgentStatus::PendingInit => StatusView::PendingInit,
        CollabAgentStatus::Running => StatusView::Running,
        CollabAgentStatus::Interrupted => StatusView::Interrupted,
        CollabAgentStatus::Completed => StatusView::Completed(opt_text(state.message)),
        CollabAgentStatus::Errored => StatusView::Errored(
            match state.message {
                Some(message) => message@,
                None => "Agent failed"@,
            },
        ),
        CollabAgentStatus::Shutdown => StatusView::Shutdown,
        CollabAgentStatus::NotFound => StatusView::NotFound,
    }
}

impl Clone for PanelAgentStatus {
    fn clone(&self) -> (copy: Self)
        ensures
            copy == *self,
    {
        match self {
            PanelAgentStatus::PendingInit => PanelAgentStatus::PendingInit,
            PanelAgentStatus::Running => PanelAgentStatus::Running,
            PanelAgentStatus::Interrupted => PanelAgentStatus::Interrupted,
            PanelAgentStatus::Completed(message) => PanelAgentStatus::Completed(message.clone()),
            PanelAgentStatus::Errored(message) => PanelAgentStatus::Errored(message.clone()),
            PanelAgentStatus::Shutdown => PanelAgentStatus::Shutdown,
            PanelAgentStatus::NotFound => PanelAgentStatus::NotFound,
        }
    }
}

impl PanelAgentStatus {
    /// The panel status that a reported state stands for.
    pub fn from_collab_state(state: &CollabAgentState) -> (status: Self)
        ensures
            status@ == status_of(*state),
    {
        match state.status {
            CollabAgentStatus::PendingInit => PanelAgentStatus::PendingInit,
            CollabAgentStatus::Running => PanelAgentStatus::Running,
            CollabAgentStatus::Interrupted => PanelAgentStatus::Interrupted,
            CollabAgentStatus::Completed => PanelAgentStatus::Completed(state.message.clone()),
            CollabAgentStatus::Errored => PanelAgentStatus::Errored(
                match &state.message {
                    Some(message) => message.clone(),
                    None => "Agent failed".to_owned(),
                },
            ),
            CollabAgentStatus::Shutdown => PanelAgentStatus::Shutdown,
            CollabAgentStatus::NotFound => PanelAgentStatus::NotFound,
        }
    }

    /// Whether the agent is starting or at work.
    pub fn is_running(&self) -> (running: bool)
        ensures
            running == self@.is_running(),
    {
        matches!(self, PanelAgentStatus::PendingInit | PanelAgentStatus::Running)
    }
}

} // verus!
