//! What the chat asks of its host.

use vstd::prelude::*;

use crate::protocol::{McpInvocation, ThreadItem};
use crate::styled::Line;
use crate::thread_id::ThreadId;

verus! {

/// The cell that is active in the transcript.
#[derive(Debug)]
pub enum ActiveCell {
    Absent,
    WebSearch { call_id: String },
    McpToolCall { call_id: String },
    ComputerActivity,
    Other,
}

/// A call of an outside tool as an active cell shows it.
#[derive(Debug)]
pub struct ActiveMcpCall<P> {
    pub id: String,
    pub invocation: McpInvocation<P>,
    pub animated: bool,
}

/// How a call of an outside tool ended.
#[derive(Debug)]
pub struct McpOutcome<P> {
    pub duration: P,
    pub result: P,
}

/// What happens to a cell of computer activity.
#[derive(Debug)]
pub enum ComputerUpdate<P> {
    Start(ActiveMcpCall<P>),
    Complete(ActiveMcpCall<P>, McpOutcome<P>),
}

/// A cell that becomes the active one.
#[derive(Debug)]
pub enum NewCell<P> {
    WebSearch { call_id: String, query: String, animated: bool },
    /// A call that has ended, where it has an outcome.
    McpToolCall(ActiveMcpCall<P>, Option<McpOutcome<P>>),
    /// A cell that has seen nothing but this.
    ComputerActivity(ComputerUpdate<P>),
}

/// A cell for the history.
#[derive(Debug)]
pub enum HistoryEntry<P> {
    PatchEvent { changes: P, cwd: String },
    ViewImage { path: String },
    ImageGeneration {
        call_id: String,
        status: String,
        revised_prompt: Option<String>,
        saved_path: Option<String>,
    },
    WebSearch { call_id: String, query: String, action: P },
    PatchApplyFailure { stderr: String },
    /// A cell that the host has made.
    Made(P),
}

/// The queue in which an item waits.
#[derive(Clone, Copy, Debug, PartialEq, Eq, Structural)]
pub enum InterruptQueue {
    ItemStarted,
    ItemCompleted,
}

/// The handler of an item that does not have to wait.
#[derive(Clone, Copy, Debug, PartialEq, Eq, Structural)]
pub enum ItemHandler {
    FileChangeCompleted,
    McpToolCallStarted,
    McpToolCallCompleted,
    SubAgentActivity,
}

/// An entry of a list that the user picks from, and the provider that picking it switches to.
#[derive(Debug)]
pub struct SelectionItem {
    pub name: String,
    pub description: Option<String>,
    pub is_current: bool,
    pub selects_provider: String,
    pub dismiss_on_select: bool,
}

/// A list that the user picks from.
#[derive(Debug)]
pub struct SelectionView {
    pub header: Vec<Line>,
    pub standard_footer_hint: bool,
    pub items: Vec<SelectionItem>,
}

/// A request to the host.
#[derive(Debug)]
#[verifier::reject_recursive_types(P)]
pub enum Action<P> {
    FlushAnswerStream,
    FlushActiveCell,
    AddToHistory(HistoryEntry<P>),
    SetActiveCell(NewCell<P>),
    BumpActiveCellRevision,
    RequestRedraw,
    EnsureStatusIndicator,
    /// The active cell, a web search, learns what was searched.
    UpdateWebSearch { action: P, query: String },
    /// The active cell, a web search, has ended.
    CompleteWebSearch,
    /// The active cell, a call of an outside tool, has ended.
    CompleteMcpToolCall(McpOutcome<P>),
    /// The active cell, one of computer activity, sees this.
    UpdateComputerActivity(ComputerUpdate<P>),
    /// The active cell, one of computer activity, gets this ahead of what it has seen.
    PrependComputerHistory(P),
    /// The item waits in the queue, or goes to the handler at once: the host decides.
    DeferOrHandle { item: ThreadItem<P>, queue: InterruptQueue, handler: ItemHandler },
    HandleCommandExecutionStarted(ThreadItem<P>),
    HandleCommandExecutionCompleted(ThreadItem<P>),
    HandleDynamicToolItem(ThreadItem<P>),
    AddInfoMessage { message: String, hint: Option<String> },
    ShowSelectionView(SelectionView),
    /// The features are fetched, and go into the channel.
    FetchExperimentalFeatures {
        thread_id: ThreadId,
        response_tx: tokio::sync::oneshot::Sender<P>,
    },
    /// The list of features is shown, empty, and fills with what comes out of the channel.
    ShowExperimentalFeatures {
        thread_id: ThreadId,
        response_rx: tokio::sync::oneshot::Receiver<P>,
    },
}

/// What is decided once the actions before it are done and the host has looked again.
#[derive(Debug)]
pub enum Pending<P> {
    /// Whether a task is running.
    ImageGenerationBegin,
    /// Which cell is active.
    WebSearchEnd { call_id: String, query: String, action: P },
    /// Which cell is active.
    ComputerActivity(ComputerUpdate<P>),
    /// What the host makes of the item, and which cell is active.
    McpToolCallCompleted(ThreadItem<P>),
    /// The history cell that the host makes of the item and the request.
    CollabAgentToolCall {
        item: ThreadItem<P>,
        cached_spawn_request: Option<P>,
        update_panel: bool,
    },
}

/// Actions, in order, and what is decided after them.
#[derive(Debug)]
#[verifier::reject_recursive_types(P)]
pub struct Plan<P> {
    pub actions: Vec<Action<P>>,
    pub pending: Option<Pending<P>>,
}

/// The view of a `Plan`.
#[verifier::ext_equal]
#[verifier::reject_recursive_types(P)]
pub struct PlanView<P> {
    pub actions: Seq<Action<P>>,
    pub pending: Option<Pending<P>>,
}

impl<P> View for Plan<P> {
    type V = PlanView<P>;

    open spec fn view(&self) -> PlanView<P> {
        PlanView { actions: self.actions@, pending: self.pending }
    }
}

/// A plan that decides nothing more.
pub open spec fn only<P>(actions: Seq<Action<P>>) -> PlanView<P> {
    PlanView { actions, pending: None }
}

/// The plan of doing nothing.
pub open spec fn nothing<P>() -> PlanView<P> {
    only(Seq::empty())
}

impl<P> Plan<P> {
    /// A plan that decides nothing more.
    pub fn of(actions: Vec<Action<P>>) -> (plan: Self)
        ensures
            plan@ == only(actions@),
    {
        Plan { actions, pending: None }
    }

    /// The plan of doing nothing.
    pub fn nothing() -> (plan: Self)
        ensures
            plan@ == nothing::<P>(),
    {
        let plan = Plan { actions: Vec::new(), pending: None };
        assert(plan@ =~= nothing::<P>());
        plan
    }
}

} // verus!
