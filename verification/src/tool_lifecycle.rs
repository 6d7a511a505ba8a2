//! What the chat does as tools start and end.

use vstd::prelude::*;
use vstd::string::*;

use crate::actions::{
    nothing, only, Action, ActiveCell, ActiveMcpCall, ComputerUpdate, HistoryEntry, InterruptQueue,
    ItemHandler, McpOutcome, NewCell, Pending, Plan, PlanView,
};
use crate::agent::takes_any_text;
use crate::chat_widget::{call_recorded, concerns_panel, rebuilt, ChatContext, ChatWidget};
use crate::clock::Instant;
use crate::panel::SubagentStatusCell;
use crate::protocol::{
    AgentMetadata, CollabAgentTool, CollabAgentToolCallStatus, McpHistory, McpInvocation,
    PatchApplyStatus, SubAgentActivity, SubAgentActivityKind, ThreadItem,
};
use crate::registry::{active, restated, RegistryView};
use crate::status::{PanelAgentStatus, StatusView};
use crate::styled::joined;
use crate::text::{opt_text, same_text};

verus! {

impl ChatContext {
    /// Whether active cells move.
    pub open spec fn animated(self) -> bool {
        self.animations && self.progress_effects
    }
}

/// The plan of putting a cell that the host has made into the history.
pub open spec fn made_cell<P>(cell: P) -> Seq<Action<P>> {
    seq![
        Action::FlushAnswerStream,
        Action::AddToHistory(HistoryEntry::Made(cell)),
        Action::RequestRedraw,
    ]
}

/// The plan of putting a cell into the history, where the host has made one.
pub open spec fn made_cells<P>(cell: Option<P>) -> Seq<Action<P>> {
    match cell {
        Some(cell) => made_cell(cell),
        None => Seq::empty(),
    }
}

/// The plan for an item that may have to wait.
pub open spec fn deferral<P>(
    item: ThreadItem<P>,
    queue: InterruptQueue,
    handler: ItemHandler,
) -> PlanView<P> {
    only(seq![Action::DeferOrHandle { item, queue, handler }])
}

/// The plan for a patch that has ended: only a failure leaves a trace.
pub open spec fn file_change_plan<P>(item: ThreadItem<P>, plan: PlanView<P>) -> bool {
    if item matches ThreadItem::FileChange { status, .. } && status == PatchApplyStatus::Failed {
        &&& plan.actions.len() == 1
        &&& plan.actions[0] matches Action::AddToHistory(HistoryEntry::PatchApplyFailure { stderr })
            && stderr@ == Seq::<char>::empty()
        &&& plan.pending is None
    } else {
        plan == nothing::<P>()
    }
}

/// The plan for a call of an outside tool that has started. The use of a computer is gathered in one
/// cell; any other call gets a cell of its own.
pub open spec fn mcp_started_plan<P>(context: ChatContext, item: ThreadItem<P>) -> PlanView<P> {
    match item {
        ThreadItem::McpToolCall { id, server, tool, arguments, computer_activity, rest } => {
            let call = ActiveMcpCall {
                id,
                invocation: McpInvocation {
                    server,
                    tool,
                    arguments: Some(arguments),
                    computer_activity,
                },
                animated: context.animated(),
            };
            if computer_activity {
                PlanView {
                    actions: seq![Action::FlushAnswerStream],
                    pending: Some(Pending::ComputerActivity(ComputerUpdate::Start(call))),
                }
            } else {
                only(
                    seq![
                        Action::FlushAnswerStream,
                        Action::FlushActiveCell,
                        Action::SetActiveCell(NewCell::McpToolCall(call, None)),
                        Action::BumpActiveCellRevision,
                        Action::RequestRedraw,
                    ],
                )
            }
        },
        _ => nothing(),
    }
}

/// The plan for a call of an outside tool that has ended, up to where the host looks again.
pub open spec fn mcp_completed_plan<P>(item: ThreadItem<P>) -> PlanView<P> {
    PlanView {
        actions: seq![Action::FlushAnswerStream],
        pending: Some(Pending::McpToolCallCompleted(item)),
    }
}

/// The actions by which computer activity joins the active cell, where that is one of its kind, or
/// opens a cell of its own.
pub open spec fn computer_actions<P>(update: ComputerUpdate<P>, active: ActiveCell) -> Seq<
    Action<P>,
> {
    if active is ComputerActivity {
        seq![Action::UpdateComputerActivity(update)]
    } else {
        seq![
            Action::FlushActiveCell,
            Action::SetActiveCell(NewCell::ComputerActivity(update)),
        ]
    }
}

/// The rest of the plan for computer activity, once the host has looked at the active cell.
pub open spec fn computer_plan<P>(update: ComputerUpdate<P>, active: ActiveCell) -> PlanView<P> {
    only(
        computer_actions(update, active) + seq![
            Action::BumpActiveCellRevision,
            Action::RequestRedraw,
        ],
    )
}

/// The rest of the plan for a call of an outside tool that has ended: a cell of the call that is
/// still active is completed, else the call gets a cell that has ended already.
pub open spec fn mcp_history_plan<P>(
    context: ChatContext,
    history: Option<McpHistory<P>>,
    active: ActiveCell,
) -> PlanView<P> {
    match history {
        Some(history) => {
            let call = ActiveMcpCall {
                id: history.id,
                invocation: history.invocation,
                animated: context.animated(),
            };
            let outcome = McpOutcome { duration: history.duration, result: history.result };
            if history.invocation.computer_activity {
                computer_plan(ComputerUpdate::Complete(call, outcome), active)
            } else if active matches ActiveCell::McpToolCall { call_id } && call_id@
                == history.id@ {
                only(seq![Action::CompleteMcpToolCall(outcome), Action::FlushActiveCell])
            } else {
                only(
                    seq![
                        Action::FlushActiveCell,
                        Action::SetActiveCell(NewCell::McpToolCall(call, Some(outcome))),
                        Action::FlushActiveCell,
                    ],
                )
            }
        },
        None => nothing(),
    }
}

/// The plan for a web search that has started: it gets a cell of its own, with no query yet.
pub open spec fn web_search_started<P>(
    context: ChatContext,
    call_id: String,
    plan: PlanView<P>,
) -> bool {
    &&& plan.actions.len() == 5
    &&& plan.actions[0] == Action::<P>::FlushAnswerStream
    &&& plan.actions[1] == Action::<P>::FlushActiveCell
    &&& plan.actions[2] matches Action::SetActiveCell(
        NewCell::WebSearch { call_id: id, query, animated },
    ) && id == call_id && query@ == Seq::<char>::empty() && animated == context.animated()
    &&& plan.actions[3] == Action::<P>::BumpActiveCellRevision
    &&& plan.actions[4] == Action::<P>::RequestRedraw
    &&& plan.pending is None
}

/// The rest of the plan for a web search that has ended: a cell of the search that is still active
/// is completed, else the search gets an entry of its own.
pub open spec fn web_search_plan<P>(
    call_id: String,
    query: String,
    action: P,
    active: ActiveCell,
) -> PlanView<P> {
    if active matches ActiveCell::WebSearch { call_id: active_id } && active_id@ == call_id@ {
        only(
            seq![
                Action::UpdateWebSearch { action, query },
                Action::CompleteWebSearch,
                Action::BumpActiveCellRevision,
                Action::FlushActiveCell,
            ],
        )
    } else {
        only(seq![Action::AddToHistory(HistoryEntry::WebSearch { call_id, query, action })])
    }
}

/// The spawn requests that wait for their call to end, with that of this call where it is a spawn that
/// brings one.
pub open spec fn requests_with<P>(
    pending: Map<Seq<char>, P>,
    id: Seq<char>,
    tool: CollabAgentTool,
    request: Option<P>,
) -> Map<Seq<char>, P> {
    if tool == CollabAgentTool::SpawnAgent && request is Some {
        pending.insert(id, request->0)
    } else {
        pending
    }
}

/// Whether a call ends a spawn.
pub open spec fn ends_spawn(tool: CollabAgentTool, status: CollabAgentToolCallStatus) -> bool {
    tool == CollabAgentTool::SpawnAgent && status != CollabAgentToolCallStatus::InProgress
}

/// The spawn requests that wait on once a call is seen: the end of a spawn takes its own out.
pub open spec fn requests_after<P>(
    pending: Map<Seq<char>, P>,
    id: Seq<char>,
    tool: CollabAgentTool,
    status: CollabAgentToolCallStatus,
    request: Option<P>,
) -> Map<Seq<char>, P> {
    let with = requests_with(pending, id, tool, request);
    if ends_spawn(tool, status) {
        with.remove(id)
    } else {
        with
    }
}

/// The spawn request that the end of a spawn takes out.
pub open spec fn request_taken<P>(
    pending: Map<Seq<char>, P>,
    id: Seq<char>,
    tool: CollabAgentTool,
    status: CollabAgentToolCallStatus,
    request: Option<P>,
) -> Option<P> {
    let with = requests_with(pending, id, tool, request);
    if ends_spawn(tool, status) && with.contains_key(id) {
        Some(with[id])
    } else {
        None
    }
}

/// Whether `after` is `before` with an activity of an agent recorded.
pub open spec fn activity_recorded<T: Fn(&str, usize) -> String>(
    truncate_text: T,
    before: RegistryView,
    activity: SubAgentActivity,
    metadata: AgentMetadata,
    now: Instant,
    after: RegistryView,
) -> bool {
    let thread = activity.thread_id->0@;
    match activity.kind {
        SubAgentActivityKind::Started | SubAgentActivityKind::Interacted => active(
            truncate_text,
            before,
            thread,
            activity.agent_path@,
            opt_text(metadata.agent_nickname),
            opt_text(metadata.agent_role),
            "working in `"@ + activity.agent_path@ + "`"@,
            now,
            after,
        ),
        SubAgentActivityKind::Interrupted => restated(
            truncate_text,
            before,
            thread,
            StatusView::Interrupted,
            now,
            after,
        ),
        SubAgentActivityKind::Completed => restated(
            truncate_text,
            before,
            thread,
            StatusView::Completed(None),
            now,
            after,
        ),
    }
}

/// Whether an item is an activity of a thread.
pub open spec fn is_thread_activity<P>(item: ThreadItem<P>) -> bool {
    item matches ThreadItem::SubAgentActivity(activity) && activity.thread_id is Some
}

/// Whether handling an item as an activity leads from `before` to `after` and `panel`. An item that
/// is no activity of a thread changes nothing.
pub open spec fn activity_handled<P, T: Fn(&str, usize) -> String>(
    truncate_text: T,
    before: RegistryView,
    panel_before: Option<SubagentStatusCell>,
    item: ThreadItem<P>,
    metadata: AgentMetadata,
    now: Instant,
    after: RegistryView,
    panel: Option<SubagentStatusCell>,
) -> bool {
    let mid = RegistryView { mounted: before.mounted, ..after };
    if is_thread_activity(item) {
        &&& activity_recorded(truncate_text, before, item->SubAgentActivity_0, metadata, now, mid)
        &&& rebuilt(mid, panel, after)
    } else {
        &&& after == before
        &&& panel == panel_before
    }
}

/// The actions of handling an item as an activity.
pub open spec fn activity_actions<P>(item: ThreadItem<P>, cell: Option<P>) -> Seq<Action<P>> {
    made_cells(cell) + if is_thread_activity(item) {
        seq![Action::<P>::RequestRedraw]
    } else {
        Seq::empty()
    }
}

/// The plan for an item that waited for its start to be handled.
pub open spec fn queued_started_plan<P>(context: ChatContext, item: ThreadItem<P>) -> PlanView<P> {
    match item {
        ThreadItem::CommandExecution(_) => only(seq![Action::HandleCommandExecutionStarted(item)]),
        ThreadItem::McpToolCall { .. } => mcp_started_plan(context, item),
        ThreadItem::DynamicToolCall(_) => only(seq![Action::HandleDynamicToolItem(item)]),
        _ => nothing(),
    }
}

/// Whether `plan` is the plan of a handler for an item that did not have to wait.
pub open spec fn handled_plan<P>(
    context: ChatContext,
    item: ThreadItem<P>,
    handler: ItemHandler,
    cell: Option<P>,
    plan: PlanView<P>,
) -> bool {
    match handler {
        ItemHandler::FileChangeCompleted => file_change_plan(item, plan),
        ItemHandler::McpToolCallStarted => plan == mcp_started_plan(context, item),
        ItemHandler::McpToolCallCompleted => plan == mcp_completed_plan(item),
        ItemHandler::SubAgentActivity => plan == only(activity_actions(item, cell)),
    }
}

/// Whether `plan` is the plan for an item that waited for its end to be handled.
pub open spec fn queued_completed_plan<P>(
    item: ThreadItem<P>,
    cell: Option<P>,
    plan: PlanView<P>,
) -> bool {
    match item {
        ThreadItem::CommandExecution(_) => plan == only(
            seq![Action::HandleCommandExecutionCompleted(item)],
        ),
        ThreadItem::FileChange { .. } => file_change_plan(item, plan),
        ThreadItem::McpToolCall { .. } => plan == mcp_completed_plan(item),
        ThreadItem::DynamicToolCall(_) => plan == only(seq![Action::HandleDynamicToolItem(item)]),
        ThreadItem::SubAgentActivity(_) => plan == only(activity_actions(item, cell)),
        _ => plan == nothing::<P>(),
    }
}

impl<P> ChatWidget<P> {
    /// A patch is about to be applied.
    pub fn on_patch_apply_begin(&self, changes: P) -> (plan: Plan<P>)
        ensures
            plan@ == only(
                seq![
                    Action::AddToHistory(
                        HistoryEntry::PatchEvent { changes, cwd: self.context.cwd },
                    ),
                ],
            ),
    {
        Plan::of(
            vec![
                Action::AddToHistory(
                    HistoryEntry::PatchEvent { changes, cwd: self.context.cwd.clone() },
                ),
            ],
        )
    }

    /// An image was looked at.
    pub fn on_view_image_tool_call(&self, path: String) -> (plan: Plan<P>)
        ensures
            plan@ == only(
                seq![
                    Action::<P>::FlushAnswerStream,
                    Action::AddToHistory(HistoryEntry::ViewImage { path }),
                    Action::RequestRedraw,
                ],
            ),
    {
        Plan::of(
            vec![
                Action::FlushAnswerStream,
                Action::AddToHistory(HistoryEntry::ViewImage { path }),
                Action::RequestRedraw,
            ],
        )
    }

    /// An image is about to be made.
    pub fn on_image_generation_begin(&self) -> (plan: Plan<P>)
        ensures
            plan@ == (PlanView {
                actions: seq![Action::<P>::FlushAnswerStream],
                pending: Some(Pending::ImageGenerationBegin),
            }),
    {
        Plan {
            actions: vec![Action::FlushAnswerStream],
            pending: Some(Pending::ImageGenerationBegin),
        }
    }

    /// The rest of that plan, once the host has looked whether a task is running.
    pub fn resume_image_generation_begin(&self, task_running: bool) -> (plan: Plan<P>)
        ensures
            plan@ == if task_running {
                only(seq![Action::<P>::EnsureStatusIndicator])
            } else {
                nothing()
            },
    {
        if task_running {
            Plan::of(vec![Action::EnsureStatusIndicator])
        } else {
            Plan::nothing()
        }
    }

    /// An image was made.
    pub fn on_image_generation_end(
        &self,
        call_id: String,
        status: String,
        revised_prompt: Option<String>,
        saved_path: Option<String>,
    ) -> (plan: Plan<P>)
        ensures
            plan@ == only(
                seq![
                    Action::<P>::FlushAnswerStream,
                    Action::AddToHistory(
                        HistoryEntry::ImageGeneration {
                            call_id,
                            status,
                            revised_prompt,
                            saved_path,
                        },
                    ),
                    Action::RequestRedraw,
                ],
            ),
    {
        Plan::of(
            vec![
                Action::FlushAnswerStream,
                Action::AddToHistory(
                    HistoryEntry::ImageGeneration { call_id, status, revised_prompt, saved_path },
                ),
                Action::RequestRedraw,
            ],
        )
    }

    /// A patch has been dealt with.
    pub fn on_file_change_completed(&self, item: ThreadItem<P>) -> (plan: Plan<P>)
        ensures
            plan@ == deferral(
                item,
                InterruptQueue::ItemCompleted,
                ItemHandler::FileChangeCompleted,
            ),
    {
        Plan::of(
            vec![
                Action::DeferOrHandle {
                    item,
                    queue: InterruptQueue::ItemCompleted,
                    handler: ItemHandler::FileChangeCompleted,
                },
            ],
        )
    }

    /// A call of an outside tool has started.
    pub fn on_mcp_tool_call_started(&self, item: ThreadItem<P>) -> (plan: Plan<P>)
        ensures
            plan@ == deferral(item, InterruptQueue::ItemStarted, ItemHandler::McpToolCallStarted),
    {
        Plan::of(
            vec![
                Action::DeferOrHandle {
                    item,
                    queue: InterruptQueue::ItemStarted,
                    handler: ItemHandler::McpToolCallStarted,
                },
            ],
        )
    }

    /// A call of an outside tool has ended.
    pub fn on_mcp_tool_call_completed(&self, item: ThreadItem<P>) -> (plan: Plan<P>)
        ensures
            plan@ == deferral(
                item,
                InterruptQueue::ItemCompleted,
                ItemHandler::McpToolCallCompleted,
            ),
    {
        Plan::of(
            vec![
                Action::DeferOrHandle {
                    item,
                    queue: InterruptQueue::ItemCompleted,
                    handler: ItemHandler::McpToolCallCompleted,
                },
            ],
        )
    }

    /// A web search has started.
    pub fn on_web_search_begin(&self, call_id: String) -> (plan: Plan<P>)
        ensures
            web_search_started(self.context, call_id, plan@),
    {
        let animated = self.context.animations && self.context.progress_effects;
        Plan::of(
            vec![
                Action::FlushAnswerStream,
                Action::FlushActiveCell,
                Action::SetActiveCell(
                    NewCell::WebSearch { call_id, query: String::new(), animated },
                ),
                Action::BumpActiveCellRevision,
                Action::RequestRedraw,
            ],
        )
    }

    /// A web search has ended.
    pub fn on_web_search_end(&self, call_id: String, query: String, action: P) -> (plan: Plan<P>)
        ensures
            plan@ == (PlanView {
                actions: seq![Action::<P>::FlushAnswerStream],
                pending: Some(Pending::WebSearchEnd { call_id, query, action }),
            }),
    {
        Plan {
            actions: vec![Action::FlushAnswerStream],
            pending: Some(Pending::WebSearchEnd { call_id, query, action }),
        }
    }

    /// The rest of that plan, once the host has looked which cell is active.
    pub fn resume_web_search_end(
        &self,
        call_id: String,
        query: String,
        action: P,
        active: &ActiveCell,
    ) -> (plan: Plan<P>)
        ensures
            plan@ == web_search_plan(call_id, query, action, *active),
    {
        let same = match active {
            ActiveCell::WebSearch { call_id: active_id } => same_text(
                active_id.as_str(),
                call_id.as_str(),
            ),
            _ => false,
        };
        if same {
            Plan::of(
                vec![
                    Action::UpdateWebSearch { action, query },
                    Action::CompleteWebSearch,
                    Action::BumpActiveCellRevision,
                    Action::FlushActiveCell,
                ],
            )
        } else {
            Plan::of(
                vec![Action::AddToHistory(HistoryEntry::WebSearch { call_id, query, action })],
            )
        }
    }

    /// The host has made a cell of an event among agents.
    pub fn on_collab_event(&self, cell: P) -> (plan: Plan<P>)
        ensures
            plan@ == only(made_cell(cell)),
    {
        Plan::of(
            vec![
                Action::FlushAnswerStream,
                Action::AddToHistory(HistoryEntry::Made(cell)),
                Action::RequestRedraw,
            ],
        )
    }

    /// A patch has been dealt with, and nothing stands in the way of showing it.
    pub fn handle_file_change_completed_now(&self, item: ThreadItem<P>) -> (plan: Plan<P>)
        ensures
            file_change_plan(item, plan@),
    {
        let failed = match &item {
            ThreadItem::FileChange { status, .. } => matches!(status, PatchApplyStatus::Failed),
            _ => false,
        };
        if failed {
            Plan::of(
                vec![
                    Action::AddToHistory(
                        HistoryEntry::PatchApplyFailure { stderr: String::new() },
                    ),
                ],
            )
        } else {
            Plan::nothing()
        }
    }

    /// A call of an outside tool has started, and nothing stands in the way of showing it.
    pub fn handle_mcp_tool_call_started_now(&self, item: ThreadItem<P>) -> (plan: Plan<P>)
        ensures
            plan@ == mcp_started_plan(self.context, item),
    {
        match item {
            ThreadItem::McpToolCall { id, server, tool, arguments, computer_activity, rest: _ } => {
                let call = ActiveMcpCall {
                    id,
                    invocation: McpInvocation {
                        server,
                        tool,
                        arguments: Some(arguments),
                        computer_activity,
                    },
                    animated: self.context.animations && self.context.progress_effects,
                };
                if computer_activity {
                    Plan {
                        actions: vec![Action::FlushAnswerStream],
                        pending: Some(Pending::ComputerActivity(ComputerUpdate::Start(call))),
                    }
                } else {
                    Plan::of(
                        vec![
                            Action::FlushAnswerStream,
                            Action::FlushActiveCell,
                            Action::SetActiveCell(NewCell::McpToolCall(call, None)),
                            Action::BumpActiveCellRevision,
                            Action::RequestRedraw,
                        ],
                    )
                }
            },
            _ => Plan::nothing(),
        }
    }

    /// A call of an outside tool has ended, and nothing stands in the way of showing it.
    pub fn handle_mcp_tool_call_completed_now(&self, item: ThreadItem<P>) -> (plan: Plan<P>)
        ensures
            plan@ == mcp_completed_plan(item),
    {
        Plan {
            actions: vec![Action::FlushAnswerStream],
            pending: Some(Pending::McpToolCallCompleted(item)),
        }
    }

    /// The rest of that plan, once the host has made what it can of the item and has looked which
    /// cell is active.
    pub fn resume_mcp_tool_call_completed(
        &self,
        history: Option<McpHistory<P>>,
        active: &ActiveCell,
    ) -> (plan: Plan<P>)
        ensures
            plan@ == mcp_history_plan(self.context, history, *active),
    {
        let history = match history {
            Some(history) => history,
            None => return Plan::nothing(),
        };
        let computer_activity = history.invocation.computer_activity;
        let same = match active {
            ActiveCell::McpToolCall { call_id } => same_text(
                call_id.as_str(),
                history.id.as_str(),
            ),
            _ => false,
        };
        let call = ActiveMcpCall {
            id: history.id,
            invocation: history.invocation,
            animated: self.context.animations && self.context.progress_effects,
        };
        let outcome = McpOutcome { duration: history.duration, result: history.result };
        if computer_activity {
            self.resume_computer_activity(ComputerUpdate::Complete(call, outcome), active)
        } else if same {
            Plan::of(vec![Action::CompleteMcpToolCall(outcome), Action::FlushActiveCell])
        } else {
            Plan::of(
                vec![
                    Action::FlushActiveCell,
                    Action::SetActiveCell(NewCell::McpToolCall(call, Some(outcome))),
                    Action::FlushActiveCell,
                ],
            )
        }
    }

    /// Lets computer activity join the active cell, where that is one of its kind: any other cell is
    /// a boundary.
    pub fn update_computer_activity(&self, update: ComputerUpdate<P>, active: &ActiveCell) -> (actions:
        Vec<Action<P>>)
        ensures
            actions@ == computer_actions(update, *active),
    {
        match active {
            ActiveCell::ComputerActivity => vec![Action::UpdateComputerActivity(update)],
            _ => vec![
                Action::FlushActiveCell,
                Action::SetActiveCell(NewCell::ComputerActivity(update)),
            ],
        }
    }

    /// The rest of a plan for computer activity, once the host has looked which cell is active.
    pub fn resume_computer_activity(&self, update: ComputerUpdate<P>, active: &ActiveCell) -> (plan:
        Plan<P>)
        ensures
            plan@ == computer_plan(update, *active),
    {
        let mut actions = self.update_computer_activity(update, active);
        actions.push(Action::BumpActiveCellRevision);
        actions.push(Action::RequestRedraw);
        assert(actions@ =~= computer_plan(update, *active).actions);
        Plan::of(actions)
    }

    /// Puts older computer activity ahead of what the active cell shows, where that is of its kind
    /// and the host has found something older. The revision before is handed on.
    pub fn prepend_active_computer_history(
        &self,
        active: &ActiveCell,
        older: Option<P>,
        previous_revision: u64,
    ) -> (prepended: Option<(Vec<Action<P>>, u64)>)
        ensures
            match prepended {
                Some((actions, revision)) => {
                    &&& *active is ComputerActivity
                    &&& older is Some
                    &&& actions@ == seq![
                        Action::PrependComputerHistory(older->0),
                        Action::BumpActiveCellRevision,
                    ]
                    &&& revision == previous_revision
                },
                None => !(*active is ComputerActivity) || older is None,
            },
    {
        match active {
            ActiveCell::ComputerActivity => match older {
                Some(older) => Some(
                    (
                        vec![
                            Action::PrependComputerHistory(older),
                            Action::BumpActiveCellRevision,
                        ],
                        previous_revision,
                    ),
                ),
                None => None,
            },
            _ => None,
        }
    }

    /// A call by which agents are handled was reported. The request of a spawn is kept until the
    /// spawn ends, and handed on to where the history cell of the call is made.
    pub fn on_collab_agent_tool_call(
        &mut self,
        item: ThreadItem<P>,
        spawn_request: Option<P>,
        update_panel: bool,
    ) -> (plan: Plan<P>)
        ensures
            match item {
                ThreadItem::CollabAgentToolCall(call) => {
                    let pending = old(self).pending_collab_spawn_requests@;
                    &&& final(self).pending_collab_spawn_requests@ == requests_after(
                        pending,
                        call.id@,
                        call.tool,
                        call.status,
                        spawn_request,
                    )
                    &&& plan@ == (PlanView {
                        actions: Seq::<Action<P>>::empty(),
                        pending: Some(
                            Pending::CollabAgentToolCall {
                                item,
                                cached_spawn_request: request_taken(
                                    pending,
                                    call.id@,
                                    call.tool,
                                    call.status,
                                    spawn_request,
                                ),
                                update_panel,
                            },
                        ),
                    })
                },
                _ => {
                    &&& final(self).pending_collab_spawn_requests == old(
                        self,
                    ).pending_collab_spawn_requests
                    &&& plan@ == nothing::<P>()
                },
            },
            final(self).context == old(self).context,
            final(self).subagent_panel_registry == old(self).subagent_panel_registry,
            final(self).subagent_panel == old(self).subagent_panel,
    {
        let (id, tool, status) = match &item {
            ThreadItem::CollabAgentToolCall(call) => (call.id.clone(), call.tool, call.status),
            _ => return Plan::nothing(),
        };
        let mut cached_spawn_request: Option<P> = None;
        if matches!(tool, CollabAgentTool::SpawnAgent) {
            if let Some(request) = spawn_request {
                self.pending_collab_spawn_requests.insert(id.clone(), request);
            }
            if !matches!(status, CollabAgentToolCallStatus::InProgress) {
                cached_spawn_request = self.pending_collab_spawn_requests.remove(id.as_str());
            }
        }
        let plan = Plan {
            actions: Vec::new(),
            pending: Some(
                Pending::CollabAgentToolCall { item, cached_spawn_request, update_panel },
            ),
        };
        assert(plan.actions@ =~= Seq::empty());
        plan
    }

    /// The rest of that plan, once the host has made a history cell of the call, if it makes one.
    pub fn resume_collab_agent_tool_call<T: Fn(&str, usize) -> String>(
        &mut self,
        item: &ThreadItem<P>,
        cell: Option<P>,
        update_panel: bool,
        receiver_metadata: AgentMetadata,
        now: Instant,
        truncate_text: &T,
    ) -> (plan: Plan<P>)
        requires
            old(self).subagent_panel_registry@.wf(),
            takes_any_text(*truncate_text),
        ensures
            if update_panel && *item is CollabAgentToolCall {
                let call = item->CollabAgentToolCall_0;
                &&& call_recorded(
                    *truncate_text,
                    old(self).subagent_panel_registry@,
                    old(self).subagent_panel,
                    call,
                    receiver_metadata,
                    now,
                    final(self).subagent_panel_registry@,
                    final(self).subagent_panel,
                )
                &&& plan@ == only(
                    made_cells(cell) + if concerns_panel(call) {
                        seq![Action::<P>::RequestRedraw]
                    } else {
                        Seq::empty()
                    },
                )
            } else {
                &&& *final(self) == *old(self)
                &&& plan@ == only(made_cells(cell))
            },
            final(self).subagent_panel_registry@.wf(),
            final(self).same_but_panel(*old(self)),
    {
        let mut plan = match cell {
            Some(cell) => self.on_collab_event(cell),
            None => Plan::nothing(),
        };
        if update_panel {
            let ghost before = plan.actions@;
            let mut more = self.update_subagent_panel_from_tool_call(
                item,
                receiver_metadata,
                now,
                truncate_text,
            );
            let ghost added = more@;
            plan.actions.append(&mut more);
            assert(plan.actions@ =~= before + added);
            assert(before + Seq::<Action<P>>::empty() =~= before);
        }
        plan
    }

    /// An activity of an agent was reported, and nothing stands in the way of showing it.
    pub fn handle_sub_agent_activity_now<T: Fn(&str, usize) -> String>(
        &mut self,
        item: &ThreadItem<P>,
        cell: Option<P>,
        metadata: AgentMetadata,
        now: Instant,
        truncate_text: &T,
    ) -> (plan: Plan<P>)
        requires
            old(self).subagent_panel_registry@.wf(),
            takes_any_text(*truncate_text),
        ensures
            activity_handled(
                *truncate_text,
                old(self).subagent_panel_registry@,
                old(self).subagent_panel,
                *item,
                metadata,
                now,
                final(self).subagent_panel_registry@,
                final(self).subagent_panel,
            ),
            plan@ == only(activity_actions(*item, cell)),
            final(self).subagent_panel_registry@.wf(),
            final(self).same_but_panel(*old(self)),
    {
        let mut plan = match cell {
            Some(cell) => self.on_collab_event(cell),
            None => Plan::nothing(),
        };
        let ghost before = plan.actions@;
        assert(before + Seq::<Action<P>>::empty() =~= before);
        if let ThreadItem::SubAgentActivity(activity) = item {
            if let Some(thread_id) = &activity.thread_id {
                match activity.kind {
                    SubAgentActivityKind::Started | SubAgentActivityKind::Interacted => {
                        let mut preview = joined("working in `", activity.agent_path.as_str());
                        preview.append("`");
                        self.subagent_panel_registry.upsert_activity(
                            thread_id,
                            activity.agent_path.as_str(),
                            metadata.agent_nickname,
                            metadata.agent_role,
                            preview,
                            now,
                            truncate_text,
                        );
                    },
                    SubAgentActivityKind::Interrupted => {
                        self.subagent_panel_registry.update_status(
                            thread_id,
                            PanelAgentStatus::Interrupted,
                            now,
                            truncate_text,
                        );
                    },
                    SubAgentActivityKind::Completed => {
                        self.subagent_panel_registry.update_status(
                            thread_id,
                            PanelAgentStatus::Completed(None),
                            now,
                            truncate_text,
                        );
                    },
                }
                let mut more = self.refresh_subagent_panel();
                let ghost added = more@;
                plan.actions.append(&mut more);
                assert(plan.actions@ =~= before + added);
            }
        }
        plan
    }

    /// An activity of an agent was reported. What is replayed only goes into the history; what comes
    /// in while a turn runs or an answer streams may have to wait.
    pub fn on_sub_agent_activity<T: Fn(&str, usize) -> String>(
        &mut self,
        item: ThreadItem<P>,
        cell: Option<P>,
        metadata: AgentMetadata,
        update_panel: bool,
        now: Instant,
        truncate_text: &T,
    ) -> (plan: Plan<P>)
        requires
            old(self).subagent_panel_registry@.wf(),
            takes_any_text(*truncate_text),
        ensures
            if !update_panel {
                &&& *final(self) == *old(self)
                &&& plan@ == only(made_cells(cell))
            } else if old(self).context.agent_turn_running || old(self).context.answer_streaming {
                &&& *final(self) == *old(self)
                &&& plan@ == deferral(
                    item,
                    InterruptQueue::ItemCompleted,
                    ItemHandler::SubAgentActivity,
                )
            } else {
                &&& activity_handled(
                    *truncate_text,
                    old(self).subagent_panel_registry@,
                    old(self).subagent_panel,
                    item,
                    metadata,
                    now,
                    final(self).subagent_panel_registry@,
                    final(self).subagent_panel,
                )
                &&& plan@ == only(activity_actions(item, cell))
            },
            final(self).subagent_panel_registry@.wf(),
            final(self).same_but_panel(*old(self)),
    {
        if !update_panel {
            return match cell {
                Some(cell) => self.on_collab_event(cell),
                None => Plan::nothing(),
            };
        }
        if !self.context.agent_turn_running && !self.context.answer_streaming {
            self.handle_sub_agent_activity_now(&item, cell, metadata, now, truncate_text)
        } else {
            Plan::of(
                vec![
                    Action::DeferOrHandle {
                        item,
                        queue: InterruptQueue::ItemCompleted,
                        handler: ItemHandler::SubAgentActivity,
                    },
                ],
            )
        }
    }

    /// An item that did not have to wait, and the handler that it goes to.
    pub fn handle_item_now<T: Fn(&str, usize) -> String>(
        &mut self,
        item: ThreadItem<P>,
        handler: ItemHandler,
        cell: Option<P>,
        metadata: AgentMetadata,
        now: Instant,
        truncate_text: &T,
    ) -> (plan: Plan<P>)
        requires
            old(self).subagent_panel_registry@.wf(),
            takes_any_text(*truncate_text),
        ensures
            handled_plan(old(self).context, item, handler, cell, plan@),
            if handler == ItemHandler::SubAgentActivity {
                activity_handled(
                    *truncate_text,
                    old(self).subagent_panel_registry@,
                    old(self).subagent_panel,
                    item,
                    metadata,
                    now,
                    final(self).subagent_panel_registry@,
                    final(self).subagent_panel,
                )
            } else {
                *final(self) == *old(self)
            },
            final(self).subagent_panel_registry@.wf(),
            final(self).same_but_panel(*old(self)),
    {
        match handler {
            ItemHandler::FileChangeCompleted => self.handle_file_change_completed_now(item),
            ItemHandler::McpToolCallStarted => self.handle_mcp_tool_call_started_now(item),
            ItemHandler::McpToolCallCompleted => self.handle_mcp_tool_call_completed_now(item),
            ItemHandler::SubAgentActivity => self.handle_sub_agent_activity_now(
                &item,
                cell,
                metadata,
                now,
                truncate_text,
            ),
        }
    }

    /// An item that waited for its start to be handled.
    pub fn handle_queued_item_started_now(&self, item: ThreadItem<P>) -> (plan: Plan<P>)
        ensures
            plan@ == queued_started_plan(self.context, item),
    {
        match &item {
            ThreadItem::CommandExecution(_) => Plan::of(
                vec![Action::HandleCommandExecutionStarted(item)],
            ),
            ThreadItem::McpToolCall { .. } => self.handle_mcp_tool_call_started_now(item),
            ThreadItem::DynamicToolCall(_) => Plan::of(vec![Action::HandleDynamicToolItem(item)]),
            _ => Plan::nothing(),
        }
    }

    /// An item that waited for its end to be handled.
    pub fn handle_queued_item_completed_now<T: Fn(&str, usize) -> String>(
        &mut self,
        item: ThreadItem<P>,
        cell: Option<P>,
        metadata: AgentMetadata,
        now: Instant,
        truncate_text: &T,
    ) -> (plan: Plan<P>)
        requires
            old(self).subagent_panel_registry@.wf(),
            takes_any_text(*truncate_text),
        ensures
            queued_completed_plan(item, cell, plan@),
            activity_handled(
                *truncate_text,
                old(self).subagent_panel_registry@,
                old(self).subagent_panel,
                item,
                metadata,
                now,
                final(self).subagent_panel_registry@,
                final(self).subagent_panel,
            ),
            final(self).subagent_panel_registry@.wf(),
            final(self).same_but_panel(*old(self)),
    {
        let ghost waited = item;
        match &item {
            ThreadItem::CommandExecution(_) => {
                let plan = Plan::of(vec![Action::HandleCommandExecutionCompleted(item)]);
                assert(plan@ =~= only(seq![Action::HandleCommandExecutionCompleted(waited)]));
                plan
            },
            ThreadItem::FileChange { .. } => self.handle_file_change_completed_now(item),
            ThreadItem::McpToolCall { .. } => self.handle_mcp_tool_call_completed_now(item),
            ThreadItem::DynamicToolCall(_) => {
                let plan = Plan::of(vec![Action::HandleDynamicToolItem(item)]);
                assert(plan@ =~= only(seq![Action::HandleDynamicToolItem(waited)]));
                plan
            },
            ThreadItem::SubAgentActivity(_) => self.handle_sub_agent_activity_now(
                &item,
                cell,
                metadata,
                now,
                truncate_text,
            ),
            _ => Plan::nothing(),
        }
    }
}

} // verus!
