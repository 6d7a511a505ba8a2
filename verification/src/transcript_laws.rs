//! What the transcript shows of tools, told by what the host hands over and finds.

use vstd::prelude::*;

use crate::actions::{
    Action, ActiveCell, ComputerUpdate, HistoryEntry, InterruptQueue, ItemHandler, NewCell, Pending,
    Plan, SelectionItem,
};
use crate::chat_laws::distinct_ids;
use crate::chat_widget::{ChatWidget, ModelProvider};
use crate::clock::Instant;
use crate::collab_laws::{
    activity_followed, lemma_activity_followed, lemma_shows_cell, redraw_of, shows_cell,
};
use crate::display_laws::{coat, reads};
use crate::protocol::{AgentMetadata, McpHistory, ThreadItem};

use crate::sort::{by_rank, sorting_moves_each_item, Ranked};
use crate::styled::line_views;
use crate::text_laws::decides;
use crate::thread_id::ThreadId;

verus! {

/// A patch that is about to be applied is put into the history, with the directory it is applied in.
pub proof fn a_patch_is_announced<P>(chat: ChatWidget<P>, changes: P, plan: Plan<P>)
    requires
        call_ensures(ChatWidget::<P>::on_patch_apply_begin, (&chat, changes), plan),
    ensures
        plan.pending is None,
        plan.actions@.len() == 1,
        plan.actions@[0] matches Action::AddToHistory(
            HistoryEntry::PatchEvent { changes: shown, cwd },
        ) && shown == changes && cwd@ == chat.context.cwd@,
{
}

/// An image that was looked at is put into the history, behind the answer so far.
pub proof fn a_viewed_image_is_shown<P>(chat: ChatWidget<P>, path: String, plan: Plan<P>)
    requires
        call_ensures(ChatWidget::<P>::on_view_image_tool_call, (&chat, path), plan),
    ensures
        plan.pending is None,
        plan.actions@.len() == 3,
        plan.actions@[0] is FlushAnswerStream,
        plan.actions@[1] matches Action::AddToHistory(HistoryEntry::ViewImage { path: shown })
            && shown@ == path@,
        plan.actions@[2] is RequestRedraw,
{
}

/// While an image is made the status is shown exactly where a task is running.
pub proof fn the_making_of_an_image_shows_the_status<P>(
    chat: ChatWidget<P>,
    begun: Plan<P>,
    task_running: bool,
    resumed: Plan<P>,
)
    requires
        call_ensures(ChatWidget::<P>::on_image_generation_begin, (&chat,), begun),
        call_ensures(
            ChatWidget::<P>::resume_image_generation_begin,
            (&chat, task_running),
            resumed,
        ),
    ensures
        begun.actions@.len() == 1,
        begun.actions@[0] is FlushAnswerStream,
        begun.pending is Some && begun.pending->0 is ImageGenerationBegin,
        resumed.pending is None,
        task_running ==> resumed.actions@.len() == 1 && resumed.actions@[0] is EnsureStatusIndicator,
        !task_running ==> resumed.actions@.len() == 0,
{
}

/// An image that was made is put into the history with all that came with it, behind the answer so far.
pub proof fn a_made_image_is_shown<P>(
    chat: ChatWidget<P>,
    call_id: String,
    status: String,
    revised_prompt: Option<String>,
    saved_path: Option<String>,
    plan: Plan<P>,
)
    requires
        call_ensures(
            ChatWidget::<P>::on_image_generation_end,
            (&chat, call_id, status, revised_prompt, saved_path),
            plan,
        ),
    ensures
        plan.pending is None,
        plan.actions@.len() == 3,
        plan.actions@[0] is FlushAnswerStream,
        plan.actions@[1] == Action::<P>::AddToHistory(
            HistoryEntry::ImageGeneration { call_id, status, revised_prompt, saved_path },
        ),
        plan.actions@[2] is RequestRedraw,
{
}

/// Whether a plan hands an item to the host, to wait in a queue or to go to a handler.
pub open spec fn hands_over<P>(
    plan: Plan<P>,
    item: ThreadItem<P>,
    queue: InterruptQueue,
    handler: ItemHandler,
) -> bool {
    &&& plan.pending is None
    &&& plan.actions@.len() == 1
    &&& plan.actions@[0] == Action::<P>::DeferOrHandle { item, queue, handler }
}

/// What may have to wait is handed over whole: starts wait with starts, ends with ends, each for its own
/// handler.
pub proof fn what_may_wait_is_handed_over<P>(
    chat: ChatWidget<P>,
    item: ThreadItem<P>,
    patched: Plan<P>,
    started: Plan<P>,
    completed: Plan<P>,
)
    requires
        call_ensures(ChatWidget::<P>::on_file_change_completed, (&chat, item), patched),
        call_ensures(ChatWidget::<P>::on_mcp_tool_call_started, (&chat, item), started),
        call_ensures(ChatWidget::<P>::on_mcp_tool_call_completed, (&chat, item), completed),
    ensures
        hands_over(
            patched,
            item,
            InterruptQueue::ItemCompleted,
            ItemHandler::FileChangeCompleted,
        ),
        hands_over(started, item, InterruptQueue::ItemStarted, ItemHandler::McpToolCallStarted),
        hands_over(
            completed,
            item,
            InterruptQueue::ItemCompleted,
            ItemHandler::McpToolCallCompleted,
        ),
{
}

/// A web search that starts takes the place of the active cell, behind the answer so far, and moves where
/// animations and progress effects are both on.
pub proof fn a_search_takes_the_active_cell<P>(chat: ChatWidget<P>, call_id: String, plan: Plan<P>)
    requires
        call_ensures(ChatWidget::<P>::on_web_search_begin, (&chat, call_id), plan),
    ensures
        plan.pending is None,
        plan.actions@.len() == 5,
        plan.actions@[0] is FlushAnswerStream,
        plan.actions@[1] is FlushActiveCell,
        plan.actions@[2] matches Action::SetActiveCell(
            NewCell::WebSearch { call_id: id, query, animated },
        ) && id@ == call_id@ && query@.len() == 0 && (animated <==> chat.context.animations
            && chat.context.progress_effects),
        plan.actions@[3] is BumpActiveCellRevision,
        plan.actions@[4] is RequestRedraw,
{
}

/// A web search that has ended ends in its cell where that is still active, and in the history otherwise,
/// never in both.
pub proof fn a_search_ends_once<P>(
    chat: ChatWidget<P>,
    call_id: String,
    query: String,
    action: P,
    begun: Plan<P>,
    active: ActiveCell,
    ended: Plan<P>,
)
    requires
        call_ensures(
            ChatWidget::<P>::on_web_search_end,
            (&chat, call_id, query, action),
            begun,
        ),
        call_ensures(
            ChatWidget::<P>::resume_web_search_end,
            (&chat, call_id, query, action, &active),
            ended,
        ),
    ensures
        begun.actions@.len() == 1,
        begun.actions@[0] is FlushAnswerStream,
        begun.pending == Some(Pending::<P>::WebSearchEnd { call_id, query, action }),
        ended.pending is None,
        active is WebSearch && active->WebSearch_call_id@ == call_id@ ==> {
            &&& ended.actions@.len() == 4
            &&& ended.actions@[0] == Action::<P>::UpdateWebSearch { action, query }
            &&& ended.actions@[1] is CompleteWebSearch
            &&& ended.actions@[2] is BumpActiveCellRevision
            &&& ended.actions@[3] is FlushActiveCell
        },
        !(active is WebSearch && active->WebSearch_call_id@ == call_id@) ==> {
            &&& ended.actions@.len() == 1
            &&& ended.actions@[0] == Action::<P>::AddToHistory(
                HistoryEntry::WebSearch { call_id, query, action },
            )
        },
{
}

/// A cell that the host has made is put into the history, behind the answer so far.
pub proof fn a_made_cell_is_shown<P>(chat: ChatWidget<P>, cell: P, plan: Plan<P>)
    requires
        call_ensures(ChatWidget::<P>::on_collab_event, (&chat, cell), plan),
    ensures
        plan.pending is None,
        shows_cell(plan.actions@, Some(cell), Seq::<Action<P>>::empty()),
{
    assert(plan.actions@.skip(3) =~= Seq::<Action<P>>::empty());
}

/// Whether a plan tells that a patch failed, and does nothing else.
pub open spec fn tells_failure<P>(plan: Plan<P>) -> bool {
    &&& plan.pending is None
    &&& plan.actions@.len() == 1
    &&& plan.actions@[0] matches Action::AddToHistory(HistoryEntry::PatchApplyFailure { stderr })
        && stderr@.len() == 0
}

/// Whether a plan is to do nothing.
pub open spec fn idle<P>(plan: Plan<P>) -> bool {
    plan.actions@.len() == 0 && plan.pending is None
}

/// A patch that failed is told of, and one that did not is not.
pub proof fn only_a_failed_patch_is_told_of<P>(
    chat: ChatWidget<P>,
    item: ThreadItem<P>,
    plan: Plan<P>,
)
    requires
        call_ensures(ChatWidget::<P>::handle_file_change_completed_now, (&chat, item), plan),
    ensures
        item is FileChange && item->FileChange_status is Failed ==> tells_failure(plan),
        !(item is FileChange && item->FileChange_status is Failed) ==> idle(plan),
{
}

/// What starting a call of an outside tool leads to: computer activity is pending until the host has looked
/// at the active cell, and any other call takes the place of the active cell.
pub open spec fn start_told<P>(chat: ChatWidget<P>, item: ThreadItem<P>, plan: Plan<P>) -> bool {
    if item is McpToolCall {
        &&& plan.actions@.len() > 0
        &&& plan.actions@[0] is FlushAnswerStream
        &&& item->computer_activity ==> {
            &&& plan.actions@.len() == 1
            &&& plan.pending matches Some(Pending::ComputerActivity(ComputerUpdate::Start(call))) && {
                &&& call.id@ == item->id@
                &&& call.invocation.server@ == item->server@
                &&& call.invocation.tool@ == item->tool@
                &&& call.invocation.arguments == Some(item->arguments)
                &&& call.invocation.computer_activity
                &&& call.animated <==> chat.context.animations && chat.context.progress_effects
            }
        }
        &&& !item->computer_activity ==> {
            &&& plan.pending is None
            &&& plan.actions@.len() == 5
            &&& plan.actions@[1] is FlushActiveCell
            &&& plan.actions@[2] matches Action::SetActiveCell(NewCell::McpToolCall(call, None)) && {
                &&& call.id@ == item->id@
                &&& call.invocation.server@ == item->server@
                &&& call.invocation.tool@ == item->tool@
                &&& call.invocation.arguments == Some(item->arguments)
                &&& !call.invocation.computer_activity
                &&& call.animated <==> chat.context.animations && chat.context.progress_effects
            }
            &&& plan.actions@[3] is BumpActiveCellRevision
            &&& plan.actions@[4] is RequestRedraw
        }
    } else {
        idle(plan)
    }
}

/// A call of an outside tool that starts shows itself; what is no such call shows nothing.
pub proof fn a_started_call_is_shown<P>(chat: ChatWidget<P>, item: ThreadItem<P>, plan: Plan<P>)
    requires
        call_ensures(ChatWidget::<P>::handle_mcp_tool_call_started_now, (&chat, item), plan),
    ensures
        start_told(chat, item, plan),
{
}

/// Whether a plan flushes the answer and hands an item that has ended to the host for its history.
pub open spec fn asks_for_history<P>(plan: Plan<P>, item: ThreadItem<P>) -> bool {
    &&& plan.actions@.len() == 1
    &&& plan.actions@[0] is FlushAnswerStream
    &&& plan.pending == Some(Pending::<P>::McpToolCallCompleted(item))
}

/// Whether `update` joins the active cell where that is of computer activity, and else opens a cell behind
/// it, as the first of `actions`. The number of those is `n`.
pub open spec fn joins<P>(
    actions: Seq<Action<P>>,
    active: ActiveCell,
    update: ComputerUpdate<P>,
    n: int,
) -> bool {
    if active is ComputerActivity {
        n == 1 && actions[0] == Action::UpdateComputerActivity(update)
    } else {
        n == 2 && actions[0] is FlushActiveCell && actions[1] == Action::SetActiveCell(
            NewCell::ComputerActivity(update),
        )
    }
}

/// Whether a plan shows computer activity and has the cell drawn anew.
pub open spec fn shows_activity<P>(
    plan: Plan<P>,
    active: ActiveCell,
    update: ComputerUpdate<P>,
) -> bool {
    let n: int = if active is ComputerActivity { 1 } else { 2 };
    &&& plan.pending is None
    &&& plan.actions@.len() == n + 2
    &&& joins(plan.actions@, active, update, n)
    &&& plan.actions@[n] is BumpActiveCellRevision
    &&& plan.actions@[n + 1] is RequestRedraw
}

/// Computer activity joins the active cell where that is of its kind, and else opens a cell behind it.
pub proof fn computer_activity_joins_its_kind<P>(
    chat: ChatWidget<P>,
    update: ComputerUpdate<P>,
    active: ActiveCell,
    actions: Vec<Action<P>>,
    plan: Plan<P>,
)
    requires
        call_ensures(
            ChatWidget::<P>::update_computer_activity,
            (&chat, update, &active),
            actions,
        ),
        call_ensures(ChatWidget::<P>::resume_computer_activity, (&chat, update, &active), plan),
    ensures
        joins(actions@, active, update, actions@.len() as int),
        shows_activity(plan, active, update),
{
}

/// A call of an outside tool that has ended hands its outcome on in any case: of computer activity to the
/// cell of that activity, old or new; of another call to its cell where that is still active, and else to a
/// new one, which is flushed at once. Where the host makes nothing of the item, nothing is shown.
pub proof fn an_ended_call_hands_its_outcome_on<P>(
    chat: ChatWidget<P>,
    item: ThreadItem<P>,
    ended: Plan<P>,
    history: Option<McpHistory<P>>,
    active: ActiveCell,
    plan: Plan<P>,
)
    requires
        call_ensures(ChatWidget::<P>::handle_mcp_tool_call_completed_now, (&chat, item), ended),
        call_ensures(
            ChatWidget::<P>::resume_mcp_tool_call_completed,
            (&chat, history, &active),
            plan,
        ),
    ensures
        asks_for_history(ended, item),
        history is None ==> idle(plan),
        history is Some && history->0.invocation.computer_activity ==> {
            let n: int = if active is ComputerActivity { 1 } else { 2 };
            let shown = if active is ComputerActivity {
                plan.actions@[0]->UpdateComputerActivity_0
            } else {
                plan.actions@[1]->SetActiveCell_0->ComputerActivity_0
            };
            &&& shows_activity(plan, active, shown)
            &&& shown matches ComputerUpdate::Complete(call, outcome) && {
                &&& call.id@ == history->0.id@
                &&& call.invocation == history->0.invocation
                &&& call.animated <==> chat.context.animations && chat.context.progress_effects
                &&& outcome.duration == history->0.duration
                &&& outcome.result == history->0.result
            }
        },
        history is Some && !history->0.invocation.computer_activity && active is McpToolCall
            && active->McpToolCall_call_id@ == history->0.id@ ==> {
            &&& plan.pending is None
            &&& plan.actions@.len() == 2
            &&& plan.actions@[0] matches Action::CompleteMcpToolCall(outcome) && outcome.duration
                == history->0.duration && outcome.result == history->0.result
            &&& plan.actions@[1] is FlushActiveCell
        },
        history is Some && !history->0.invocation.computer_activity && !(active is McpToolCall
            && active->McpToolCall_call_id@ == history->0.id@) ==> {
            &&& plan.pending is None
            &&& plan.actions@.len() == 3
            &&& plan.actions@[0] is FlushActiveCell
            &&& plan.actions@[1] matches Action::SetActiveCell(
                NewCell::McpToolCall(call, Some(outcome)),
            ) && {
                &&& call.id@ == history->0.id@
                &&& call.invocation == history->0.invocation
                &&& call.animated <==> chat.context.animations && chat.context.progress_effects
                &&& outcome.duration == history->0.duration
                &&& outcome.result == history->0.result
            }
            &&& plan.actions@[2] is FlushActiveCell
        },
{
}

/// Older computer activity goes ahead of the active cell where that is of its kind and there is something
/// older, and the revision before is handed on. Otherwise nothing is done.
pub proof fn older_activity_goes_ahead<P>(
    chat: ChatWidget<P>,
    active: ActiveCell,
    older: Option<P>,
    revision: u64,
    prepended: Option<(Vec<Action<P>>, u64)>,
)
    requires
        call_ensures(
            ChatWidget::<P>::prepend_active_computer_history,
            (&chat, &active, older, revision),
            prepended,
        ),
    ensures
        prepended is Some <==> active is ComputerActivity && older is Some,
        prepended matches Some((actions, before)) ==> {
            &&& actions@.len() == 2
            &&& actions@[0] == Action::PrependComputerHistory(older->0)
            &&& actions@[1] is BumpActiveCellRevision
            &&& before == revision
        },
{
}

/// An item that did not have to wait does what its handler does. Only an activity touches the agents.
pub proof fn a_handler_does_its_own_work<P, T: Fn(&str, usize) -> String>(
    chat: &mut ChatWidget<P>,
    item: ThreadItem<P>,
    handler: ItemHandler,
    cell: Option<P>,
    metadata: AgentMetadata,
    now: Instant,
    truncate_text: T,
    plan: Plan<P>,
)
    requires
        old(chat).subagent_panel_registry@.wf(),
        call_ensures(
            ChatWidget::<P>::handle_item_now::<T>,
            (chat, item, handler, cell, metadata, now, &truncate_text),
            plan,
        ),
    ensures
        match handler {
            ItemHandler::FileChangeCompleted => if item is FileChange && item->FileChange_status
                is Failed {
                tells_failure(plan)
            } else {
                idle(plan)
            },
            ItemHandler::McpToolCallStarted => start_told(*old(chat), item, plan),
            ItemHandler::McpToolCallCompleted => asks_for_history(plan, item),
            ItemHandler::SubAgentActivity => {
                &&& plan.pending is None
                &&& shows_cell(plan.actions@, cell, redraw_of(item))
                &&& activity_followed(
                    old(chat).subagent_panel_registry@,
                    old(chat).subagent_panel,
                    item,
                    metadata,
                    now,
                    final(chat).subagent_panel_registry@,
                    final(chat).subagent_panel,
                    truncate_text,
                )
            },
        },
        !(handler is SubAgentActivity) ==> final(chat).subagent_panel_registry@ == old(
            chat,
        ).subagent_panel_registry@ && final(chat).subagent_panel == old(chat).subagent_panel,
        final(chat).context == old(chat).context,
        final(chat).pending_collab_spawn_requests == old(chat).pending_collab_spawn_requests,
{
    lemma_shows_cell(item, cell);
    if handler is SubAgentActivity {
        lemma_activity_followed(
            old(chat).subagent_panel_registry@,
            old(chat).subagent_panel,
            item,
            metadata,
            now,
            final(chat).subagent_panel_registry@,
            final(chat).subagent_panel,
            truncate_text,
        );
    }
}

/// What waited for its start is handled by its kind: commands and dynamic tools by the host, calls of
/// outside tools as if they had not waited, and nothing else.
pub proof fn a_queued_start_goes_by_its_kind<P>(
    chat: ChatWidget<P>,
    item: ThreadItem<P>,
    plan: Plan<P>,
)
    requires
        call_ensures(ChatWidget::<P>::handle_queued_item_started_now, (&chat, item), plan),
    ensures
        item is CommandExecution ==> plan.pending is None && plan.actions@.len() == 1
            && plan.actions@[0] == Action::HandleCommandExecutionStarted(item),
        item is DynamicToolCall ==> plan.pending is None && plan.actions@.len() == 1
            && plan.actions@[0] == Action::HandleDynamicToolItem(item),
        item is McpToolCall ==> start_told(chat, item, plan),
        !(item is CommandExecution || item is DynamicToolCall || item is McpToolCall) ==> idle(
            plan,
        ),
{
}

/// What waited for its end is handled by its kind: commands and dynamic tools by the host, patches, calls of
/// outside tools and activities as if they had not waited, and nothing else.
pub proof fn a_queued_end_goes_by_its_kind<P, T: Fn(&str, usize) -> String>(
    chat: &mut ChatWidget<P>,
    item: ThreadItem<P>,
    cell: Option<P>,
    metadata: AgentMetadata,
    now: Instant,
    truncate_text: T,
    plan: Plan<P>,
)
    requires
        old(chat).subagent_panel_registry@.wf(),
        call_ensures(
            ChatWidget::<P>::handle_queued_item_completed_now::<T>,
            (chat, item, cell, metadata, now, &truncate_text),
            plan,
        ),
    ensures
        item is CommandExecution ==> plan.pending is None && plan.actions@.len() == 1
            && plan.actions@[0] == Action::HandleCommandExecutionCompleted(item),
        item is DynamicToolCall ==> plan.pending is None && plan.actions@.len() == 1
            && plan.actions@[0] == Action::HandleDynamicToolItem(item),
        item is FileChange && item->FileChange_status is Failed ==> tells_failure(plan),
        item is FileChange && !(item->FileChange_status is Failed) ==> idle(plan),
        item is McpToolCall ==> asks_for_history(plan, item),
        item is SubAgentActivity ==> plan.pending is None && shows_cell(
            plan.actions@,
            cell,
            redraw_of(item),
        ),
        item is CollabAgentToolCall || item is Other ==> idle(plan),
        activity_followed(
            old(chat).subagent_panel_registry@,
            old(chat).subagent_panel,
            item,
            metadata,
            now,
            final(chat).subagent_panel_registry@,
            final(chat).subagent_panel,
            truncate_text,
        ),
        final(chat).context == old(chat).context,
        final(chat).pending_collab_spawn_requests == old(chat).pending_collab_spawn_requests,
{
    lemma_shows_cell(item, cell);
    lemma_activity_followed(
        old(chat).subagent_panel_registry@,
        old(chat).subagent_panel,
        item,
        metadata,
        now,
        final(chat).subagent_panel_registry@,
        final(chat).subagent_panel,
        truncate_text,
    );
}

/// Whether an action tells the user `message` and nothing more.
pub open spec fn tells_user<P>(action: Action<P>, message: Seq<char>) -> bool {
    &&& action is AddInfoMessage
    &&& action->AddInfoMessage_message@ == message
    &&& action->AddInfoMessage_hint is None
}

/// Whether an entry offers a provider: under its name, with its identity, marked where it is the current
/// one, and switching to it.
pub open spec fn offers(item: SelectionItem, provider: ModelProvider, current: Seq<char>) -> bool {
    &&& item.name@ == provider.name@
    &&& item.description is Some && item.description->0@ == provider.id@
    &&& item.selects_provider@ == provider.id@
    &&& item.is_current <==> provider.id@ == current
    &&& item.dismiss_on_select
}

/// Whether the first difference of two texts puts `left` before `right`.
pub open spec fn ascends(left: Seq<char>, right: Seq<char>) -> bool {
    exists|k: int| decides(left, right, k)
}

/// Whether `items` offer each of the providers once, and `from` tells which is which: the identities ascend
/// by the first character in which they differ.
pub open spec fn offers_all(
    items: Seq<SelectionItem>,
    providers: Seq<ModelProvider>,
    current: Seq<char>,
    from: Seq<int>,
) -> bool {
    &&& items.len() == providers.len()
    &&& from.len() == providers.len()
    &&& from.no_duplicates()
    &&& forall|k: int|
        0 <= k < from.len() ==> 0 <= #[trigger] from[k] < providers.len() && offers(
            items[k],
            providers[from[k]],
            current,
        )
    &&& distinct_ids(providers) ==> forall|i: int, j: int|
        0 <= i < j < from.len() ==> ascends(
            providers[#[trigger] from[i]].id@,
            providers[#[trigger] from[j]].id@,
        )
}

/// Before startup completes the user is told so; after that the providers are offered, each once, in the
/// order of their identities.
pub proof fn the_popup_offers_each_provider<P>(chat: ChatWidget<P>, actions: Vec<Action<P>>)
    requires
        call_ensures(ChatWidget::<P>::open_provider_popup, (&chat,), actions),
    ensures
        actions@.len() == 1,
        !chat.context.session_configured ==> tells_user(
            actions@[0],
            "Provider selection is disabled until startup completes."@,
        ),
        chat.context.session_configured ==> {
            &&& actions@[0] is ShowSelectionView
            &&& actions@[0]->ShowSelectionView_0.standard_footer_hint
            &&& actions@[0]->ShowSelectionView_0.header@.len() == 2
            &&& actions@[0]->ShowSelectionView_0.header@[0]@.len() == 1
            &&& reads(
                actions@[0]->ShowSelectionView_0.header@[0]@[0],
                "Select Model Provider"@,
                coat(None, true, false, false),
            )
            &&& actions@[0]->ShowSelectionView_0.header@[1]@.len() == 1
            &&& reads(
                actions@[0]->ShowSelectionView_0.header@[1]@[0],
                "Switch this session to another configured provider."@,
                coat(None, false, true, false),
            )
            &&& exists|from: Seq<int>|
                offers_all(
                    actions@[0]->ShowSelectionView_0.items@,
                    chat.context.model_providers@,
                    chat.context.model_provider_id@,
                    from,
                )
        },
{
    if chat.context.session_configured {
        let providers = chat.context.model_providers@;
        let current = chat.context.model_provider_id@;
        let view = actions@[0]->ShowSelectionView_0;
        let headers = line_views(view.header@);
        assert(headers.len() == view.header@.len());
        assert(headers[0] == view.header@[0]@ && headers[1] == view.header@[1]@);
        let sorted = by_rank(providers);
        let from = sorting_moves_each_item(providers);
        let items = view.items@;
        assert forall|k: int| 0 <= k < from.len() implies 0 <= #[trigger] from[k] < providers.len()
            && offers(items[k], providers[from[k]], current) by {
            assert(sorted[k] == providers[from[k]]);
        }
        if distinct_ids(providers) {
            assert forall|i: int, j: int| 0 <= i < j < from.len() implies ascends(
                providers[#[trigger] from[i]].id@,
                providers[#[trigger] from[j]].id@,
            ) by {
                let a = providers[from[i]];
                let b = providers[from[j]];
                assert(sorted[i] == a && sorted[j] == b);
                assert(from[i] != from[j]);
                assert(a.id@ != b.id@);
                assert(sorted[i].precedes(sorted[j]) || !sorted[j].precedes(sorted[i]));
                crate::text::texts_are_ordered(a.id@, b.id@);
                crate::text_laws::lemma_decides(a.id@, b.id@);
            }
        }
        assert(items.len() == sorted.len());
        assert(offers_all(items, providers, current, from));
    }
}

/// Without a thread the user is told so. With one its features are fetched and then shown, and what the
/// fetch brings goes into the channel that the list is at the other end of.
pub proof fn the_features_of_a_thread_fill_the_list<P>(
    chat: ChatWidget<P>,
    actions: Vec<Action<P>>,
)
    requires
        call_ensures(ChatWidget::<P>::open_experimental_popup, (&chat,), actions),
    ensures
        chat.context.thread_id is None ==> actions@.len() == 1 && tells_user(
            actions@[0],
            "Experimental features are unavailable until startup completes."@,
        ),
        chat.context.thread_id is Some ==> {
            &&& actions@.len() == 2
            &&& actions@[0] is FetchExperimentalFeatures
            &&& actions@[0]->FetchExperimentalFeatures_thread_id@ == chat.context.thread_id->0@
            &&& actions@[1] is ShowExperimentalFeatures
            &&& actions@[1]->ShowExperimentalFeatures_thread_id@ == chat.context.thread_id->0@
            &&& call_ensures(
                tokio::sync::oneshot::channel::<P>,
                (),
                (
                    actions@[0]->FetchExperimentalFeatures_response_tx,
                    actions@[1]->ShowExperimentalFeatures_response_rx,
                ),
            )
        },
{
}

/// The ends that are handed in go to the fetch and to the list.
pub proof fn the_ends_go_where_they_belong<P>(
    chat: ChatWidget<P>,
    thread_id: ThreadId,
    ends: (tokio::sync::oneshot::Sender<P>, tokio::sync::oneshot::Receiver<P>),
    actions: Vec<Action<P>>,
)
    requires
        call_ensures(
            ChatWidget::<P>::experimental_features_actions,
            (&chat, &thread_id, ends),
            actions,
        ),
    ensures
        actions@.len() == 2,
        actions@[0] == (Action::<P>::FetchExperimentalFeatures { thread_id, response_tx: ends.0 }),
        actions@[1] == (Action::<P>::ShowExperimentalFeatures { thread_id, response_rx: ends.1 }),
{
}

} // verus!
