//! What holds of the chat over several calls.

use vstd::prelude::*;

use crate::actions::{
    Action, ActiveCell, ComputerUpdate, InterruptQueue, ItemHandler, McpOutcome, NewCell, PlanView,
};
use crate::chat_widget::{
    call_recorded, last_report, rebuilt, waited, ChatContext, ModelProvider,
};
use crate::clock::Instant;
use crate::panel::SubagentStatusCell;
use crate::panel_laws::{is_active, the_panel_is_up_while_agents_are_active};
use crate::protocol::{
    AgentMetadata, CollabAgentTool, CollabAgentToolCall, CollabAgentToolCallStatus, McpHistory,
    Addressee, SubAgentActivityKind, ThreadItem,
};
use crate::registry::{lemma_closed_wf, lemma_tracking_wf, RegistryView};
use crate::settings_popups::{provider_item, provider_items};
use crate::sort::{
    by_rank, sorting_forgets_the_order, sorting_ranks_the_same_items, tells_apart, ties, Ranked,
};
use crate::status::CollabAgentState;
use crate::text::{text_before, texts_are_ordered};
use crate::tool_lifecycle::{
    activity_handled, computer_actions, deferral, handled_plan, mcp_history_plan, mcp_started_plan,
    queued_completed_plan, queued_started_plan, request_taken, requests_after,
};

verus! {

/// A call in progress changes neither what is tracked nor the panel.
pub proof fn a_call_in_progress_changes_nothing<T: Fn(&str, usize) -> String>(
    truncate_text: T,
    before: RegistryView,
    panel_before: Option<SubagentStatusCell>,
    call: CollabAgentToolCall,
    metadata: AgentMetadata,
    now: Instant,
    after: RegistryView,
    panel: Option<SubagentStatusCell>,
)
    requires
        call.status == CollabAgentToolCallStatus::InProgress,
        call_recorded(
            truncate_text,
            before,
            panel_before,
            call,
            metadata,
            now,
            after,
            panel,
        ),
    ensures
        after == before,
        panel == panel_before,
{
}

/// Listing the agents changes neither what is tracked nor the panel.
pub proof fn a_listing_changes_nothing<T: Fn(&str, usize) -> String>(
    truncate_text: T,
    before: RegistryView,
    panel_before: Option<SubagentStatusCell>,
    call: CollabAgentToolCall,
    metadata: AgentMetadata,
    now: Instant,
    after: RegistryView,
    panel: Option<SubagentStatusCell>,
)
    requires
        call.tool == CollabAgentTool::ListAgents,
        call_recorded(
            truncate_text,
            before,
            panel_before,
            call,
            metadata,
            now,
            after,
            panel,
        ),
    ensures
        after == before,
        panel == panel_before,
{
}

/// A finished call to close an agent leaves it untracked, and the panel up exactly while another agent
/// is active.
pub proof fn a_finished_closing_takes_the_agent_out<T: Fn(&str, usize) -> String>(
    truncate_text: T,
    before: RegistryView,
    panel_before: Option<SubagentStatusCell>,
    call: CollabAgentToolCall,
    metadata: AgentMetadata,
    now: Instant,
    after: RegistryView,
    panel: Option<SubagentStatusCell>,
)
    requires
        before.wf(),
        call.tool == CollabAgentTool::CloseAgent,
        call.status != CollabAgentToolCallStatus::InProgress,
        call.addressee() is Some,
        call_recorded(
            truncate_text,
            before,
            panel_before,
            call,
            metadata,
            now,
            after,
            panel,
        ),
    ensures
        !after.agents.contains_key(call.addressee()->0),
        panel is Some <==> exists|t: Seq<char>|
            is_active(before, t) && t != call.addressee()->0,
{
    let thread = call.addressee()->0;
    let mid = before.closed(thread);
    lemma_closed_wf(before, thread);
    the_panel_is_up_while_agents_are_active(mid, panel, after);
    if panel is Some {
        let t = choose|t: Seq<char>| is_active(mid, t);
        assert(is_active(before, t) && t != thread);
    }
    if exists|t: Seq<char>| is_active(before, t) && t != thread {
        let t = choose|t: Seq<char>| is_active(before, t) && t != thread;
        assert(is_active(mid, t));
    }
}

proof fn lemma_no_report(
    receivers: Seq<Addressee>,
    states: Map<Seq<char>, CollabAgentState>,
    thread: Seq<char>,
)
    requires
        forall|i: int|
            0 <= i < receivers.len() && (#[trigger] receivers[i]).thread_id is Some
                && states.contains_key(receivers[i].text@) ==> receivers[i].thread_id->0@ != thread,
    ensures
        last_report(receivers, states, thread) is None,
    decreases receivers.len(),
{
    if receivers.len() > 0 {
        let rest = receivers.drop_last();
        assert(receivers[receivers.len() - 1] == receivers.last());
        assert forall|i: int|
            0 <= i < rest.len() && (#[trigger] rest[i]).thread_id is Some && states.contains_key(
                rest[i].text@,
            ) implies rest[i].thread_id->0@ != thread by {
            assert(rest[i] == receivers[i]);
        }
        lemma_no_report(rest, states, thread);
    }
}

/// A wait leaves alone the agents that it was not addressed to, or of which no state came.
pub proof fn a_wait_leaves_the_others<T: Fn(&str, usize) -> String>(
    truncate_text: T,
    before: RegistryView,
    receivers: Seq<Addressee>,
    states: Map<Seq<char>, CollabAgentState>,
    now: Instant,
    after: RegistryView,
    thread: Seq<char>,
)
    requires
        before.wf(),
        before.agents.contains_key(thread),
        waited(truncate_text, before, receivers, states, now, after),
        forall|i: int|
            0 <= i < receivers.len() && (#[trigger] receivers[i]).thread_id is Some
                && states.contains_key(receivers[i].text@) ==> receivers[i].thread_id->0@ != thread,
    ensures
        after.agents[thread] == before.agents[thread],
{
    lemma_no_report(receivers, states, thread);
}

/// A wait that brings no states changes nothing in what is tracked.
pub proof fn a_wait_without_states_changes_nothing<T: Fn(&str, usize) -> String>(
    truncate_text: T,
    before: RegistryView,
    receivers: Seq<Addressee>,
    now: Instant,
    after: RegistryView,
)
    requires
        before.wf(),
        waited(truncate_text, before, receivers, Map::empty(), now, after),
    ensures
        after == before,
{
    assert forall|t: Seq<char>| #[trigger] before.agents.contains_key(t) implies after.agents[t]
        == before.agents[t] by {
        lemma_no_report(receivers, Map::empty(), t);
    }
    assert(after.agents =~= before.agents);
}

/// A new or continued activity of an agent that has not ended mounts the panel.
pub proof fn an_activity_mounts_the_panel<P, T: Fn(&str, usize) -> String>(
    truncate_text: T,
    before: RegistryView,
    panel_before: Option<SubagentStatusCell>,
    item: ThreadItem<P>,
    metadata: AgentMetadata,
    now: Instant,
    after: RegistryView,
    panel: Option<SubagentStatusCell>,
)
    requires
        before.wf(),
        item is SubAgentActivity,
        item->SubAgentActivity_0.thread_id is Some,
        item->SubAgentActivity_0.kind == SubAgentActivityKind::Started
            || item->SubAgentActivity_0.kind == SubAgentActivityKind::Interacted,
        before.agents.contains_key(item->SubAgentActivity_0.thread_id->0@) ==> is_active(
            before,
            item->SubAgentActivity_0.thread_id->0@,
        ),
        activity_handled(
            truncate_text,
            before,
            panel_before,
            item,
            metadata,
            now,
            after,
            panel,
        ),
    ensures
        panel is Some,
        is_active(after, item->SubAgentActivity_0.thread_id->0@),
{
    let thread = item->SubAgentActivity_0.thread_id->0@;
    let mid = RegistryView { mounted: before.mounted, ..after };
    assert(rebuilt(mid, panel, after));
    assert(is_active(mid, thread));
    lemma_tracking_wf(before, thread, mid.agents[thread]);
    the_panel_is_up_while_agents_are_active(mid, panel, after);
}

/// The request of a spawn comes back when the spawn ends, and then waits no more.
pub proof fn a_spawn_request_comes_back_once<P>(
    pending: Map<Seq<char>, P>,
    id: Seq<char>,
    request: P,
    status: CollabAgentToolCallStatus,
)
    requires
        status != CollabAgentToolCallStatus::InProgress,
    ensures
        ({
            let started = requests_after(
                pending,
                id,
                CollabAgentTool::SpawnAgent,
                CollabAgentToolCallStatus::InProgress,
                Some(request),
            );
            let ended = requests_after(started, id, CollabAgentTool::SpawnAgent, status, None);
            &&& request_taken(started, id, CollabAgentTool::SpawnAgent, status, None) == Some(
                request,
            )
            &&& ended == pending.remove(id)
            &&& request_taken(ended, id, CollabAgentTool::SpawnAgent, status, None) is None
        }),
{
    assert(pending.insert(id, request).remove(id) =~= pending.remove(id));
}

/// A call leaves alone the requests of other calls, and one that is no spawn leaves alone all of them.
pub proof fn a_call_keeps_the_requests_of_others<P>(
    pending: Map<Seq<char>, P>,
    id: Seq<char>,
    tool: CollabAgentTool,
    status: CollabAgentToolCallStatus,
    request: Option<P>,
    other: Seq<char>,
)
    requires
        other != id || tool != CollabAgentTool::SpawnAgent,
    ensures
        ({
            let after = requests_after(pending, id, tool, status, request);
            &&& after.contains_key(other) <==> pending.contains_key(other)
            &&& pending.contains_key(other) ==> after[other] == pending[other]
        }),
        tool != CollabAgentTool::SpawnAgent ==> request_taken(pending, id, tool, status, request)
            is None,
{
}

/// A call of an outside tool that was started outside computer activity, and whose cell is still
/// active when it ends, is completed in that cell.
pub proof fn a_started_call_ends_in_its_cell<P>(
    context: ChatContext,
    item: ThreadItem<P>,
    history: McpHistory<P>,
    active: ActiveCell,
)
    requires
        item is McpToolCall,
        !item->computer_activity,
        !history.invocation.computer_activity,
        active is McpToolCall,
        active->McpToolCall_call_id@ == item->id@,
        history.id@ == item->id@,
    ensures
        mcp_started_plan(context, item).actions.len() == 5,
        mcp_started_plan(context, item).actions[2] matches Action::SetActiveCell(
            NewCell::McpToolCall(call, None),
        ) && call.id == item->id,
        mcp_history_plan(context, Some(history), active).actions == seq![
            Action::CompleteMcpToolCall(
                McpOutcome { duration: history.duration, result: history.result },
            ),
            Action::FlushActiveCell,
        ],
{
}

/// A call of an outside tool that has ended leaves no active cell of its own behind, unless it belongs
/// to computer activity.
pub proof fn an_ended_call_is_flushed<P>(
    context: ChatContext,
    history: McpHistory<P>,
    active: ActiveCell,
)
    requires
        !history.invocation.computer_activity,
    ensures
        mcp_history_plan(context, Some(history), active).actions.len() > 0,
        mcp_history_plan(context, Some(history), active).actions.last()
            == Action::<P>::FlushActiveCell,
        mcp_history_plan(context, Some(history), active).pending is None,
{
}

/// Computer activity shares the active cell exactly where that is of its kind: any other cell is
/// flushed first.
pub proof fn only_adjacent_computer_activity_shares_a_cell<P>(
    update: ComputerUpdate<P>,
    active: ActiveCell,
)
    ensures
        computer_actions(update, active).contains(Action::FlushActiveCell) <==> !(
        active is ComputerActivity),
        computer_actions(update, active).contains(Action::UpdateComputerActivity(update)) <==> active
            is ComputerActivity,
{
    let actions = computer_actions(update, active);
    if active is ComputerActivity {
        assert(actions[0] == Action::UpdateComputerActivity(update));
    } else {
        assert(actions[0] == Action::<P>::FlushActiveCell);
    }
}

/// A call of an outside tool whose start had to wait is handled as one whose start had not.
pub proof fn a_deferred_start_is_handled_alike<P>(
    context: ChatContext,
    item: ThreadItem<P>,
    cell: Option<P>,
    plan: PlanView<P>,
)
    requires
        item is McpToolCall,
    ensures
        handled_plan(context, item, ItemHandler::McpToolCallStarted, cell, plan) <==> plan
            == queued_started_plan(context, item),
{
}

/// A patch, a call of an outside tool or an activity whose end had to wait is handled as one whose end
/// had not.
pub proof fn a_deferred_end_is_handled_alike<P>(
    context: ChatContext,
    item: ThreadItem<P>,
    handler: ItemHandler,
    cell: Option<P>,
    plan: PlanView<P>,
)
    requires
        match handler {
            ItemHandler::FileChangeCompleted => item is FileChange,
            ItemHandler::McpToolCallStarted => false,
            ItemHandler::McpToolCallCompleted => item is McpToolCall,
            ItemHandler::SubAgentActivity => item is SubAgentActivity,
        },
    ensures
        handled_plan(context, item, handler, cell, plan) <==> queued_completed_plan(
            item,
            cell,
            plan,
        ),
{
}

/// An item that may have to wait flushes nothing before it is handled: a streaming answer stays whole.
pub proof fn a_deferral_flushes_nothing<P>(
    item: ThreadItem<P>,
    queue: InterruptQueue,
    handler: ItemHandler,
)
    ensures
        !deferral(item, queue, handler).actions.contains(Action::FlushAnswerStream),
        !deferral(item, queue, handler).actions.contains(Action::FlushActiveCell),
        deferral(item, queue, handler).pending is None,
{
}

/// Whether no two providers have the same identity.
pub open spec fn distinct_ids(providers: Seq<ModelProvider>) -> bool {
    forall|i: int, j: int|
        0 <= i < providers.len() && 0 <= j < providers.len() && i != j ==> (
        #[trigger] providers[i]).id@ != (#[trigger] providers[j]).id@
}

proof fn lemma_ids_tell_apart(providers: Seq<ModelProvider>)
    requires
        distinct_ids(providers),
    ensures
        tells_apart(providers),
        providers.no_duplicates(),
{
    assert forall|a: ModelProvider, b: ModelProvider|
        #![trigger providers.contains(a), providers.contains(b)]
        providers.contains(a) && providers.contains(b) && ties(a, b) implies a == b by {
        texts_are_ordered(a.id@, b.id@);
        let i = choose|i: int| 0 <= i < providers.len() && providers[i] == a;
        let j = choose|j: int| 0 <= j < providers.len() && providers[j] == b;
    }
    assert forall|i: int, j: int|
        0 <= i < providers.len() && 0 <= j < providers.len() && i != j implies providers[i]
        != providers[j] by {
        assert(providers[i].id@ != providers[j].id@);
    }
}

/// In which order the providers are found makes no difference to their list.
pub proof fn the_order_of_providers_makes_no_difference(
    one: Seq<ModelProvider>,
    two: Seq<ModelProvider>,
    current: Seq<char>,
)
    requires
        distinct_ids(one),
        one.to_multiset() == two.to_multiset(),
    ensures
        provider_items(one, current) == provider_items(two, current),
{
    lemma_ids_tell_apart(one);
    sorting_forgets_the_order(one, two);
}

/// The list has one entry for each provider, their identities strictly ascending, and at most one of
/// them is current.
pub proof fn each_provider_is_listed_once(providers: Seq<ModelProvider>, current: Seq<char>)
    requires
        distinct_ids(providers),
    ensures
        provider_items(providers, current).len() == providers.len(),
        forall|i: int|
            0 <= i < providers.len() ==> provider_items(providers, current).contains(
                provider_item(#[trigger] providers[i], current),
            ),
        forall|i: int, j: int|
            0 <= i < j < providers.len() ==> !((
            #[trigger] provider_items(providers, current)[i]).is_current && (
            #[trigger] provider_items(providers, current)[j]).is_current),
        forall|i: int, j: int|
            0 <= i < j < providers.len() ==> text_before(
                (#[trigger] provider_items(providers, current)[i]).description->0@,
                (#[trigger] provider_items(providers, current)[j]).description->0@,
            ),
{
    broadcast use vstd::seq_lib::group_to_multiset_ensures;

    let sorted = by_rank(providers);
    let items = provider_items(providers, current);
    lemma_ids_tell_apart(providers);
    sorting_ranks_the_same_items(providers);
    assert forall|i: int| 0 <= i < providers.len() implies items.contains(
        provider_item(#[trigger] providers[i], current),
    ) by {
        assert(providers.contains(providers[i]));
        assert(providers.to_multiset().count(providers[i]) > 0);
        assert(sorted.contains(providers[i]));
        let k = choose|k: int| 0 <= k < sorted.len() && sorted[k] == providers[i];
        assert(items[k] == provider_item(providers[i], current));
    }
    providers.lemma_multiset_has_no_duplicates();
    sorted.lemma_multiset_has_no_duplicates_conv();
    assert forall|i: int, j: int| 0 <= i < j < providers.len() implies !((
    #[trigger] items[i]).is_current && (#[trigger] items[j]).is_current) && text_before(
        items[i].description->0@,
        items[j].description->0@,
    ) by {
        assert(sorted.contains(sorted[i]) && sorted.contains(sorted[j]));
        assert(sorted.to_multiset().count(sorted[i]) > 0);
        assert(sorted.to_multiset().count(sorted[j]) > 0);
        assert(providers.contains(sorted[i]) && providers.contains(sorted[j]));
        let a = choose|a: int| 0 <= a < providers.len() && providers[a] == sorted[i];
        let b = choose|b: int| 0 <= b < providers.len() && providers[b] == sorted[j];
        assert(sorted[i] != sorted[j]);
        assert(providers[a].id@ != providers[b].id@);
        assert(!sorted[j].precedes(sorted[i]));
        texts_are_ordered(sorted[i].id@, sorted[j].id@);
    }
}

} // verus!
