//! What calls and activities of agents do to the panel, told by what was reported.

use vstd::prelude::*;

use crate::actions::{Action, HistoryEntry, InterruptQueue, ItemHandler, Pending, Plan};
use crate::agent_laws::{goes_on, lemma_tells, stands_for, tells};
use crate::chat_widget::{call_recorded, concerns_panel, last_report, recorded, ChatWidget};
use crate::clock::Instant;
use crate::display_laws::{lemma_panel_told, panel_told};
use crate::panel::SubagentStatusCell;
use crate::protocol::{
    Addressee, AgentMetadata, CollabAgentTool, CollabAgentToolCall, SubAgentActivity,
    SubAgentActivityKind, ThreadItem,
};
use crate::registry::RegistryView;
use crate::status::{CollabAgentState, PanelAgentStatus};
use crate::tool_lifecycle::activity_handled;
use crate::tracking_laws::{
    activity_told, closing_told, lemma_activity_told, lemma_closing_told, lemma_report_told,
    lemma_spawn_told, report_told, spawn_told, stays_the_agent,
};

verus! {

/// Whether the panel shows the agents as they are now: it is up while one of them is starting or at work,
/// and updates what was mounted before.
pub open spec fn panel_follows(
    before: RegistryView,
    after: RegistryView,
    panel: Option<SubagentStatusCell>,
) -> bool {
    &&& panel is Some <==> exists|t: Seq<char>| #[trigger]
        after.agents.contains_key(t) && goes_on(after.agents[t].status)
    &&& panel is Some ==> panel_told(RegistryView { mounted: before.mounted, ..after }, panel->0)
    &&& after.mounted <==> panel is Some
}

/// The state that came under `text` with a call, if one did.
pub open spec fn came(call: CollabAgentToolCall, text: Seq<char>) -> bool {
    call.agents_states@.contains_key(text)
}

/// Whether a call may change the panel: it has ended, is no listing, and is a wait or has a first receiver
/// that names a thread.
pub open spec fn moves_panel(call: CollabAgentToolCall) -> bool {
    &&& !(call.status is InProgress)
    &&& !(call.tool is ListAgents)
    &&& call.tool is Wait || (call.receivers@.len() > 0 && call.receivers@[0].thread_id is Some)
}

/// Whether the receiver at `i` names `thread` and a state came under its text.
pub open spec fn tells_of(call: CollabAgentToolCall, i: int, thread: Seq<char>) -> bool {
    &&& call.receivers@[i].thread_id is Some
    &&& call.receivers@[i].thread_id->0@ == thread
    &&& came(call, call.receivers@[i].text@)
}

/// Whether the receiver at `i` is the last that tells of its thread.
pub open spec fn has_the_last_word(call: CollabAgentToolCall, i: int) -> bool {
    &&& 0 <= i < call.receivers@.len()
    &&& call.receivers@[i].thread_id is Some
    &&& came(call, call.receivers@[i].text@)
    &&& forall|j: int|
        i < j < call.receivers@.len() ==> !(#[trigger] tells_of(
            call,
            j,
            call.receivers@[i].thread_id->0@,
        ))
}

/// What a finished wait leads to: each receiver that has the last word on a tracked agent gives it its
/// status, and the other agents stay as they are.
pub open spec fn wait_told<T: Fn(&str, usize) -> String>(
    before: RegistryView,
    after: RegistryView,
    call: CollabAgentToolCall,
    now: Instant,
    truncate_text: T,
) -> bool {
    &&& after.agents.dom() == before.agents.dom()
    &&& after.order == before.order
    &&& forall|i: int| #[trigger]
        has_the_last_word(call, i) && before.agents.contains_key(
            call.receivers@[i].thread_id->0@,
        ) ==> {
            let thread = call.receivers@[i].thread_id->0@;
            let info = after.agents[thread];
            &&& stands_for(call.agents_states@[call.receivers@[i].text@], info.status)
            &&& tells(truncate_text, info, info.status, now)
            &&& stays_the_agent(before.agents[thread], info)
        }
    &&& forall|t: Seq<char>| #[trigger]
        before.agents.contains_key(t) && (forall|i: int|
            0 <= i < call.receivers@.len() ==> !(#[trigger] tells_of(call, i, t)))
            ==> after.agents[t] == before.agents[t]
}

/// What a finished call leads to, told by its tool and by what came with it.
pub open spec fn call_told<T: Fn(&str, usize) -> String>(
    before: RegistryView,
    after: RegistryView,
    call: CollabAgentToolCall,
    metadata: AgentMetadata,
    now: Instant,
    truncate_text: T,
) -> bool {
    let thread = call.receivers@[0].thread_id->0@;
    let status = after.agents[thread].status;
    match call.tool {
        CollabAgentTool::SpawnAgent => {
            &&& spawn_told(
                before,
                after,
                thread,
                metadata.agent_nickname,
                metadata.agent_role,
                if call.prompt is Some {
                    call.prompt->0@
                } else {
                    Seq::empty()
                },
                status,
                now,
                truncate_text,
            )
            &&& came(call, thread) ==> stands_for(call.agents_states@[thread], status)
            &&& !came(call, thread) ==> status is PendingInit
        },
        CollabAgentTool::SendInput
        | CollabAgentTool::ResumeAgent
        | CollabAgentTool::SendMessage
        | CollabAgentTool::FollowupTask => {
            &&& report_told(before, after, thread, status, now, truncate_text)
            &&& before.agents.contains_key(thread) && came(call, thread) ==> stands_for(
                call.agents_states@[thread],
                status,
            )
            &&& before.agents.contains_key(thread) && !came(call, thread) ==> status is Errored
                && status->Errored_0@ == "Agent interaction failed"@
        },
        CollabAgentTool::Wait => wait_told(before, after, call, now, truncate_text),
        CollabAgentTool::CloseAgent => closing_told(before, after, thread),
        CollabAgentTool::InterruptAgent => report_told(
            before,
            after,
            thread,
            PanelAgentStatus::Interrupted,
            now,
            truncate_text,
        ),
        CollabAgentTool::ListAgents => false,
    }
}

proof fn lemma_last_word(call: CollabAgentToolCall, i: int)
    requires
        has_the_last_word(call, i),
    ensures
        last_report(
            call.receivers@,
            call.agents_states@,
            call.receivers@[i].thread_id->0@,
        ) == Some(call.agents_states@[call.receivers@[i].text@]),
{
    let thread = call.receivers@[i].thread_id->0@;
    assert forall|j: int| i < j < call.receivers@.len() implies !names_with_state(
        call.receivers@,
        call.agents_states@,
        #[trigger] call.receivers@[j],
        thread,
    ) by {
        assert(!tells_of(call, j, thread));
    }
    lemma_last_report(call.receivers@, call.agents_states@, thread, i);
}

spec fn names_with_state(
    receivers: Seq<Addressee>,
    states: Map<Seq<char>, CollabAgentState>,
    receiver: Addressee,
    thread: Seq<char>,
) -> bool {
    receiver.thread_id is Some && receiver.thread_id->0@ == thread && states.contains_key(
        receiver.text@,
    )
}

proof fn lemma_last_report(
    receivers: Seq<Addressee>,
    states: Map<Seq<char>, CollabAgentState>,
    thread: Seq<char>,
    i: int,
)
    requires
        0 <= i < receivers.len(),
        names_with_state(receivers, states, receivers[i], thread),
        forall|j: int|
            i < j < receivers.len() ==> !names_with_state(
                receivers,
                states,
                #[trigger] receivers[j],
                thread,
            ),
    ensures
        last_report(receivers, states, thread) == Some(states[receivers[i].text@]),
    decreases receivers.len(),
{
    if i < receivers.len() - 1 {
        let rest = receivers.drop_last();
        assert(!names_with_state(receivers, states, receivers[receivers.len() - 1], thread));
        assert(rest[i] == receivers[i]);
        assert forall|j: int| i < j < rest.len() implies !names_with_state(
            rest,
            states,
            #[trigger] rest[j],
            thread,
        ) by {
            assert(rest[j] == receivers[j]);
            assert(!names_with_state(receivers, states, receivers[j], thread));
        }
        lemma_last_report(rest, states, thread, i);
    }
}

proof fn lemma_no_word(
    receivers: Seq<Addressee>,
    states: Map<Seq<char>, CollabAgentState>,
    thread: Seq<char>,
)
    requires
        forall|i: int|
            0 <= i < receivers.len() ==> !names_with_state(
                receivers,
                states,
                #[trigger] receivers[i],
                thread,
            ),
    ensures
        last_report(receivers, states, thread) is None,
    decreases receivers.len(),
{
    if receivers.len() > 0 {
        let rest = receivers.drop_last();
        assert(!names_with_state(receivers, states, receivers[receivers.len() - 1], thread));
        assert forall|i: int| 0 <= i < rest.len() implies !names_with_state(
            rest,
            states,
            #[trigger] rest[i],
            thread,
        ) by {
            assert(rest[i] == receivers[i]);
            assert(!names_with_state(receivers, states, receivers[i], thread));
        }
        lemma_no_word(rest, states, thread);
    }
}

proof fn lemma_wait_told<T: Fn(&str, usize) -> String>(
    before: RegistryView,
    after: RegistryView,
    call: CollabAgentToolCall,
    now: Instant,
    truncate_text: T,
)
    requires
        crate::chat_widget::waited(
            truncate_text,
            before,
            call.receivers@,
            call.agents_states@,
            now,
            after,
        ),
    ensures
        wait_told(before, after, call, now, truncate_text),
{
    assert forall|i: int| #[trigger]
        has_the_last_word(call, i) && before.agents.contains_key(
            call.receivers@[i].thread_id->0@,
        ) implies {
        let thread = call.receivers@[i].thread_id->0@;
        let info = after.agents[thread];
        &&& stands_for(call.agents_states@[call.receivers@[i].text@], info.status)
        &&& tells(truncate_text, info, info.status, now)
        &&& stays_the_agent(before.agents[thread], info)
    } by {
        let thread = call.receivers@[i].thread_id->0@;
        lemma_last_word(call, i);
        lemma_tells(truncate_text, after.agents[thread], after.agents[thread].status, now);
    }
    assert forall|t: Seq<char>| #[trigger]
        before.agents.contains_key(t) && (forall|i: int|
            0 <= i < call.receivers@.len() ==> !(#[trigger] tells_of(
                call,
                i,
                t,
            ))) implies after.agents[t] == before.agents[t] by {
        assert forall|i: int| 0 <= i < call.receivers@.len() implies !names_with_state(
            call.receivers@,
            call.agents_states@,
            #[trigger] call.receivers@[i],
            t,
        ) by {
            assert(!tells_of(call, i, t));
        }
        lemma_no_word(call.receivers@, call.agents_states@, t);
    }
}

proof fn lemma_call_told<T: Fn(&str, usize) -> String>(
    before: RegistryView,
    panel_before: Option<SubagentStatusCell>,
    call: CollabAgentToolCall,
    metadata: AgentMetadata,
    now: Instant,
    after: RegistryView,
    panel: Option<SubagentStatusCell>,
    truncate_text: T,
)
    requires
        before.wf(),
        after.wf(),
        call_recorded(
            truncate_text,
            before,
            panel_before,
            call,
            metadata,
            now,
            after,
            panel,
        ),
    ensures
        concerns_panel(call) <==> moves_panel(call),
        moves_panel(call) ==> call_told(
            before,
            RegistryView { mounted: before.mounted, ..after },
            call,
            metadata,
            now,
            truncate_text,
        ) && panel_follows(before, after, panel),
        !moves_panel(call) ==> after == before && panel == panel_before,
{
    let mid = RegistryView { mounted: before.mounted, ..after };
    let thread = call.receivers@[0].thread_id->0@;
    if moves_panel(call) {
        let status = mid.agents[thread].status;
        match call.tool {
            CollabAgentTool::SpawnAgent => {
                lemma_spawn_told(
                    before,
                    mid,
                    thread,
                    metadata.agent_nickname,
                    metadata.agent_role,
                    if call.prompt is Some {
                        call.prompt->0@
                    } else {
                        Seq::empty()
                    },
                    status,
                    now,
                    truncate_text,
                );
            },
            CollabAgentTool::SendInput
            | CollabAgentTool::ResumeAgent
            | CollabAgentTool::SendMessage
            | CollabAgentTool::FollowupTask => {
                lemma_report_told(before, mid, thread, status, now, truncate_text);
            },
            CollabAgentTool::Wait => {
                lemma_wait_told(before, mid, call, now, truncate_text);
            },
            CollabAgentTool::CloseAgent => {
                lemma_closing_told(before, thread);
            },
            CollabAgentTool::InterruptAgent => {
                lemma_report_told(
                    before,
                    mid,
                    thread,
                    PanelAgentStatus::Interrupted,
                    now,
                    truncate_text,
                );
            },
            CollabAgentTool::ListAgents => {},
        }
        assert(mid.wf());
        lemma_panel_told(mid, panel, after);
        assert(after.agents == mid.agents);
    }
}

/// A call that has ended gives the agents what was reported of them, and the panel follows. A spawn tracks
/// its first receiver; a message, a resumption or a task gives the first receiver the state that came, or an
/// error where none did; a wait gives each receiver the state that came of it; a closing takes the first
/// receiver out; an interruption interrupts it. Any other call leaves all as it was.
pub proof fn a_finished_call_moves_the_panel<P, T: Fn(&str, usize) -> String>(
    chat: &mut ChatWidget<P>,
    item: ThreadItem<P>,
    metadata: AgentMetadata,
    now: Instant,
    truncate_text: T,
    actions: Vec<Action<P>>,
)
    requires
        old(chat).subagent_panel_registry@.wf(),
        call_ensures(
            ChatWidget::<P>::update_subagent_panel_from_tool_call::<T>,
            (chat, &item, metadata, now, &truncate_text),
            actions,
        ),
    ensures
        item is CollabAgentToolCall && moves_panel(item->CollabAgentToolCall_0) ==> {
            &&& call_told(
                old(chat).subagent_panel_registry@,
                RegistryView {
                    mounted: old(chat).subagent_panel_registry@.mounted,
                    ..final(chat).subagent_panel_registry@
                },
                item->CollabAgentToolCall_0,
                metadata,
                now,
                truncate_text,
            )
            &&& panel_follows(
                old(chat).subagent_panel_registry@,
                final(chat).subagent_panel_registry@,
                final(chat).subagent_panel,
            )
            &&& actions@ == seq![Action::<P>::RequestRedraw]
        },
        !(item is CollabAgentToolCall && moves_panel(item->CollabAgentToolCall_0)) ==> {
            &&& final(chat).subagent_panel_registry@ == old(chat).subagent_panel_registry@
            &&& final(chat).subagent_panel == old(chat).subagent_panel
            &&& actions@.len() == 0
        },
        final(chat).context == old(chat).context,
        final(chat).pending_collab_spawn_requests == old(chat).pending_collab_spawn_requests,
{
    if item is CollabAgentToolCall {
        lemma_call_told(
            old(chat).subagent_panel_registry@,
            old(chat).subagent_panel,
            item->CollabAgentToolCall_0,
            metadata,
            now,
            final(chat).subagent_panel_registry@,
            final(chat).subagent_panel,
            truncate_text,
        );
    }
}

/// Whether `actions` put a cell that the host has made into the history, where it has made one, and then go
/// on with `more`.
pub open spec fn shows_cell<P>(
    actions: Seq<Action<P>>,
    cell: Option<P>,
    more: Seq<Action<P>>,
) -> bool {
    if cell is Some {
        &&& actions.len() == 3 + more.len()
        &&& actions[0] is FlushAnswerStream
        &&& actions[1] == Action::AddToHistory(HistoryEntry::Made(cell->0))
        &&& actions[2] is RequestRedraw
        &&& actions.skip(3) == more
    } else {
        actions == more
    }
}

/// Once the host has made its cell of a call, the cell goes into the history, and then the panel moves, where
/// it is to.
pub proof fn a_resumed_call_shows_its_cell_first<P, T: Fn(&str, usize) -> String>(
    chat: &mut ChatWidget<P>,
    item: ThreadItem<P>,
    cell: Option<P>,
    update_panel: bool,
    metadata: AgentMetadata,
    now: Instant,
    truncate_text: T,
    plan: Plan<P>,
)
    requires
        old(chat).subagent_panel_registry@.wf(),
        call_ensures(
            ChatWidget::<P>::resume_collab_agent_tool_call::<T>,
            (chat, &item, cell, update_panel, metadata, now, &truncate_text),
            plan,
        ),
    ensures
        plan.pending is None,
        update_panel && item is CollabAgentToolCall && moves_panel(item->CollabAgentToolCall_0)
            ==> {
            &&& shows_cell(plan.actions@, cell, seq![Action::<P>::RequestRedraw])
            &&& call_told(
                old(chat).subagent_panel_registry@,
                RegistryView {
                    mounted: old(chat).subagent_panel_registry@.mounted,
                    ..final(chat).subagent_panel_registry@
                },
                item->CollabAgentToolCall_0,
                metadata,
                now,
                truncate_text,
            )
            &&& panel_follows(
                old(chat).subagent_panel_registry@,
                final(chat).subagent_panel_registry@,
                final(chat).subagent_panel,
            )
        },
        !(update_panel && item is CollabAgentToolCall && moves_panel(item->CollabAgentToolCall_0))
            ==> {
            &&& shows_cell(plan.actions@, cell, Seq::<Action<P>>::empty())
            &&& final(chat).subagent_panel_registry@ == old(chat).subagent_panel_registry@
            &&& final(chat).subagent_panel == old(chat).subagent_panel
        },
        final(chat).context == old(chat).context,
        final(chat).pending_collab_spawn_requests == old(chat).pending_collab_spawn_requests,
{
    if update_panel && item is CollabAgentToolCall {
        lemma_call_told(
            old(chat).subagent_panel_registry@,
            old(chat).subagent_panel,
            item->CollabAgentToolCall_0,
            metadata,
            now,
            final(chat).subagent_panel_registry@,
            final(chat).subagent_panel,
            truncate_text,
        );
    }
    if cell is Some {
        assert(plan.actions@.skip(3) =~= plan.actions@.subrange(3, plan.actions@.len() as int));
        if update_panel && item is CollabAgentToolCall && moves_panel(
            item->CollabAgentToolCall_0,
        ) {
            assert(plan.actions@.skip(3) =~= seq![Action::<P>::RequestRedraw]);
        } else {
            assert(plan.actions@.skip(3) =~= Seq::<Action<P>>::empty());
        }
    } else {
        assert(Seq::<Action<P>>::empty() + seq![Action::<P>::RequestRedraw] =~= seq![
            Action::<P>::RequestRedraw,
        ]);
        assert(Seq::<Action<P>>::empty() + Seq::<Action<P>>::empty() =~= Seq::empty());
    }
}

/// What an activity of an agent leads to, told by its kind. An item that is no activity of a thread changes
/// nothing.
pub open spec fn activity_followed<P, T: Fn(&str, usize) -> String>(
    before: RegistryView,
    panel_before: Option<SubagentStatusCell>,
    item: ThreadItem<P>,
    metadata: AgentMetadata,
    now: Instant,
    after: RegistryView,
    panel: Option<SubagentStatusCell>,
    truncate_text: T,
) -> bool {
    let activity = item->SubAgentActivity_0;
    let thread = activity.thread_id->0@;
    let mid = RegistryView { mounted: before.mounted, ..after };
    if item is SubAgentActivity && activity.thread_id is Some {
        &&& match activity.kind {
            SubAgentActivityKind::Started | SubAgentActivityKind::Interacted => activity_told(
                before,
                mid,
                thread,
                activity.agent_path@,
                metadata.agent_nickname,
                metadata.agent_role,
                "working in `"@ + activity.agent_path@ + "`"@,
                now,
                truncate_text,
            ),
            SubAgentActivityKind::Interrupted => report_told(
                before,
                mid,
                thread,
                PanelAgentStatus::Interrupted,
                now,
                truncate_text,
            ),
            SubAgentActivityKind::Completed => report_told(
                before,
                mid,
                thread,
                PanelAgentStatus::Completed(None),
                now,
                truncate_text,
            ),
        }
        &&& panel_follows(before, after, panel)
    } else {
        &&& after == before
        &&& panel == panel_before
    }
}

/// What is recorded of an activity is told by its kind.
pub proof fn lemma_activity_followed<P, T: Fn(&str, usize) -> String>(
    before: RegistryView,
    panel_before: Option<SubagentStatusCell>,
    item: ThreadItem<P>,
    metadata: AgentMetadata,
    now: Instant,
    after: RegistryView,
    panel: Option<SubagentStatusCell>,
    truncate_text: T,
)
    requires
        before.wf(),
        after.wf(),
        activity_handled(
            truncate_text,
            before,
            panel_before,
            item,
            metadata,
            now,
            after,
            panel,
        ),
    ensures
        activity_followed(
            before,
            panel_before,
            item,
            metadata,
            now,
            after,
            panel,
            truncate_text,
        ),
{
    let activity = item->SubAgentActivity_0;
    let thread = activity.thread_id->0@;
    let mid = RegistryView { mounted: before.mounted, ..after };
    if item is SubAgentActivity && activity.thread_id is Some {
        match activity.kind {
            SubAgentActivityKind::Started | SubAgentActivityKind::Interacted => {
                lemma_activity_told(
                    before,
                    mid,
                    thread,
                    activity.agent_path@,
                    metadata.agent_nickname,
                    metadata.agent_role,
                    "working in `"@ + activity.agent_path@ + "`"@,
                    now,
                    truncate_text,
                );
            },
            SubAgentActivityKind::Interrupted => {
                lemma_report_told(
                    before,
                    mid,
                    thread,
                    PanelAgentStatus::Interrupted,
                    now,
                    truncate_text,
                );
            },
            SubAgentActivityKind::Completed => {
                lemma_report_told(
                    before,
                    mid,
                    thread,
                    PanelAgentStatus::Completed(None),
                    now,
                    truncate_text,
                );
            },
        }
        lemma_panel_told(mid, panel, after);
        assert(after.agents == mid.agents);
    }
}

/// The redraw that follows an activity of a thread.
pub open spec fn redraw_of<P>(item: ThreadItem<P>) -> Seq<Action<P>> {
    if item is SubAgentActivity && item->SubAgentActivity_0.thread_id is Some {
        seq![Action::RequestRedraw]
    } else {
        Seq::empty()
    }
}

/// The actions of an activity show its cell first.
pub proof fn lemma_shows_cell<P>(item: ThreadItem<P>, cell: Option<P>)
    ensures
        shows_cell(
            crate::tool_lifecycle::activity_actions(item, cell),
            cell,
            redraw_of(item),
        ),
        shows_cell(
            crate::tool_lifecycle::made_cells(cell),
            cell,
            Seq::<Action<P>>::empty(),
        ),
{
    let actions = crate::tool_lifecycle::activity_actions(item, cell);
    let made = crate::tool_lifecycle::made_cells(cell);
    if cell is Some {
        assert(actions.skip(3) =~= redraw_of(item));
        assert(made.skip(3) =~= Seq::empty());
    } else {
        assert(actions =~= redraw_of(item));
    }
}

/// An activity that is handled shows its cell, and then the panel follows it.
pub proof fn a_handled_activity_is_followed<P, T: Fn(&str, usize) -> String>(
    chat: &mut ChatWidget<P>,
    item: ThreadItem<P>,
    cell: Option<P>,
    metadata: AgentMetadata,
    now: Instant,
    truncate_text: T,
    plan: Plan<P>,
)
    requires
        old(chat).subagent_panel_registry@.wf(),
        call_ensures(
            ChatWidget::<P>::handle_sub_agent_activity_now::<T>,
            (chat, &item, cell, metadata, now, &truncate_text),
            plan,
        ),
    ensures
        activity_followed(
            old(chat).subagent_panel_registry@,
            old(chat).subagent_panel,
            item,
            metadata,
            now,
            final(chat).subagent_panel_registry@,
            final(chat).subagent_panel,
            truncate_text,
        ),
        shows_cell(plan.actions@, cell, redraw_of(item)),
        plan.pending is None,
        final(chat).context == old(chat).context,
        final(chat).pending_collab_spawn_requests == old(chat).pending_collab_spawn_requests,
{
    lemma_activity_followed(
        old(chat).subagent_panel_registry@,
        old(chat).subagent_panel,
        item,
        metadata,
        now,
        final(chat).subagent_panel_registry@,
        final(chat).subagent_panel,
        truncate_text,
    );
    lemma_shows_cell(item, cell);
}

/// An activity that is replayed only shows its cell. One that comes in while a turn runs or an answer streams
/// waits in the queue of what has ended. Any other is followed at once.
pub proof fn an_activity_waits_for_the_answer<P, T: Fn(&str, usize) -> String>(
    chat: &mut ChatWidget<P>,
    item: ThreadItem<P>,
    cell: Option<P>,
    metadata: AgentMetadata,
    update_panel: bool,
    now: Instant,
    truncate_text: T,
    plan: Plan<P>,
)
    requires
        old(chat).subagent_panel_registry@.wf(),
        call_ensures(
            ChatWidget::<P>::on_sub_agent_activity::<T>,
            (chat, item, cell, metadata, update_panel, now, &truncate_text),
            plan,
        ),
    ensures
        plan.pending is None,
        !update_panel ==> shows_cell(plan.actions@, cell, Seq::<Action<P>>::empty()),
        update_panel && (old(chat).context.agent_turn_running || old(
            chat,
        ).context.answer_streaming) ==> plan.actions@ == seq![
            Action::DeferOrHandle {
                item,
                queue: InterruptQueue::ItemCompleted,
                handler: ItemHandler::SubAgentActivity,
            },
        ],
        !update_panel || old(chat).context.agent_turn_running || old(chat).context.answer_streaming
            ==> {
            &&& final(chat).subagent_panel_registry@ == old(chat).subagent_panel_registry@
            &&& final(chat).subagent_panel == old(chat).subagent_panel
        },
        update_panel && !old(chat).context.agent_turn_running && !old(
            chat,
        ).context.answer_streaming ==> {
            &&& shows_cell(plan.actions@, cell, redraw_of(item))
            &&& activity_followed(
                old(chat).subagent_panel_registry@,
                old(chat).subagent_panel,
                item,
                metadata,
                now,
                final(chat).subagent_panel_registry@,
                final(chat).subagent_panel,
                truncate_text,
            )
        },
        final(chat).context == old(chat).context,
        final(chat).pending_collab_spawn_requests == old(chat).pending_collab_spawn_requests,
{
    lemma_shows_cell(item, cell);
    if update_panel && !old(chat).context.agent_turn_running && !old(
        chat,
    ).context.answer_streaming {
        lemma_activity_followed(
            old(chat).subagent_panel_registry@,
            old(chat).subagent_panel,
            item,
            metadata,
            now,
            final(chat).subagent_panel_registry@,
            final(chat).subagent_panel,
            truncate_text,
        );
    }
}

/// An activity by which a tracked agent ends leaves it interrupted, or completed without a message, and the
/// panel up exactly while some other agent is starting or at work.
pub proof fn an_ending_activity_takes_the_agent_off_the_panel<P, T: Fn(&str, usize) -> String>(
    chat: &mut ChatWidget<P>,
    activity: SubAgentActivity,
    cell: Option<P>,
    metadata: AgentMetadata,
    now: Instant,
    truncate_text: T,
    plan: Plan<P>,
)
    requires
        old(chat).subagent_panel_registry@.wf(),
        activity.kind is Interrupted || activity.kind is Completed,
        activity.thread_id is Some,
        old(chat).subagent_panel_registry@.agents.contains_key(activity.thread_id->0@),
        call_ensures(
            ChatWidget::<P>::handle_sub_agent_activity_now::<T>,
            (
                chat,
                &ThreadItem::<P>::SubAgentActivity(activity),
                cell,
                metadata,
                now,
                &truncate_text,
            ),
            plan,
        ),
    ensures
        ({
            let thread = activity.thread_id->0@;
            let agents = old(chat).subagent_panel_registry@.agents;
            let status = final(chat).subagent_panel_registry@.agents[thread].status;
            &&& activity.kind is Interrupted ==> status is Interrupted
            &&& activity.kind is Completed ==> status is Completed && status->Completed_0 is None
            &&& final(chat).subagent_panel is Some <==> exists|t: Seq<char>| #[trigger]
                agents.contains_key(t) && t != thread && goes_on(agents[t].status)
        }),
{
    let thread = activity.thread_id->0@;
    let before = old(chat).subagent_panel_registry@;
    let after = final(chat).subagent_panel_registry@;
    let item = ThreadItem::<P>::SubAgentActivity(activity);
    lemma_activity_followed(
        before,
        old(chat).subagent_panel,
        item,
        metadata,
        now,
        after,
        final(chat).subagent_panel,
        truncate_text,
    );
    assert(after.agents.contains_key(thread));
    if exists|t: Seq<char>| #[trigger]
        after.agents.contains_key(t) && goes_on(after.agents[t].status) {
        let t = choose|t: Seq<char>| #[trigger]
            after.agents.contains_key(t) && goes_on(after.agents[t].status);
        assert(before.agents.contains_key(t));
    }
    if exists|t: Seq<char>| #[trigger]
        before.agents.contains_key(t) && t != thread && goes_on(before.agents[t].status) {
        let t = choose|t: Seq<char>| #[trigger]
            before.agents.contains_key(t) && t != thread && goes_on(before.agents[t].status);
        assert(after.agents.contains_key(t));
    }
}

/// What is refreshed follows the agents as they are.
pub proof fn a_refreshed_panel_follows_the_agents<P>(
    chat: &mut ChatWidget<P>,
    actions: Vec<Action<P>>,
)
    requires
        old(chat).subagent_panel_registry@.wf(),
        call_ensures(ChatWidget::<P>::refresh_subagent_panel, (chat,), actions),
    ensures
        panel_follows(
            old(chat).subagent_panel_registry@,
            final(chat).subagent_panel_registry@,
            final(chat).subagent_panel,
        ),
        final(chat).subagent_panel_registry@.agents == old(chat).subagent_panel_registry@.agents,
        final(chat).subagent_panel_registry@.order == old(chat).subagent_panel_registry@.order,
        actions@ == seq![Action::<P>::RequestRedraw],
        final(chat).context == old(chat).context,
        final(chat).pending_collab_spawn_requests == old(chat).pending_collab_spawn_requests,
{
    lemma_panel_told(
        old(chat).subagent_panel_registry@,
        final(chat).subagent_panel,
        final(chat).subagent_panel_registry@,
    );
    assert(RegistryView {
        mounted: old(chat).subagent_panel_registry@.mounted,
        ..final(chat).subagent_panel_registry@
    } =~= old(chat).subagent_panel_registry@);
}

/// The request of a spawn is kept under its call until a call of that identity ends the spawn, and is then
/// handed on, to be kept no more. No other request changes, and nothing else of the chat does.
pub proof fn a_spawn_request_waits_for_its_call<P>(
    chat: &mut ChatWidget<P>,
    item: ThreadItem<P>,
    request: Option<P>,
    update_panel: bool,
    plan: Plan<P>,
)
    requires
        call_ensures(
            ChatWidget::<P>::on_collab_agent_tool_call,
            (chat, item, request, update_panel),
            plan,
        ),
    ensures
        plan.actions@.len() == 0,
        !(item is CollabAgentToolCall) ==> plan.pending is None
            && final(chat).pending_collab_spawn_requests@ == old(
            chat,
        ).pending_collab_spawn_requests@,
        item is CollabAgentToolCall ==> {
            let call = item->CollabAgentToolCall_0;
            let kept = old(chat).pending_collab_spawn_requests@;
            let keeps = final(chat).pending_collab_spawn_requests@;
            let spawn = call.tool is SpawnAgent;
            &&& plan.pending matches Some(
                Pending::CollabAgentToolCall { item: passed_on, cached_spawn_request, update_panel: up },
            ) && {
                &&& passed_on == item
                &&& up == update_panel
                &&& !spawn || call.status is InProgress ==> cached_spawn_request is None
                &&& spawn && !(call.status is InProgress) && request is Some
                    ==> cached_spawn_request == request
                &&& spawn && !(call.status is InProgress) && request is None ==> (
                cached_spawn_request is Some <==> kept.contains_key(call.id@)) && (
                cached_spawn_request is Some ==> cached_spawn_request->0 == kept[call.id@])
            }
            &&& spawn && call.status is InProgress && request is Some ==> keeps.contains_key(
                call.id@,
            ) && keeps[call.id@] == request->0
            &&& spawn && call.status is InProgress && request is None ==> (keeps.contains_key(
                call.id@,
            ) <==> kept.contains_key(call.id@)) && (kept.contains_key(call.id@)
                ==> keeps[call.id@] == kept[call.id@])
            &&& spawn && !(call.status is InProgress) ==> !keeps.contains_key(call.id@)
            &&& forall|id: Seq<char>|
                #![trigger keeps.contains_key(id)]
                #![trigger kept.contains_key(id)]
                id != call.id@ || !spawn ==> (keeps.contains_key(id) <==> kept.contains_key(id))
                    && (kept.contains_key(id) ==> keeps[id] == kept[id])
        },
        final(chat).context == old(chat).context,
        final(chat).subagent_panel_registry@ == old(chat).subagent_panel_registry@,
        final(chat).subagent_panel == old(chat).subagent_panel,
{
}

} // verus!
