//! What holds of the panel, of whatever the registry tracks.

use vstd::prelude::*;

use crate::agent::{is_watchdog_role, SubagentInfo};
use crate::chat_widget::{rebuilt, waited};
use crate::clock::{Instant, NANOS_PER_SEC, NANOS_PER_TENTH};
use crate::panel::{
    count_label, formats, header_line, preview_budget, shimmers, shows_header, shows_panel, shows_row,
    SubagentPanelAgent, SubagentPanelState, SubagentStatusCell, SUBAGENT_SHIMMER_WINDOW,
};
use crate::protocol::Addressee;
use crate::registry::{
    active, clamped, lemma_closed_wf, lemma_filter_agree, lemma_filter_all, lemma_filter_distinct,
    lemma_filter_filter, lemma_pruned_wf, liveness_applied, other_than, restated, row_of, spawned,
    without, RegistryView,
};
use crate::sort::{
    by_rank, is_ranked, sorting_keeps_what_is_ranked,
    sorting_ranks_the_same_items,
};
use crate::status::{CollabAgentState, StatusView};
use crate::styled::{painted, plain, SpanView};

verus! {

proof fn lemma_filter_len<A>(items: Seq<A>, keep: spec_fn(A) -> bool)
    ensures
        items.filter(keep).len() <= items.len(),
    decreases items.len(),
{
    reveal(Seq::filter);
    if items.len() > 0 {
        lemma_filter_len(items.drop_last(), keep);
    }
}

/// Whether `thread` is an agent that is starting or at work.
pub open spec fn is_active(registry: RegistryView, thread: Seq<char>) -> bool {
    registry.agents.contains_key(thread) && registry.agents[thread].status@.is_running()
}

/// The threads that the panel shows are those of the agents that are starting or at work, each once.
pub proof fn the_active_agents_are_visible(registry: RegistryView)
    requires
        registry.wf(),
    ensures
        registry.visible().no_duplicates(),
        forall|t: Seq<char>| #[trigger] registry.visible().contains(t) <==> is_active(registry, t),
{
    lemma_filter_distinct(registry.order, registry.on_show());
}

/// The panel is up exactly while some agent is starting or at work.
pub proof fn the_panel_is_up_while_agents_are_active(
    before: RegistryView,
    panel: Option<SubagentStatusCell>,
    after: RegistryView,
)
    requires
        before.wf(),
        rebuilt(before, panel, after),
    ensures
        panel is Some <==> exists|t: Seq<char>| is_active(before, t),
        after.mounted <==> panel is Some,
{
    the_active_agents_are_visible(before);
    if before.visible().len() > 0 {
        let t = before.visible()[0];
        assert(before.visible().contains(t));
        assert(is_active(before, t));
    }
    if exists|t: Seq<char>| is_active(before, t) {
        let t = choose|t: Seq<char>| is_active(before, t);
        assert(before.visible().contains(t));
    }
}

/// The panel has one row for each agent that is starting or at work, and no other rows, in the order
/// of their ordinals.
pub proof fn each_active_agent_has_a_row(
    before: RegistryView,
    cell: SubagentStatusCell,
    after: RegistryView,
)
    requires
        before.wf(),
        rebuilt(before, Some(cell), after),
    ensures
        cell.state.running_agents@.len() == before.visible().len(),
        cell.state.running_agents@.to_multiset() == before.rows().to_multiset(),
        is_ranked(cell.state.running_agents@),
        forall|t: Seq<char>| #[trigger]
            is_active(before, t) ==> cell.state.running_agents@.contains(row_of(before.agents[t])),
        forall|row: SubagentPanelAgent| #[trigger]
            cell.state.running_agents@.contains(row) ==> row.status@.is_running(),
{
    broadcast use vstd::seq_lib::group_to_multiset_ensures;

    let rows = before.rows();
    let shown = cell.state.running_agents@;
    sorting_ranks_the_same_items(rows);
    the_active_agents_are_visible(before);
    assert forall|t: Seq<char>| #[trigger] is_active(before, t) implies shown.contains(
        row_of(before.agents[t]),
    ) by {
        assert(before.visible().contains(t));
        let i = choose|i: int| 0 <= i < before.visible().len() && before.visible()[i] == t;
        assert(rows[i] == row_of(before.agents[t]));
        assert(rows.contains(rows[i]));
        assert(rows.to_multiset().count(rows[i]) > 0);
    }
    assert forall|row: SubagentPanelAgent| #[trigger] shown.contains(
        row,
    ) implies row.status@.is_running() by {
        assert(shown.to_multiset().count(row) > 0);
        assert(rows.contains(row));
        let i = choose|i: int| 0 <= i < rows.len() && rows[i] == row;
        assert(before.visible().contains(before.visible()[i]));
        assert(is_active(before, before.visible()[i]));
    }
}

/// The panel counts as many agents as it has rows, and never more of them as running than there are.
pub proof fn the_counts_agree(
    before: RegistryView,
    cell: SubagentStatusCell,
    after: RegistryView,
)
    requires
        before.wf(),
        rebuilt(before, Some(cell), after),
    ensures
        cell.state.total_agents == clamped(cell.state.running_agents@.len() as int),
        0 <= cell.state.running_count <= cell.state.total_agents,
        cell.state.total_agents >= 1,
{
    sorting_ranks_the_same_items(before.rows());
    lemma_filter_len(before.visible(), before.at_work());
}

/// Without watchdogs every agent that the panel shows counts as running.
pub proof fn without_watchdogs_all_run(
    before: RegistryView,
    cell: SubagentStatusCell,
    after: RegistryView,
)
    requires
        before.wf(),
        rebuilt(before, Some(cell), after),
        forall|t: Seq<char>| #[trigger]
            before.agents.contains_key(t) ==> !before.agents[t].watches(),
    ensures
        cell.state.running_count == cell.state.total_agents,
{
    the_active_agents_are_visible(before);
    assert forall|i: int| 0 <= i < before.visible().len() implies before.at_work()(
        #[trigger] before.visible()[i],
    ) by {
        let t = before.visible()[i];
        assert(before.visible().contains(t));
        assert(is_active(before, t));
    }
    lemma_filter_all(before.visible(), before.at_work());
}

/// An agent that counts as running is shown. A watchdog that has only been started is shown but does
/// not count.
pub proof fn what_counts_is_shown(info: SubagentInfo)
    ensures
        info.counts_as_running() ==> info.status@.is_running(),
        info.status@.is_running() && !info.counts_as_running() <==> info.watches()
            && info.status@ is PendingInit,
{
}

/// The panel shows a header and one line for each agent that is starting or at work, those with lesser
/// ordinals first. The header counts what the panel counts.
pub proof fn the_panel_shows_a_line_for_each_active_agent<
    T: Fn(&str, usize) -> String,
    E: Fn(u64) -> String,
>(
    truncate_text: T,
    fmt_elapsed_compact: E,
    before: RegistryView,
    cell: SubagentStatusCell,
    after: RegistryView,
    width: u16,
    now: Instant,
    lines: Seq<Seq<SpanView>>,
)
    requires
        before.wf(),
        rebuilt(before, Some(cell), after),
        shows_panel(truncate_text, fmt_elapsed_compact, cell, width, now, lines),
    ensures
        lines.len() == before.visible().len() + 1,
        exists|elapsed: Seq<char>|
            lines[0] == #[trigger] header_line(cell.state, elapsed) && lines[0][3] == painted(
                "("@ + elapsed + " • "@ + count_label(
                    cell.state.total_agents as int,
                    cell.state.running_count as int,
                ) + " • esc to interrupt)"@,
                plain().dim(),
            ),
        forall|i: int|
            0 <= i < before.visible().len() ==> shows_row(
                truncate_text,
                fmt_elapsed_compact,
                #[trigger] cell.state.running_agents@[i],
                width,
                cell.motion_mode,
                now,
                lines[i + 1],
            ),
{
    each_active_agent_has_a_row(before, cell, after);
    the_counts_agree(before, cell, after);
    let rows = cell.state.running_agents@;
    sorting_keeps_what_is_ranked(rows);
    assert(shows_header(fmt_elapsed_compact, cell.state, now, lines[0]));
    let elapsed = choose|elapsed: Seq<char>|
        lines[0] == header_line(cell.state, elapsed) && #[trigger] formats(
            fmt_elapsed_compact,
            now.nanos_after(cell.state.started_at) / NANOS_PER_SEC as nat,
            elapsed,
        );
    assert(lines[0] == header_line(cell.state, elapsed));
    assert forall|i: int| 0 <= i < before.visible().len() implies shows_row(
        truncate_text,
        fmt_elapsed_compact,
        #[trigger] rows[i],
        width,
        cell.motion_mode,
        now,
        lines[i + 1],
    ) by {
        assert(by_rank(rows)[i] == rows[i]);
    }
}

/// An agent that ends leaves the panel, and the others stay as they were.
pub proof fn an_ended_agent_leaves_the_panel<T: Fn(&str, usize) -> String>(
    truncate_text: T,
    before: RegistryView,
    thread: Seq<char>,
    status: StatusView,
    now: Instant,
    after: RegistryView,
)
    requires
        before.wf(),
        !status.is_running(),
        restated(truncate_text, before, thread, status, now, after),
    ensures
        after.visible() == without(before.visible(), thread),
{
    let rest = |t: Seq<char>| before.on_show()(t) && t != thread;
    lemma_filter_filter(before.order, before.on_show(), other_than(thread), rest);
    assert forall|i: int| 0 <= i < before.order.len() implies after.on_show()(
        #[trigger] before.order[i],
    ) == rest(before.order[i]) by {
        assert(before.order.contains(before.order[i]));
    }
    lemma_filter_agree(before.order, after.on_show(), rest);
}

/// An agent that is spawned in a running state, or first seen by its activity, comes up in the panel.
pub proof fn a_new_agent_comes_up<T: Fn(&str, usize) -> String>(
    truncate_text: T,
    before: RegistryView,
    thread: Seq<char>,
    nickname: Option<Seq<char>>,
    role: Option<Seq<char>>,
    text: Seq<char>,
    status: StatusView,
    preview: Seq<char>,
    now: Instant,
    after: RegistryView,
)
    requires
        before.wf(),
        ({
            ||| status.is_running() && spawned(
                truncate_text,
                before,
                thread,
                nickname,
                role,
                text,
                status,
                now,
                after,
            )
            ||| !before.agents.contains_key(thread) && active(
                truncate_text,
                before,
                thread,
                text,
                nickname,
                role,
                preview,
                now,
                after,
            )
        }),
    ensures
        is_active(after, thread),
        after.visible().contains(thread),
{
    let base = if is_watchdog_role(role) {
        before.pruned(thread)
    } else {
        before
    };
    lemma_pruned_wf(before, thread);
    let order = after.order;
    if spawned(truncate_text, before, thread, nickname, role, text, status, now, after)
        && status.is_running() {
        if base.agents.contains_key(thread) {
            assert(base.order.contains(thread));
        } else {
            assert(order[order.len() - 1] == thread);
        }
    } else {
        assert(order[order.len() - 1] == thread);
    }
    assert(order.contains(thread));
    lemma_filter_distinct(order, after.on_show());
}

/// A closed agent leaves the panel, and the others stay as they were.
pub proof fn a_closed_agent_leaves_the_panel(registry: RegistryView, thread: Seq<char>)
    requires
        registry.wf(),
    ensures
        registry.closed(thread).visible() == without(registry.visible(), thread),
{
    let after = registry.closed(thread);
    let rest = |t: Seq<char>| registry.on_show()(t) && t != thread;
    lemma_filter_filter(registry.order, registry.on_show(), other_than(thread), rest);
    let rest_after = |t: Seq<char>| after.on_show()(t) && t != thread;
    lemma_filter_filter(registry.order, other_than(thread), after.on_show(), rest_after);
    assert forall|i: int| 0 <= i < registry.order.len() implies rest_after(
        #[trigger] registry.order[i],
    ) == rest(registry.order[i]) by {
        assert(registry.order.contains(registry.order[i]));
    }
    lemma_filter_agree(registry.order, rest_after, rest);
}

/// Closing the only agent that is starting or at work takes the panel down.
pub proof fn closing_the_last_active_agent_unmounts(
    before: RegistryView,
    thread: Seq<char>,
    panel: Option<SubagentStatusCell>,
    after: RegistryView,
)
    requires
        before.wf(),
        forall|t: Seq<char>| #[trigger] is_active(before, t) ==> t == thread,
        rebuilt(before.closed(thread), panel, after),
    ensures
        panel is None,
        !after.mounted,
{
    lemma_closed_wf(before, thread);
    the_panel_is_up_while_agents_are_active(before.closed(thread), panel, after);
    if panel is Some {
        let t = choose|t: Seq<char>| is_active(before.closed(thread), t);
        assert(is_active(before, t));
    }
}

/// Rebuilding a panel that is up changes nothing in what it shows, and reuses what is mounted.
pub proof fn rebuilding_again_shows_the_same(
    before: RegistryView,
    first: Option<SubagentStatusCell>,
    mid: RegistryView,
    second: Option<SubagentStatusCell>,
    after: RegistryView,
)
    requires
        before.wf(),
        rebuilt(before, first, mid),
        rebuilt(mid, second, after),
    ensures
        after == mid,
        first is Some <==> second is Some,
        (first is Some && second is Some) ==> {
            &&& second->0.updates_mounted
            &&& second->0.motion_mode == first->0.motion_mode
            &&& second->0.state.started_at == first->0.state.started_at
            &&& second->0.state.total_agents == first->0.state.total_agents
            &&& second->0.state.running_count == first->0.state.running_count
            &&& second->0.state.running_agents@ == first->0.state.running_agents@
        },
{
    assert(mid.on_show() =~= before.on_show());
    assert(mid.at_work() =~= before.at_work());
    assert(mid.visible() == before.visible());
    assert(mid.rows() =~= before.rows());
    if first is Some {
        let a = first->0.state.started_at;
        let b = second->0.state.started_at;
        let i = choose|i: int|
            0 <= i < before.visible().len() && before.agents[
                #[trigger] before.visible()[i]
            ].spawned_at == a;
        let j = choose|j: int|
            0 <= j < mid.visible().len() && mid.agents[#[trigger] mid.visible()[j]].spawned_at == b;
        assert(b.nanos <= mid.agents[mid.visible()[i]].spawned_at.nanos);
        assert(a.nanos <= before.agents[before.visible()[j]].spawned_at.nanos);
    }
}

/// Whether `after` is `before` with one thing recorded of the agents: a spawn, an activity, a status, a
/// thread at work or at rest, a wait, a closing, or watchdogs that gave way.
pub open spec fn is_update<T: Fn(&str, usize) -> String>(
    truncate_text: T,
    before: RegistryView,
    after: RegistryView,
) -> bool {
    ||| exists|
        thread: Seq<char>,
        nickname: Option<Seq<char>>,
        role: Option<Seq<char>>,
        prompt: Seq<char>,
        status: StatusView,
        now: Instant,
    | #[trigger]
        spawned(truncate_text, before, thread, nickname, role, prompt, status, now, after)
    ||| exists|
        thread: Seq<char>,
        path: Seq<char>,
        nickname: Option<Seq<char>>,
        role: Option<Seq<char>>,
        preview: Seq<char>,
        now: Instant,
    | #[trigger]
        active(truncate_text, before, thread, path, nickname, role, preview, now, after)
    ||| exists|thread: Seq<char>, status: StatusView, now: Instant| #[trigger]
        restated(truncate_text, before, thread, status, now, after)
    ||| exists|thread: Seq<char>, running: bool, now: Instant| #[trigger]
        liveness_applied(truncate_text, before, thread, running, now, after)
    ||| exists|
        receivers: Seq<Addressee>,
        states: Map<Seq<char>, CollabAgentState>,
        now: Instant,
    | #[trigger] waited(truncate_text, before, receivers, states, now, after)
    ||| exists|thread: Seq<char>| after == #[trigger] before.closed(thread)
    ||| exists|keep: Seq<char>| after == #[trigger] before.pruned(keep)
}

/// Whether each of `stages` comes out of the one before it by an update.
pub open spec fn is_chain<T: Fn(&str, usize) -> String>(
    truncate_text: T,
    stages: Seq<RegistryView>,
) -> bool {
    forall|i: int|
        0 < i < stages.len() ==> is_update(truncate_text, stages[i - 1], #[trigger] stages[i])
}

/// However many updates there are, they neither mount a panel nor take one down, and leave how it may
/// move alone.
pub proof fn updates_keep_the_mount<T: Fn(&str, usize) -> String>(
    truncate_text: T,
    stages: Seq<RegistryView>,
)
    requires
        stages.len() > 0,
        is_chain(truncate_text, stages),
    ensures
        stages.last().mounted == stages.first().mounted,
        stages.last().motion_mode == stages.first().motion_mode,
    decreases stages.len(),
{
    if stages.len() > 1 {
        let rest = stages.drop_last();
        assert forall|i: int| 0 < i < rest.len() implies is_update(
            truncate_text,
            rest[i - 1],
            #[trigger] rest[i],
        ) by {
            assert(rest[i] == stages[i] && rest[i - 1] == stages[i - 1]);
        }
        updates_keep_the_mount(truncate_text, rest);
        assert(is_update(truncate_text, stages[stages.len() - 2], stages[stages.len() - 1]));
    }
}

/// Whatever is recorded between two rebuilds, the second panel updates what is mounted exactly where the
/// first rebuild gave a panel: an update shows without mounting the panel anew.
pub proof fn an_update_shows_without_remounting<T: Fn(&str, usize) -> String>(
    truncate_text: T,
    before: RegistryView,
    first: Option<SubagentStatusCell>,
    stages: Seq<RegistryView>,
    second: SubagentStatusCell,
    after: RegistryView,
)
    requires
        before.wf(),
        stages.len() > 0,
        rebuilt(before, first, stages.first()),
        is_chain(truncate_text, stages),
        rebuilt(stages.last(), Some(second), after),
    ensures
        second.updates_mounted <==> first is Some,
        first is Some ==> second.motion_mode == first->0.motion_mode,
{
    updates_keep_the_mount(truncate_text, stages);
}

/// A row has room for at least forty and at most a hundred and sixty units of preview, and for no less
/// on a wider terminal.
pub proof fn the_preview_budget_is_bounded(narrow: int, wide: int)
    requires
        narrow <= wide,
    ensures
        40 <= preview_budget(narrow) <= preview_budget(wide) <= 160,
{
}

/// A row that has stopped shimmering does not start again by itself.
pub proof fn shimmering_ends(agent: SubagentPanelAgent, now: Instant, later: Instant)
    requires
        now.nanos <= later.nanos,
        !shimmers(agent, now),
    ensures
        !shimmers(agent, later),
{
}

/// A row shimmers from its update to the end of the window, unless its agent has ended or is an idle
/// watchdog, which never shimmers.
pub proof fn an_update_shimmers_for_the_window(agent: SubagentPanelAgent, now: Instant)
    ensures
        agent.status@.is_running() && !(agent.is_watchdog && agent.status@ is PendingInit) ==> (
        shimmers(agent, now) <==> now.nanos <= agent.latest_update_at.nanos
            + SUBAGENT_SHIMMER_WINDOW),
        !agent.status@.is_running() ==> !shimmers(agent, now),
        agent.is_watchdog && agent.status@ is PendingInit ==> !shimmers(agent, now),
{
}

/// What does not move stays still until something is updated.
pub proof fn stillness_lasts(state: SubagentPanelState, now: Instant, later: Instant)
    requires
        now.nanos <= later.nanos,
        !state.animates(now),
    ensures
        !state.animates(later),
{
    assert forall|i: int| 0 <= i < state.running_agents@.len() implies !shimmers(
        #[trigger] state.running_agents@[i],
        later,
    ) by {
        shimmering_ends(state.running_agents@[i], now, later);
    }
}

/// The animation frames count up with time.
pub proof fn frames_count_up(state: SubagentPanelState, now: Instant, later: Instant)
    requires
        now.nanos <= later.nanos,
    ensures
        now.nanos_after(state.started_at) / NANOS_PER_TENTH as nat <= later.nanos_after(
            state.started_at,
        ) / NANOS_PER_TENTH as nat,
{
    vstd::arithmetic::div_mod::lemma_div_is_ordered(
        now.nanos_after(state.started_at) as int,
        later.nanos_after(state.started_at) as int,
        NANOS_PER_TENTH as int,
    );
}

} // verus!
