//! What the panel shows, told by the agents and by the spans of its lines.

use vstd::prelude::*;

use crate::agent::SubagentInfo;
use crate::agent_laws::{alike, cores, goes_on, guards};
use crate::clock::{Instant, NANOS_PER_SEC};
use crate::panel::{
    count_label, formats, header_line, pluralized, preview_budget, row_line,
    running_preview_budget, shimmers, should_shimmer, shows_header, shows_row, status_span,
    subagent_count_label, subagent_pluralize, SubagentPanelAgent, SubagentPanelState,
    SubagentStatusCell,
};
use crate::panel_laws::{is_active, the_active_agents_are_visible};
use crate::registry::{row_of, RegistryView, SubagentPanelRegistry};
use crate::scroll::{panel_scroll, scroll_offset, wrapped_line_count};
use crate::sort::{
    by_rank, filtering_keeps_the_order, sorting_keeps_counts, sorting_moves_each_item, Ranked,
};
use crate::status::PanelAgentStatus;
use crate::styled::{line_views, Color, Line, MotionMode, Paint, Span, SpanView, Style};
use crate::text::{decimal, lemma_blank_inside, trimmed};
use crate::text_laws::is_core;
use crate::tracking_laws::{at_most_max, stands_before};

verus! {

/// Whether `row` shows what is known of an agent.
pub open spec fn row_shows(info: SubagentInfo, row: SubagentPanelAgent) -> bool {
    &&& row.ordinal == info.ordinal
    &&& row.name@ == info.name@
    &&& alike(row.status, info.status)
    &&& row.is_watchdog == guards(info.role)
    &&& row.preview@ == info.latest_preview@
    &&& row.spawned_at == info.spawned_at
    &&& row.latest_update_at == info.latest_update_at
}

/// Whether `rows` are those of `threads`: of each agent that is starting or at work one, by number, and
/// of equal numbers in the order in which the agents were first seen.
pub open spec fn rows_of(
    registry: RegistryView,
    rows: Seq<SubagentPanelAgent>,
    threads: Seq<Seq<char>>,
) -> bool {
    &&& threads.len() == rows.len()
    &&& threads.no_duplicates()
    &&& forall|t: Seq<char>| #[trigger]
        threads.contains(t) <==> registry.agents.contains_key(t) && goes_on(
            registry.agents[t].status,
        )
    &&& forall|k: int|
        0 <= k < rows.len() ==> row_shows(registry.agents[threads[k]], #[trigger] rows[k])
    &&& forall|i: int, j: int|
        0 <= i < j < rows.len() ==> (#[trigger] rows[i]).ordinal < (#[trigger] rows[j]).ordinal || (
        rows[i].ordinal == rows[j].ordinal && stands_before(
            registry.order,
            threads[i],
            threads[j],
        ))
}

/// How many of the rows are not those of idle watchdogs.
pub open spec fn working_rows(rows: Seq<SubagentPanelAgent>) -> int
    decreases rows.len(),
{
    if rows.len() == 0 {
        0
    } else {
        working_rows(rows.drop_last()) + if rows.last().is_watchdog
            && rows.last().status is PendingInit {
            0int
        } else {
            1int
        }
    }
}

/// What a rebuilt panel holds, told by the agents.
pub open spec fn panel_told(registry: RegistryView, cell: SubagentStatusCell) -> bool {
    let state = cell.state;
    let rows = state.running_agents@;
    &&& rows.len() > 0
    &&& exists|threads: Seq<Seq<char>>| rows_of(registry, rows, threads)
    &&& state.total_agents == at_most_max(rows.len() as int)
    &&& state.running_count == at_most_max(working_rows(rows))
    &&& exists|k: int| 0 <= k < rows.len() && (#[trigger] rows[k]).spawned_at == state.started_at
    &&& forall|k: int|
        0 <= k < rows.len() ==> state.started_at.nanos <= (#[trigger] rows[k]).spawned_at.nanos
    &&& registry.motion_mode is Some ==> cell.motion_mode == registry.motion_mode->0
    &&& registry.motion_mode is None ==> cell.motion_mode == MotionMode::Reduced
    &&& cell.updates_mounted == registry.mounted
}

spec fn works() -> spec_fn(SubagentPanelAgent) -> bool {
    |row: SubagentPanelAgent| !(row.is_watchdog && row.status is PendingInit)
}

proof fn lemma_working_rows(rows: Seq<SubagentPanelAgent>)
    ensures
        working_rows(rows) == rows.filter(works()).len(),
    decreases rows.len(),
{
    reveal(Seq::filter);
    if rows.len() > 0 {
        lemma_working_rows(rows.drop_last());
    }
}

proof fn lemma_work_count(registry: RegistryView, threads: Seq<Seq<char>>)
    requires
        forall|k: int|
            0 <= k < threads.len() ==> registry.agents[#[trigger] threads[k]].status@.is_running(),
    ensures
        threads.map_values(|t: Seq<char>| row_of(registry.agents[t])).filter(works()).len()
            == threads.filter(registry.at_work()).len(),
    decreases threads.len(),
{
    let row = |t: Seq<char>| row_of(registry.agents[t]);
    reveal(Seq::filter);
    if threads.len() > 0 {
        let rest = threads.drop_last();
        assert forall|k: int| 0 <= k < rest.len() implies registry.agents[
            #[trigger] rest[k]
        ].status@.is_running() by {
            assert(rest[k] == threads[k]);
        }
        lemma_work_count(registry, rest);
        assert(threads.map_values(row).drop_last() =~= rest.map_values(row));
        assert(threads.map_values(row).last() == row(threads.last()));
        assert(registry.agents[threads[threads.len() - 1]].status@.is_running());
        let info = registry.agents[threads.last()];
        assert(works()(row(threads.last())) == registry.at_work()(threads.last()));
    }
}

proof fn lemma_rows(registry: RegistryView) -> (threads: Seq<Seq<char>>)
    requires
        registry.wf(),
    ensures
        rows_of(registry, by_rank(registry.rows()), threads),
{
    let items = registry.rows();
    let rows = by_rank(items);
    let visible = registry.visible();
    let from = sorting_moves_each_item(items);
    let places = filtering_keeps_the_order(registry.order, registry.on_show());
    the_active_agents_are_visible(registry);
    let threads = Seq::new(from.len(), |k: int| visible[from[k]]);
    assert forall|i: int, j: int|
        0 <= i < threads.len() && 0 <= j < threads.len() && i != j implies threads[i]
        != threads[j] by {
        assert(from[i] != from[j]);
    }
    assert forall|t: Seq<char>| #[trigger]
        threads.contains(t) <==> registry.agents.contains_key(t) && goes_on(
            registry.agents[t].status,
        ) by {
        assert(visible.contains(t) <==> is_active(registry, t));
        if threads.contains(t) {
            let k = choose|k: int| 0 <= k < threads.len() && threads[k] == t;
            assert(visible[from[k]] == t);
        }
        if visible.contains(t) {
            let m = choose|m: int| 0 <= m < visible.len() && visible[m] == t;
            assert(from.contains(m));
            let k = choose|k: int| 0 <= k < from.len() && from[k] == m;
            assert(threads[k] == t);
        }
    }
    assert forall|k: int| 0 <= k < rows.len() implies row_shows(
        registry.agents[threads[k]],
        #[trigger] rows[k],
    ) by {
        assert(rows[k] == items[from[k]]);
    }
    assert forall|i: int, j: int| 0 <= i < j < rows.len() implies (#[trigger] rows[i]).ordinal < (
    #[trigger] rows[j]).ordinal || (rows[i].ordinal == rows[j].ordinal && stands_before(
        registry.order,
        threads[i],
        threads[j],
    )) by {
        assert(rows[i].precedes(rows[j]) || (!rows[j].precedes(rows[i]) && from[i] < from[j]));
        if !rows[i].precedes(rows[j]) {
            assert(places[from[i]] < places[from[j]]);
            assert(registry.order[places[from[i]]] == threads[i]);
            assert(registry.order[places[from[j]]] == threads[j]);
        }
    }
    threads
}

/// What is rebuilt of a registry is told by its agents.
pub proof fn lemma_panel_told(
    before: RegistryView,
    panel: Option<SubagentStatusCell>,
    after: RegistryView,
)
    requires
        before.wf(),
        crate::chat_widget::rebuilt(before, panel, after),
    ensures
        panel is Some <==> exists|t: Seq<char>| #[trigger]
            before.agents.contains_key(t) && goes_on(before.agents[t].status),
        panel is Some ==> panel_told(before, panel->0),
        after.agents == before.agents,
        after.order == before.order,
        after.motion_mode == before.motion_mode,
        after.mounted <==> panel is Some,
{
    the_active_agents_are_visible(before);
    if before.visible().len() > 0 {
        let t = before.visible()[0];
        assert(before.visible().contains(t));
        assert(is_active(before, t));
        assert(before.agents.contains_key(t));
    }
    if exists|t: Seq<char>| #[trigger]
        before.agents.contains_key(t) && goes_on(before.agents[t].status) {
        let t = choose|t: Seq<char>| #[trigger]
            before.agents.contains_key(t) && goes_on(before.agents[t].status);
        assert(is_active(before, t));
        assert(before.visible().contains(t));
    }
    if panel is Some {
        let cell = panel->0;
        let rows = cell.state.running_agents@;
        let items = before.rows();
        let threads = lemma_rows(before);
        let from = sorting_moves_each_item(items);
        assert(rows_of(before, rows, threads));
        sorting_keeps_counts(items, works());
        lemma_working_rows(rows);
        assert forall|k: int| 0 <= k < before.visible().len() implies before.agents[
            #[trigger] before.visible()[k]
        ].status@.is_running() by {
            assert(before.visible().contains(before.visible()[k]));
            assert(is_active(before, before.visible()[k]));
        }
        lemma_work_count(before, before.visible());
        let m = choose|m: int|
            0 <= m < before.visible().len() && before.agents[
                #[trigger] before.visible()[m]
            ].spawned_at == cell.state.started_at;
        assert(from.contains(m));
        let k = choose|k: int| 0 <= k < from.len() && from[k] == m;
        assert(rows[k] == items[m]);
        assert forall|k: int| 0 <= k < rows.len() implies cell.state.started_at.nanos <= (
        #[trigger] rows[k]).spawned_at.nanos by {
            assert(rows[k] == items[from[k]]);
            assert(before.agents[before.visible()[from[k]]].spawned_at == rows[k].spawned_at);
        }
    }
}

/// The panel is up while some agent is starting or at work, with one row for each of those. It counts its
/// rows, and as running those that are not of idle watchdogs, and dates from the oldest of them.
pub proof fn a_rebuilt_panel_pictures_the_agents(
    registry: &mut SubagentPanelRegistry,
    cell: Option<SubagentStatusCell>,
)
    requires
        old(registry)@.wf(),
        call_ensures(SubagentPanelRegistry::rebuild_panel, (registry,), cell),
    ensures
        cell is Some <==> exists|t: Seq<char>| #[trigger]
            old(registry)@.agents.contains_key(t) && goes_on(old(registry)@.agents[t].status),
        cell is Some ==> panel_told(old(registry)@, cell->0),
        final(registry)@.agents == old(registry)@.agents,
        final(registry)@.order == old(registry)@.order,
        final(registry)@.motion_mode == old(registry)@.motion_mode,
        final(registry)@.mounted <==> cell is Some,
{
    lemma_panel_told(old(registry)@, cell, final(registry)@);
}

/// Where every agent that is shown is at work, all of them count as running, watchdogs or not.
pub proof fn agents_at_work_all_count(rows: Seq<SubagentPanelAgent>)
    requires
        forall|k: int| 0 <= k < rows.len() ==> (#[trigger] rows[k]).status is Running,
    ensures
        working_rows(rows) == rows.len(),
    decreases rows.len(),
{
    if rows.len() > 0 {
        let rest = rows.drop_last();
        assert forall|k: int| 0 <= k < rest.len() implies (#[trigger] rest[k]).status is Running by {
            assert(rest[k] == rows[k]);
        }
        agents_at_work_all_count(rest);
        assert(rows[rows.len() - 1] == rows.last());
    }
}

/// Where no agent is merely starting, a rebuilt panel counts all of its rows as running, watchdogs or not.
pub proof fn a_panel_of_working_agents_counts_them_all(
    registry: &mut SubagentPanelRegistry,
    cell: SubagentStatusCell,
)
    requires
        old(registry)@.wf(),
        forall|t: Seq<char>| #[trigger]
            old(registry)@.agents.contains_key(t) ==> !(old(
                registry,
            )@.agents[t].status is PendingInit),
        call_ensures(SubagentPanelRegistry::rebuild_panel, (registry,), Some(cell)),
    ensures
        cell.state.running_count == cell.state.total_agents,
{
    let before = old(registry)@;
    let rows = cell.state.running_agents@;
    lemma_panel_told(before, Some(cell), final(registry)@);
    let threads = choose|threads: Seq<Seq<char>>| rows_of(before, rows, threads);
    assert forall|k: int| 0 <= k < rows.len() implies (#[trigger] rows[k]).status is Running by {
        assert(threads.contains(threads[k]));
    }
    agents_at_work_all_count(rows);
}

/// The paint of a foreground and modifiers.
pub open spec fn coat(fg: Option<Color>, bold: bool, dim: bool, italic: bool) -> Paint {
    Paint::Styled(Style { fg, bold, dim, italic })
}

/// Whether a span is `text` in `paint`.
pub open spec fn reads(span: SpanView, text: Seq<char>, paint: Paint) -> bool {
    span.text == text && span.paint == paint
}

/// Whether a span names the status of a row, in its colour.
pub open spec fn names_status(span: SpanView, status: PanelAgentStatus, is_watchdog: bool) -> bool {
    match status {
        PanelAgentStatus::PendingInit => if is_watchdog {
            reads(span, "idle"@, coat(None, false, true, false))
        } else {
            reads(span, "running"@, coat(Some(Color::Cyan), true, false, false))
        },
        PanelAgentStatus::Running => reads(
            span,
            "running"@,
            coat(Some(Color::Cyan), true, false, false),
        ),
        PanelAgentStatus::Interrupted => reads(
            span,
            "interrupted"@,
            coat(Some(Color::Magenta), false, false, false),
        ),
        PanelAgentStatus::Completed(_) => reads(
            span,
            "completed"@,
            coat(Some(Color::Green), false, false, false),
        ),
        PanelAgentStatus::Errored(_) => reads(
            span,
            "errored"@,
            coat(Some(Color::Red), false, false, false),
        ),
        PanelAgentStatus::Shutdown => reads(span, "shutdown"@, coat(None, false, true, false)),
        PanelAgentStatus::NotFound => reads(
            span,
            "not found"@,
            coat(Some(Color::Red), false, false, false),
        ),
    }
}

/// A row's label names its status. Only a watchdog that has been started and not put to work is idle.
pub proof fn a_row_names_its_status(agent: SubagentPanelAgent, label: Span)
    requires
        call_ensures(status_span, (&agent,), label),
    ensures
        names_status(label@, agent.status, agent.is_watchdog),
{
}

/// A row shimmers for the second after its agent was last heard of, while the agent is starting or at work
/// and is no idle watchdog.
pub proof fn rows_shimmer_for_a_second(agent: SubagentPanelAgent, now: Instant, yes: bool)
    requires
        call_ensures(should_shimmer, (&agent, now), yes),
    ensures
        yes <==> (agent.status is Running || (agent.status is PendingInit && !agent.is_watchdog))
            && now.nanos <= agent.latest_update_at.nanos + 1_000_000_000,
{
}

/// Something moves exactly while some row shimmers.
pub proof fn the_panel_moves_while_a_row_shimmers(state: SubagentPanelState, now: Instant, yes: bool)
    requires
        call_ensures(SubagentPanelState::has_animating_agents, (&state, now), yes),
    ensures
        yes <==> exists|k: int|
            0 <= k < state.running_agents@.len() && stirs(
                #[trigger] state.running_agents@[k],
                now,
            ),
{
    if yes {
        let k = choose|k: int|
            0 <= k < state.running_agents@.len() && shimmers(
                #[trigger] state.running_agents@[k],
                now,
            );
        assert(stirs(state.running_agents@[k], now));
    }
    if exists|k: int|
        0 <= k < state.running_agents@.len() && stirs(#[trigger] state.running_agents@[k], now) {
        let k = choose|k: int|
            0 <= k < state.running_agents@.len() && stirs(#[trigger] state.running_agents@[k], now);
        assert(shimmers(state.running_agents@[k], now));
    }
}

/// Whether the preview of a row shimmers.
pub open spec fn stirs(agent: SubagentPanelAgent, now: Instant) -> bool {
    &&& agent.status is Running || (agent.status is PendingInit && !agent.is_watchdog)
    &&& now.nanos <= agent.latest_update_at.nanos + 1_000_000_000
}

/// Whether `units` of `nanos` nanoseconds have passed from `earlier` to `now`, and not one more.
pub open spec fn passed(earlier: Instant, now: Instant, units: int, nanos: int) -> bool {
    if now.nanos < earlier.nanos {
        units == 0
    } else {
        earlier.nanos + units * nanos <= now.nanos < earlier.nanos + (units + 1) * nanos
    }
}

/// The whole units that have passed.
pub proof fn lemma_passed(earlier: Instant, now: Instant, nanos: nat)
    requires
        nanos > 0,
    ensures
        passed(earlier, now, (now.nanos_after(earlier) / nanos) as int, nanos as int),
{
    let d = now.nanos_after(earlier) as int;
    let n = nanos as int;
    vstd::arithmetic::div_mod::lemma_fundamental_div_mod(d, n);
    let q = d / n;
    assert(d == n * q + d % n);
    vstd::arithmetic::div_mod::lemma_mod_bound(d, n);
    assert(n * q == q * n) by (nonlinear_arith);
    assert((q + 1) * n == q * n + n) by (nonlinear_arith);
    if now.nanos < earlier.nanos {
        assert(0int / n == 0) by {
            vstd::arithmetic::div_mod::lemma_basic_div(0, n);
        }
    }
}

/// The animation ticks in tenths of a second since the panel started, while a row shimmers and motion is
/// not reduced.
pub proof fn the_animation_ticks_in_tenths(
    cell: SubagentStatusCell,
    now: Instant,
    tick: Option<u64>,
)
    requires
        call_ensures(SubagentStatusCell::transcript_animation_tick, (&cell, now), tick),
    ensures
        tick is Some <==> cell.motion_mode == MotionMode::Animated && exists|k: int|
            0 <= k < cell.state.running_agents@.len() && stirs(
                #[trigger] cell.state.running_agents@[k],
                now,
            ),
        tick is Some ==> passed(cell.state.started_at, now, tick->0 as int, 100_000_000),
{
    let rows = cell.state.running_agents@;
    lemma_passed(cell.state.started_at, now, 100_000_000);
    if cell.state.animates(now) {
        let k = choose|k: int| 0 <= k < rows.len() && shimmers(#[trigger] rows[k], now);
        assert(stirs(rows[k], now));
    }
    if exists|k: int| 0 <= k < rows.len() && stirs(#[trigger] rows[k], now) {
        let k = choose|k: int| 0 <= k < rows.len() && stirs(#[trigger] rows[k], now);
        assert(shimmers(rows[k], now));
    }
}

/// A row has room for what is left of the width beside thirty-two columns, but for forty units at least and
/// a hundred and sixty at most.
pub proof fn a_row_has_room_for_what_is_left(width: u16, budget: usize)
    requires
        call_ensures(running_preview_budget, (width,), budget),
    ensures
        width <= 72 ==> budget == 40,
        72 <= width <= 192 ==> budget + 32 == width,
        width >= 192 ==> budget == 160,
{
}

/// How many of a thing there are: one, or a number of them.
pub open spec fn counted(count: int, singular: Seq<char>) -> Seq<char> {
    (if count == 1 {
        "1"@
    } else {
        decimal(count)
    }) + " "@ + singular + if count == 1 {
        Seq::empty()
    } else {
        "s"@
    }
}

proof fn lemma_counted(count: int, singular: Seq<char>)
    ensures
        pluralized(count, singular) == counted(count, singular),
{
    if count == 1 {
        reveal_strlit("1");
        reveal_strlit(" ");
        reveal_strlit("1 ");
        assert("1 "@ =~= "1"@ + " "@);
        assert(pluralized(count, singular) =~= counted(count, singular));
    } else {
        assert(pluralized(count, singular) =~= counted(count, singular));
    }
}

/// One thing stands alone, and any other number of them takes the plural.
pub proof fn things_are_counted(count: i32, singular: &str, text: String)
    requires
        call_ensures(subagent_pluralize, (count, singular), text),
    ensures
        text@ == counted(count as int, singular@),
{
    lemma_counted(count as int, singular@);
}

/// How many agents there are, and how many of them run where that is not all.
pub open spec fn tally(total: int, running: int) -> Seq<char> {
    if total > 0 && running > 0 {
        counted(total, "subagent"@) + (if running < total {
            ", "@ + decimal(running)
        } else {
            Seq::empty()
        }) + " running"@
    } else {
        "no subagents running"@
    }
}

proof fn lemma_tally(total: int, running: int)
    ensures
        count_label(total, running) == tally(total, running),
{
    lemma_counted(total, "subagent"@);
    assert(count_label(total, running) =~= tally(total, running));
}

/// The label counts the agents, and tells how many of them run where that is not all.
pub proof fn the_label_counts_the_agents(total: i32, running: i32, label: String)
    requires
        call_ensures(subagent_count_label, (total, running), label),
    ensures
        label@ == tally(total as int, running as int),
{
    lemma_tally(total as int, running as int);
}

/// Whether the host's function may have written the whole seconds from `earlier` to `now` as `text`.
pub open spec fn dated<E: Fn(u64) -> String>(
    fmt_elapsed_compact: E,
    earlier: Instant,
    now: Instant,
    text: Seq<char>,
) -> bool {
    exists|handed: u64, given: String|
        passed(earlier, now, handed as int, 1_000_000_000) && given@ == text && #[trigger]
            call_ensures(fmt_elapsed_compact, (handed,), given)
}

/// Formatting the whole seconds since an instant dates it.
pub proof fn lemma_dated<E: Fn(u64) -> String>(
    fmt_elapsed_compact: E,
    earlier: Instant,
    now: Instant,
    text: Seq<char>,
)
    requires
        formats(fmt_elapsed_compact, now.nanos_after(earlier) / NANOS_PER_SEC as nat, text),
    ensures
        dated(fmt_elapsed_compact, earlier, now, text),
{
    let secs = now.nanos_after(earlier) / NANOS_PER_SEC as nat;
    lemma_passed(earlier, now, NANOS_PER_SEC as nat);
    let (handed, given) = choose|handed: u64, given: String|
        handed == secs && given@ == text && #[trigger] call_ensures(
            fmt_elapsed_compact,
            (handed,),
            given,
        );
    assert(call_ensures(fmt_elapsed_compact, (handed,), given));
}

/// Whether `line` is the header of a panel: how long it has been up, and what it counts.
pub open spec fn header_told<E: Fn(u64) -> String>(
    fmt_elapsed_compact: E,
    state: SubagentPanelState,
    now: Instant,
    line: Seq<SpanView>,
) -> bool {
    let most = if state.running_count > state.total_agents {
        state.running_count
    } else {
        state.total_agents
    };
    &&& line.len() == 4
    &&& reads(line[0], "• "@, coat(None, false, true, false))
    &&& reads(line[1], "Subagents"@, coat(None, true, false, false))
    &&& reads(line[2], " "@, coat(None, false, false, false))
    &&& line[3].paint == coat(None, false, true, false)
    &&& exists|elapsed: Seq<char>| #[trigger]
        dated(fmt_elapsed_compact, state.started_at, now, elapsed) && line[3].text == "("@ + elapsed
            + " • "@ + tally(most as int, state.running_count as int) + " • esc to interrupt)"@
}

/// Whether the host's function may have made `short` of the core of a preview, within the room of a row.
pub open spec fn shortened_row<T: Fn(&str, usize) -> String>(
    truncate_text: T,
    width: u16,
    preview: Seq<char>,
    short: Seq<char>,
) -> bool {
    exists|handed: &str, budget: usize, given: String|
        cores(preview, handed@) && given@ == short && (width <= 72 ==> budget == 40) && (72 <= width
            <= 192 ==> budget + 32 == width) && (width >= 192 ==> budget == 160) && #[trigger]
            call_ensures(truncate_text, (handed, budget), given)
}

/// Whether `line` is the row of `agent`: its number, the mark of a watchdog, its name, its status, its age,
/// and the preview of what it did last, which shimmers for a second.
pub open spec fn row_told<T: Fn(&str, usize) -> String, E: Fn(u64) -> String>(
    truncate_text: T,
    fmt_elapsed_compact: E,
    agent: SubagentPanelAgent,
    width: u16,
    motion_mode: MotionMode,
    now: Instant,
    line: Seq<SpanView>,
) -> bool {
    let n: int = if agent.is_watchdog { 3 } else { 2 };
    &&& line.len() == n + 6
    &&& reads(line[0], "  • "@, coat(None, false, true, false))
    &&& reads(
        line[1],
        "[#"@ + decimal(agent.ordinal as int) + "] "@,
        coat(None, false, true, false),
    )
    &&& agent.is_watchdog ==> reads(
        line[2],
        "[watchdog] "@,
        coat(Some(Color::Magenta), false, true, false),
    )
    &&& reads(line[n], agent.name@, coat(None, false, false, false))
    &&& reads(line[n + 1], " "@, coat(None, false, false, false))
    &&& names_status(line[n + 2], agent.status, agent.is_watchdog)
    &&& line[n + 3].paint == coat(None, false, true, false)
    &&& exists|elapsed: Seq<char>| #[trigger]
        dated(fmt_elapsed_compact, agent.spawned_at, now, elapsed) && line[n + 3].text == " · "@
            + elapsed
    &&& reads(line[n + 4], " — "@, coat(None, false, true, false))
    &&& shortened_row(truncate_text, width, agent.preview@, line[n + 5].text)
    &&& line[n + 5].paint == if stirs(agent, now) {
        Paint::Shimmer(motion_mode)
    } else {
        coat(None, false, true, false)
    }
}

proof fn lemma_header_told<E: Fn(u64) -> String>(
    fmt_elapsed_compact: E,
    state: SubagentPanelState,
    now: Instant,
    line: Seq<SpanView>,
)
    requires
        shows_header(fmt_elapsed_compact, state, now, line),
    ensures
        header_told(fmt_elapsed_compact, state, now, line),
{
    let elapsed = choose|elapsed: Seq<char>|
        line == header_line(state, elapsed) && #[trigger] formats(
            fmt_elapsed_compact,
            now.nanos_after(state.started_at) / NANOS_PER_SEC as nat,
            elapsed,
        );
    lemma_dated(fmt_elapsed_compact, state.started_at, now, elapsed);
    let most = if state.running_count > state.total_agents {
        state.running_count
    } else {
        state.total_agents
    };
    lemma_tally(most as int, state.running_count as int);
}

proof fn lemma_row_told<T: Fn(&str, usize) -> String, E: Fn(u64) -> String>(
    truncate_text: T,
    fmt_elapsed_compact: E,
    agent: SubagentPanelAgent,
    width: u16,
    motion_mode: MotionMode,
    now: Instant,
    line: Seq<SpanView>,
)
    requires
        shows_row(truncate_text, fmt_elapsed_compact, agent, width, motion_mode, now, line),
    ensures
        row_told(truncate_text, fmt_elapsed_compact, agent, width, motion_mode, now, line),
{
    let budget = preview_budget(width as int) as usize;
    let (elapsed, preview) = choose|elapsed: Seq<char>, preview: Seq<char>|
        line == row_line(agent, elapsed, preview, shimmers(agent, now), motion_mode)
            && #[trigger] formats(
            fmt_elapsed_compact,
            now.nanos_after(agent.spawned_at) / NANOS_PER_SEC as nat,
            elapsed,
        ) && #[trigger] crate::agent::shortens(
            truncate_text,
            trimmed(agent.preview@),
            budget,
            preview,
        );
    lemma_dated(fmt_elapsed_compact, agent.spawned_at, now, elapsed);
    let (i, j) = lemma_blank_inside(agent.preview@);
    assert(is_core(agent.preview@, trimmed(agent.preview@), i, j));
    let (handed, given) = choose|handed: &str, given: String|
        handed@ == trimmed(agent.preview@) && given@ == preview && #[trigger] call_ensures(
            truncate_text,
            (handed, budget),
            given,
        );
    assert(call_ensures(truncate_text, (handed, budget), given));
    assert(shortened_row(truncate_text, width, agent.preview@, preview));
    let n: int = if agent.is_watchdog { 3 } else { 2 };
    assert(line[n + 5].text == preview);
    assert(line[n + 3].text == " · "@ + elapsed);
}

/// Whether `from` puts the rows in the order of their numbers, and rows of equal numbers as they came.
pub open spec fn by_number(rows: Seq<SubagentPanelAgent>, from: Seq<int>) -> bool {
    &&& from.len() == rows.len()
    &&& from.no_duplicates()
    &&& forall|k: int| 0 <= k < from.len() ==> 0 <= #[trigger] from[k] < rows.len()
    &&& forall|i: int, j: int|
        0 <= i < j < from.len() ==> rows[#[trigger] from[i]].ordinal < rows[
            #[trigger] from[j]
        ].ordinal || (rows[from[i]].ordinal == rows[from[j]].ordinal && from[i] < from[j])
}

/// What the lines of a panel are, told by its rows.
pub open spec fn lines_told<T: Fn(&str, usize) -> String, E: Fn(u64) -> String>(
    truncate_text: T,
    fmt_elapsed_compact: E,
    cell: SubagentStatusCell,
    width: u16,
    now: Instant,
    lines: Seq<Line>,
) -> bool {
    let rows = cell.state.running_agents@;
    &&& rows.len() == 0 ==> lines.len() == 0
    &&& rows.len() > 0 ==> {
        &&& lines.len() == rows.len() + 1
        &&& header_told(fmt_elapsed_compact, cell.state, now, lines[0]@)
        &&& exists|from: Seq<int>| #[trigger]
            by_number(rows, from) && forall|k: int|
                0 <= k < rows.len() ==> row_told(
                    truncate_text,
                    fmt_elapsed_compact,
                    rows[#[trigger] from[k]],
                    width,
                    cell.motion_mode,
                    now,
                    lines[k + 1]@,
                )
    }
}

proof fn lemma_lines_told<T: Fn(&str, usize) -> String, E: Fn(u64) -> String>(
    truncate_text: T,
    fmt_elapsed_compact: E,
    cell: SubagentStatusCell,
    width: u16,
    now: Instant,
    lines: Seq<Line>,
)
    requires
        crate::panel::shows_panel(
            truncate_text,
            fmt_elapsed_compact,
            cell,
            width,
            now,
            line_views(lines),
        ),
    ensures
        lines_told(truncate_text, fmt_elapsed_compact, cell, width, now, lines),
{
    let rows = cell.state.running_agents@;
    let views = line_views(lines);
    if rows.len() > 0 {
        let sorted = by_rank(rows);
        let from = sorting_moves_each_item(rows);
        assert(views[0] == lines[0]@);
        lemma_header_told(fmt_elapsed_compact, cell.state, now, lines[0]@);
        assert forall|i: int, j: int| 0 <= i < j < from.len() implies rows[
            #[trigger] from[i]
        ].ordinal < rows[#[trigger] from[j]].ordinal || (rows[from[i]].ordinal
            == rows[from[j]].ordinal && from[i] < from[j]) by {
            assert(sorted[i].precedes(sorted[j]) || (!sorted[j].precedes(sorted[i]) && from[i]
                < from[j]));
            assert(sorted[i] == rows[from[i]] && sorted[j] == rows[from[j]]);
        }
        assert(by_number(rows, from));
        assert forall|k: int| 0 <= k < rows.len() implies row_told(
            truncate_text,
            fmt_elapsed_compact,
            rows[#[trigger] from[k]],
            width,
            cell.motion_mode,
            now,
            lines[k + 1]@,
        ) by {
            assert(sorted[k] == rows[from[k]]);
            assert(views[k + 1] == lines[k + 1]@);
            lemma_row_told(
                truncate_text,
                fmt_elapsed_compact,
                sorted[k],
                width,
                cell.motion_mode,
                now,
                lines[k + 1]@,
            );
        }
    }
}

/// The panel shows a header and a line for each of its rows, by number.
pub proof fn the_panel_shows_its_rows<T: Fn(&str, usize) -> String, E: Fn(u64) -> String>(
    cell: SubagentStatusCell,
    width: u16,
    now: Instant,
    truncate_text: T,
    fmt_elapsed_compact: E,
    lines: Vec<Line>,
)
    requires
        call_ensures(
            SubagentStatusCell::display_lines::<T, E>,
            (&cell, width, now, &truncate_text, &fmt_elapsed_compact),
            lines,
        ),
    ensures
        lines_told(truncate_text, fmt_elapsed_compact, cell, width, now, lines@),
{
    lemma_lines_told(truncate_text, fmt_elapsed_compact, cell, width, now, lines@);
}

/// The raw lines are those on the widest terminal there is.
pub proof fn the_raw_lines_are_the_widest<T: Fn(&str, usize) -> String, E: Fn(u64) -> String>(
    cell: SubagentStatusCell,
    now: Instant,
    truncate_text: T,
    fmt_elapsed_compact: E,
    lines: Vec<Line>,
)
    requires
        call_ensures(
            SubagentStatusCell::raw_lines::<T, E>,
            (&cell, now, &truncate_text, &fmt_elapsed_compact),
            lines,
        ),
    ensures
        lines_told(truncate_text, fmt_elapsed_compact, cell, 65535, now, lines@),
{
    lemma_lines_told(truncate_text, fmt_elapsed_compact, cell, 65535, now, lines@);
}

/// What is scrolled away is what does not fit, as far as sixteen bits can tell it.
pub proof fn what_does_not_fit_is_scrolled_away(line_count: usize, height: u16, rows: u16)
    requires
        call_ensures(scroll_offset, (line_count, height), rows),
    ensures
        height == 0 || line_count <= height ==> rows == 0,
        height > 0 && height < line_count <= height + 65535 ==> rows + height == line_count,
        height > 0 && line_count > height + 65535 ==> rows == 65535,
{
}

/// The panel is scrolled by what does not fit of its wrapped lines.
pub proof fn the_panel_is_scrolled_to_its_end(
    lines: Vec<Vec<String>>,
    width: u16,
    height: u16,
    rows: u16,
)
    requires
        call_ensures(panel_scroll, (&lines, width, height), rows),
    ensures
        height == 0 || wrapped_line_count(lines.deep_view(), width) <= height ==> rows == 0,
        height > 0 && height < wrapped_line_count(lines.deep_view(), width) <= height + 65535
            ==> rows + height == wrapped_line_count(lines.deep_view(), width),
        height > 0 && wrapped_line_count(lines.deep_view(), width) > height + 65535 ==> rows
            == 65535,
{
}

} // verus!
